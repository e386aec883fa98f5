//! The request-field client.
//!
//! One host entry point serves every lookup about the request being handled;
//! a field category wire code picks the namespace (request metadata, body
//! fields, headers, URL parameters, server-injected state) and a key picks
//! the field. All typed accessors except the raw body decode the result as
//! UTF-8 text; a value that fails to decode is unrecoverable and surfaces as
//! `None`, while a field the host does not have reads as the empty string,
//! as the wire's absence signal promises no more.

use vstd::prelude::*;
use vstd::utf8::{decode_utf8, encode_utf8, valid_utf8};

use crate::host::{Host, InvocationContext, Query, QueryV};
use crate::protocol::{retrieval_calls, retrieve};
use crate::util::{str_to_vec, utf8_to_string};

verus! {

/// Field category wire code for request metadata (well-known keys: `method`,
/// `url`, `id`, `body`).
pub const FIELD_TYPE_META: i32 = 0;

/// Field category wire code for a field of the request body.
pub const FIELD_TYPE_BODY: i32 = 1;

/// Field category wire code for a request header.
pub const FIELD_TYPE_HEADER: i32 = 2;

/// Field category wire code for a URL parameter.
pub const FIELD_TYPE_PARAMS: i32 = 3;

/// Field category wire code for server-injected state.
pub const FIELD_TYPE_STATE: i32 = 4;

/// Initial destination-buffer guess for field values, which tend to be small.
pub const FIELD_INITIAL_CAPACITY: usize = 1024;

/// The query a field lookup puts on the wire.
pub open spec fn field_query(category: int, key: Seq<char>) -> QueryV {
    QueryV::Field { category, key: encode_utf8(key) }
}

/// How a typed accessor reads an optional field value as text: an absent
/// field is the empty string, a present value is its UTF-8 decoding, and a
/// value that is not UTF-8 has no reading.
pub open spec fn text_field(ans: Option<Seq<u8>>, r: Option<String>) -> bool {
    match ans {
        Option::None => r matches Some(s) && s@ == Seq::<char>::empty(),
        Option::Some(b) => match r {
            Option::Some(s) => valid_utf8(b) && s@ == decode_utf8(b),
            Option::None => !valid_utf8(b),
        },
    }
}

/// Look one field up through the retrieval protocol. Absence — whether the
/// field is missing or the host reported an error — is `None`.
pub fn get_field<H: Host>(
    host: &mut H,
    ctx: &InvocationContext,
    field_type: i32,
    key: &str,
) -> (r: Option<Vec<u8>>)
    requires
        old(host).inv(),
    ensures
        final(host).inv(),
        crate::host::same_answers(*old(host), *final(host)),
        final(host).delivered() == old(host).delivered(),
        final(host).logged() == old(host).logged(),
        final(host).cache_writes() == old(host).cache_writes(),
        retrieval_calls(
            old(host).calls(),
            final(host).calls(),
            field_query(field_type as int, key@),
            old(host).answer(field_query(field_type as int, key@)),
            FIELD_INITIAL_CAPACITY as int,
            ctx.ident as int,
        ),
        match r {
            Option::Some(v) => old(host).answer(field_query(field_type as int, key@)) == Some(
                v@,
            ),
            Option::None => old(host).answer(field_query(field_type as int, key@)) is None,
        },
{
    let key_bytes = str_to_vec(key);
    let query = Query::Field { category: field_type, key: key_bytes };
    match retrieve(host, &query, FIELD_INITIAL_CAPACITY, ctx) {
        Ok(v) => Some(v),
        Err(_) => None,
    }
}

/// Look a field up and read it as text, as every typed accessor does.
fn field_text<H: Host>(host: &mut H, ctx: &InvocationContext, field_type: i32, key: &str) -> (r:
    Option<String>)
    requires
        old(host).inv(),
    ensures
        final(host).inv(),
        crate::host::same_answers(*old(host), *final(host)),
        final(host).delivered() == old(host).delivered(),
        final(host).logged() == old(host).logged(),
        final(host).cache_writes() == old(host).cache_writes(),
        text_field(old(host).answer(field_query(field_type as int, key@)), r),
{
    match get_field(host, ctx, field_type, key) {
        Some(bytes) => utf8_to_string(&bytes),
        None => Some(String::new()),
    }
}

/// The request's HTTP method, from the metadata namespace.
pub fn method<H: Host>(host: &mut H, ctx: &InvocationContext) -> (r: Option<String>)
    requires
        old(host).inv(),
    ensures
        final(host).inv(),
        crate::host::same_answers(*old(host), *final(host)),
        final(host).delivered() == old(host).delivered(),
        final(host).logged() == old(host).logged(),
        final(host).cache_writes() == old(host).cache_writes(),
        text_field(old(host).answer(field_query(FIELD_TYPE_META as int, "method"@)), r),
{
    field_text(host, ctx, FIELD_TYPE_META, "method")
}

/// The request's URL, from the metadata namespace.
pub fn url<H: Host>(host: &mut H, ctx: &InvocationContext) -> (r: Option<String>)
    requires
        old(host).inv(),
    ensures
        final(host).inv(),
        crate::host::same_answers(*old(host), *final(host)),
        final(host).delivered() == old(host).delivered(),
        final(host).logged() == old(host).logged(),
        final(host).cache_writes() == old(host).cache_writes(),
        text_field(old(host).answer(field_query(FIELD_TYPE_META as int, "url"@)), r),
{
    field_text(host, ctx, FIELD_TYPE_META, "url")
}

/// The request's identifier, from the metadata namespace.
pub fn id<H: Host>(host: &mut H, ctx: &InvocationContext) -> (r: Option<String>)
    requires
        old(host).inv(),
    ensures
        final(host).inv(),
        crate::host::same_answers(*old(host), *final(host)),
        final(host).delivered() == old(host).delivered(),
        final(host).logged() == old(host).logged(),
        final(host).cache_writes() == old(host).cache_writes(),
        text_field(old(host).answer(field_query(FIELD_TYPE_META as int, "id"@)), r),
{
    field_text(host, ctx, FIELD_TYPE_META, "id")
}

/// The raw request body. An absent body reads as no bytes.
pub fn body_raw<H: Host>(host: &mut H, ctx: &InvocationContext) -> (r: Vec<u8>)
    requires
        old(host).inv(),
    ensures
        final(host).inv(),
        crate::host::same_answers(*old(host), *final(host)),
        final(host).delivered() == old(host).delivered(),
        final(host).logged() == old(host).logged(),
        final(host).cache_writes() == old(host).cache_writes(),
        match old(host).answer(field_query(FIELD_TYPE_META as int, "body"@)) {
            Option::Some(v) => r@ == v,
            Option::None => r@ == Seq::<u8>::empty(),
        },
{
    match get_field(host, ctx, FIELD_TYPE_META, "body") {
        Some(bytes) => bytes,
        None => Vec::new(),
    }
}

/// One field of the request body, as text.
pub fn body_field<H: Host>(host: &mut H, ctx: &InvocationContext, key: &str) -> (r: Option<
    String,
>)
    requires
        old(host).inv(),
    ensures
        final(host).inv(),
        crate::host::same_answers(*old(host), *final(host)),
        final(host).delivered() == old(host).delivered(),
        final(host).logged() == old(host).logged(),
        final(host).cache_writes() == old(host).cache_writes(),
        text_field(old(host).answer(field_query(FIELD_TYPE_BODY as int, key@)), r),
{
    field_text(host, ctx, FIELD_TYPE_BODY, key)
}

/// One request header, as text.
pub fn header<H: Host>(host: &mut H, ctx: &InvocationContext, key: &str) -> (r: Option<String>)
    requires
        old(host).inv(),
    ensures
        final(host).inv(),
        crate::host::same_answers(*old(host), *final(host)),
        final(host).delivered() == old(host).delivered(),
        final(host).logged() == old(host).logged(),
        final(host).cache_writes() == old(host).cache_writes(),
        text_field(old(host).answer(field_query(FIELD_TYPE_HEADER as int, key@)), r),
{
    field_text(host, ctx, FIELD_TYPE_HEADER, key)
}

/// One URL parameter, as text.
pub fn url_param<H: Host>(host: &mut H, ctx: &InvocationContext, key: &str) -> (r: Option<
    String,
>)
    requires
        old(host).inv(),
    ensures
        final(host).inv(),
        crate::host::same_answers(*old(host), *final(host)),
        final(host).delivered() == old(host).delivered(),
        final(host).logged() == old(host).logged(),
        final(host).cache_writes() == old(host).cache_writes(),
        text_field(old(host).answer(field_query(FIELD_TYPE_PARAMS as int, key@)), r),
{
    field_text(host, ctx, FIELD_TYPE_PARAMS, key)
}

/// One entry of the server-injected state, as text.
pub fn state<H: Host>(host: &mut H, ctx: &InvocationContext, key: &str) -> (r: Option<String>)
    requires
        old(host).inv(),
    ensures
        final(host).inv(),
        crate::host::same_answers(*old(host), *final(host)),
        final(host).delivered() == old(host).delivered(),
        final(host).logged() == old(host).logged(),
        final(host).cache_writes() == old(host).cache_writes(),
        text_field(old(host).answer(field_query(FIELD_TYPE_STATE as int, key@)), r),
{
    field_text(host, ctx, FIELD_TYPE_STATE, key)
}

} // verus!
