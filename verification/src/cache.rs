//! The key/value cache client.
//!
//! Writes are fire and forget: the host's status code is not surfaced to the
//! caller. Reads go through the retrieval protocol; a missing key and a
//! host-side error are not distinguished — both surface as absence, never as
//! an error payload.

use vstd::prelude::*;
use vstd::utf8::encode_utf8;

use crate::host::{CacheWriteV, Host, InvocationContext, Query, QueryV};
use crate::protocol::{retrieval_calls, retrieve};
use crate::util::str_to_vec;

verus! {

/// Initial destination-buffer guess for cache values, which tend to be small.
pub const CACHE_INITIAL_CAPACITY: usize = 1024;

/// The query a cache read for this key puts on the wire.
pub open spec fn cache_query(key: Seq<char>) -> QueryV {
    QueryV::CacheGet { key: encode_utf8(key) }
}

/// Store a value under a key with a time-to-live. Fire and forget: no
/// confirmation of success or failure comes back.
pub fn set<H: Host>(host: &mut H, ctx: &InvocationContext, key: &str, val: Vec<u8>, ttl: i32)
    requires
        old(host).inv(),
    ensures
        final(host).inv(),
        crate::host::same_answers(*old(host), *final(host)),
        final(host).calls() == old(host).calls(),
        final(host).delivered() == old(host).delivered(),
        final(host).logged() == old(host).logged(),
        final(host).cache_writes() == old(host).cache_writes().push(
            CacheWriteV {
                key: encode_utf8(key@),
                value: val@,
                ttl: ttl as int,
                ident: ctx.ident as int,
            },
        ),
{
    let key_bytes = str_to_vec(key);
    host.cache_set(&key_bytes, &val, ttl, ctx.ident);
}

/// Read the value stored under a key, through the retrieval protocol.
/// Absence — whether the key is missing or the host reported an error — is
/// `None`, never an error payload.
pub fn get<H: Host>(host: &mut H, ctx: &InvocationContext, key: &str) -> (r: Option<Vec<u8>>)
    requires
        old(host).inv(),
    ensures
        final(host).inv(),
        crate::host::same_answers(*old(host), *final(host)),
        final(host).delivered() == old(host).delivered(),
        final(host).logged() == old(host).logged(),
        final(host).cache_writes() == old(host).cache_writes(),
        retrieval_calls(
            old(host).calls(),
            final(host).calls(),
            cache_query(key@),
            old(host).answer(cache_query(key@)),
            CACHE_INITIAL_CAPACITY as int,
            ctx.ident as int,
        ),
        match r {
            Option::Some(v) => old(host).answer(cache_query(key@)) == Some(v@),
            Option::None => old(host).answer(cache_query(key@)) is None,
        },
{
    let key_bytes = str_to_vec(key);
    let query = Query::CacheGet { key: key_bytes };
    match retrieve(host, &query, CACHE_INITIAL_CAPACITY, ctx) {
        Ok(v) => Some(v),
        Err(_) => None,
    }
}

} // verus!
