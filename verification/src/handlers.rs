//! Example handlers: the module-side logic that the dispatcher drives.
//!
//! Each handler realises [`Runnable`] for one small task — greeting, fetching
//! a URL named by the input, logging the request's fields, reading a cache
//! entry — and shows how a handler questions the host through the capability
//! clients. Where the input or a host-supplied value fails to decode as
//! UTF-8, a handler yields no output (the dispatcher then delivers the
//! fallback payload) rather than aborting the whole module.

use vstd::prelude::*;
use vstd::utf8::{decode_utf8, decode_utf8_encode_utf8, encode_utf8, valid_utf8};

use crate::cache::cache_query;
use crate::host::{Host, InvocationContext, QueryV};
use crate::http::{failure_message, METHOD_GET};
use crate::req::field_query;
use crate::runnable::Runnable;
use crate::util::{push_bytes, str_to_vec, to_string, to_vec, utf8_to_string};

verus! {

/// Greet the caller: the stand-alone variant of the greeting handler, run
/// directly on the input bytes. The two index arguments are part of the
/// calling convention and unused.
#[allow(unused_variables)]
pub fn run(input: Vec<u8>, env_index: i32, inst_index: i32) -> (r: Option<Vec<u8>>)
    requires
        valid_utf8(input@),
    ensures
        r matches Some(v) && v@ == encode_utf8("hello "@) + input@,
{
    let ghost input0 = input@;
    let s = to_string(input);
    let mut out = str_to_vec("hello ");
    let sb = to_vec(s);
    push_bytes(&mut out, &sb);
    proof {
        decode_utf8_encode_utf8(input0);
    }
    Some(out)
}

/// A handler that reads its input as a URL and fetches it with GET, no
/// headers: the output is whatever the fetch returned, body or inline
/// failure payload.
pub struct Fetch {}

impl<H: Host> Runnable<H> for Fetch {
    open spec fn output_ok(&self, host: H, input: Seq<u8>, out: Option<Seq<u8>>) -> bool {
        if valid_utf8(input) {
            match host.answer(
                QueryV::Http { method: METHOD_GET as int, url: input, body: Seq::empty() },
            ) {
                Option::Some(v) => out == Some(v),
                Option::None => exists|code: int| code < 0 && out == Some(failure_message(code)),
            }
        } else {
            out is None
        }
    }

    fn run(&self, host: &mut H, ctx: &InvocationContext, input: Vec<u8>) -> (out: Option<
        Vec<u8>,
    >) {
        let ghost input0 = input@;
        let url = match utf8_to_string(&input) {
            Some(s) => s,
            None => {
                return None;
            },
        };
        let result = crate::http::get(host, ctx, url.as_str(), None);
        proof {
            decode_utf8_encode_utf8(input0);
        }
        Some(result)
    }
}

/// A value the wire can read as text: absent, or present and valid UTF-8.
pub open spec fn text_readable(ans: Option<Seq<u8>>) -> bool {
    ans matches Some(b) ==> valid_utf8(b)
}

/// The text a readable value carries; an absent value reads as empty.
pub open spec fn text_value(ans: Option<Seq<u8>>) -> Seq<char> {
    match ans {
        Option::None => Seq::empty(),
        Option::Some(b) => decode_utf8(b),
    }
}

/// A handler that logs its input and a handful of request fields, and greets
/// the server-injected state entry `hello`.
pub struct Log {}

/// The request fields the logging handler reads, all of which must be
/// readable as text for it to produce output.
pub open spec fn log_fields_readable<H: Host>(host: H) -> bool {
    &&& text_readable(host.answer(field_query(0, "method"@)))
    &&& text_readable(host.answer(field_query(1, "username"@)))
    &&& text_readable(host.answer(field_query(0, "url"@)))
    &&& text_readable(host.answer(field_query(0, "id"@)))
    &&& text_readable(host.answer(field_query(4, "hello"@)))
}

impl<H: Host> Runnable<H> for Log {
    open spec fn output_ok(&self, host: H, input: Seq<u8>, out: Option<Seq<u8>>) -> bool {
        if valid_utf8(input) && log_fields_readable(host) {
            out == Some(
                encode_utf8("hello "@) + encode_utf8(
                    text_value(host.answer(field_query(4, "hello"@))),
                ),
            )
        } else {
            out is None
        }
    }

    fn run(&self, host: &mut H, ctx: &InvocationContext, input: Vec<u8>) -> (out: Option<
        Vec<u8>,
    >) {
        let in_string = match utf8_to_string(&input) {
            Some(s) => s,
            None => {
                return None;
            },
        };
        crate::logging::info(host, ctx, in_string.as_str());
        let m = match crate::req::method(host, ctx) {
            Some(s) => s,
            None => {
                return None;
            },
        };
        crate::logging::info(host, ctx, m.as_str());
        let username = match crate::req::body_field(host, ctx, "username") {
            Some(s) => s,
            None => {
                return None;
            },
        };
        crate::logging::info(host, ctx, username.as_str());
        let u = match crate::req::url(host, ctx) {
            Some(s) => s,
            None => {
                return None;
            },
        };
        crate::logging::info(host, ctx, u.as_str());
        let id_value = match crate::req::id(host, ctx) {
            Some(s) => s,
            None => {
                return None;
            },
        };
        crate::logging::info(host, ctx, id_value.as_str());
        let greeting = match crate::req::state(host, ctx, "hello") {
            Some(s) => s,
            None => {
                return None;
            },
        };
        crate::logging::info(host, ctx, greeting.as_str());
        let repeated = match crate::req::state(host, ctx, "hello") {
            Some(s) => s,
            None => {
                return None;
            },
        };
        let mut out = str_to_vec("hello ");
        let gb = to_vec(repeated);
        push_bytes(&mut out, &gb);
        Some(out)
    }
}

/// A handler that answers with the cache entry `important`, and yields no
/// output when the host does not have it.
pub struct RustGet {}

impl<H: Host> Runnable<H> for RustGet {
    open spec fn output_ok(&self, host: H, input: Seq<u8>, out: Option<Seq<u8>>) -> bool {
        out == host.answer(cache_query("important"@))
    }

    fn run(&self, host: &mut H, ctx: &InvocationContext, input: Vec<u8>) -> (out: Option<
        Vec<u8>,
    >) {
        crate::cache::get(host, ctx, "important")
    }
}

} // verus!
