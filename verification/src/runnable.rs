//! The handler interface and the invocation dispatcher.
//!
//! A module exposes exactly one capability to its host: run some input bytes
//! and perhaps produce output bytes. The host drives it through the
//! dispatcher, which threads the invocation's correlation identifier into
//! every capability call the handler makes and delivers exactly one result —
//! substituting a fixed fallback payload when the handler yields none, since
//! the host must always receive a result.

use vstd::prelude::*;
use vstd::utf8::encode_utf8;

use crate::host::{Host, InvocationContext, QueryV};
use crate::util::str_to_vec;

verus! {

/// The fixed payload delivered in place of a handler's missing output.
pub open spec fn fallback_message() -> Seq<u8> {
    encode_utf8("run returned no data"@)
}

/// The bytes the dispatcher delivers for a handler outcome: its output, or
/// the fallback payload when it produced none.
pub open spec fn fallback_or(out: Option<Seq<u8>>) -> Seq<u8> {
    match out {
        Option::Some(v) => v,
        Option::None => fallback_message(),
    }
}

/// An optional output buffer, as the sequence of bytes it may hold.
pub open spec fn output_view(out: Option<Vec<u8>>) -> Option<Seq<u8>> {
    match out {
        Option::Some(v) => Some(v@),
        Option::None => None,
    }
}

/// The one capability a module implements for its host.
///
/// A handler turns the invocation's input bytes into an optional output,
/// questioning the host along the way; the spec predicate `output_ok` states
/// which outcomes it may yield. The predicate is a relation, not a function,
/// because a transport failure's inline payload carries a host-chosen code.
/// A handler may call the capability clients freely, but it must leave result
/// delivery to the dispatcher: the delivery log is required to come back
/// unchanged.
pub trait Runnable<H: Host> {
    /// The outcomes the handler may yield, given the host it questions and
    /// the invocation's input.
    spec fn output_ok(&self, host: H, input: Seq<u8>, out: Option<Seq<u8>>) -> bool;

    /// Handle one invocation's input.
    fn run(&self, host: &mut H, ctx: &InvocationContext, input: Vec<u8>) -> (out: Option<
        Vec<u8>,
    >)
        requires
            old(host).inv(),
        ensures
            final(host).inv(),
            forall|q: QueryV| final(host).answer(q) == old(host).answer(q),
            final(host).delivered() == old(host).delivered(),
            self.output_ok(*old(host), input@, output_view(out)),
    ;
}

/// The handler that holds the registry down until a real one is set: it
/// yields no output for any input.
pub struct DefaultRunnable {}

impl<H: Host> Runnable<H> for DefaultRunnable {
    open spec fn output_ok(&self, host: H, input: Seq<u8>, out: Option<Seq<u8>>) -> bool {
        out is None
    }

    fn run(&self, host: &mut H, ctx: &InvocationContext, input: Vec<u8>) -> (out: Option<
        Vec<u8>,
    >) {
        None
    }
}

/// A handler that admits no output admits only the fallback payload as the
/// delivered bytes; in particular the default handler always causes the
/// literal fallback text to be delivered.
pub proof fn lemma_no_output_delivers_fallback<H: Host>(
    handler: DefaultRunnable,
    host: H,
    input: Seq<u8>,
    out: Option<Seq<u8>>,
)
    requires
        <DefaultRunnable as Runnable<H>>::output_ok(&handler, host, input, out),
    ensures
        fallback_or(out) == fallback_message(),
{
}

/// Dispatch one invocation: hand the input bytes to the active handler under
/// a context carrying the host-issued correlation identifier, and deliver the
/// result — the handler's output, or the fallback payload when there is none
/// — back to the host, exactly once: one delivery is appended and none is
/// dropped.
pub fn handle_invocation<H: Host, R: Runnable<H>>(
    host: &mut H,
    handler: &R,
    input: Vec<u8>,
    ident: i32,
)
    requires
        old(host).inv(),
    ensures
        final(host).inv(),
        crate::host::same_answers(*old(host), *final(host)),
        final(host).delivered().len() == old(host).delivered().len() + 1,
        final(host).delivered().drop_last() == old(host).delivered(),
        final(host).delivered().last().ident == ident as int,
        exists|out: Option<Seq<u8>>|
            handler.output_ok(*old(host), input@, out) && final(host).delivered().last().data
                == fallback_or(out),
{
    let ctx = InvocationContext { ident };
    let ghost input0 = input@;
    let out = handler.run(host, &ctx, input);
    let ghost out_v = output_view(out);
    let result: Vec<u8> = match out {
        Some(v) => v,
        None => str_to_vec("run returned no data"),
    };
    proof {
        assert(result@ == fallback_or(out_v));
    }
    let ghost delivered_mid = host.delivered();
    host.deliver_result(&result, ident);
    proof {
        assert(host.delivered().drop_last() =~= delivered_mid);
        assert(handler.output_ok(*old(host), input0, out_v) && host.delivered().last().data
            == fallback_or(out_v));
    }
}

} // verus!
