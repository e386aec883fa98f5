//! The growable-buffer retrieval protocol.
//!
//! A retrieval pulls a variable-length result across the boundary into a
//! guest-allocated destination buffer: allocate a buffer of a guessed
//! capacity, issue the host call, and act on the reported size. Negative is
//! absence or failure; above the capacity means the buffer was too small, so
//! reallocate to the reported size and retry; otherwise copy exactly that
//! many bytes out. Every capability client that reads data reuses this one
//! algorithm.
//!
//! The renegotiation loop is bounded here by the wire contract itself: the
//! host answers each query with one fixed result, so a retried call, offered
//! a buffer of exactly the reported size, must fit. The loop therefore makes
//! at most two calls, which the contract of [`retrieve`] pins down exactly.
//!
//! Destination buffers are owned vectors and are reclaimed when dropped: a
//! deliberate change from leaving each retrieval's buffer unreclaimed for the
//! instance's lifetime. Untracked boundary regions exist only at the outer
//! layer, for the regions the host itself writes into.

use vstd::prelude::*;

use crate::host::{CallV, Host, InvocationContext, Query, QueryV};

verus! {

/// The calls one retrieval appends to the host's log: one call at the initial
/// capacity when the answer is absent or already fits, otherwise exactly one
/// more at the reported size.
pub open spec fn retrieval_calls(
    pre: Seq<CallV>,
    post: Seq<CallV>,
    q: QueryV,
    ans: Option<Seq<u8>>,
    cap0: int,
    ident: int,
) -> bool {
    match ans {
        Option::None => post == pre.push(CallV { query: q, capacity: cap0, ident }),
        Option::Some(v) => if v.len() <= cap0 {
            post == pre.push(CallV { query: q, capacity: cap0, ident })
        } else {
            post == pre.push(CallV { query: q, capacity: cap0, ident }).push(
                CallV { query: q, capacity: v.len() as int, ident },
            )
        },
    }
}

/// A fresh destination buffer of the given capacity, zero-filled so the whole
/// region is initialised before the host writes into it.
pub fn new_destination(capacity: usize) -> (dest: Vec<u8>)
    ensures
        dest@.len() == capacity,
{
    vec![0u8; capacity]
}

/// The owned copy of the first `count` bytes of a destination buffer.
pub fn copy_prefix(src: &Vec<u8>, count: usize) -> (r: Vec<u8>)
    requires
        count <= src@.len(),
    ensures
        r@ == src@.subrange(0, count as int),
{
    let mut out: Vec<u8> = Vec::new();
    let mut i: usize = 0;
    while i < count
        invariant
            i <= count,
            count <= src@.len(),
            out@ == src@.subrange(0, i as int),
        decreases count - i,
    {
        out.push(src[i]);
        proof {
            assert(out@ =~= src@.subrange(0, i + 1 as int));
        }
        i = i + 1;
    }
    out
}

/// Retrieve the host's answer to one query, renegotiating the destination
/// buffer's capacity when the host reports that the guess was too small.
///
/// `Ok(bytes)` is the host's result, exactly; `Err(code)` carries the
/// negative size the host reported, and comes exactly when the host has no
/// result for the query.
pub fn retrieve<H: Host>(
    host: &mut H,
    query: &Query,
    initial_capacity: usize,
    ctx: &InvocationContext,
) -> (r: Result<Vec<u8>, i32>)
    requires
        old(host).inv(),
        1 <= initial_capacity <= 0x7fff_ffff,
    ensures
        final(host).inv(),
        crate::host::same_answers(*old(host), *final(host)),
        final(host).delivered() == old(host).delivered(),
        final(host).logged() == old(host).logged(),
        final(host).cache_writes() == old(host).cache_writes(),
        retrieval_calls(
            old(host).calls(),
            final(host).calls(),
            query@,
            old(host).answer(query@),
            initial_capacity as int,
            ctx.ident as int,
        ),
        match r {
            Result::Ok(v) => old(host).answer(query@) == Some(v@),
            Result::Err(code) => code < 0 && old(host).answer(query@) is None,
        },
{
    let ghost h0 = *host;
    let mut capacity: usize = initial_capacity;
    let mut dest: Vec<u8> = new_destination(capacity);
    let mut retried: bool = false;
    loop
        invariant
            h0 == *old(host),
            host.inv(),
            crate::host::same_answers(h0, *host),
            host.delivered() == h0.delivered(),
            host.logged() == h0.logged(),
            host.cache_writes() == h0.cache_writes(),
            1 <= initial_capacity <= 0x7fff_ffff,
            1 <= capacity <= 0x7fff_ffff,
            dest@.len() == capacity,
            host.answer(query@) == h0.answer(query@),
            if !retried {
                capacity == initial_capacity && host.calls() == h0.calls()
            } else {
                &&& h0.answer(query@) matches Some(v) && v.len() > initial_capacity
                    && capacity == v.len()
                &&& host.calls() == h0.calls().push(
                    CallV {
                        query: query@,
                        capacity: initial_capacity as int,
                        ident: ctx.ident as int,
                    },
                )
            },
        decreases (if retried { 0int } else { 1int }),
    {
        let reported = host.capability_call(query, &mut dest, ctx.ident);
        if reported < 0 {
            return Err(reported);
        }
        let size = reported as usize;
        if size > capacity {
            capacity = size;
            dest = new_destination(capacity);
            retried = true;
        } else {
            let out = copy_prefix(&dest, size);
            return Ok(out);
        }
    }
}

} // verus!
