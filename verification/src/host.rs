//! The wire contract between the guest and its controlling host.
//!
//! Nothing structured crosses the memory boundary: a capability call hands the
//! host a few integers, the bytes of its request parameters, and a guest-owned
//! destination buffer, and the host answers with a single signed size. The
//! [`Host`] trait states that contract once, so that every capability client
//! and the retrieval protocol can be verified against it.
//!
//! A `Host` value models one host as seen by one module instance: a fixed
//! answer table (what the host would reply to each retrieval query) plus the
//! growing logs of what the guest has sent it. Holding the answer table fixed
//! for the life of the value is the stability that the retrieval protocol's
//! capacity renegotiation already relies on — the host reports a result's
//! size, and the retried call with a larger buffer must find that same result.
//! Whether a cache write later changes what a cache read would return is host
//! policy that the wire contract leaves open, so this model does not fold
//! writes back into the answer table.

use vstd::prelude::*;

verus! {

/// A retrieval query, spec-level: which host entry point is asked, and with
/// which request parameters.
pub enum QueryV {
    /// An outbound HTTP request: method wire code, encoded URL (headers
    /// multiplexed in), and request body.
    Http { method: int, url: Seq<u8>, body: Seq<u8> },
    /// A key/value cache read.
    CacheGet { key: Seq<u8> },
    /// A request-field lookup: field category wire code and key.
    Field { category: int, key: Seq<u8> },
}

/// A retrieval query as the guest builds it.
#[derive(PartialEq, Eq, Debug)]
pub enum Query {
    Http { method: i32, url: Vec<u8>, body: Vec<u8> },
    CacheGet { key: Vec<u8> },
    Field { category: i32, key: Vec<u8> },
}

impl View for Query {
    type V = QueryV;

    open spec fn view(&self) -> QueryV {
        match self {
            Query::Http { method, url, body } => QueryV::Http {
                method: *method as int,
                url: url@,
                body: body@,
            },
            Query::CacheGet { key } => QueryV::CacheGet { key: key@ },
            Query::Field { category, key } => QueryV::Field {
                category: *category as int,
                key: key@,
            },
        }
    }
}

/// One capability call as the host saw it: the query, the capacity of the
/// destination buffer that was offered, and the correlation identifier.
pub struct CallV {
    pub query: QueryV,
    pub capacity: int,
    pub ident: int,
}

/// One delivered invocation result.
pub struct DeliveryV {
    pub data: Seq<u8>,
    pub ident: int,
}

/// One log message as sent on the wire.
pub struct LogV {
    pub message: Seq<u8>,
    pub level: int,
    pub ident: int,
}

/// One fire-and-forget cache write.
pub struct CacheWriteV {
    pub key: Seq<u8>,
    pub value: Seq<u8>,
    pub ttl: int,
    pub ident: int,
}

/// The invocation context created by the dispatcher for one invocation and
/// threaded into every capability call, so the host can route each call to
/// the correct in-flight request.
pub struct InvocationContext {
    /// The host-assigned correlation identifier of the current invocation.
    pub ident: i32,
}

/// Two host values that would answer every retrieval query alike.
pub open spec fn same_answers<H: Host>(a: H, b: H) -> bool {
    forall|q: QueryV| a.answer(q) == b.answer(q)
}

/// The host's side of the boundary.
///
/// The exec methods are the host entry points the guest calls; their
/// contracts state the documented wire behaviour and nothing more. Negative
/// reported sizes are failure or absence; a reported size above the offered
/// capacity asks the guest to retry with at least that capacity; otherwise
/// the destination buffer's first `reported` bytes are the result.
pub trait Host: Sized {
    /// What the host would answer to a retrieval query: `None` when it would
    /// report failure or absence, `Some(bytes)` when a result exists. The
    /// default is a model-less host that answers nothing; a realisation
    /// overrides it together with `inv`.
    open spec fn answer(&self, q: QueryV) -> Option<Seq<u8>> {
        None
    }

    /// Every capability call received so far, oldest first.
    open spec fn calls(&self) -> Seq<CallV> {
        Seq::empty()
    }

    /// Every invocation result delivered so far, oldest first.
    open spec fn delivered(&self) -> Seq<DeliveryV> {
        Seq::empty()
    }

    /// Every log message received so far, oldest first.
    open spec fn logged(&self) -> Seq<LogV> {
        Seq::empty()
    }

    /// Every cache write received so far, oldest first.
    open spec fn cache_writes(&self) -> Seq<CacheWriteV> {
        Seq::empty()
    }

    /// Well-formedness of the host value. It must bound every answer to the
    /// sizes a wire call can report, which the contracts below presume; the
    /// default admits no value at all.
    open spec fn inv(&self) -> bool {
        false
    }

    /// One retrieval call: the host writes up to `dest.len()` bytes into the
    /// destination buffer and reports the result's true size, negative on
    /// failure or absence.
    fn capability_call(&mut self, q: &Query, dest: &mut Vec<u8>, ident: i32) -> (reported: i32)
        requires
            old(self).inv(),
        ensures
            final(self).inv(),
            forall|q2: QueryV| final(self).answer(q2) == old(self).answer(q2),
            final(self).delivered() == old(self).delivered(),
            final(self).logged() == old(self).logged(),
            final(self).cache_writes() == old(self).cache_writes(),
            final(self).calls() == old(self).calls().push(
                CallV { query: q@, capacity: old(dest)@.len() as int, ident: ident as int },
            ),
            final(dest)@.len() == old(dest)@.len(),
            match old(self).answer(q@) {
                Option::None => reported < 0,
                Option::Some(v) => {
                    &&& reported >= 0
                    &&& reported as int == v.len() as int
                    &&& (v.len() <= old(dest)@.len() ==> final(dest)@.subrange(
                        0,
                        reported as int,
                    ) == v)
                },
            },
    ;

    /// Deliver one invocation's result to the host.
    fn deliver_result(&mut self, data: &Vec<u8>, ident: i32)
        requires
            old(self).inv(),
        ensures
            final(self).inv(),
            forall|q2: QueryV| final(self).answer(q2) == old(self).answer(q2),
            final(self).calls() == old(self).calls(),
            final(self).logged() == old(self).logged(),
            final(self).cache_writes() == old(self).cache_writes(),
            final(self).delivered() == old(self).delivered().push(
                DeliveryV { data: data@, ident: ident as int },
            ),
    ;

    /// Send one log message. Fire and forget: nothing is reported back.
    fn log_msg(&mut self, message: &Vec<u8>, level: i32, ident: i32)
        requires
            old(self).inv(),
        ensures
            final(self).inv(),
            forall|q2: QueryV| final(self).answer(q2) == old(self).answer(q2),
            final(self).calls() == old(self).calls(),
            final(self).delivered() == old(self).delivered(),
            final(self).cache_writes() == old(self).cache_writes(),
            final(self).logged() == old(self).logged().push(
                LogV { message: message@, level: level as int, ident: ident as int },
            ),
    ;

    /// Store one cache entry. The returned status code is not otherwise
    /// specified, and the cache client discards it.
    fn cache_set(&mut self, key: &Vec<u8>, value: &Vec<u8>, ttl: i32, ident: i32) -> (status: i32)
        requires
            old(self).inv(),
        ensures
            final(self).inv(),
            forall|q2: QueryV| final(self).answer(q2) == old(self).answer(q2),
            final(self).calls() == old(self).calls(),
            final(self).delivered() == old(self).delivered(),
            final(self).logged() == old(self).logged(),
            final(self).cache_writes() == old(self).cache_writes().push(
                CacheWriteV {
                    key: key@,
                    value: value@,
                    ttl: ttl as int,
                    ident: ident as int,
                },
            ),
    ;
}

} // verus!
