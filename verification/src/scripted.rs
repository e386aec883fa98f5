//! A scripted host: an in-crate, fully verified realisation of the wire
//! contract.
//!
//! A `ScriptedHost` answers retrieval queries from a fixed table (first
//! matching entry wins) and records everything the guest sends it. It is what
//! the crate's tests drive the capability clients and the dispatcher against;
//! a deployment replaces it with a host reached over the real boundary.

use vstd::prelude::*;

use crate::host::{CacheWriteV, CallV, DeliveryV, Host, LogV, Query, QueryV};

verus! {

/// Compare two byte buffers.
pub fn bytes_eq(a: &Vec<u8>, b: &Vec<u8>) -> (r: bool)
    ensures
        r == (a@ == b@),
{
    if a.len() != b.len() {
        return false;
    }
    let mut i: usize = 0;
    while i < a.len()
        invariant
            i <= a@.len(),
            a@.len() == b@.len(),
            forall|j: int| 0 <= j < i ==> a@[j] == b@[j],
        decreases a@.len() - i,
    {
        if a[i] != b[i] {
            return false;
        }
        i = i + 1;
    }
    proof {
        assert(a@ =~= b@);
    }
    true
}

/// An owned copy of a byte buffer.
pub fn clone_bytes(v: &Vec<u8>) -> (r: Vec<u8>)
    ensures
        r@ == v@,
{
    let r = crate::protocol::copy_prefix(v, v.len());
    proof {
        assert(v@.subrange(0, v@.len() as int) =~= v@);
    }
    r
}

/// An owned copy of a query.
fn clone_query(q: &Query) -> (r: Query)
    ensures
        r@ == q@,
{
    match q {
        Query::Http { method, url, body } => Query::Http {
            method: *method,
            url: clone_bytes(url),
            body: clone_bytes(body),
        },
        Query::CacheGet { key } => Query::CacheGet { key: clone_bytes(key) },
        Query::Field { category, key } => Query::Field {
            category: *category,
            key: clone_bytes(key),
        },
    }
}

/// Whether two queries are the same on the wire.
pub fn query_eq(a: &Query, b: &Query) -> (r: bool)
    ensures
        r == (a@ == b@),
{
    match (a, b) {
        (
            Query::Http { method: m1, url: u1, body: b1 },
            Query::Http { method: m2, url: u2, body: b2 },
        ) => *m1 == *m2 && bytes_eq(u1, u2) && bytes_eq(b1, b2),
        (Query::CacheGet { key: k1 }, Query::CacheGet { key: k2 }) => bytes_eq(k1, k2),
        (
            Query::Field { category: c1, key: k1 },
            Query::Field { category: c2, key: k2 },
        ) => *c1 == *c2 && bytes_eq(k1, k2),
        _ => false,
    }
}

/// A host whose answers are scripted in advance and whose inbox is open for
/// inspection. The answer table is searched front to back; the first entry
/// whose query matches wins.
pub struct ScriptedHost {
    /// The answer table.
    pub entries: Vec<(Query, Vec<u8>)>,
    /// Every capability call received: query, offered capacity, correlation
    /// identifier.
    pub call_log: Vec<(Query, usize, i32)>,
    /// Every delivered result: payload and correlation identifier.
    pub delivered_log: Vec<(Vec<u8>, i32)>,
    /// Every log message: message, severity code, correlation identifier.
    pub logged_log: Vec<(Vec<u8>, i32, i32)>,
    /// Every cache write: key, value, time-to-live, correlation identifier.
    pub write_log: Vec<(Vec<u8>, Vec<u8>, i32, i32)>,
}

impl ScriptedHost {
    /// The first matching entry's value.
    pub open spec fn lookup(entries: Seq<(Query, Vec<u8>)>, q: QueryV) -> Option<Seq<u8>>
        decreases entries.len(),
    {
        if entries.len() == 0 {
            None
        } else if entries[0].0@ == q {
            Some(entries[0].1@)
        } else {
            Self::lookup(entries.drop_first(), q)
        }
    }

    /// When no entry matches, the lookup is empty.
    proof fn lemma_lookup_none(entries: Seq<(Query, Vec<u8>)>, q: QueryV)
        requires
            forall|j: int| 0 <= j < entries.len() ==> entries[j].0@ != q,
        ensures
            Self::lookup(entries, q) is None,
        decreases entries.len(),
    {
        if entries.len() > 0 {
            assert(entries[0].0@ != q);
            assert(forall|j: int|
                0 <= j < entries.drop_first().len() ==> entries.drop_first()[j].0@
                    == entries[j + 1].0@);
            Self::lemma_lookup_none(entries.drop_first(), q);
        }
    }

    /// The first matching entry is the lookup's result.
    proof fn lemma_lookup_at(entries: Seq<(Query, Vec<u8>)>, q: QueryV, i: int)
        requires
            0 <= i < entries.len(),
            entries[i].0@ == q,
            forall|j: int| 0 <= j < i ==> entries[j].0@ != q,
        ensures
            Self::lookup(entries, q) == Some(entries[i].1@),
        decreases entries.len(),
    {
        if i == 0 {
        } else {
            assert(entries[0].0@ != q);
            assert(forall|j: int|
                0 <= j < entries.drop_first().len() ==> entries.drop_first()[j]
                    == entries[j + 1]);
            Self::lemma_lookup_at(entries.drop_first(), q, i - 1);
        }
    }

    /// Appending an entry only fills queries the table did not answer yet.
    proof fn lemma_lookup_push(entries: Seq<(Query, Vec<u8>)>, e: (Query, Vec<u8>), q: QueryV)
        ensures
            Self::lookup(entries.push(e), q) == (if Self::lookup(entries, q) is Some {
                Self::lookup(entries, q)
            } else if e.0@ == q {
                Some(e.1@)
            } else {
                None
            }),
        decreases entries.len(),
    {
        if entries.len() == 0 {
            assert(entries.push(e)[0] == e);
            assert(entries.push(e).drop_first() =~= Seq::<(Query, Vec<u8>)>::empty());
            assert(Self::lookup(Seq::<(Query, Vec<u8>)>::empty(), q) is None);
        } else {
            assert(entries.push(e)[0] == entries[0]);
            assert(entries.push(e).drop_first() =~= entries.drop_first().push(e));
            Self::lemma_lookup_push(entries.drop_first(), e, q);
        }
    }

    /// A fresh host with an empty script and empty logs.
    pub fn new() -> (r: ScriptedHost)
        ensures
            r.inv(),
            forall|q: QueryV| r.answer(q) is None,
            r.calls() == Seq::<CallV>::empty(),
            r.delivered() == Seq::<DeliveryV>::empty(),
            r.logged() == Seq::<LogV>::empty(),
            r.cache_writes() == Seq::<CacheWriteV>::empty(),
    {
        let r = ScriptedHost {
            entries: Vec::new(),
            call_log: Vec::new(),
            delivered_log: Vec::new(),
            logged_log: Vec::new(),
            write_log: Vec::new(),
        };
        proof {
            assert forall|q: QueryV| r.answer(q) is None by {
                Self::lemma_lookup_none(r.entries@, q);
            }
            assert(r.calls() =~= Seq::<CallV>::empty());
            assert(r.delivered() =~= Seq::<DeliveryV>::empty());
            assert(r.logged() =~= Seq::<LogV>::empty());
            assert(r.cache_writes() =~= Seq::<CacheWriteV>::empty());
        }
        r
    }

    /// Script one more answer. It takes effect only for queries the table
    /// does not answer yet, since the first match wins.
    pub fn add_answer(&mut self, q: Query, value: Vec<u8>)
        requires
            old(self).inv(),
            value@.len() <= 0x7fff_ffff,
        ensures
            final(self).inv(),
            final(self).calls() == old(self).calls(),
            final(self).delivered() == old(self).delivered(),
            final(self).logged() == old(self).logged(),
            final(self).cache_writes() == old(self).cache_writes(),
            forall|q2: QueryV| final(self).answer(q2) == (if old(self).answer(q2) is Some {
                old(self).answer(q2)
            } else if q2 == q@ {
                Some(value@)
            } else {
                None
            }),
    {
        let ghost entries0 = self.entries@;
        let ghost e = (q, value);
        self.entries.push((q, value));
        proof {
            assert forall|q2: QueryV|
                final(self).answer(q2) == (if Self::lookup(entries0, q2) is Some {
                    Self::lookup(entries0, q2)
                } else if e.0@ == q2 {
                    Some(e.1@)
                } else {
                    None
                }) by {
                Self::lemma_lookup_push(entries0, e, q2);
            }
        }
    }

    /// Find the first entry matching a query.
    fn find_entry(&self, q: &Query) -> (r: Option<usize>)
        ensures
            match r {
                Option::Some(i) => 0 <= i < self.entries@.len() && self.entries@[
                    i as int
                ].0@ == q@ && forall|j: int| 0 <= j < i ==> self.entries@[j].0@ != q@,
                Option::None => forall|j: int|
                    0 <= j < self.entries@.len() ==> self.entries@[j].0@ != q@,
            },
    {
        let mut i: usize = 0;
        while i < self.entries.len()
            invariant
                i <= self.entries@.len(),
                forall|j: int| 0 <= j < i ==> self.entries@[j].0@ != q@,
            decreases self.entries@.len() - i,
        {
            if query_eq(&self.entries[i].0, q) {
                return Some(i);
            }
            i = i + 1;
        }
        None
    }
}

impl Host for ScriptedHost {
    open spec fn answer(&self, q: QueryV) -> Option<Seq<u8>> {
        ScriptedHost::lookup(self.entries@, q)
    }

    open spec fn calls(&self) -> Seq<CallV> {
        self.call_log@.map_values(
            |c: (Query, usize, i32)|
                CallV { query: c.0@, capacity: c.1 as int, ident: c.2 as int },
        )
    }

    open spec fn delivered(&self) -> Seq<DeliveryV> {
        self.delivered_log@.map_values(
            |d: (Vec<u8>, i32)| DeliveryV { data: d.0@, ident: d.1 as int },
        )
    }

    open spec fn logged(&self) -> Seq<LogV> {
        self.logged_log@.map_values(
            |l: (Vec<u8>, i32, i32)|
                LogV { message: l.0@, level: l.1 as int, ident: l.2 as int },
        )
    }

    open spec fn cache_writes(&self) -> Seq<CacheWriteV> {
        self.write_log@.map_values(
            |w: (Vec<u8>, Vec<u8>, i32, i32)|
                CacheWriteV { key: w.0@, value: w.1@, ttl: w.2 as int, ident: w.3 as int },
        )
    }

    open spec fn inv(&self) -> bool {
        forall|i: int| 0 <= i < self.entries@.len() ==> self.entries@[i].1@.len() <= 0x7fff_ffff
    }

    fn capability_call(&mut self, q: &Query, dest: &mut Vec<u8>, ident: i32) -> (reported: i32) {
        let capacity = dest.len();
        let recorded = clone_query(q);
        let ghost calls0 = self.calls();
        self.call_log.push((recorded, capacity, ident));
        proof {
            assert(self.calls() =~= calls0.push(
                CallV { query: q@, capacity: capacity as int, ident: ident as int },
            ));
        }
        match self.find_entry(q) {
            None => {
                proof {
                    Self::lemma_lookup_none(self.entries@, q@);
                }
                -1
            },
            Some(i) => {
                proof {
                    Self::lemma_lookup_at(self.entries@, q@, i as int);
                }
                let value = &self.entries[i].1;
                let n = value.len();
                if n <= capacity {
                    let mut filled = clone_bytes(value);
                    while filled.len() < capacity
                        invariant
                            n <= filled@.len() <= capacity,
                            filled@.subrange(0, n as int) == self.entries@[i as int].1@,
                        decreases capacity - filled@.len(),
                    {
                        let ghost before = filled@;
                        filled.push(0u8);
                        proof {
                            assert(filled@.subrange(0, n as int) =~= before.subrange(
                                0,
                                n as int,
                            ));
                        }
                    }
                    *dest = filled;
                }
                n as i32
            },
        }
    }

    fn deliver_result(&mut self, data: &Vec<u8>, ident: i32) {
        let ghost delivered0 = self.delivered();
        self.delivered_log.push((clone_bytes(data), ident));
        proof {
            assert(self.delivered() =~= delivered0.push(
                DeliveryV { data: data@, ident: ident as int },
            ));
        }
    }

    fn log_msg(&mut self, message: &Vec<u8>, level: i32, ident: i32) {
        let ghost logged0 = self.logged();
        self.logged_log.push((clone_bytes(message), level, ident));
        proof {
            assert(self.logged() =~= logged0.push(
                LogV { message: message@, level: level as int, ident: ident as int },
            ));
        }
    }

    fn cache_set(&mut self, key: &Vec<u8>, value: &Vec<u8>, ttl: i32, ident: i32) -> (status:
        i32) {
        let ghost writes0 = self.cache_writes();
        self.write_log.push((clone_bytes(key), clone_bytes(value), ttl, ident));
        proof {
            assert(self.cache_writes() =~= writes0.push(
                CacheWriteV { key: key@, value: value@, ttl: ttl as int, ident: ident as int },
            ));
        }
        0
    }
}

} // verus!
