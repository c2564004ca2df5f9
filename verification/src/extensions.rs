//! The per-request extension context: a key/value side channel carried by a
//! request, populated by layers and read by the terminal handlers.
//!
//! Keys are capability tags; the well-known tag `RESOURCE_KEY` marks the
//! injected backend resource handle. An insert overwrites any earlier entry
//! under the same key, so the outermost layer to run wins, and after an
//! insert the context holds exactly one entry for that key.

use vstd::prelude::*;

verus! {

/// The capability tag under which the injection layer stores the reference
/// to the shared backend resource.
pub const RESOURCE_KEY: u64 = 1;

/// Number of entries in `s` whose key is `k`.
pub open spec fn count_key(s: Seq<(u64, u64)>, k: u64) -> nat
    decreases s.len(),
{
    if s.len() == 0 {
        0
    } else {
        count_key(s.drop_last(), k) + (if s.last().0 == k {
            1nat
        } else {
            0nat
        })
    }
}

/// The value of the most recently written entry under key `k`, if any.
pub open spec fn lookup(s: Seq<(u64, u64)>, k: u64) -> Option<u64>
    decreases s.len(),
{
    if s.len() == 0 {
        None
    } else if s.last().0 == k {
        Some(s.last().1)
    } else {
        lookup(s.drop_last(), k)
    }
}

/// `s` with every entry under key `k` removed, order otherwise kept.
pub open spec fn strip_key(s: Seq<(u64, u64)>, k: u64) -> Seq<(u64, u64)>
    decreases s.len(),
{
    if s.len() == 0 {
        Seq::empty()
    } else if s.last().0 == k {
        strip_key(s.drop_last(), k)
    } else {
        strip_key(s.drop_last(), k).push(s.last())
    }
}

/// After stripping key `k`, no entry under `k` remains.
pub proof fn lemma_strip_count(s: Seq<(u64, u64)>, k: u64)
    ensures
        count_key(strip_key(s, k), k) == 0,
    decreases s.len(),
{
    if s.len() > 0 {
        lemma_strip_count(s.drop_last(), k);
        if s.last().0 != k {
            assert(strip_key(s, k).drop_last() =~= strip_key(s.drop_last(), k));
        }
    }
}

/// Stripping key `k` leaves every other key's entries untouched.
pub proof fn lemma_strip_other(s: Seq<(u64, u64)>, k: u64, k2: u64)
    requires
        k2 != k,
    ensures
        lookup(strip_key(s, k), k2) == lookup(s, k2),
        count_key(strip_key(s, k), k2) == count_key(s, k2),
    decreases s.len(),
{
    if s.len() > 0 {
        lemma_strip_other(s.drop_last(), k, k2);
        if s.last().0 != k {
            assert(strip_key(s, k).drop_last() =~= strip_key(s.drop_last(), k));
            assert(strip_key(s, k).last() == s.last());
        }
    }
}

/// A per-request, type-keyed context. Entries never leak across requests:
/// each request carries its own value of this type.
pub struct Extensions {
    entries: Vec<(u64, u64)>,
}

impl Extensions {
    /// The value stored under key `k`, if any.
    pub closed spec fn spec_get(self, k: u64) -> Option<u64> {
        lookup(self.entries@, k)
    }

    /// How many entries the context physically holds under key `k`.
    pub closed spec fn key_count(self, k: u64) -> nat {
        count_key(self.entries@, k)
    }

    /// The context as a mapping from capability tag to stored value.
    pub open spec fn as_map(self) -> Map<u64, u64> {
        Map::new(|k: u64| self.spec_get(k) is Some, |k: u64| self.spec_get(k)->Some_0)
    }

    /// A fresh, empty context, created when a request enters the pipeline.
    pub fn new() -> (r: Extensions)
        ensures
            forall|k: u64| r.spec_get(k) is None,
            forall|k: u64| r.key_count(k) == 0,
            r.as_map() =~= Map::<u64, u64>::empty(),
    {
        let r = Extensions { entries: Vec::new() };
        proof {
            assert(forall|k: u64| r.spec_get(k) is None);
        }
        r
    }

    /// Stores `v` under key `k`, overwriting any earlier entry under `k`:
    /// afterwards exactly one entry for `k` is present and every other key
    /// is untouched.
    pub fn insert(&mut self, k: u64, v: u64)
        ensures
            final(self).spec_get(k) == Some(v),
            final(self).key_count(k) == 1,
            forall|k2: u64|
                k2 != k ==> final(self).spec_get(k2) == old(self).spec_get(k2)
                    && final(self).key_count(k2) == old(self).key_count(k2),
            final(self).as_map() == old(self).as_map().insert(k, v),
    {
        let ghost pre = self.entries@;
        let mut out: Vec<(u64, u64)> = Vec::new();
        let mut i: usize = 0;
        while i < self.entries.len()
            invariant
                i <= self.entries.len(),
                self.entries@ == pre,
                out@ == strip_key(pre.take(i as int), k),
            decreases self.entries.len() - i,
        {
            let e = self.entries[i];
            proof {
                assert(pre.take(i + 1).drop_last() =~= pre.take(i as int));
                assert(pre.take(i + 1).last() == pre[i as int]);
            }
            if e.0 != k {
                out.push(e);
            }
            i += 1;
        }
        proof {
            assert(pre.take(pre.len() as int) =~= pre);
        }
        out.push((k, v));
        self.entries = out;
        proof {
            lemma_strip_count(pre, k);
            assert(self.entries@.drop_last() =~= strip_key(pre, k));
            assert forall|k2: u64| k2 != k implies self.spec_get(k2) == lookup(pre, k2)
                && self.key_count(k2) == count_key(pre, k2) by {
                lemma_strip_other(pre, k, k2);
            }
            assert(self.as_map() =~= old(self).as_map().insert(k, v));
        }
    }

    /// Reads the value stored under key `k`.
    pub fn get(&self, k: u64) -> (r: Option<u64>)
        ensures
            r == self.spec_get(k),
    {
        let mut i: usize = self.entries.len();
        proof {
            assert(self.entries@.take(i as int) =~= self.entries@);
        }
        while i > 0
            invariant
                i <= self.entries.len(),
                lookup(self.entries@, k) == lookup(self.entries@.take(i as int), k),
            decreases i,
        {
            i -= 1;
            let e = self.entries[i];
            proof {
                assert(self.entries@.take(i + 1).drop_last() =~= self.entries@.take(i as int));
                assert(self.entries@.take(i + 1).last() == self.entries@[i as int]);
            }
            if e.0 == k {
                return Some(e.1);
            }
        }
        None
    }
}

} // verus!
