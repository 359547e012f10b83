use vstd::prelude::*;
use crate::bytes::bytes_eq;
use crate::tx::{Transaction, TxHash};

verus! {

/// Whether `hash` is recorded in `entries` with the flag set.
pub open spec fn entries_accept(entries: Seq<(Seq<u8>, bool)>, hash: Seq<u8>) -> bool {
    exists|i: int| 0 <= i < entries.len() && (#[trigger] entries[i]).0 == hash && entries[i].1
}

/// Accepts transactions whose hash has been recorded as seen with the flag
/// set. Each hash is recorded at most once.
pub struct CacheFilter {
    seen: Vec<(TxHash, bool)>,
}

impl CacheFilter {
    #[verifier::type_invariant]
    spec fn hashes_distinct(self) -> bool {
        forall|i: int, j: int|
            0 <= i < j < self.seen@.len() ==> (#[trigger] self.seen@[i]).0@
                != (#[trigger] self.seen@[j]).0@
    }

    /// The recorded hashes with their flags.
    pub closed spec fn entries(&self) -> Seq<(Seq<u8>, bool)> {
        self.seen@.map_values(|e: (TxHash, bool)| (e.0@, e.1))
    }

    /// A filter with nothing recorded.
    pub fn new() -> (r: Self)
        ensures
            r.entries() == Seq::<(Seq<u8>, bool)>::empty(),
    {
        let r = Self { seen: Vec::new() };
        assert(r.entries() =~= Seq::<(Seq<u8>, bool)>::empty());
        r
    }

    pub open spec fn matches(&self, o: &Transaction) -> bool {
        entries_accept(self.entries(), o.hash@)
    }

    pub fn apply(&self, o: &Transaction) -> (r: bool)
        ensures
            r == self.matches(o),
    {
        proof {
            use_type_invariant(self);
        }
        let n = self.seen.len();
        let mut i: usize = 0;
        while i < n
            invariant
                n == self.seen@.len(),
                i <= n,
                forall|j: int| 0 <= j < i ==> (#[trigger] self.seen@[j]).0@ != o.hash@,
                forall|a: int, b: int|
                    0 <= a < b < self.seen@.len() ==> (#[trigger] self.seen@[a]).0@
                        != (#[trigger] self.seen@[b]).0@,
            decreases n - i,
        {
            let entry = &self.seen[i];
            if bytes_eq(entry.0.as_slice(), o.hash.as_slice()) {
                proof {
                    assert(self.entries()[i as int] == (self.seen@[i as int].0@, self.seen@[i as int].1));
                    if !entry.1 {
                        assert forall|j: int|
                            0 <= j < self.entries().len() && (#[trigger] self.entries()[j]).0
                                == o.hash@ implies !self.entries()[j].1 by {
                            assert(self.entries()[j] == (self.seen@[j].0@, self.seen@[j].1));
                            if j < i {
                            } else if j > i {
                                assert(self.seen@[i as int].0@ != self.seen@[j].0@);
                            }
                        }
                    }
                }
                return entry.1;
            }
            i = i + 1;
        }
        proof {
            assert forall|j: int|
                0 <= j < self.entries().len() && (#[trigger] self.entries()[j]).0
                    == o.hash@ implies false by {
                assert(self.entries()[j] == (self.seen@[j].0@, self.seen@[j].1));
            }
        }
        false
    }
}

} // verus!
