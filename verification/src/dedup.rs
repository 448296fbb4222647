//! Bounded transaction-hash deduplication with FIFO eviction.
//!
//! The ingest pipeline admits each transaction hash at most once while it is
//! retained; the set holds at most `cap` recent hashes and evicts the oldest
//! when full. Check-and-insert is a single operation, so admission decides
//! processing atomically.

use crate::types::TxHash;
use vstd::prelude::*;

verus! {

/// One admission step on the retained-hash sequence: an already-seen hash is
/// rejected; a fresh one is appended, evicting the oldest when the set is
/// full.
pub open spec fn spec_admit(s: Seq<TxHash>, cap: nat, h: TxHash) -> (Seq<TxHash>, bool) {
    if s.contains(h) {
        (s, false)
    } else if s.len() >= cap {
        (s.drop_first().push(h), true)
    } else {
        (s.push(h), true)
    }
}

/// Admitting the same hash twice in a row never accepts it the second time.
pub proof fn lemma_admit_idempotent(s: Seq<TxHash>, cap: nat, h: TxHash)
    ensures
        !spec_admit(spec_admit(s, cap, h).0, cap, h).1,
{
    let s1 = spec_admit(s, cap, h).0;
    if s.contains(h) {
    } else if s.len() >= cap {
        assert(s1.last() == h);
        assert(s1.contains(h));
    } else {
        assert(s1.last() == h);
        assert(s1.contains(h));
    }
}

/// The dedup set: recently seen hashes, oldest first.
pub struct DedupSet {
    pub entries: Vec<TxHash>,
    pub cap: usize,
}

impl DedupSet {
    pub open spec fn wf(&self) -> bool {
        self.entries@.len() <= self.cap && self.cap >= 1
    }

    pub open spec fn view_seq(&self) -> Seq<TxHash> {
        self.entries@
    }

    pub fn new(cap: usize) -> (r: DedupSet)
        requires
            cap >= 1,
        ensures
            r.wf(),
            r.cap == cap,
            r.view_seq() == Seq::<TxHash>::empty(),
    {
        let r = DedupSet { entries: Vec::new(), cap };
        proof {
            assert(r.entries@ =~= Seq::<TxHash>::empty());
        }
        r
    }

    pub fn contains(&self, h: &TxHash) -> (r: bool)
        ensures
            r <==> self.view_seq().contains(*h),
    {
        let mut i: usize = 0;
        while i < self.entries.len()
            invariant
                i <= self.entries@.len(),
                forall|j: int| 0 <= j < i ==> self.entries@[j] != *h,
            decreases self.entries@.len() - i,
        {
            if self.entries[i].eq_hash(h) {
                proof {
                    assert(self.entries@.contains(*h));
                }
                return true;
            }
            i = i + 1;
        }
        proof {
            assert(forall|j: int| 0 <= j < self.entries@.len() ==> self.entries@[j] != *h);
        }
        false
    }

    /// Atomic check-and-insert: `true` means the hash was fresh and is now
    /// retained; `false` means it was already retained and nothing changed.
    pub fn insert_if_absent(&mut self, h: TxHash) -> (fresh: bool)
        requires
            old(self).wf(),
        ensures
            final(self).wf(),
            final(self).cap == old(self).cap,
            (final(self).view_seq(), fresh) == spec_admit(old(self).view_seq(),
                old(self).cap as nat, h),
            final(self).view_seq().contains(h),
    {
        if self.contains(&h) {
            proof {
                assert(self.view_seq().contains(h));
            }
            return false;
        }
        if self.entries.len() >= self.cap {
            self.entries.remove(0);
            proof {
                assert(self.entries@ =~= old(self).view_seq().drop_first());
            }
        }
        self.entries.push(h);
        proof {
            assert(self.view_seq().last() == h);
            assert(self.view_seq().contains(h));
        }
        true
    }
}

} // verus!
