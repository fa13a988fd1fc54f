//! The persisted state: the id allocator's counter, the pending ledger
//! (transfer id to outstanding units), and the single-slot fund-return record.

use vstd::prelude::*;

use crate::msg::{units_view, Unit, UnitV};

verus! {

/// The mathematical value of a sequence of ledger entries.
pub open spec fn entries_view(s: Seq<(u128, Vec<Unit>)>) -> Seq<(u128, Seq<UnitV>)> {
    Seq::new(s.len(), |i: int| (s[i].0, units_view(s[i].1@)))
}

/// A single pending fund-return obligation: a notification that carried these
/// funds could not be delivered, so they are owed back to this recipient.
#[derive(Debug, PartialEq, Eq)]
pub struct RecoveryRecord {
    pub recipient: String,
    pub unit: Unit,
}

impl Clone for RecoveryRecord {
    fn clone(&self) -> (r: RecoveryRecord)
        ensures
            r == *self,
    {
        RecoveryRecord { recipient: self.recipient.clone(), unit: self.unit.clone() }
    }
}

/// The whole durable state of the engine.
///
/// `next_id` is the id allocator's counter: the number of transfer ids handed
/// out so far (the last allocated id, or 0 before the first dispatch).
/// `pending` maps each still-incomplete transfer id to its outstanding units,
/// kept in strictly ascending id order; a key is removed the instant its set
/// empties, and that absence is the sole terminal-state signal. `recovery` is
/// the single-slot fund-return record, overwritten rather than queued.
#[derive(Debug, PartialEq, Eq)]
pub struct Ledger {
    pub next_id: u128,
    pub pending: Vec<(u128, Vec<Unit>)>,
    pub recovery: Option<RecoveryRecord>,
}

impl Ledger {
    /// The structural invariant: pending ids are strictly ascending (hence
    /// unique), every pending id has been allocated, and no pending unit set
    /// is empty.
    pub open spec fn wf(self) -> bool {
        &&& forall|i: int, j: int|
            0 <= i < j < self.pending@.len() ==> (#[trigger] self.pending@[i]).0 < (
            #[trigger] self.pending@[j]).0
        &&& forall|i: int|
            0 <= i < self.pending@.len() ==> 1 <= (#[trigger] self.pending@[i]).0
                <= self.next_id
        &&& forall|i: int|
            0 <= i < self.pending@.len() ==> (#[trigger] self.pending@[i]).1@.len() > 0
    }

    /// An id counts as allocated once the counter has reached it; ids start
    /// at 1.
    pub open spec fn allocated(self, id: u128) -> bool {
        1 <= id <= self.next_id
    }

    /// Whether the ledger still holds a pending entry for `id`.
    pub open spec fn has_id(self, id: u128) -> bool {
        exists|i: int| 0 <= i < self.pending@.len() && (#[trigger] self.pending@[i]).0 == id
    }

    /// The position of the entry for `id`; meaningful only when `has_id`.
    pub open spec fn entry_index(self, id: u128) -> int {
        choose|i: int| 0 <= i < self.pending@.len() && (#[trigger] self.pending@[i]).0 == id
    }

    /// The units still outstanding for `id`; meaningful only when `has_id`.
    pub open spec fn units_at(self, id: u128) -> Seq<UnitV> {
        units_view(self.pending@[self.entry_index(id)].1@)
    }

    /// Whether a unit of this value is still pending for `id`.
    pub open spec fn has_unit(self, id: u128, u: UnitV) -> bool {
        self.has_id(id) && exists|j: int| 0 <= j < self.units_at(id).len() && self.units_at(
            id,
        )[j] == u
    }

    /// The ledger's whole pending content, id-ascending, as mathematical
    /// values.
    pub open spec fn entries(self) -> Seq<(u128, Seq<UnitV>)> {
        entries_view(self.pending@)
    }

    /// An allocated id with no pending entry has reached its terminal state.
    pub open spec fn complete(self, id: u128) -> bool {
        self.allocated(id) && !self.has_id(id)
    }

    /// Two matching positions are the same position: pending ids are unique.
    pub proof fn lemma_index_unique(self, i: int, j: int)
        requires
            self.wf(),
            0 <= i < self.pending@.len(),
            0 <= j < self.pending@.len(),
            self.pending@[i].0 == self.pending@[j].0,
        ensures
            i == j,
    {
    }

    /// `entry_index` really points at the entry for `id`, and at the only one.
    pub proof fn lemma_entry_index(self, id: u128)
        requires
            self.wf(),
            self.has_id(id),
        ensures
            0 <= self.entry_index(id) < self.pending@.len(),
            self.pending@[self.entry_index(id)].0 == id,
            forall|j: int|
                0 <= j < self.pending@.len() && (#[trigger] self.pending@[j]).0 == id ==> j
                    == self.entry_index(id),
    {
        assert forall|j: int|
            0 <= j < self.pending@.len() && (#[trigger] self.pending@[j]).0 == id implies j
            == self.entry_index(id) by {
            self.lemma_index_unique(j, self.entry_index(id));
        }
    }

    /// The empty ledger: nothing allocated, nothing pending, nothing owed.
    pub fn new() -> (r: Ledger)
        ensures
            r.wf(),
            r.next_id == 0,
            r.pending@.len() == 0,
            r.recovery is None,
    {
        Ledger { next_id: 0, pending: Vec::new(), recovery: None }
    }

    /// Rebuilds a ledger from its persisted parts, accepting them only when
    /// they satisfy the structural invariant.
    pub fn from_parts(next_id: u128, pending: Vec<(u128, Vec<Unit>)>, recovery: Option<
        RecoveryRecord,
    >) -> (r: Option<Ledger>)
        ensures
            r matches Some(l) ==> l == (Ledger { next_id, pending, recovery }) && l.wf(),
            r is None ==> !(Ledger { next_id, pending, recovery }).wf(),
    {
        let n = pending.len();
        let mut k: usize = 0;
        while k < n
            invariant
                n == pending@.len(),
                0 <= k <= n,
                forall|i: int, j: int|
                    0 <= i < j < k ==> (#[trigger] pending@[i]).0 < (#[trigger] pending@[j]).0,
                forall|i: int|
                    0 <= i < k ==> 1 <= (#[trigger] pending@[i]).0 <= next_id,
                forall|i: int| 0 <= i < k ==> (#[trigger] pending@[i]).1@.len() > 0,
                forall|i: int|
                    0 <= i < k ==> (#[trigger] pending@[i]).0 <= pending@[k - 1].0,
            decreases n - k,
        {
            let id = pending[k].0;
            if id < 1 || id > next_id {
                proof {
                    let cand = Ledger { next_id, pending, recovery };
                    assert(cand.pending@[k as int].0 == id);
                    assert(!cand.wf());
                }
                return None;
            }
            if pending[k].1.len() == 0 {
                proof {
                    let cand = Ledger { next_id, pending, recovery };
                    assert(cand.pending@[k as int].1@.len() == 0);
                    assert(!cand.wf());
                }
                return None;
            }
            if k > 0 && pending[k - 1].0 >= id {
                proof {
                    let cand = Ledger { next_id, pending, recovery };
                    assert(cand.pending@[k as int].0 == id);
                    assert(cand.pending@[k as int - 1].0 >= id);
                    assert(!cand.wf());
                }
                return None;
            }
            k = k + 1;
        }
        Some(Ledger { next_id, pending, recovery })
    }

    /// The id allocator: advances the counter and returns the fresh id. The
    /// caller persists the advanced counter in the same atomic unit of work
    /// as the pending entry it creates for the new id. Counter overflow is
    /// treated as unreachable at this integer width.
    pub fn next_transfer_id(&mut self) -> (id: u128)
        requires
            old(self).next_id < u128::MAX,
        ensures
            id == old(self).next_id + 1,
            final(self).next_id == id,
            final(self).pending == old(self).pending,
            final(self).recovery == old(self).recovery,
            old(self).wf() ==> final(self).wf(),
    {
        self.next_id = self.next_id + 1;
        self.next_id
    }

    /// Linear scan for the pending entry of `id`.
    pub(crate) fn find_entry(&self, id: u128) -> (r: Option<usize>)
        ensures
            match r {
                Some(i) => i < self.pending@.len() && self.pending@[i as int].0 == id,
                None => !self.has_id(id),
            },
    {
        let n = self.pending.len();
        let mut k: usize = 0;
        while k < n
            invariant
                n == self.pending@.len(),
                0 <= k <= n,
                forall|i: int| 0 <= i < k ==> (#[trigger] self.pending@[i]).0 != id,
            decreases n - k,
        {
            if self.pending[k].0 == id {
                return Some(k);
            }
            k = k + 1;
        }
        None
    }
}

} // verus!
