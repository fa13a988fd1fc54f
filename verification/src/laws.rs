//! Proved laws of the engine: freshness and monotonicity of transfer ids,
//! the notification discipline of the two policies, and stability of the
//! terminal state.

use vstd::prelude::*;

use crate::contract::{dispatch_updates, resolve_updates, should_notify};
use crate::msg::{AggregationPolicy, UnitV};
use crate::state::Ledger;

verus! {

/// The id a dispatch would allocate next is fresh: it was never allocated
/// before, so no pending entry and no completed transfer can be using it.
pub proof fn lemma_fresh_id(l: Ledger)
    requires
        l.wf(),
        l.next_id < u128::MAX,
    ensures
        !l.allocated((l.next_id + 1) as u128),
        !l.has_id((l.next_id + 1) as u128),
{
    let id = (l.next_id + 1) as u128;
    assert forall|i: int| 0 <= i < l.pending@.len() implies (#[trigger] l.pending@[i]).0 != id by {
        assert(l.pending@[i].0 <= l.next_id);
    }
}

/// Transfer ids strictly increase across successive dispatches: a second
/// dispatch allocates an id strictly above the first's.
pub proof fn lemma_ids_strictly_increase(
    l0: Ledger,
    l1: Ledger,
    l2: Ledger,
    id1: u128,
    id2: u128,
    units1: Seq<UnitV>,
    units2: Seq<UnitV>,
)
    requires
        dispatch_updates(l0, l1, id1, units1),
        dispatch_updates(l1, l2, id2, units2),
    ensures
        id1 < id2,
{
}

/// Under `AfterAny`, every resolving leg emits its notification, whatever
/// the state of the other legs.
pub proof fn lemma_after_any_notifies(now_complete: bool)
    ensures
        should_notify(AggregationPolicy::AfterAny, now_complete),
{
}

/// Under `AfterAll`, a resolving leg emits a notification exactly when it is
/// the final one, the one that empties the pending set; earlier legs emit
/// none.
pub proof fn lemma_after_all_notifies_only_at_completion(now_complete: bool)
    ensures
        should_notify(AggregationPolicy::AfterAll, now_complete) == now_complete,
{
}

/// A completed transfer stays completed across any further dispatch: its id
/// is never reused and its pending entry is never re-created.
pub proof fn lemma_complete_stable_under_dispatch(
    pre: Ledger,
    post: Ledger,
    done: u128,
    id: u128,
    units: Seq<UnitV>,
)
    requires
        pre.complete(done),
        dispatch_updates(pre, post, id, units),
    ensures
        post.complete(done),
{
}

/// A completed transfer stays completed across any further leg resolution:
/// only an id with a pending unit can resolve, so a completed id is left
/// untouched.
pub proof fn lemma_complete_stable_under_resolve(
    pre: Ledger,
    post: Ledger,
    done: u128,
    id: u128,
    unit: UnitV,
)
    requires
        pre.complete(done),
        resolve_updates(pre, post, id, unit),
    ensures
        post.complete(done),
{
    assert(pre.has_id(id));
    assert(done != id);
}

} // verus!
