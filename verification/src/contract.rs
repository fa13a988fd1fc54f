//! The two entry points and the two queries: dispatching a multi-leg
//! transfer, resolving one leg, recovering funds after a failed notification,
//! and the status queries.

use vstd::prelude::*;

use crate::error::ContractError;
use crate::msg::{
    lemma_units_view_remove, units_view, Ack, AggregationPolicy, DispatchResponse, FundReturn,
    LegContext, LegRequest, Notification, ResolutionSignal, ResolveResponse, TransferResult,
    TransferStatus, Unit, UnitV,
};
use crate::state::{Ledger, RecoveryRecord};

verus! {

/// The page size of a status listing when the caller names none.
pub const DEFAULT_PAGE_SIZE: usize = 10;

/// Clones a byte payload; the copy has the same value.
fn clone_bytes(b: &Vec<u8>) -> (r: Vec<u8>)
    ensures
        r@ == b@,
{
    let r = b.clone();
    proof {
        assert forall|i: int| 0 <= i < b@.len() implies r@[i] == b@[i] by {
            assert(vstd::pervasive::cloned::<u8>(b@[i], r@[i]));
        }
        assert(r@ =~= b@);
    }
    r
}

/// Clones a unit list; the copy has the same value.
fn clone_units(v: &Vec<Unit>) -> (r: Vec<Unit>)
    ensures
        r@ == v@,
{
    let r = v.clone();
    proof {
        assert forall|i: int| 0 <= i < v@.len() implies r@[i] == v@[i] by {
            assert(vstd::pervasive::cloned::<Unit>(v@[i], r@[i]));
        }
        assert(r@ =~= v@);
    }
    r
}

/// One outbound leg request carries the dispatch's id, sender, destination,
/// policy and callback payload, and its own unit.
pub open spec fn leg_matches(
    leg: LegRequest,
    id: u128,
    sender: Seq<char>,
    unit: UnitV,
    channel: Seq<char>,
    to: Seq<char>,
    policy: AggregationPolicy,
    callback: Seq<u8>,
) -> bool {
    &&& leg.context.transfer_id == id
    &&& leg.context.sender@ == sender
    &&& leg.context.unit@ == unit
    &&& leg.context.policy == policy
    &&& leg.context.callback@ == callback
    &&& leg.channel_id@ == channel
    &&& leg.to_address@ == to
}

/// A dispatch issues exactly one leg request per unit, in order.
pub open spec fn legs_match(
    legs: Seq<LegRequest>,
    id: u128,
    sender: Seq<char>,
    units: Seq<UnitV>,
    channel: Seq<char>,
    to: Seq<char>,
    policy: AggregationPolicy,
    callback: Seq<u8>,
) -> bool {
    &&& legs.len() == units.len()
    &&& forall|k: int|
        0 <= k < legs.len() ==> leg_matches(
            #[trigger] legs[k],
            id,
            sender,
            units[k],
            channel,
            to,
            policy,
            callback,
        )
}

/// `j` is the position of the first unit of value `u` in `s`.
pub open spec fn is_first_match(s: Seq<UnitV>, u: UnitV, j: int) -> bool {
    &&& 0 <= j < s.len()
    &&& s[j] == u
    &&& forall|k: int| 0 <= k < j ==> s[k] != u
}

/// The position of the first unit of value `u` in `s`; meaningful only when
/// a match exists.
pub open spec fn first_match(s: Seq<UnitV>, u: UnitV) -> int {
    choose|j: int| is_first_match(s, u, j)
}

/// There is at most one first match.
pub proof fn lemma_first_match_unique(s: Seq<UnitV>, u: UnitV, j1: int, j2: int)
    requires
        is_first_match(s, u, j1),
        is_first_match(s, u, j2),
    ensures
        j1 == j2,
{
}

/// Whether this transition emits a notification: always under `AfterAny`,
/// only on the final leg under `AfterAll`.
pub open spec fn should_notify(policy: AggregationPolicy, now_complete: bool) -> bool {
    policy is AfterAny || now_complete
}

/// The one notification a resolving leg may emit: addressed to the leg's
/// sender, echoing the opaque callback payload, carrying the classified
/// outcome, with the resolved unit's funds attached exactly when the leg did
/// not succeed.
pub open spec fn notification_matches(
    n: Notification,
    ctx: LegContext,
    signal: ResolutionSignal,
) -> bool {
    &&& n.target@ == ctx.sender@
    &&& n.callback@ == ctx.callback@
    &&& classified(signal, n.outcome)
    &&& units_view(n.funds@) == (if signal is Delivered {
        Seq::<UnitV>::empty()
    } else {
        seq![ctx.unit@]
    })
}

/// How a resolving leg changes the ledger: the first pending unit matching
/// the leg's unit leaves `id`'s entry; the entry is deleted the instant it
/// empties; the counter and every other id's state are untouched.
pub open spec fn resolve_updates(pre: Ledger, post: Ledger, id: u128, unit: UnitV) -> bool {
    &&& pre.has_unit(id, unit)
    &&& post.next_id == pre.next_id
    &&& ({
        let s = pre.units_at(id);
        let j = first_match(s, unit);
        &&& is_first_match(s, unit, j)
        &&& if s.len() == 1 {
            !post.has_id(id)
        } else {
            post.has_id(id) && post.units_at(id) == s.remove(j)
        }
    })
    &&& forall|other: u128| other != id ==> post.has_id(other) == pre.has_id(other)
    &&& forall|other: u128|
        other != id && pre.has_id(other) ==> post.units_at(other) == pre.units_at(other)
}

/// One page of a status listing: the first `limit` entries whose id lies
/// strictly after `start_after` (all entries when `start_after` is `None`),
/// in the order they stand in `s`.
pub open spec fn page_of(
    s: Seq<(u128, Seq<UnitV>)>,
    start_after: Option<u128>,
    limit: nat,
) -> Seq<(u128, Seq<UnitV>)>
    decreases s.len(),
{
    if limit == 0 || s.len() == 0 {
        Seq::empty()
    } else if (match start_after {
        Some(b) => s[0].0 <= b,
        None => false,
    }) {
        page_of(s.drop_first(), start_after, limit)
    } else {
        seq![s[0]] + page_of(s.drop_first(), start_after, (limit - 1) as nat)
    }
}

/// Finds the first unit in `units` with the value of `target`.
fn find_unit(units: &Vec<Unit>, target: &Unit) -> (r: Option<usize>)
    ensures
        match r {
            Some(j) => {
                &&& j < units@.len()
                &&& units@[j as int]@ == target@
                &&& forall|k: int| 0 <= k < j ==> units@[k]@ != target@
            },
            None => forall|k: int| 0 <= k < units@.len() ==> units@[k]@ != target@,
        },
{
    let n = units.len();
    let mut j: usize = 0;
    while j < n
        invariant
            n == units@.len(),
            0 <= j <= n,
            forall|k: int| 0 <= k < j ==> units@[k]@ != target@,
        decreases n - j,
    {
        if units[j].amount == target.amount && units[j].denom == target.denom {
            return Some(j);
        }
        j = j + 1;
    }
    None
}

/// How a successful dispatch changes the ledger: the counter advances to the
/// fresh id, the fresh id's pending entry holds exactly the requested units,
/// and every other id's state is untouched.
pub open spec fn dispatch_updates(pre: Ledger, post: Ledger, id: u128, units: Seq<UnitV>) -> bool {
    &&& id == pre.next_id + 1
    &&& post.next_id == id
    &&& post.has_id(id)
    &&& post.units_at(id) == units
    &&& forall|j: u128| j != id ==> post.has_id(j) == pre.has_id(j)
    &&& forall|j: u128| j != id && pre.has_id(j) ==> post.units_at(j) == pre.units_at(j)
    &&& post.recovery == pre.recovery
}

/// The outcome classifier's meaning: a delivered leg is a success (any
/// payload is discarded), a failed leg carries the channel's message
/// verbatim, a timed-out leg is a timeout.
pub open spec fn classified(signal: ResolutionSignal, outcome: TransferResult) -> bool {
    match signal {
        ResolutionSignal::Delivered(_) => outcome is Success,
        ResolutionSignal::Failed(m) => outcome matches TransferResult::Error(e) && e@ == m@,
        ResolutionSignal::TimedOut => outcome is Timeout,
    }
}

/// Maps the external channel's raw resolution signal to the canonical
/// outcome reported to the notified party.
pub fn classify(signal: ResolutionSignal) -> (r: TransferResult)
    ensures
        classified(signal, r),
{
    match signal {
        ResolutionSignal::Delivered(_) => TransferResult::Success,
        ResolutionSignal::Failed(m) => TransferResult::Error(m),
        ResolutionSignal::TimedOut => TransferResult::Timeout,
    }
}

impl Ledger {
    /// Dispatches a multi-leg transfer: rejects an empty request with
    /// `NoFunds` and no state change; otherwise allocates the next transfer
    /// id, records all units as pending under it in one atomic unit of work,
    /// and hands back one outbound request per unit plus the optional
    /// acknowledgment for `notify_target`.
    pub fn dispatch(
        &mut self,
        sender: String,
        units: Vec<Unit>,
        channel_id: String,
        to_address: String,
        policy: AggregationPolicy,
        callback: Vec<u8>,
        notify_target: Option<String>,
    ) -> (r: Result<DispatchResponse, ContractError>)
        requires
            old(self).wf(),
            old(self).next_id < u128::MAX,
        ensures
            final(self).wf(),
            r matches Err(e) ==> e is NoFunds && *final(self) == *old(self) && units@.len() == 0,
            units@.len() == 0 ==> r is Err,
            r matches Ok(resp) ==> {
                &&& units@.len() > 0
                &&& resp.transfer_id == old(self).next_id + 1
                &&& dispatch_updates(*old(self), *final(self), resp.transfer_id, units_view(units@))
                &&& legs_match(
                    resp.legs@,
                    resp.transfer_id,
                    sender@,
                    units_view(units@),
                    channel_id@,
                    to_address@,
                    policy,
                    callback@,
                )
                &&& match notify_target {
                    Some(t) => resp.ack matches Some(a) && a.target@ == t@ && a.transfer_id
                        == resp.transfer_id,
                    None => resp.ack is None,
                }
            },
    {
        if units.len() == 0 {
            return Err(ContractError::NoFunds);
        }
        let id = self.next_transfer_id();
        let n = units.len();
        let mut legs: Vec<LegRequest> = Vec::new();
        let mut i: usize = 0;
        while i < n
            invariant
                n == units@.len(),
                0 <= i <= n,
                legs@.len() == i,
                forall|k: int|
                    0 <= k < i ==> leg_matches(
                        #[trigger] legs@[k],
                        id,
                        sender@,
                        units@[k]@,
                        channel_id@,
                        to_address@,
                        policy,
                        callback@,
                    ),
            decreases n - i,
        {
            let context = LegContext {
                transfer_id: id,
                sender: sender.clone(),
                unit: units[i].clone(),
                policy,
                callback: clone_bytes(&callback),
            };
            legs.push(
                LegRequest {
                    context,
                    channel_id: channel_id.clone(),
                    to_address: to_address.clone(),
                },
            );
            i = i + 1;
        }
        let entry = (id, units);
        let ghost gentry = entry;
        let ghost pre = *self;
        self.pending.push(entry);
        proof {
            let post = *self;
            assert(post.pending@ == pre.pending@.push(gentry));
            assert forall|a: int, b: int|
                0 <= a < b < post.pending@.len() implies (#[trigger] post.pending@[a]).0 < (
            #[trigger] post.pending@[b]).0 by {
                if b < pre.pending@.len() {
                    assert(pre.pending@[a].0 < pre.pending@[b].0);
                } else {
                    assert(post.pending@[b].0 == id);
                    assert(pre.pending@[a].0 <= pre.next_id);
                }
            }
            assert(post.wf());
            assert(post.pending@[pre.pending@.len() as int].0 == id);
            assert(post.has_id(id));
            post.lemma_entry_index(id);
            assert(post.entry_index(id) == pre.pending@.len());
            assert(post.units_at(id) =~= units_view(gentry.1@));
            assert forall|j: u128| j != id implies post.has_id(j) == pre.has_id(j) by {
                if post.has_id(j) {
                    let w = post.entry_index(j);
                    assert(0 <= w < post.pending@.len() && post.pending@[w].0 == j);
                    assert(w < pre.pending@.len());
                    assert(pre.has_id(j));
                }
                if pre.has_id(j) {
                    let w = pre.entry_index(j);
                    assert(0 <= w < pre.pending@.len() && pre.pending@[w].0 == j);
                    assert(post.pending@[w].0 == j);
                    assert(post.has_id(j));
                }
            }
            assert forall|j: u128| j != id && pre.has_id(j) implies post.units_at(j)
                == pre.units_at(j) by {
                let w = pre.entry_index(j);
                pre.lemma_entry_index(j);
                assert(post.pending@[w].0 == j);
                assert(post.has_id(j));
                post.lemma_entry_index(j);
                assert(post.entry_index(j) == w);
            }
        }
        let ack = match notify_target {
            Some(t) => Some(Ack { target: t, transfer_id: id }),
            None => None,
        };
        Ok(DispatchResponse { transfer_id: id, legs, ack })
    }

    /// Resolves one leg of an in-flight transfer. A callback for an id that
    /// was never allocated, or for a unit not pending under its id, is a
    /// fatal protocol violation: the whole transition is aborted with no
    /// state change. Otherwise one matching unit leaves the pending set (the
    /// entry is deleted the instant it empties), a notification is emitted by
    /// policy, and when that notification carries funds the single-slot
    /// fund-return record is overwritten so a failed delivery can be
    /// recovered.
    #[verifier::rlimit(100)]
    pub fn resolve_leg(&mut self, ctx: LegContext, signal: ResolutionSignal) -> (r: Result<
        ResolveResponse,
        ContractError,
    >)
        requires
            old(self).wf(),
        ensures
            final(self).wf(),
            r matches Err(_) ==> *final(self) == *old(self),
            r is Ok <==> old(self).has_unit(ctx.transfer_id, ctx.unit@),
            (r matches Err(e) && e is UnknownTransfer) <==> !old(self).allocated(ctx.transfer_id),
            (r matches Err(e) && e is UnknownUnit) <==> (old(self).allocated(ctx.transfer_id)
                && !old(self).has_unit(ctx.transfer_id, ctx.unit@)),
            r matches Ok(resp) ==> {
                &&& resolve_updates(*old(self), *final(self), ctx.transfer_id, ctx.unit@)
                &&& (resp.notification is Some <==> should_notify(
                    ctx.policy,
                    !final(self).has_id(ctx.transfer_id),
                ))
                &&& (resp.notification matches Some(n) ==> notification_matches(n, ctx, signal))
                &&& (resp.notification is Some && !(signal is Delivered) ==> final(self).recovery
                    == Some((RecoveryRecord { recipient: ctx.sender, unit: ctx.unit })))
                &&& (!(resp.notification is Some && !(signal is Delivered))
                    ==> final(self).recovery == old(self).recovery)
            },
    {
        let id = ctx.transfer_id;
        if id < 1 || id > self.next_id {
            return Err(ContractError::UnknownTransfer);
        }
        let idx = match self.find_entry(id) {
            Some(i) => i,
            None => {
                return Err(ContractError::UnknownUnit);
            },
        };
        proof {
            self.lemma_entry_index(id);
        }
        let uidx = match find_unit(&self.pending[idx].1, &ctx.unit) {
            Some(j) => j,
            None => {
                proof {
                    assert(self.entry_index(id) == idx);
                    assert forall|k: int|
                        0 <= k < self.units_at(id).len() implies #[trigger] self.units_at(id)[k]
                        != ctx.unit@ by {
                        assert(self.units_at(id)[k] == self.pending@[idx as int].1@[k]@);
                    }
                    assert(!self.has_unit(id, ctx.unit@));
                }
                return Err(ContractError::UnknownUnit);
            },
        };
        let ghost pre = *self;
        let ghost s = units_view(pre.pending@[idx as int].1@);
        proof {
            assert(pre.entry_index(id) == idx);
            assert(s == pre.units_at(id));
            assert(s[uidx as int] == pre.pending@[idx as int].1@[uidx as int]@);
            assert forall|k: int| 0 <= k < uidx implies #[trigger] s[k] != ctx.unit@ by {
                assert(s[k] == pre.pending@[idx as int].1@[k]@);
            }
            assert(is_first_match(s, ctx.unit@, uidx as int));
            assert(pre.has_unit(id, ctx.unit@));
            lemma_first_match_unique(s, ctx.unit@, first_match(s, ctx.unit@), uidx as int);
        }
        let will_empty = self.pending[idx].1.len() == 1;
        let should = match ctx.policy {
            AggregationPolicy::AfterAny => true,
            AggregationPolicy::AfterAll => will_empty,
        };
        let outcome = classify(signal);
        let success = match &outcome {
            TransferResult::Success => true,
            _ => false,
        };
        if should && !success {
            self.recovery = Some(
                RecoveryRecord { recipient: ctx.sender.clone(), unit: ctx.unit.clone() },
            );
        }
        let mut entry = self.pending.remove(idx);
        entry.1.remove(uidx);
        let now_empty = entry.1.len() == 0;
        if !now_empty {
            self.pending.insert(idx, entry);
        }
        proof {
            let post = *self;
            lemma_units_view_remove(pre.pending@[idx as int].1@, uidx as int);
            if now_empty {
                assert(post.pending@ == pre.pending@.remove(idx as int));
                assert forall|a: int, b: int|
                    0 <= a < b < post.pending@.len() implies (#[trigger] post.pending@[a]).0 < (
                #[trigger] post.pending@[b]).0 by {
                    let a0 = if a < idx as int { a } else { a + 1 };
                    let b0 = if b < idx as int { b } else { b + 1 };
                    assert(post.pending@[a] == pre.pending@[a0]);
                    assert(post.pending@[b] == pre.pending@[b0]);
                }
                assert forall|a: int|
                    0 <= a < post.pending@.len() implies 1 <= (#[trigger] post.pending@[a]).0
                    <= post.next_id && post.pending@[a].1@.len() > 0 by {
                    let a0 = if a < idx as int { a } else { a + 1 };
                    assert(post.pending@[a] == pre.pending@[a0]);
                }
                assert(post.wf());
                assert forall|a: int|
                    0 <= a < post.pending@.len() implies (#[trigger] post.pending@[a]).0 != id by {
                    let a0 = if a < idx as int { a } else { a + 1 };
                    assert(post.pending@[a] == pre.pending@[a0]);
                    if pre.pending@[a0].0 == id {
                        pre.lemma_index_unique(a0, idx as int);
                    }
                }
                assert(!post.has_id(id));
                assert(s.len() == 1);
                assert forall|other: u128| other != id implies post.has_id(other) == pre.has_id(
                    other,
                ) by {
                    if post.has_id(other) {
                        let w = post.entry_index(other);
                        assert(0 <= w < post.pending@.len() && post.pending@[w].0 == other);
                        let w0 = if w < idx as int { w } else { w + 1 };
                        assert(pre.pending@[w0].0 == other);
                        assert(pre.has_id(other));
                    }
                    if pre.has_id(other) {
                        let w0 = pre.entry_index(other);
                        pre.lemma_entry_index(other);
                        let w = if w0 < idx as int { w0 } else { w0 - 1 };
                        assert(w0 != idx as int);
                        assert(post.pending@[w].0 == other);
                        assert(post.has_id(other));
                    }
                }
                assert forall|other: u128| other != id && pre.has_id(other) implies post.units_at(
                    other,
                ) == pre.units_at(other) by {
                    let w0 = pre.entry_index(other);
                    pre.lemma_entry_index(other);
                    assert(w0 != idx as int);
                    let w = if w0 < idx as int { w0 } else { w0 - 1 };
                    assert(post.pending@[w] == pre.pending@[w0]);
                    assert(post.has_id(other));
                    post.lemma_entry_index(other);
                    assert(post.entry_index(other) == w);
                }
            } else {
                assert(post.pending@ == pre.pending@.remove(idx as int).insert(idx as int, (id,
                entry.1)));
                assert(post.pending@.len() == pre.pending@.len());
                assert forall|a: int|
                    0 <= a < post.pending@.len() && a != idx as int implies post.pending@[a]
                    == pre.pending@[a] by {}
                assert(post.pending@[idx as int].0 == id);
                assert(post.pending@[idx as int].1@ == pre.pending@[idx as int].1@.remove(
                    uidx as int,
                ));
                assert forall|a: int, b: int|
                    0 <= a < b < post.pending@.len() implies (#[trigger] post.pending@[a]).0 < (
                #[trigger] post.pending@[b]).0 by {
                    assert(post.pending@[a].0 == pre.pending@[a].0);
                    assert(post.pending@[b].0 == pre.pending@[b].0);
                }
                assert forall|a: int|
                    0 <= a < post.pending@.len() implies 1 <= (#[trigger] post.pending@[a]).0
                    <= post.next_id && post.pending@[a].1@.len() > 0 by {
                    if a != idx as int {
                        assert(post.pending@[a] == pre.pending@[a]);
                    }
                }
                assert(post.wf());
                assert(post.has_id(id));
                post.lemma_entry_index(id);
                assert(post.entry_index(id) == idx as int);
                assert(post.units_at(id) == units_view(pre.pending@[idx as int].1@.remove(
                    uidx as int,
                )));
                assert(post.units_at(id) == s.remove(uidx as int));
                assert forall|other: u128| other != id implies post.has_id(other) == pre.has_id(
                    other,
                ) by {
                    if post.has_id(other) {
                        let w = post.entry_index(other);
                        assert(0 <= w < post.pending@.len() && post.pending@[w].0 == other);
                        assert(pre.pending@[w].0 == other);
                    }
                    if pre.has_id(other) {
                        let w = pre.entry_index(other);
                        pre.lemma_entry_index(other);
                        assert(post.pending@[w].0 == other);
                    }
                }
                assert forall|other: u128| other != id && pre.has_id(other) implies post.units_at(
                    other,
                ) == pre.units_at(other) by {
                    let w = pre.entry_index(other);
                    pre.lemma_entry_index(other);
                    assert(w != idx as int);
                    assert(post.pending@[w] == pre.pending@[w]);
                    assert(post.has_id(other));
                    post.lemma_entry_index(other);
                    assert(post.entry_index(other) == w);
                }
            }
            assert(resolve_updates(pre, post, id, ctx.unit@));
        }
        let notification = if should {
            let mut funds: Vec<Unit> = Vec::new();
            if !success {
                funds.push(ctx.unit);
                proof {
                    assert(units_view(funds@) =~= seq![ctx.unit@]);
                }
            } else {
                proof {
                    assert(units_view(funds@) =~= Seq::<UnitV>::empty());
                }
            }
            Some(Notification { target: ctx.sender, callback: ctx.callback, outcome, funds })
        } else {
            None
        };
        Ok(ResolveResponse { notification })
    }

    /// Answers a status query: `NotFound` for an id that was never allocated,
    /// `Complete` for an allocated id with no pending entry, and the exact
    /// outstanding units otherwise.
    pub fn get_status(&self, id: u128) -> (r: TransferStatus)
        requires
            self.wf(),
        ensures
            !self.allocated(id) ==> r is NotFound,
            self.complete(id) ==> r is Complete,
            self.has_id(id) ==> (r matches TransferStatus::Pending(units) && units_view(units@)
                == self.units_at(id)),
    {
        if id < 1 || id > self.next_id {
            return TransferStatus::NotFound;
        }
        match self.find_entry(id) {
            None => TransferStatus::Complete,
            Some(i) => {
                proof {
                    self.lemma_entry_index(id);
                    assert(self.entry_index(id) == i);
                }
                TransferStatus::Pending(clone_units(&self.pending[i].1))
            },
        }
    }

    /// Lists pending transfers ascending by id: up to `limit` entries (10
    /// when unspecified) whose id lies strictly after `start_after`.
    pub fn list_statuses(&self, start_after: Option<u128>, limit: Option<usize>) -> (r: Vec<
        (u128, Vec<Unit>),
    >)
        requires
            self.wf(),
        ensures
            crate::state::entries_view(r@) == page_of(
                self.entries(),
                start_after,
                (match limit {
                    Some(l) => l as nat,
                    None => DEFAULT_PAGE_SIZE as nat,
                }),
            ),
    {
        let lim: usize = match limit {
            Some(l) => l,
            None => DEFAULT_PAGE_SIZE,
        };
        let ghost glim = lim as nat;
        let n = self.pending.len();
        let mut out: Vec<(u128, Vec<Unit>)> = Vec::new();
        let mut k: usize = 0;
        proof {
            assert(self.entries().skip(0) =~= self.entries());
            assert(crate::state::entries_view(out@) =~= Seq::<(u128, Seq<UnitV>)>::empty());
            assert(crate::state::entries_view(out@) + page_of(self.entries(), start_after, glim)
                =~= page_of(self.entries(), start_after, glim));
        }
        while k < n && out.len() < lim
            invariant
                n == self.pending@.len(),
                0 <= k <= n,
                out@.len() <= lim,
                crate::state::entries_view(out@) + page_of(
                    self.entries().skip(k as int),
                    start_after,
                    (lim - out@.len()) as nat,
                ) == page_of(self.entries(), start_after, glim),
            decreases n - k,
        {
            let ghost pre_out = out@;
            let ghost es = self.entries().skip(k as int);
            proof {
                assert(es[0] == self.entries()[k as int]);
                assert(es.drop_first() =~= self.entries().skip(k as int + 1));
            }
            let id = self.pending[k].0;
            let skip_this = match start_after {
                Some(b) => id <= b,
                None => false,
            };
            if !skip_this {
                let units = clone_units(&self.pending[k].1);
                out.push((id, units));
                proof {
                    assert(crate::state::entries_view(out@) =~= crate::state::entries_view(
                        pre_out,
                    ).push((id, units_view(units@))));
                    assert(units_view(units@) == units_view(self.pending@[k as int].1@));
                    assert(seq![es[0]] + page_of(
                        es.drop_first(),
                        start_after,
                        (lim - out@.len()) as nat,
                    ) == page_of(es, start_after, (lim - pre_out.len()) as nat));
                    assert(crate::state::entries_view(out@) + page_of(
                        self.entries().skip(k as int + 1),
                        start_after,
                        (lim - out@.len()) as nat,
                    ) =~= crate::state::entries_view(pre_out) + (seq![es[0]] + page_of(
                        es.drop_first(),
                        start_after,
                        (lim - out@.len()) as nat,
                    )));
                }
            } else {
                proof {
                    assert(page_of(es, start_after, (lim - out@.len()) as nat) == page_of(
                        es.drop_first(),
                        start_after,
                        (lim - out@.len()) as nat,
                    ));
                }
            }
            k = k + 1;
        }
        proof {
            if out@.len() == lim as int {
                assert(page_of(self.entries().skip(k as int), start_after, 0nat) == Seq::<
                    (u128, Seq<UnitV>),
                >::empty());
            } else {
                assert(k == n);
                assert(self.entries().skip(k as int) =~= Seq::<(u128, Seq<UnitV>)>::empty());
            }
            assert(crate::state::entries_view(out@) + Seq::<(u128, Seq<UnitV>)>::empty()
                =~= crate::state::entries_view(out@));
        }
        out
    }

    /// The recovery path: loads the outstanding fund-return obligation and
    /// issues the direct transfer of the recorded unit back to the recorded
    /// recipient. Running it with no record outstanding is a fatal
    /// inconsistency. The single slot is cleared only by being overwritten,
    /// so the record itself is left in place.
    pub fn recover(&self) -> (r: Result<FundReturn, ContractError>)
        ensures
            self.recovery is None <==> (r matches Err(e) && e is NoRecoveryRecord),
            r is Err ==> (r matches Err(e) && e is NoRecoveryRecord),
            self.recovery matches Some(rec) ==> (r matches Ok(f) && f.to_address@
                == rec.recipient@ && units_view(f.funds@) == seq![rec.unit@]),
    {
        match &self.recovery {
            None => Err(ContractError::NoRecoveryRecord),
            Some(rec) => {
                let mut funds: Vec<Unit> = Vec::new();
                funds.push(rec.unit.clone());
                proof {
                    assert(units_view(funds@) =~= seq![rec.unit@]);
                }
                Ok(FundReturn { to_address: rec.recipient.clone(), funds })
            },
        }
    }
}

} // verus!
