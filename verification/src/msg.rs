//! The data vocabulary of the engine: asset units, policies, leg contexts,
//! resolution signals, outcomes, and the request/response shapes of the two
//! entry points and the two queries.

use vstd::prelude::*;

verus! {

/// Instantiation carries no configuration.
#[derive(Clone, Copy, Debug, PartialEq, Eq, Structural)]
pub struct InstantiateMsg {}

/// The terminal outcome of a single transfer leg, as reported to the notified
/// party. An error carries the channel's free-text message verbatim.
#[derive(Debug, PartialEq, Eq)]
pub enum TransferResult {
    Success,
    Error(String),
    Timeout,
}

/// When the engine notifies: after the first leg resolves (once per leg, each
/// carrying its own outcome), or only once all legs have resolved.
#[derive(Clone, Copy, Debug, PartialEq, Eq, Structural)]
pub enum AggregationPolicy {
    AfterAny,
    AfterAll,
}

/// The mathematical value of a [`Unit`]: an amount and a denomination.
#[verifier::ext_equal]
pub ghost struct UnitV {
    pub amount: u128,
    pub denom: Seq<char>,
}

/// One (amount, denomination) pair of fungible assets being transferred.
#[derive(Debug, PartialEq, Eq)]
pub struct Unit {
    pub amount: u128,
    pub denom: String,
}

impl View for Unit {
    type V = UnitV;

    open spec fn view(&self) -> UnitV {
        UnitV { amount: self.amount, denom: self.denom@ }
    }
}

/// The mathematical value of a sequence of units.
pub open spec fn units_view(s: Seq<Unit>) -> Seq<UnitV> {
    Seq::new(s.len(), |i: int| s[i]@)
}

/// Taking the value of a unit sequence commutes with removing one element.
pub proof fn lemma_units_view_remove(s: Seq<Unit>, j: int)
    requires
        0 <= j < s.len(),
    ensures
        units_view(s.remove(j)) == units_view(s).remove(j),
{
    assert(units_view(s.remove(j)) =~= units_view(s).remove(j));
}

impl Clone for Unit {
    fn clone(&self) -> (r: Unit)
        ensures
            r == *self,
    {
        Unit { amount: self.amount, denom: self.denom.clone() }
    }
}

impl Unit {
    pub fn new(amount: u128, denom: String) -> (r: Unit)
        ensures
            r@ == (UnitV { amount, denom: denom@ }),
    {
        Unit { amount, denom }
    }
}

/// The raw leg-resolution signal delivered by the external transfer channel.
/// A delivered leg may carry a payload; the engine discards it.
#[derive(Debug, PartialEq, Eq)]
pub enum ResolutionSignal {
    Delivered(Vec<u8>),
    Failed(String),
    TimedOut,
}

/// Everything one in-flight leg carries through the asynchronous round trip:
/// it is handed to the external channel at dispatch time and returned verbatim
/// with the resolution signal, and is the sole means of correlating a callback
/// to its request. The policy rides along so it survives restarts without a
/// central lookup; `callback` is the caller-supplied opaque notification
/// payload.
#[derive(Debug, PartialEq, Eq)]
pub struct LegContext {
    pub transfer_id: u128,
    pub sender: String,
    pub unit: Unit,
    pub policy: AggregationPolicy,
    pub callback: Vec<u8>,
}

/// One outbound transfer request produced by a dispatch: the leg's context
/// plus where the leg is to be sent.
#[derive(Debug, PartialEq, Eq)]
pub struct LegRequest {
    pub context: LegContext,
    pub channel_id: String,
    pub to_address: String,
}

/// The immediate acknowledgment of a dispatch, sent only when the caller
/// supplied a target for it.
#[derive(Debug, PartialEq, Eq)]
pub struct Ack {
    pub target: String,
    pub transfer_id: u128,
}

/// What a successful dispatch produced: the fresh transfer id, one outbound
/// request per unit, and the optional acknowledgment.
#[derive(Debug, PartialEq, Eq)]
pub struct DispatchResponse {
    pub transfer_id: u128,
    pub legs: Vec<LegRequest>,
    pub ack: Option<Ack>,
}

/// An outcome message addressed to the notification target. On an error or
/// timeout outcome the resolved unit's funds ride along so the target can take
/// custody of them; on success no funds are attached.
#[derive(Debug, PartialEq, Eq)]
pub struct Notification {
    pub target: String,
    pub callback: Vec<u8>,
    pub outcome: TransferResult,
    pub funds: Vec<Unit>,
}

/// What one leg resolution produced: at most one notification, dispatched
/// with a "report failure, ignore success" policy.
#[derive(Debug, PartialEq, Eq)]
pub struct ResolveResponse {
    pub notification: Option<Notification>,
}

/// A direct fund transfer issued by the recovery path.
#[derive(Debug, PartialEq, Eq)]
pub struct FundReturn {
    pub to_address: String,
    pub funds: Vec<Unit>,
}

/// The answer to a status query: the id was never allocated, or the transfer
/// is known-complete, or these units are still pending (never empty).
#[derive(Debug, PartialEq, Eq)]
pub enum TransferStatus {
    NotFound,
    Complete,
    Pending(Vec<Unit>),
}

} // verus!
