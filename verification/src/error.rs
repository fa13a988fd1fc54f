//! Error taxonomy: user input errors, fatal protocol violations, and the
//! recovery-path inconsistency.

use vstd::prelude::*;

verus! {

/// Everything a ledger operation can fail with.
///
/// `NoFunds` is a user input error: the request is rejected synchronously and
/// no state is mutated. `UnknownTransfer` and `UnknownUnit` are protocol
/// violations: a resolution callback did not match the ledger, the triggering
/// transition is aborted whole. `NoRecoveryRecord` means the recovery path ran
/// without a preceding notification failure, a fatal inconsistency.
#[derive(Clone, Copy, Debug, PartialEq, Eq, Structural)]
pub enum ContractError {
    /// A dispatch request carried zero units.
    NoFunds,
    /// A resolution callback named a transfer id that was never allocated.
    UnknownTransfer,
    /// A resolution callback named a unit that is not pending for its id.
    UnknownUnit,
    /// The recovery path ran while no fund-return obligation was recorded.
    NoRecoveryRecord,
}

impl ContractError {
    /// A protocol violation signals that the external channel and the ledger
    /// have desynchronized; it must never be downgraded to a silent no-op.
    pub open spec fn is_protocol_violation_spec(self) -> bool {
        self is UnknownTransfer || self is UnknownUnit
    }

    /// Tells a fatal protocol violation apart from the other errors.
    pub fn is_protocol_violation(&self) -> (r: bool)
        ensures
            r == self.is_protocol_violation_spec(),
    {
        match self {
            ContractError::UnknownTransfer => true,
            ContractError::UnknownUnit => true,
            _ => false,
        }
    }
}

} // verus!
