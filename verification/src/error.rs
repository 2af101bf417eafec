//! Error taxonomy.
//!
//! Configuration errors are fatal: a table or schedule that fails to build
//! never serves a claim. Validation errors belong to one request and change
//! no state. Accounting errors mean that a ledger write was refused because
//! it would have broken the ledger's invariant. Transfer errors come from
//! the asset-transfer collaborator and leave the ledger unchanged, so the
//! claim can be tried again.

use vstd::prelude::*;

verus! {

/// Reference data that does not meet its invariants.
#[derive(Clone, Copy, Debug, PartialEq, Eq, Structural)]
pub enum ConfigError {
    /// The pool percentages do not sum to exactly 100.
    InvalidAllocationTable,
    /// A release schedule is not a non-decreasing function of time that
    /// ends at one whole.
    InvalidSchedule,
}

/// Why a single request was turned down before any state changed.
#[derive(Clone, Copy, Debug, PartialEq, Eq, Structural)]
pub enum ValidationError {
    /// The authorization proof did not verify against the claimed identity.
    Unauthorized,
    /// The pool is not in the fixed set, or nothing is defined for it.
    UnknownPool,
    /// The recipient is not on the pool's whitelist.
    NotWhitelisted,
    /// The pool's earliest unlock point has not been reached.
    NotYetVested,
    /// The whitelist snapshot offered for a ledger write is not the one
    /// that the claim was evaluated against.
    WhitelistChanged,
}

/// A ledger write that would have broken the ledger's invariant.
#[derive(Clone, Copy, Debug, PartialEq, Eq, Structural)]
pub enum AccountingError {
    /// The new total would leave the range of `u64` or exceed the
    /// recipient's entitlement.
    Overflow,
}

/// Why the asset-transfer collaborator did not confirm a transfer.
#[derive(Clone, Copy, Debug, PartialEq, Eq, Structural)]
pub enum TransferError {
    /// The collaborator reported that the transfer failed.
    Refused,
    /// No confirmation arrived in time.
    TimedOut,
    /// The answer could not be read as a success or a failure.
    Ambiguous,
}

/// Why a claim attempt ended without a transfer being requested.
#[derive(Clone, Copy, Debug, PartialEq, Eq, Structural)]
pub enum Rejection {
    /// The request failed validation.
    Invalid(ValidationError),
    /// Another claim for the same pool and recipient is waiting for its
    /// transfer to be confirmed.
    ClaimInFlight,
    /// No claim for the pool and recipient is waiting for a transfer to be
    /// confirmed.
    NoClaimInFlight,
    /// The ledger refused a write. The engine never asks for a write that
    /// the ledger refuses, so this points to corrupted state.
    Internal(AccountingError),
    /// Everything unlocked so far has already been paid. This is a
    /// legitimate outcome, not a fault.
    NothingToClaim,
}

} // verus!
