//! The kinds of rejection an escrow operation can report.

use vstd::prelude::*;

verus! {

/// Why an escrow operation was rejected.
///
/// Every precondition of an operation is checked before any mutation; on a
/// rejection the operation leaves the world unchanged and reports one of
/// these kinds.
#[derive(Clone, Copy, Debug, PartialEq, Eq, Structural)]
pub enum EscrowError {
    /// The paying account's balance is too low for the declared amount.
    InsufficientFunds,
    /// The authorizing identity cannot authorize the requested movement.
    NotAuthorized,
    /// Supplied amounts or identities do not match the stored record.
    TermsMismatch,
    /// A Take named a record address that holds no open escrow.
    RecordNotFound,
    /// An Initialize would occupy an address that is already taken,
    /// or one for which no program address can be derived.
    RecordCollision,
}

} // verus!
