//! The closed set of errors an operation can fail with.  Every failure of
//! the core is one of these; the host maps them to its own error
//! representation at the boundary only.

use vstd::prelude::*;

verus! {

/// Why a vault operation was refused.  Each operation's contract states
/// exactly which inputs produce which variant.
#[derive(Clone, Copy, Debug, PartialEq, Eq, Structural)]
pub enum DepositError {
    /// The command bytes do not decode to any known instruction.
    InvalidInstruction,
    /// The caller did not prove control of the required identity, or the
    /// vault's signing authority could not be derived.
    Unauthorized,
    /// The vault's storage account is not owned by this program.
    IllegalOwner,
    /// The amount is zero, or would overflow the vault's accumulator.
    InvalidAmount,
    /// The paying account cannot cover the requested transfer.
    InsufficientFunds,
    /// No deposit entry satisfies the refund match rule.
    NoMatchingDeposit,
    /// The stored record does not match the expected binary layout, or
    /// its bookkeeping cannot cover the requested change.
    CorruptState,
    /// The record has reached the bound fixed at creation and cannot grow.
    StorageExhausted,
}

} // verus!
