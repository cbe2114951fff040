use vstd::prelude::*;

verus! {

/// Why an escrow operation was rejected. Every error aborts the whole
/// operation with no state change.
#[derive(Clone, Copy, PartialEq, Eq, Structural, Debug)]
pub enum EscrowError {
    /// The signer is not the expected principal, or a derived-authority
    /// reconstruction does not match the recorded authority.
    AuthorizationError,
    /// A supplied account does not satisfy the operation's constraints:
    /// wrong mint, wrong owner, wrong derived address, or an account that
    /// must (or must not) already exist.
    ConstraintViolation,
    /// The asset ledger refused a transfer: the source balance is too small,
    /// or the destination balance cannot take the amount.
    InsufficientFunds,
    /// Make was called with a (maker, seed) pair whose derived record
    /// address is already occupied by a live escrow.
    DuplicateSeed,
}

impl EscrowError {
    /// A short name for the error, for callers that print it.
    pub fn describe(&self) -> (r: &'static str)
    {
        match self {
            EscrowError::AuthorizationError => "authorization error",
            EscrowError::ConstraintViolation => "constraint violation",
            EscrowError::InsufficientFunds => "insufficient funds",
            EscrowError::DuplicateSeed => "duplicate seed",
        }
    }
}

} // verus!
