//! The reasons for which the engine turns a transaction down.
use vstd::prelude::*;

verus! {

/// Why a transaction was rejected. Every one of these is recoverable: the
/// engine reports it and goes on with the next record.
#[derive(Debug, Clone, Copy, PartialEq, Eq, Structural)]
pub enum Error {
    /// A debit, hold, release or confiscation asks for more than there is.
    InssuficientFunds,
    /// The client refers to a transaction that it did not issue.
    AccessViolation(u16, u32),
    /// The transaction is already under dispute.
    MultipleDispute(u32),
    /// The client tried to resolve a transaction that is not under dispute.
    ResolveUndisputed(u16, u32),
    /// The client tried to charge back a transaction that is not under dispute.
    ChargebackUndisputed(u16, u32),
    /// The client's wallet is locked and accepts nothing further.
    WalletLocked(u16),
}

/// The result of an operation that may be rejected.
pub type Result<T> = core::result::Result<T, Error>;

} // verus!
