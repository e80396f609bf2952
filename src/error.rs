use vstd::prelude::*;

verus! {

/// Every way a ledger operation can be refused. A refused operation changes nothing.
#[derive(Clone, Copy, Debug, PartialEq, Eq, Structural)]
pub enum BankError {
    /// The record to be created exists already.
    AlreadyInitialized,
    /// No sub-account exists for the addressed owner.
    AccountNotFound,
    /// The withdrawal exceeds the caller's recorded balance.
    InsufficientFunds,
    /// The withdrawal exceeds the value actually held by the vault.
    InsufficientBankFunds,
    /// The caller is not the owner of the addressed sub-account.
    InvalidOwner,
    /// The sub-account still holds a balance and cannot be closed.
    AccountNotEmpty,
    /// A checked addition would leave the 64-bit range.
    ArithmeticOverflow,
    /// A checked subtraction would go below zero.
    ArithmeticUnderflow,
    /// The value-transfer primitive refused the move.
    TransferFailed,
}

} // verus!
