use vstd::prelude::*;

use crate::error::BankError;
use crate::identity::Identity;

verus! {

/// The per-owner record of how much of the pooled value belongs to that owner.
#[derive(Clone, Copy, Debug, PartialEq, Eq)]
pub struct UserAccount {
    pub owner: Identity,
    pub deposit_amount: u64,
}

/// Result of a deposit of `amount` into `acct` issued by `caller`: the new balance,
/// or the first check that fails.
pub open spec fn deposit_outcome(acct: UserAccount, caller: Identity, amount: u64) -> Result<u64, BankError> {
    if caller != acct.owner {
        Err(BankError::InvalidOwner)
    } else if acct.deposit_amount + amount > u64::MAX {
        Err(BankError::ArithmeticOverflow)
    } else {
        Ok((acct.deposit_amount + amount) as u64)
    }
}

/// Result of a withdrawal of `amount` from `acct` issued by `caller`, with the vault
/// holding `vault_value`: the new balance, or the first check that fails.
pub open spec fn withdraw_outcome(acct: UserAccount, caller: Identity, amount: u64, vault_value: u64) -> Result<u64, BankError> {
    if amount > acct.deposit_amount {
        Err(BankError::InsufficientFunds)
    } else if amount > vault_value {
        Err(BankError::InsufficientBankFunds)
    } else if caller != acct.owner {
        Err(BankError::InvalidOwner)
    } else {
        Ok((acct.deposit_amount - amount) as u64)
    }
}

/// Result of closing `acct` at the request of `caller`.
pub open spec fn close_outcome(acct: UserAccount, caller: Identity) -> Result<(), BankError> {
    if acct.deposit_amount != 0 {
        Err(BankError::AccountNotEmpty)
    } else if caller != acct.owner {
        Err(BankError::InvalidOwner)
    } else {
        Ok(())
    }
}

impl UserAccount {
    /// A fresh sub-account for `owner`, with nothing deposited.
    pub fn new(owner: Identity) -> (r: UserAccount)
        ensures
            r.owner == owner,
            r.deposit_amount == 0,
    {
        UserAccount { owner, deposit_amount: 0 }
    }

    /// Validates a deposit and computes the balance it leaves, before any value moves.
    pub fn check_deposit(&self, caller: &Identity, amount: u64) -> (r: Result<u64, BankError>)
        ensures
            r == deposit_outcome(*self, *caller, amount),
    {
        if !caller.same_as(&self.owner) {
            return Err(BankError::InvalidOwner);
        }
        match self.deposit_amount.checked_add(amount) {
            Some(n) => Ok(n),
            None => Err(BankError::ArithmeticOverflow),
        }
    }

    /// Validates a withdrawal against the recorded balance, the vault's actual value
    /// and the owner, in that order, and computes the balance it leaves.
    pub fn check_withdraw(&self, caller: &Identity, amount: u64, vault_value: u64) -> (r: Result<u64, BankError>)
        ensures
            r == withdraw_outcome(*self, *caller, amount, vault_value),
    {
        if amount > self.deposit_amount {
            return Err(BankError::InsufficientFunds);
        }
        if amount > vault_value {
            return Err(BankError::InsufficientBankFunds);
        }
        if !caller.same_as(&self.owner) {
            return Err(BankError::InvalidOwner);
        }
        match self.deposit_amount.checked_sub(amount) {
            Some(n) => Ok(n),
            None => Err(BankError::ArithmeticUnderflow),
        }
    }

    /// Validates that the sub-account may be closed: it must be empty and the
    /// request must come from its owner.
    pub fn check_close(&self, caller: &Identity) -> (r: Result<(), BankError>)
        ensures
            r == close_outcome(*self, *caller),
    {
        if self.deposit_amount != 0 {
            return Err(BankError::AccountNotEmpty);
        }
        if !caller.same_as(&self.owner) {
            return Err(BankError::InvalidOwner);
        }
        Ok(())
    }
}

} // verus!
