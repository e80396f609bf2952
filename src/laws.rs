//! Properties of the ledger that hold for every state and every call.

use vstd::prelude::*;

use crate::error::BankError;
use crate::identity::Identity;
use crate::ledger::{Ledger, LedgerView};
use crate::table::map_total;

verus! {

/// Every well-formed ledger is conserved: the vault holds exactly the sum of the
/// deposit amounts of all sub-accounts. Every operation keeps the ledger well formed,
/// so this holds after any sequence of calls.
pub proof fn lemma_conservation(l: &Ledger)
    requires
        l.wf(),
    ensures
        l@.conserved(),
        l@.pooled == map_total(l@.accounts),
{
    l.lemma_wf_conserved();
}

/// A successful deposit keeps the pooled value equal to the sum of claims.
pub proof fn lemma_deposit_conserves(pre: LedgerView, post: LedgerView, caller: Identity, owner: Identity, amount: u64)
    requires
        pre.conserved(),
        LedgerView::deposit_effect(pre, post, caller, owner, amount),
    ensures
        post.conserved(),
{
}

/// A successful withdrawal keeps the pooled value equal to the sum of claims.
pub proof fn lemma_withdraw_conserves(pre: LedgerView, post: LedgerView, caller: Identity, owner: Identity, amount: u64)
    requires
        pre.conserved(),
        LedgerView::withdraw_effect(pre, post, caller, owner, amount),
    ensures
        post.conserved(),
{
}

/// In a well-formed ledger the vault covers every single claim, so a withdrawal within
/// the caller's own balance never meets the vault's check.
pub proof fn lemma_vault_covers_each_claim(l: &Ledger, owner: Identity)
    requires
        l.wf(),
        l@.accounts.contains_key(owner),
    ensures
        l@.accounts[owner] <= l@.pooled,
{
    l.lemma_claims_within_pool(owner);
}

/// A withdrawal of more than the recorded balance fails with `InsufficientFunds`
/// (and a failed call leaves the ledger unchanged).
pub proof fn lemma_overdraft_refused(v: LedgerView, caller: Identity, owner: Identity, amount: u64)
    requires
        v.accounts.contains_key(owner),
        amount > v.accounts[owner],
    ensures
        v.withdraw_result(caller, owner, amount) == Err::<(), BankError>(BankError::InsufficientFunds),
{
}

/// A deposit by the owner that would carry the balance past the 64-bit maximum fails
/// with `ArithmeticOverflow`, and so moves no value.
pub proof fn lemma_deposit_overflow_refused(v: LedgerView, owner: Identity, amount: u64)
    requires
        v.accounts.contains_key(owner),
        v.accounts[owner] + amount > u64::MAX,
    ensures
        v.deposit_result(owner, owner, amount) == Err::<(), BankError>(BankError::ArithmeticOverflow),
{
}

/// A deposit issued by anyone but the owner fails with `InvalidOwner`; so does a
/// withdrawal, whenever it is within the recorded balance (a larger one fails first
/// with `InsufficientFunds`).
pub proof fn lemma_foreign_caller_refused(l: &Ledger, caller: Identity, owner: Identity, amount: u64)
    requires
        l.wf(),
        l@.accounts.contains_key(owner),
        caller != owner,
    ensures
        l@.deposit_result(caller, owner, amount) == Err::<(), BankError>(BankError::InvalidOwner),
        amount <= l@.accounts[owner] ==> l@.withdraw_result(caller, owner, amount) == Err::<
            (),
            BankError,
        >(BankError::InvalidOwner),
{
    l.lemma_claims_within_pool(owner);
}

/// Creating the same sub-account a second time fails with `AlreadyInitialized`, and
/// the first creation's record stays as it was.
pub proof fn lemma_create_twice(pre: LedgerView, mid: LedgerView, owner: Identity)
    requires
        pre.create_result(owner) is Ok,
        LedgerView::create_effect(pre, mid, owner),
    ensures
        mid.create_result(owner) == Err::<(), BankError>(BankError::AlreadyInitialized),
        mid.accounts.contains_key(owner),
        mid.accounts[owner] == 0,
{
}

/// A sub-account with a nonzero balance cannot be closed.
pub proof fn lemma_close_refused_when_not_empty(v: LedgerView, owner: Identity)
    requires
        v.accounts.contains_key(owner),
        v.accounts[owner] != 0,
    ensures
        v.close_result(owner, owner) == Err::<(), BankError>(BankError::AccountNotEmpty),
{
}

/// Once the owner has withdrawn the whole balance, closing succeeds, and afterwards the
/// sub-account is gone.
pub proof fn lemma_close_after_emptying(pre: LedgerView, mid: LedgerView, post: LedgerView, owner: Identity)
    requires
        pre.accounts.contains_key(owner),
        pre.withdraw_result(owner, owner, pre.accounts[owner]) is Ok,
        LedgerView::withdraw_effect(pre, mid, owner, owner, pre.accounts[owner]),
        LedgerView::close_effect(mid, post, owner),
    ensures
        mid.close_result(owner, owner) == Ok::<(), BankError>(()),
        !post.accounts.contains_key(owner),
{
}

} // verus!
