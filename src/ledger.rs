use vstd::prelude::*;

use crate::account::{UserAccount, close_outcome, deposit_outcome, withdraw_outcome};
use crate::error::BankError;
use crate::identity::Identity;
use crate::table::{BalanceTable, map_total};

verus! {

/// The vault record: who was recorded as its authority when it was set up.
#[derive(Clone, Copy, Debug, PartialEq, Eq)]
pub struct Bank {
    pub authority: Identity,
}

/// The abstract state of a ledger.
pub struct LedgerView {
    /// The vault record, once initialized.
    pub vault: Option<Bank>,
    /// The value actually held by the vault.
    pub pooled: u64,
    /// The value held by each outside holder; a holder that is absent holds nothing.
    pub holders: Map<Identity, u64>,
    /// The sub-accounts, by owner, with their deposit amounts.
    pub accounts: Map<Identity, u64>,
    /// The sum of all deposit amounts.
    pub claims: int,
}

impl LedgerView {
    /// What `id` holds outside the ledger.
    pub open spec fn holder_value(self, id: Identity) -> u64 {
        if self.holders.contains_key(id) {
            self.holders[id]
        } else {
            0
        }
    }

    /// The sub-account of `owner`, as the record the checks read.
    pub open spec fn user_account(self, owner: Identity) -> UserAccount {
        UserAccount { owner, deposit_amount: self.accounts[owner] }
    }

    /// The pooled value equals the sum of all claims on it.
    pub open spec fn conserved(self) -> bool {
        self.pooled == self.claims
    }

    /// The vault record can be written once.
    pub open spec fn initialize_result(self) -> Result<(), BankError> {
        if self.vault.is_some() {
            Err(BankError::AlreadyInitialized)
        } else {
            Ok(())
        }
    }

    /// A sub-account can be created once per owner.
    pub open spec fn create_result(self, owner: Identity) -> Result<(), BankError> {
        if self.accounts.contains_key(owner) {
            Err(BankError::AlreadyInitialized)
        } else {
            Ok(())
        }
    }

    /// The checks of a deposit, then the transfer from the caller into the vault.
    pub open spec fn deposit_result(self, caller: Identity, owner: Identity, amount: u64) -> Result<(), BankError> {
        if !self.accounts.contains_key(owner) {
            Err(BankError::AccountNotFound)
        } else {
            match deposit_outcome(self.user_account(owner), caller, amount) {
                Err(e) => Err(e),
                Ok(_) => if self.holder_value(caller) < amount || self.pooled + amount > u64::MAX {
                    Err(BankError::TransferFailed)
                } else {
                    Ok(())
                },
            }
        }
    }

    /// The checks of a withdrawal, then the transfer from the vault to the caller.
    pub open spec fn withdraw_result(self, caller: Identity, owner: Identity, amount: u64) -> Result<(), BankError> {
        if !self.accounts.contains_key(owner) {
            Err(BankError::AccountNotFound)
        } else {
            match withdraw_outcome(self.user_account(owner), caller, amount, self.pooled) {
                Err(e) => Err(e),
                Ok(_) => if self.holder_value(caller) + amount > u64::MAX {
                    Err(BankError::TransferFailed)
                } else {
                    Ok(())
                },
            }
        }
    }

    /// The checks of closing the sub-account of `owner` at the request of `caller`.
    pub open spec fn close_result(self, caller: Identity, owner: Identity) -> Result<(), BankError> {
        if !self.accounts.contains_key(owner) {
            Err(BankError::AccountNotFound)
        } else {
            close_outcome(self.user_account(owner), caller)
        }
    }

    /// Crediting an outside holder fails only where its value would leave the 64-bit range.
    pub open spec fn credit_result(self, holder: Identity, amount: u64) -> Result<(), BankError> {
        if self.holder_value(holder) + amount > u64::MAX {
            Err(BankError::ArithmeticOverflow)
        } else {
            Ok(())
        }
    }

    /// Every holder but `id` keeps its value, and `id` now holds `value`.
    pub open spec fn holders_changed_at(pre: LedgerView, post: LedgerView, id: Identity, value: int) -> bool {
        forall|x: Identity| #[trigger] post.holder_value(x) == if x == id {
            value
        } else {
            pre.holder_value(x) as int
        }
    }

    /// What a successful `initialize` by `authority` leaves.
    pub open spec fn initialize_effect(pre: LedgerView, post: LedgerView, authority: Identity) -> bool {
        post == LedgerView { vault: Some(Bank { authority }), ..pre }
    }

    /// What a successful `create_user_account` by `owner` leaves.
    pub open spec fn create_effect(pre: LedgerView, post: LedgerView, owner: Identity) -> bool {
        post == LedgerView { accounts: pre.accounts.insert(owner, 0), ..pre }
    }

    /// What a successful deposit of `amount` by `caller` into the sub-account of `owner` leaves:
    /// the value leaves the caller, enters the vault, and is credited to that sub-account.
    pub open spec fn deposit_effect(pre: LedgerView, post: LedgerView, caller: Identity, owner: Identity, amount: u64) -> bool {
        &&& post.vault == pre.vault
        &&& post.pooled == pre.pooled + amount
        &&& post.accounts == pre.accounts.insert(owner, (pre.accounts[owner] + amount) as u64)
        &&& post.claims == pre.claims + amount
        &&& LedgerView::holders_changed_at(pre, post, caller, pre.holder_value(caller) - amount)
    }

    /// What a successful withdrawal of `amount` by `caller` from the sub-account of `owner`
    /// leaves: the value leaves the vault, reaches the caller, and is debited from that sub-account.
    pub open spec fn withdraw_effect(pre: LedgerView, post: LedgerView, caller: Identity, owner: Identity, amount: u64) -> bool {
        &&& post.vault == pre.vault
        &&& post.pooled == pre.pooled - amount
        &&& post.accounts == pre.accounts.insert(owner, (pre.accounts[owner] - amount) as u64)
        &&& post.claims == pre.claims - amount
        &&& LedgerView::holders_changed_at(pre, post, caller, pre.holder_value(caller) + amount)
    }

    /// What a successful close of the sub-account of `owner` leaves.
    pub open spec fn close_effect(pre: LedgerView, post: LedgerView, owner: Identity) -> bool {
        post == LedgerView { accounts: pre.accounts.remove(owner), ..pre }
    }

    /// What crediting `amount` from outside the ledger to `holder` leaves.
    pub open spec fn credit_effect(pre: LedgerView, post: LedgerView, holder: Identity, amount: u64) -> bool {
        &&& post.vault == pre.vault
        &&& post.pooled == pre.pooled
        &&& post.accounts == pre.accounts
        &&& post.claims == pre.claims
        &&& LedgerView::holders_changed_at(pre, post, holder, pre.holder_value(holder) + amount)
    }
}

/// The ledger engine: the vault, the value held by outside holders, and the sub-accounts.
pub struct Ledger {
    vault: Option<Bank>,
    pooled: u64,
    holders: BalanceTable,
    accounts: BalanceTable,
}

impl View for Ledger {
    type V = LedgerView;

    closed spec fn view(&self) -> LedgerView {
        LedgerView {
            vault: self.vault,
            pooled: self.pooled,
            holders: self.holders@,
            accounts: self.accounts@,
            claims: self.accounts.total(),
        }
    }
}

impl Ledger {
    /// Both tables are well formed and the vault holds exactly the sum of all claims.
    pub closed spec fn wf(&self) -> bool {
        &&& self.holders.wf()
        &&& self.accounts.wf()
        &&& self@.conserved()
    }

    /// A well-formed ledger is conserved, and its claims are the sum of the deposit
    /// amounts of all sub-accounts.
    pub proof fn lemma_wf_conserved(&self)
        requires
            self.wf(),
        ensures
            self@.conserved(),
            self@.claims == map_total(self@.accounts),
    {
        self.accounts.lemma_total_is_map_total();
    }

    /// In a well-formed ledger no single claim exceeds the pooled value.
    pub proof fn lemma_claims_within_pool(&self, owner: Identity)
        requires
            self.wf(),
            self@.accounts.contains_key(owner),
        ensures
            self@.accounts[owner] <= self@.pooled,
    {
        self.accounts.lemma_row_within_total(owner);
    }

    /// A ledger with no vault record, no holders and no sub-accounts.
    pub fn new() -> (r: Ledger)
        ensures
            r.wf(),
            r@.vault is None,
            r@.pooled == 0,
            r@.holders == Map::<Identity, u64>::empty(),
            r@.accounts == Map::<Identity, u64>::empty(),
            r@.claims == 0,
    {
        Ledger { vault: None, pooled: 0, holders: BalanceTable::new(), accounts: BalanceTable::new() }
    }

    /// What `id` holds outside the ledger.
    pub fn holder_balance(&self, id: &Identity) -> (r: u64)
        requires
            self.wf(),
        ensures
            r == self@.holder_value(*id),
    {
        match self.holders.get(id) {
            Some(v) => v,
            None => 0,
        }
    }

    /// Sets what `id` holds outside the ledger, adding a row for it if it has none.
    fn set_holder(&mut self, id: &Identity, value: u64)
        requires
            old(self).holders.wf(),
        ensures
            final(self).holders.wf(),
            final(self).vault == old(self).vault,
            final(self).pooled == old(self).pooled,
            final(self).accounts == old(self).accounts,
            LedgerView::holders_changed_at(old(self)@, final(self)@, *id, value as int),
    {
        if self.holders.get(id).is_some() {
            self.holders.set(id, value);
        } else {
            self.holders.insert_new(*id, value);
        }
    }

    /// Records the vault once, with `authority` as its authority.
    pub fn initialize(&mut self, authority: &Identity) -> (r: Result<(), BankError>)
        requires
            old(self).wf(),
        ensures
            final(self).wf(),
            r == old(self)@.initialize_result(),
            r is Ok ==> LedgerView::initialize_effect(old(self)@, final(self)@, *authority),
            r is Err ==> *final(self) == *old(self),
    {
        if self.vault.is_some() {
            return Err(BankError::AlreadyInitialized);
        }
        self.vault = Some(Bank { authority: *authority });
        Ok(())
    }

    /// Opens the sub-account of `owner` with nothing deposited; an existing one is never reset.
    pub fn create_user_account(&mut self, owner: &Identity) -> (r: Result<(), BankError>)
        requires
            old(self).wf(),
        ensures
            final(self).wf(),
            r == old(self)@.create_result(*owner),
            r is Ok ==> LedgerView::create_effect(old(self)@, final(self)@, *owner),
            r is Err ==> *final(self) == *old(self),
    {
        if self.accounts.get(owner).is_some() {
            return Err(BankError::AlreadyInitialized);
        }
        let created = UserAccount::new(*owner);
        self.accounts.insert_new(created.owner, created.deposit_amount);
        Ok(())
    }

    /// The sub-account of `owner`, if it is open.
    pub fn user_account(&self, owner: &Identity) -> (r: Option<UserAccount>)
        requires
            self.wf(),
        ensures
            r == (if self@.accounts.contains_key(*owner) {
                Some(self@.user_account(*owner))
            } else {
                None::<UserAccount>
            }),
    {
        match self.accounts.get(owner) {
            Some(amount) => Some(UserAccount { owner: *owner, deposit_amount: amount }),
            None => None,
        }
    }

    /// Moves `amount` from `caller` into the vault and credits it to the sub-account of
    /// `owner`. Every check, the overflow check included, comes before any value moves.
    pub fn deposit(&mut self, caller: &Identity, owner: &Identity, amount: u64) -> (r: Result<(), BankError>)
        requires
            old(self).wf(),
        ensures
            final(self).wf(),
            r == old(self)@.deposit_result(*caller, *owner, amount),
            r is Ok ==> LedgerView::deposit_effect(old(self)@, final(self)@, *caller, *owner, amount),
            r is Err ==> *final(self) == *old(self),
    {
        let account = match self.user_account(owner) {
            Some(a) => a,
            None => return Err(BankError::AccountNotFound),
        };
        let new_balance = match account.check_deposit(caller, amount) {
            Ok(n) => n,
            Err(e) => return Err(e),
        };
        let available = self.holder_balance(caller);
        if available < amount {
            return Err(BankError::TransferFailed);
        }
        let new_pooled = match self.pooled.checked_add(amount) {
            Some(p) => p,
            None => return Err(BankError::TransferFailed),
        };
        let ghost pre = self@;
        self.set_holder(caller, available - amount);
        let ghost mid = self@;
        self.pooled = new_pooled;
        self.accounts.set(owner, new_balance);
        assert forall|x: Identity| #[trigger] self@.holder_value(x) == mid.holder_value(x) by {}
        assert(self@.accounts == pre.accounts.insert(*owner, (pre.accounts[*owner] + amount) as u64));
        Ok(())
    }

    /// Debits the sub-account of `owner` by `amount` and pays it out of the vault to `caller`,
    /// after checking the recorded balance, the vault's value and the owner, in that order.
    pub fn withdraw(&mut self, caller: &Identity, owner: &Identity, amount: u64) -> (r: Result<(), BankError>)
        requires
            old(self).wf(),
        ensures
            final(self).wf(),
            r == old(self)@.withdraw_result(*caller, *owner, amount),
            r is Ok ==> LedgerView::withdraw_effect(old(self)@, final(self)@, *caller, *owner, amount),
            r is Err ==> *final(self) == *old(self),
    {
        let account = match self.user_account(owner) {
            Some(a) => a,
            None => return Err(BankError::AccountNotFound),
        };
        let new_balance = match account.check_withdraw(caller, amount, self.pooled) {
            Ok(n) => n,
            Err(e) => return Err(e),
        };
        let held = self.holder_balance(caller);
        let new_held = match held.checked_add(amount) {
            Some(h) => h,
            None => return Err(BankError::TransferFailed),
        };
        let ghost pre = self@;
        self.pooled = self.pooled - amount;
        self.set_holder(caller, new_held);
        let ghost mid = self@;
        self.accounts.set(owner, new_balance);
        assert forall|x: Identity| #[trigger] self@.holder_value(x) == mid.holder_value(x) by {}
        assert(self@.accounts == pre.accounts.insert(*owner, (pre.accounts[*owner] - amount) as u64));
        Ok(())
    }

    /// Closes the sub-account of `owner`, which must be empty; no value moves.
    pub fn close_user_account(&mut self, caller: &Identity, owner: &Identity) -> (r: Result<(), BankError>)
        requires
            old(self).wf(),
        ensures
            final(self).wf(),
            r == old(self)@.close_result(*caller, *owner),
            r is Ok ==> LedgerView::close_effect(old(self)@, final(self)@, *owner),
            r is Err ==> *final(self) == *old(self),
    {
        let account = match self.user_account(owner) {
            Some(a) => a,
            None => return Err(BankError::AccountNotFound),
        };
        match account.check_close(caller) {
            Ok(()) => {},
            Err(e) => return Err(e),
        }
        self.accounts.remove(owner);
        Ok(())
    }

    /// Credits `amount` to `holder` from outside the ledger, as the host does when value
    /// arrives at a holder by other means.
    pub fn credit_holder(&mut self, holder: &Identity, amount: u64) -> (r: Result<(), BankError>)
        requires
            old(self).wf(),
        ensures
            final(self).wf(),
            r == old(self)@.credit_result(*holder, amount),
            r is Ok ==> LedgerView::credit_effect(old(self)@, final(self)@, *holder, amount),
            r is Err ==> *final(self) == *old(self),
    {
        let held = self.holder_balance(holder);
        let new_held = match held.checked_add(amount) {
            Some(h) => h,
            None => return Err(BankError::ArithmeticOverflow),
        };
        self.set_holder(holder, new_held);
        Ok(())
    }

    /// The value held by the vault.
    pub fn pooled_value(&self) -> (r: u64)
        ensures
            r == self@.pooled,
    {
        self.pooled
    }

    /// The recorded deposit of `owner`, if the sub-account is open.
    pub fn deposit_amount(&self, owner: &Identity) -> (r: Option<u64>)
        requires
            self.wf(),
        ensures
            r == (if self@.accounts.contains_key(*owner) {
                Some(self@.accounts[*owner])
            } else {
                None::<u64>
            }),
    {
        self.accounts.get(owner)
    }

    /// The vault record, once initialized.
    pub fn vault(&self) -> (r: Option<Bank>)
        ensures
            r == self@.vault,
    {
        self.vault
    }
}

} // verus!
