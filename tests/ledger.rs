use bank_ledger::account::UserAccount;
use bank_ledger::error::BankError;
use bank_ledger::identity::Identity;
use bank_ledger::ledger::{Ledger, Bank};

fn id(b: u8) -> Identity {
    Identity::new([b; 32])
}

/// A ledger where `owner` holds `funds` outside and has an open sub-account.
fn ledger_with(owner: &Identity, funds: u64) -> Ledger {
    let mut l = Ledger::new();
    l.credit_holder(owner, funds).unwrap();
    l.create_user_account(owner).unwrap();
    l
}

#[test]
fn identity_comparison_is_bytewise() {
    let mut bytes = [7u8; 32];
    let a = Identity::new(bytes);
    assert!(a.same_as(&Identity::new(bytes)));
    bytes[31] = 8;
    assert!(!a.same_as(&Identity::new(bytes)));
    bytes[31] = 7;
    bytes[0] = 0;
    assert!(!a.same_as(&Identity::new(bytes)));
}

#[test]
fn scenario_deposit_withdraw_close() {
    let a = id(1);
    let mut l = ledger_with(&a, 1000);
    assert_eq!(l.deposit(&a, &a, 100), Ok(()));
    assert_eq!(l.deposit(&a, &a, 50), Ok(()));
    assert_eq!(l.deposit_amount(&a), Some(150));
    assert_eq!(l.pooled_value(), 150);
    assert_eq!(l.holder_balance(&a), 850);
    assert_eq!(l.withdraw(&a, &a, 200), Err(BankError::InsufficientFunds));
    assert_eq!(l.deposit_amount(&a), Some(150));
    assert_eq!(l.pooled_value(), 150);
    assert_eq!(l.withdraw(&a, &a, 150), Ok(()));
    assert_eq!(l.deposit_amount(&a), Some(0));
    assert_eq!(l.pooled_value(), 0);
    assert_eq!(l.holder_balance(&a), 1000);
    assert_eq!(l.close_user_account(&a, &a), Ok(()));
    assert_eq!(l.deposit_amount(&a), None);
}

#[test]
fn pooled_value_is_sum_of_deposits() {
    let (a, b, c) = (id(1), id(2), id(3));
    let mut l = Ledger::new();
    for who in [&a, &b, &c] {
        l.credit_holder(who, 500).unwrap();
        l.create_user_account(who).unwrap();
    }
    l.deposit(&a, &a, 120).unwrap();
    l.deposit(&b, &b, 300).unwrap();
    l.withdraw(&a, &a, 20).unwrap();
    l.deposit(&c, &c, 7).unwrap();
    l.withdraw(&b, &b, 300).unwrap();
    let total = l.deposit_amount(&a).unwrap() + l.deposit_amount(&b).unwrap() + l.deposit_amount(&c).unwrap();
    assert_eq!(total, 107);
    assert_eq!(l.pooled_value(), total);
}

#[test]
fn overdraft_fails_and_changes_nothing() {
    let a = id(1);
    let mut l = ledger_with(&a, 40);
    l.deposit(&a, &a, 30).unwrap();
    assert_eq!(l.withdraw(&a, &a, 31), Err(BankError::InsufficientFunds));
    assert_eq!(l.deposit_amount(&a), Some(30));
    assert_eq!(l.pooled_value(), 30);
    assert_eq!(l.holder_balance(&a), 10);
}

#[test]
fn deposit_overflow_fails_and_moves_nothing() {
    let a = id(1);
    let mut l = ledger_with(&a, u64::MAX);
    l.deposit(&a, &a, u64::MAX - 10).unwrap();
    assert_eq!(l.deposit(&a, &a, 11), Err(BankError::ArithmeticOverflow));
    assert_eq!(l.deposit_amount(&a), Some(u64::MAX - 10));
    assert_eq!(l.pooled_value(), u64::MAX - 10);
    assert_eq!(l.holder_balance(&a), 10);
    assert_eq!(l.deposit(&a, &a, 10), Ok(()));
    assert_eq!(l.deposit_amount(&a), Some(u64::MAX));
}

#[test]
fn foreign_caller_is_refused() {
    let (a, b) = (id(1), id(2));
    let mut l = ledger_with(&a, 100);
    l.credit_holder(&b, 100).unwrap();
    l.deposit(&a, &a, 60).unwrap();
    assert_eq!(l.deposit(&b, &a, 10), Err(BankError::InvalidOwner));
    assert_eq!(l.withdraw(&b, &a, 10), Err(BankError::InvalidOwner));
    assert_eq!(l.deposit_amount(&a), Some(60));
    assert_eq!(l.pooled_value(), 60);
    assert_eq!(l.holder_balance(&b), 100);
    assert_eq!(l.holder_balance(&a), 40);
}

#[test]
fn withdraw_checks_balance_before_owner() {
    let (a, b) = (id(1), id(2));
    let mut l = ledger_with(&a, 100);
    l.deposit(&a, &a, 60).unwrap();
    assert_eq!(l.withdraw(&b, &a, 61), Err(BankError::InsufficientFunds));
}

#[test]
fn creating_twice_fails() {
    let a = id(1);
    let mut l = ledger_with(&a, 100);
    l.deposit(&a, &a, 25).unwrap();
    assert_eq!(l.create_user_account(&a), Err(BankError::AlreadyInitialized));
    assert_eq!(l.deposit_amount(&a), Some(25));
}

#[test]
fn close_requires_empty_account() {
    let a = id(1);
    let mut l = ledger_with(&a, 100);
    l.deposit(&a, &a, 5).unwrap();
    assert_eq!(l.close_user_account(&a, &a), Err(BankError::AccountNotEmpty));
    assert_eq!(l.deposit_amount(&a), Some(5));
    l.withdraw(&a, &a, 5).unwrap();
    assert_eq!(l.close_user_account(&a, &a), Ok(()));
    assert_eq!(l.user_account(&a), None);
    assert_eq!(l.deposit(&a, &a, 1), Err(BankError::AccountNotFound));
    assert_eq!(l.close_user_account(&a, &a), Err(BankError::AccountNotFound));
}

#[test]
fn close_by_foreign_caller_is_refused() {
    let (a, b) = (id(1), id(2));
    let mut l = ledger_with(&a, 100);
    assert_eq!(l.close_user_account(&b, &a), Err(BankError::InvalidOwner));
    assert_eq!(l.deposit_amount(&a), Some(0));
}

#[test]
fn initialize_once() {
    let (a, b) = (id(1), id(2));
    let mut l = Ledger::new();
    assert_eq!(l.vault(), None);
    assert_eq!(l.initialize(&a), Ok(()));
    assert_eq!(l.vault(), Some(Bank { authority: a }));
    assert_eq!(l.initialize(&b), Err(BankError::AlreadyInitialized));
    assert_eq!(l.vault(), Some(Bank { authority: a }));
}

#[test]
fn deposit_beyond_outside_funds_fails() {
    let a = id(1);
    let mut l = ledger_with(&a, 20);
    assert_eq!(l.deposit(&a, &a, 21), Err(BankError::TransferFailed));
    assert_eq!(l.deposit_amount(&a), Some(0));
    assert_eq!(l.pooled_value(), 0);
    assert_eq!(l.holder_balance(&a), 20);
}

#[test]
fn vault_overflow_fails_before_any_move() {
    let (a, b) = (id(1), id(2));
    let mut l = ledger_with(&a, u64::MAX);
    l.credit_holder(&b, 5).unwrap();
    l.create_user_account(&b).unwrap();
    l.deposit(&a, &a, u64::MAX).unwrap();
    assert_eq!(l.deposit(&b, &b, 1), Err(BankError::TransferFailed));
    assert_eq!(l.deposit_amount(&b), Some(0));
    assert_eq!(l.holder_balance(&b), 5);
}

#[test]
fn withdraw_to_full_holder_fails() {
    let a = id(1);
    let mut l = ledger_with(&a, 10);
    l.deposit(&a, &a, 10).unwrap();
    l.credit_holder(&a, u64::MAX).unwrap();
    assert_eq!(l.withdraw(&a, &a, 1), Err(BankError::TransferFailed));
    assert_eq!(l.deposit_amount(&a), Some(10));
    assert_eq!(l.pooled_value(), 10);
}

#[test]
fn credit_overflow_fails() {
    let a = id(1);
    let mut l = Ledger::new();
    l.credit_holder(&a, u64::MAX).unwrap();
    assert_eq!(l.credit_holder(&a, 1), Err(BankError::ArithmeticOverflow));
    assert_eq!(l.holder_balance(&a), u64::MAX);
}

#[test]
fn missing_account_is_reported() {
    let a = id(1);
    let mut l = Ledger::new();
    l.credit_holder(&a, 10).unwrap();
    assert_eq!(l.deposit(&a, &a, 1), Err(BankError::AccountNotFound));
    assert_eq!(l.withdraw(&a, &a, 1), Err(BankError::AccountNotFound));
    assert_eq!(l.deposit_amount(&a), None);
    assert_eq!(l.holder_balance(&id(9)), 0);
}

#[test]
fn sub_account_checks() {
    let (a, b) = (id(1), id(2));
    let acct = UserAccount { owner: a, deposit_amount: 150 };
    assert_eq!(UserAccount::new(a), UserAccount { owner: a, deposit_amount: 0 });
    assert_eq!(acct.check_deposit(&a, 50), Ok(200));
    assert_eq!(acct.check_deposit(&b, 50), Err(BankError::InvalidOwner));
    assert_eq!(acct.check_deposit(&a, u64::MAX - 149), Err(BankError::ArithmeticOverflow));
    assert_eq!(acct.check_deposit(&a, u64::MAX - 150), Ok(u64::MAX));
    assert_eq!(acct.check_withdraw(&a, 150, 150), Ok(0));
    assert_eq!(acct.check_withdraw(&a, 40, 1000), Ok(110));
    assert_eq!(acct.check_withdraw(&a, 151, 1000), Err(BankError::InsufficientFunds));
    assert_eq!(acct.check_withdraw(&a, 100, 99), Err(BankError::InsufficientBankFunds));
    assert_eq!(acct.check_withdraw(&b, 100, 1000), Err(BankError::InvalidOwner));
    assert_eq!(acct.check_withdraw(&b, 100, 99), Err(BankError::InsufficientBankFunds));
    assert_eq!(acct.check_close(&a), Err(BankError::AccountNotEmpty));
    let empty = UserAccount::new(a);
    assert_eq!(empty.check_close(&a), Ok(()));
    assert_eq!(empty.check_close(&b), Err(BankError::InvalidOwner));
}
