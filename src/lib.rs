//! A custodial ledger: a shared vault holds pooled value, and one sub-account
//! per owner records that owner's claim on it. Deposits move value from the owner
//! into the vault and credit the sub-account; withdrawals debit the sub-account and
//! pay out of the vault, after checks of balance, solvency and ownership.

pub mod account;
pub mod error;
pub mod identity;
pub mod laws;
pub mod ledger;
pub mod table;
