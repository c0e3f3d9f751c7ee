//! A small core-banking ledger: user accounts, bank-held vaults, an
//! append-only transaction log, account-to-account transfers, and
//! amortizing loans with scheduled principal and interest payments.
//!
//! Every operation that moves money is specified and verified: deposits
//! and withdrawals change the account and the vault by the same amount,
//! transfers are zero-sum, overdrafts are rejected without any state
//! change, and a settled loan payment reduces the loan balance by exactly
//! the principal and interest paid, never below zero.

pub mod account;
pub mod account_transaction;
pub mod amount;
pub mod bank;
pub mod bank_transaction;
pub mod db;
pub mod error;
pub mod loan;
pub mod types;
pub mod user;
pub mod vault;
