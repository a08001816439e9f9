//! A small banking ledger for a fixed set of customers.
//!
//! The ledger accepts debit and credit transactions against a customer's
//! balance, enforces a per-customer overdraft limit, and serves a statement
//! of the most recent transactions together with the current balance.
//! The core is the atomic "apply transaction, enforce limit, record history"
//! operation and the consistent statement read; both are verified here
//! against an explicit model of the store.

pub mod laws;
pub mod ledger;
pub mod structs;
pub mod validate;
