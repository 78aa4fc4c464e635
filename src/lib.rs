//! World state of a single-node ledger: account balances, a block counter
//! and per-account nonces, with verified contracts for every state change.

pub mod accounts;
pub mod balances;
pub mod runtime;
pub mod system;
