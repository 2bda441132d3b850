//! Reconciliation and ledger reconstruction for an Ark wallet.
//!
//! The crate decides which off-chain outputs are currently spendable, folds
//! them into a balance and merges on-chain and off-chain activity into one
//! chronologically ordered history.

pub mod arkcore;
pub mod balance;
pub mod client;
pub mod clock;
pub mod error;
pub mod history;
pub mod spendable;
pub mod types;
pub mod vtxo;
