//! A ledger engine for client accounts: deposits, withdrawals, and the
//! dispute / resolve / chargeback life cycle of a deposit, with every state
//! transition specified over exact decimal values and proved.

pub mod account;
pub mod amount;
pub mod errors;
pub mod laws;
pub mod tx_engine;
