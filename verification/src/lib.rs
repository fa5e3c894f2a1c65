//! A custodial marketplace ledger.
//!
//! The crate tracks fungible quote-currency balances and non-fungible token
//! deposits for a set of accounts, lets the owner of a deposited token list
//! it for sale at a fixed price, and lets any funded account buy a listed
//! token. Real assets never move here: an external custodian attests
//! deposits and drains the append-only withdrawal queues that the engine
//! produces.

pub mod engine;
pub mod keys;
pub mod laws;
pub mod model;
pub mod types;
