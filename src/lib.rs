//! Replays an ordered stream of transaction records into per-client account
//! balances, with exact fixed-point money and per-record error isolation.

pub mod errors;
pub mod ingest;
pub mod ledger;
pub mod metrics;
pub mod processor;
pub mod state;
pub mod store;
pub mod types;
