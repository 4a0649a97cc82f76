//! Accumulates inference log records into bounded batches and plans their
//! submission to an on-chain registry in ledger-safe chunks.

pub mod address;
pub mod chunks;
pub mod config;
pub mod digest;
pub mod intake;
pub mod ledger;
pub mod models;
pub mod queue;
pub mod scheduler;
