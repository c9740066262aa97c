//! Ingestion core of a blockchain indexer: block and transaction records, the
//! columnar encoding of a batch of blocks, the storage writer's batching and
//! rotation decisions, the chain poller's fetch loop as a state machine, and
//! configuration resolution.

pub mod blocks;
pub mod columnar;
pub mod error;
pub mod naming;
pub mod config;
pub mod storage;
pub mod poller;
pub mod metrics;
