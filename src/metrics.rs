use vstd::prelude::*;
use crate::blocks::Block;

verus! {

/// The values recorded for one processed block.
#[derive(Debug, Clone, Copy, PartialEq, Eq)]
pub struct BlockMetrics {
    /// Added to the processed-blocks counter.
    pub blocks_increment: u64,
    /// Added to the processed-transactions counter.
    pub transactions_increment: u64,
    /// The latest block number gauge.
    pub latest_block_number: u64,
    /// The latest block timestamp gauge.
    pub latest_block_timestamp: u64,
    /// The transactions-in-block gauge.
    pub block_transaction_count: u64,
}

/// The values recorded for the poller's position against the chain.
#[derive(Debug, Clone, Copy, PartialEq, Eq)]
pub struct SyncStatus {
    pub current_block: u64,
    pub latest_block: u64,
    /// How far the cursor trails the chain head, zero when it does not.
    pub blocks_behind: u64,
}

/// Computes what the indexer reports to its metrics exporter, which is
/// served on `port`.
#[derive(Debug, Clone, Copy)]
pub struct MetricsCollector {
    port: u16,
}

impl MetricsCollector {
    /// A collector for an exporter on `port`.
    pub fn new(port: u16) -> (r: MetricsCollector)
        ensures
            r.port_spec() == port,
    {
        MetricsCollector { port }
    }

    pub closed spec fn port_spec(&self) -> u16 {
        self.port
    }

    /// The exporter's port.
    pub fn port(&self) -> (r: u16)
        ensures
            r == self.port_spec(),
    {
        self.port
    }

    /// The values for `block`: one more block, its transactions, its number,
    /// timestamp and transaction count.
    pub fn record_block(&self, block: &Block) -> (r: BlockMetrics)
        ensures
            r.blocks_increment == 1,
            r.transactions_increment == block.transactions@.len(),
            r.latest_block_number == block.number,
            r.latest_block_timestamp == block.timestamp,
            r.block_transaction_count == block.transactions@.len(),
    {
        let n = block.transactions.len() as u64;
        BlockMetrics {
            blocks_increment: 1,
            transactions_increment: n,
            latest_block_number: block.number,
            latest_block_timestamp: block.timestamp,
            block_transaction_count: n,
        }
    }

    /// The processing time, in nanoseconds, of work that started at
    /// `started_nanos` and ended at `now_nanos` on one monotonic clock; zero
    /// when the readings are out of order.
    pub fn record_processing_time(&self, started_nanos: u64, now_nanos: u64) -> (r: u64)
        ensures
            r == if now_nanos >= started_nanos { (now_nanos - started_nanos) as u64 } else { 0 },
    {
        now_nanos.saturating_sub(started_nanos)
    }

    /// The poller's position `current_block` against the chain head
    /// `latest_block`.
    pub fn record_sync_status(&self, current_block: u64, latest_block: u64) -> (r: SyncStatus)
        ensures
            r.current_block == current_block,
            r.latest_block == latest_block,
            r.blocks_behind == if latest_block >= current_block { (latest_block - current_block) as u64 } else { 0 },
    {
        SyncStatus {
            current_block,
            latest_block,
            blocks_behind: latest_block.saturating_sub(current_block),
        }
    }
}

} // verus!
