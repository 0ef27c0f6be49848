//! The settings of the quorum store.

use crate::config::consensus_config::MAX_SENDING_BLOCK_TXNS_QUORUM_STORE_OVERRIDE;
use vstd::prelude::*;

verus! {

/// When the quorum store holds back, and how fast it gives way.
#[derive(Clone, Copy, Debug, PartialEq, Eq, Structural)]
pub struct QuorumStoreBackPressureConfig {
    pub backlog_txn_limit_count: u64,
    pub backlog_per_validator_batch_limit_count: u64,
    pub decrease_duration_ms: u64,
    pub increase_duration_ms: u64,
    /// The fraction to decrease by, as the bits of a 64-bit IEEE 754 number.
    pub decrease_fraction_bits: u64,
    pub dynamic_min_txn_per_s: u64,
    pub dynamic_max_txn_per_s: u64,
}

impl QuorumStoreBackPressureConfig {
    /// The settings out of the box. The fraction to decrease by is one half.
    pub open spec fn spec_default() -> Self {
        QuorumStoreBackPressureConfig {
            backlog_txn_limit_count: 32000,
            backlog_per_validator_batch_limit_count: 4,
            decrease_duration_ms: 1000,
            increase_duration_ms: 1000,
            decrease_fraction_bits: 0x3fe0_0000_0000_0000,
            dynamic_min_txn_per_s: 160,
            dynamic_max_txn_per_s: 2000,
        }
    }
}

impl Default for QuorumStoreBackPressureConfig {
    fn default() -> (config: Self)
        ensures
            config == Self::spec_default(),
    {
        QuorumStoreBackPressureConfig {
            // The quorum store holds back once more transactions than this remain.
            backlog_txn_limit_count: MAX_SENDING_BLOCK_TXNS_QUORUM_STORE_OVERRIDE * 8,
            // It makes batches at the full rate until this number is reached.
            backlog_per_validator_batch_limit_count: 4,
            decrease_duration_ms: 1000,
            increase_duration_ms: 1000,
            decrease_fraction_bits: 0x3fe0_0000_0000_0000,
            dynamic_min_txn_per_s: 160,
            dynamic_max_txn_per_s: 2000,
        }
    }
}

/// The settings of the quorum store.
#[derive(Clone, Copy, Debug, PartialEq, Eq, Structural)]
pub struct QuorumStoreConfig {
    pub channel_size: usize,
    pub proof_timeout_ms: usize,
    pub batch_generation_poll_interval_ms: usize,
    pub batch_generation_min_non_empty_interval_ms: usize,
    pub batch_generation_max_interval_ms: usize,
    pub max_batch_bytes: usize,
    pub batch_request_num_peers: usize,
    pub batch_request_retry_limit: usize,
    pub batch_request_retry_interval_ms: usize,
    pub batch_request_rpc_timeout_ms: usize,
    /// The time from a batch's making to its expiry, in microseconds.
    pub batch_expiry_gap_when_init_usecs: u64,
    pub memory_quota: usize,
    pub db_quota: usize,
    pub batch_quota: usize,
    pub mempool_txn_pull_max_bytes: u64,
    pub back_pressure: QuorumStoreBackPressureConfig,
    pub num_workers_for_remote_batches: usize,
}

impl QuorumStoreConfig {
    /// The settings out of the box. A batch expires a minute after it was
    /// made.
    pub open spec fn spec_default() -> Self {
        QuorumStoreConfig {
            channel_size: 1000,
            proof_timeout_ms: 10000,
            batch_generation_poll_interval_ms: 25,
            batch_generation_min_non_empty_interval_ms: 200,
            batch_generation_max_interval_ms: 250,
            max_batch_bytes: 4194304,
            batch_request_num_peers: 5,
            batch_request_retry_limit: 10,
            batch_request_retry_interval_ms: 1000,
            batch_request_rpc_timeout_ms: 5000,
            batch_expiry_gap_when_init_usecs: 60_000_000,
            memory_quota: 120_000_000,
            db_quota: 300_000_000,
            batch_quota: 300_000,
            mempool_txn_pull_max_bytes: 4194304,
            back_pressure: QuorumStoreBackPressureConfig::spec_default(),
            num_workers_for_remote_batches: 10,
        }
    }
}

impl Default for QuorumStoreConfig {
    fn default() -> (config: Self)
        ensures
            config == Self::spec_default(),
    {
        QuorumStoreConfig {
            channel_size: 1000,
            proof_timeout_ms: 10000,
            batch_generation_poll_interval_ms: 25,
            batch_generation_min_non_empty_interval_ms: 200,
            batch_generation_max_interval_ms: 250,
            max_batch_bytes: 4 * 1024 * 1024,
            batch_request_num_peers: 5,
            batch_request_retry_limit: 10,
            batch_request_retry_interval_ms: 1000,
            batch_request_rpc_timeout_ms: 5000,
            batch_expiry_gap_when_init_usecs: 60 * 1_000_000,
            memory_quota: 120_000_000,
            db_quota: 300_000_000,
            batch_quota: 300_000,
            mempool_txn_pull_max_bytes: 4 * 1024 * 1024,
            back_pressure: QuorumStoreBackPressureConfig::default(),
            // The number of batch coordinators that handle batch messages: at least one.
            num_workers_for_remote_batches: 10,
        }
    }
}

} // verus!
