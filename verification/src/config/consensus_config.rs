//! The settings of consensus.

use crate::config::config_sanitizer::{Error, RoleType, Sanitizer, SanitizerFailure};
use crate::config::quorum_store_config::QuorumStoreConfig;
use crate::config::safety_rules_config::{backend_in_dir, safety_rules_fault, SafetyRulesConfig};
use vstd::prelude::*;

verus! {

pub const MAX_SENDING_BLOCK_TXNS_QUORUM_STORE_OVERRIDE: u64 = 4000;

/// The limits on a proposed block while the pipeline lags by at least a
/// given latency.
#[derive(Clone, Copy, Debug, PartialEq, Eq, Structural)]
pub struct PipelineBackpressureValues {
    pub back_pressure_pipeline_latency_limit_ms: u64,
    pub max_sending_block_txns_override: u64,
    pub max_sending_block_bytes_override: u64,
    /// The delay of a proposal under backpressure: room to work through the
    /// backlog, small enough for the proposer to finish the round in time.
    pub backpressure_proposal_delay_ms: u64,
}

/// The limits on a proposed block while less than a given share of the
/// voting power takes part.
#[derive(Clone, Copy, Debug, PartialEq, Eq, Structural)]
pub struct ChainHealthBackoffValues {
    pub backoff_if_below_participating_voting_power_percentage: usize,
    pub max_sending_block_txns_override: u64,
    pub max_sending_block_bytes_override: u64,
}

/// The settings of consensus.
#[derive(Clone, Debug, PartialEq, Eq)]
pub struct ConsensusConfig {
    /// The length of the inbound queue of messages.
    pub max_network_channel_size: usize,
    // The getters give the four limits with or without the quorum store.
    pub max_sending_block_txns: u64,
    pub max_sending_block_txns_quorum_store_override: u64,
    pub max_sending_block_bytes: u64,
    pub max_sending_block_bytes_quorum_store_override: u64,
    pub max_receiving_block_txns: u64,
    pub max_receiving_block_txns_quorum_store_override: u64,
    pub max_receiving_block_bytes: u64,
    pub max_receiving_block_bytes_quorum_store_override: u64,
    pub max_pruned_blocks_in_mem: usize,
    /// How long consensus waits for mempool to acknowledge executed
    /// transactions, in milliseconds.
    pub mempool_executed_txn_timeout_ms: u64,
    /// How long consensus waits for transactions pulled from mempool, in
    /// milliseconds.
    pub mempool_txn_pull_timeout_ms: u64,
    pub round_initial_timeout_ms: u64,
    /// The base of the round timeout's backoff, as the bits of a 64-bit
    /// IEEE 754 number.
    pub round_timeout_backoff_exponent_base_bits: u64,
    pub round_timeout_backoff_max_exponent: usize,
    pub safety_rules: SafetyRulesConfig,
    /// Sync committed transactions only, and vote for no pending block.
    pub sync_only: bool,
    pub channel_size: usize,
    pub quorum_store_pull_timeout_ms: u64,
    /// How long the leader waits before it proposes an empty block.
    pub quorum_store_poll_time_ms: u64,
    /// Wait for a full block only while more blocks than this are pending.
    pub wait_for_full_blocks_above_pending_blocks: usize,
    /// Wait for a full block only while recent blocks were fuller than this,
    /// given as the bits of a 32-bit IEEE 754 number.
    pub wait_for_full_blocks_above_recent_fill_threshold_bits: u32,
    pub intra_consensus_channel_buffer_size: usize,
    pub quorum_store_configs: QuorumStoreConfig,
    pub vote_back_pressure_limit: u64,
    pub pipeline_backpressure: Vec<PipelineBackpressureValues>,
    /// The window over which the chain's health is judged.
    pub window_for_chain_health: usize,
    pub chain_health_backoff: Vec<ChainHealthBackoffValues>,
}

/// The steps of pipeline backpressure out of the box.
pub open spec fn default_pipeline_backpressure() -> Seq<PipelineBackpressureValues> {
    seq![
        PipelineBackpressureValues {
            back_pressure_pipeline_latency_limit_ms: 1000,
            max_sending_block_txns_override: 10000,
            max_sending_block_bytes_override: 5120000,
            backpressure_proposal_delay_ms: 100,
        },
        PipelineBackpressureValues {
            back_pressure_pipeline_latency_limit_ms: 1500,
            max_sending_block_txns_override: 10000,
            max_sending_block_bytes_override: 5120000,
            backpressure_proposal_delay_ms: 200,
        },
        PipelineBackpressureValues {
            back_pressure_pipeline_latency_limit_ms: 2000,
            max_sending_block_txns_override: 10000,
            max_sending_block_bytes_override: 5120000,
            backpressure_proposal_delay_ms: 300,
        },
        PipelineBackpressureValues {
            back_pressure_pipeline_latency_limit_ms: 2500,
            max_sending_block_txns_override: 2000,
            max_sending_block_bytes_override: 512000,
            backpressure_proposal_delay_ms: 300,
        },
        PipelineBackpressureValues {
            back_pressure_pipeline_latency_limit_ms: 4000,
            max_sending_block_txns_override: 500,
            max_sending_block_bytes_override: 102400,
            backpressure_proposal_delay_ms: 300,
        },
    ]
}

/// The steps of chain-health backoff out of the box.
pub open spec fn default_chain_health_backoff() -> Seq<ChainHealthBackoffValues> {
    seq![
        ChainHealthBackoffValues {
            backoff_if_below_participating_voting_power_percentage: 80,
            max_sending_block_txns_override: 2000,
            max_sending_block_bytes_override: 512000,
        },
        ChainHealthBackoffValues {
            backoff_if_below_participating_voting_power_percentage: 77,
            max_sending_block_txns_override: 1000,
            max_sending_block_bytes_override: 256000,
        },
        ChainHealthBackoffValues {
            backoff_if_below_participating_voting_power_percentage: 75,
            max_sending_block_txns_override: 400,
            max_sending_block_bytes_override: 102400,
        },
        ChainHealthBackoffValues {
            backoff_if_below_participating_voting_power_percentage: 72,
            max_sending_block_txns_override: 200,
            max_sending_block_bytes_override: 102400,
        },
        ChainHealthBackoffValues {
            backoff_if_below_participating_voting_power_percentage: 69,
            max_sending_block_txns_override: 100,
            max_sending_block_bytes_override: 102400,
        },
    ]
}

impl Default for ConsensusConfig {
    fn default() -> (config: ConsensusConfig)
        ensures
            config.max_network_channel_size == 1024,
            config.max_sending_block_txns == 2500,
            config.max_sending_block_txns_quorum_store_override == 4000,
            config.max_sending_block_bytes == 614400,
            config.max_sending_block_bytes_quorum_store_override == 5242880,
            config.max_receiving_block_txns == 10000,
            config.max_receiving_block_txns_quorum_store_override == 8000,
            config.max_receiving_block_bytes == 3145728,
            config.max_receiving_block_bytes_quorum_store_override == 6291456,
            config.max_pruned_blocks_in_mem == 100,
            config.mempool_executed_txn_timeout_ms == 1000,
            config.mempool_txn_pull_timeout_ms == 1000,
            config.round_initial_timeout_ms == 1500,
            config.round_timeout_backoff_exponent_base_bits == 0x3ff3_3333_3333_3333,
            config.round_timeout_backoff_max_exponent == 6,
            !config.sync_only,
            config.channel_size == 30,
            config.quorum_store_pull_timeout_ms == 400,
            config.quorum_store_poll_time_ms == 300,
            config.wait_for_full_blocks_above_pending_blocks == 100,
            config.wait_for_full_blocks_above_recent_fill_threshold_bits == 0x3f8c_cccd,
            config.intra_consensus_channel_buffer_size == 10,
            config.quorum_store_configs == QuorumStoreConfig::spec_default(),
            config.vote_back_pressure_limit == 30,
            config.pipeline_backpressure@ == default_pipeline_backpressure(),
            config.window_for_chain_health == 100,
            config.chain_health_backoff@ == default_chain_health_backoff(),
            safety_rules_fault(config.safety_rules, RoleType::Validator, true) == Some(
                SanitizerFailure::InMemoryBackendInMainnet,
            ),
            safety_rules_fault(config.safety_rules, RoleType::Validator, false) == Some(
                SanitizerFailure::InitialSafetyRulesMissing,
            ),
    {
        let config = ConsensusConfig {
            max_network_channel_size: 1024,
            max_sending_block_txns: 2500,
            max_sending_block_txns_quorum_store_override:
                MAX_SENDING_BLOCK_TXNS_QUORUM_STORE_OVERRIDE,
            // Under half a second to broadcast the proposal to 100 validators
            // over a 1 Gbps link: 600 KB.
            max_sending_block_bytes: 600 * 1024,
            max_sending_block_bytes_quorum_store_override: 5 * 1024 * 1024,
            max_receiving_block_txns: 10000,
            max_receiving_block_txns_quorum_store_override: 2
                * MAX_SENDING_BLOCK_TXNS_QUORUM_STORE_OVERRIDE,
            max_receiving_block_bytes: 3 * 1024 * 1024,
            max_receiving_block_bytes_quorum_store_override: 6 * 1024 * 1024,
            max_pruned_blocks_in_mem: 100,
            mempool_executed_txn_timeout_ms: 1000,
            mempool_txn_pull_timeout_ms: 1000,
            round_initial_timeout_ms: 1500,
            // 1.2: the timeout triples in six steps.
            round_timeout_backoff_exponent_base_bits: 0x3ff3_3333_3333_3333,
            round_timeout_backoff_max_exponent: 6,
            safety_rules: SafetyRulesConfig::default(),
            sync_only: false,
            channel_size: 30,
            quorum_store_pull_timeout_ms: 400,
            quorum_store_poll_time_ms: 300,
            // More pending blocks than ever occur: waiting is switched off.
            wait_for_full_blocks_above_pending_blocks: 100,
            // 1.1, above the fullest a block can be: switched off.
            wait_for_full_blocks_above_recent_fill_threshold_bits: 0x3f8c_cccd,
            intra_consensus_channel_buffer_size: 10,
            quorum_store_configs: QuorumStoreConfig::default(),
            // Voting backpressure is a backup: it keeps the pending rounds
            // bounded and tells when to go to state sync.
            vote_back_pressure_limit: 30,
            pipeline_backpressure: vec![
                PipelineBackpressureValues {
                    back_pressure_pipeline_latency_limit_ms: 1000,
                    max_sending_block_txns_override: 10000,
                    max_sending_block_bytes_override: 5000 * 1024,
                    backpressure_proposal_delay_ms: 100,
                },
                PipelineBackpressureValues {
                    back_pressure_pipeline_latency_limit_ms: 1500,
                    max_sending_block_txns_override: 10000,
                    max_sending_block_bytes_override: 5000 * 1024,
                    backpressure_proposal_delay_ms: 200,
                },
                PipelineBackpressureValues {
                    back_pressure_pipeline_latency_limit_ms: 2000,
                    max_sending_block_txns_override: 10000,
                    max_sending_block_bytes_override: 5000 * 1024,
                    backpressure_proposal_delay_ms: 300,
                },
                PipelineBackpressureValues {
                    back_pressure_pipeline_latency_limit_ms: 2500,
                    max_sending_block_txns_override: 2000,
                    max_sending_block_bytes_override: 500 * 1024,
                    backpressure_proposal_delay_ms: 300,
                },
                PipelineBackpressureValues {
                    back_pressure_pipeline_latency_limit_ms: 4000,
                    max_sending_block_txns_override: 500,
                    max_sending_block_bytes_override: 100 * 1024,
                    backpressure_proposal_delay_ms: 300,
                },
            ],
            window_for_chain_health: 100,
            chain_health_backoff: vec![
                ChainHealthBackoffValues {
                    backoff_if_below_participating_voting_power_percentage: 80,
                    max_sending_block_txns_override: 2000,
                    max_sending_block_bytes_override: 500 * 1024,
                },
                ChainHealthBackoffValues {
                    backoff_if_below_participating_voting_power_percentage: 77,
                    max_sending_block_txns_override: 1000,
                    max_sending_block_bytes_override: 250 * 1024,
                },
                ChainHealthBackoffValues {
                    backoff_if_below_participating_voting_power_percentage: 75,
                    max_sending_block_txns_override: 400,
                    max_sending_block_bytes_override: 100 * 1024,
                },
                ChainHealthBackoffValues {
                    backoff_if_below_participating_voting_power_percentage: 72,
                    max_sending_block_txns_override: 200,
                    // No smaller, so that a large transaction still goes through.
                    max_sending_block_bytes_override: 100 * 1024,
                },
                ChainHealthBackoffValues {
                    backoff_if_below_participating_voting_power_percentage: 69,
                    max_sending_block_txns_override: 100,
                    max_sending_block_bytes_override: 100 * 1024,
                },
            ],
        };
        proof {
            assert(config.pipeline_backpressure@ =~= default_pipeline_backpressure());
            assert(config.chain_health_backoff@ =~= default_chain_health_backoff());
        }
        config
    }
}

/// A node's configuration.
#[derive(Clone, Debug, PartialEq, Eq)]
pub struct NodeConfig {
    pub consensus: ConsensusConfig,
}

/// What is wrong with consensus settings: a fault of the safety rules, or
/// the consensus-only performance test on mainnet.
pub open spec fn consensus_fault(
    config: ConsensusConfig,
    node_role: RoleType,
    is_mainnet: bool,
    consensus_only_perf_test: bool,
) -> Option<Error> {
    match safety_rules_fault(config.safety_rules, node_role, is_mainnet) {
        Some(failure) => Some(Error::ConfigSanitizerFailed(Sanitizer::SafetyRulesConfig, failure)),
        None => if is_mainnet && consensus_only_perf_test {
            Some(
                Error::ConfigSanitizerFailed(
                    Sanitizer::ConsensusConfig,
                    SanitizerFailure::ConsensusOnlyPerfTestInMainnet,
                ),
            )
        } else {
            None
        },
    }
}

impl ConsensusConfig {
    /// Moves the safety rules' backend, where it lives on disk, to
    /// `data_dir`.
    pub fn set_data_dir(&mut self, data_dir: String)
        ensures
            *final(self) == (ConsensusConfig {
                safety_rules: SafetyRulesConfig {
                    backend: backend_in_dir(old(self).safety_rules.backend, data_dir),
                    ..old(self).safety_rules
                },
                ..*old(self)
            }),
    {
        self.safety_rules.set_data_dir(data_dir);
    }

    pub fn max_sending_block_txns(&self, quorum_store_enabled: bool) -> (limit: u64)
        ensures
            limit == if quorum_store_enabled {
                self.max_sending_block_txns_quorum_store_override
            } else {
                self.max_sending_block_txns
            },
    {
        if quorum_store_enabled {
            self.max_sending_block_txns_quorum_store_override
        } else {
            self.max_sending_block_txns
        }
    }

    pub fn max_sending_block_bytes(&self, quorum_store_enabled: bool) -> (limit: u64)
        ensures
            limit == if quorum_store_enabled {
                self.max_sending_block_bytes_quorum_store_override
            } else {
                self.max_sending_block_bytes
            },
    {
        if quorum_store_enabled {
            self.max_sending_block_bytes_quorum_store_override
        } else {
            self.max_sending_block_bytes
        }
    }

    pub fn max_receiving_block_txns(&self, quorum_store_enabled: bool) -> (limit: u64)
        ensures
            limit == if quorum_store_enabled {
                self.max_receiving_block_txns_quorum_store_override
            } else {
                self.max_receiving_block_txns
            },
    {
        if quorum_store_enabled {
            self.max_receiving_block_txns_quorum_store_override
        } else {
            self.max_receiving_block_txns
        }
    }

    pub fn max_receiving_block_bytes(&self, quorum_store_enabled: bool) -> (limit: u64)
        ensures
            limit == if quorum_store_enabled {
                self.max_receiving_block_bytes_quorum_store_override
            } else {
                self.max_receiving_block_bytes
            },
    {
        if quorum_store_enabled {
            self.max_receiving_block_bytes_quorum_store_override
        } else {
            self.max_receiving_block_bytes
        }
    }

    /// Checks that a node of role `node_role` may run with the consensus
    /// settings of `node_config`, on mainnet or elsewhere, with the
    /// consensus-only performance test built in or not.
    pub fn sanitize(
        node_config: &NodeConfig,
        node_role: RoleType,
        is_mainnet: bool,
        consensus_only_perf_test: bool,
    ) -> (checked: Result<(), Error>)
        ensures
            checked == match consensus_fault(
                node_config.consensus,
                node_role,
                is_mainnet,
                consensus_only_perf_test,
            ) {
                Some(error) => Err::<(), Error>(error),
                None => Ok(()),
            },
    {
        // The safety rules settings come first.
        match node_config.consensus.safety_rules.sanitize(node_role, is_mainnet) {
            Ok(()) => {},
            Err(error) => {
                return Err(error);
            },
        }
        // The consensus-only performance test has no place on mainnet.
        if is_mainnet && consensus_only_perf_test {
            return Err(
                Error::ConfigSanitizerFailed(
                    Sanitizer::ConsensusConfig,
                    SanitizerFailure::ConsensusOnlyPerfTestInMainnet,
                ),
            );
        }
        Ok(())
    }
}

} // verus!
