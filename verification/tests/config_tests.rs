use state_store::config::config_sanitizer::{Error, RoleType, Sanitizer, SanitizerFailure};
use state_store::config::consensus_config::{
    ChainHealthBackoffValues, ConsensusConfig, NodeConfig, PipelineBackpressureValues,
};
use state_store::config::quorum_store_config::{QuorumStoreBackPressureConfig, QuorumStoreConfig};
use state_store::config::safety_rules_config::{
    InitialSafetyRulesConfig, OnDiskStorageConfig, RemoteService, SafetyRulesConfig,
    SafetyRulesService, SafetyRulesTestConfig, SecureBackend, Waypoint, WaypointConfig,
};
use state_store::types::HashValue;

fn sanitize(config: SafetyRulesConfig, node_role: RoleType, is_mainnet: bool) -> Result<(), Error> {
    let node_config = NodeConfig {
        consensus: ConsensusConfig { safety_rules: config, ..Default::default() },
    };
    node_config.consensus.safety_rules.sanitize(node_role, is_mainnet)
}

fn failed(failure: SanitizerFailure) -> Result<(), Error> {
    Err(Error::ConfigSanitizerFailed(Sanitizer::SafetyRulesConfig, failure))
}

fn initial_from_file() -> InitialSafetyRulesConfig {
    InitialSafetyRulesConfig::from_file(
        "identity.yaml".to_string(),
        WaypointConfig::FromConfig(Waypoint { version: 0, value: HashValue::new([1; 32]) }),
    )
}

fn on_disk() -> SecureBackend {
    SecureBackend::OnDiskStorage(OnDiskStorageConfig {
        path: "secure_storage.json".to_string(),
        data_dir: "/opt/data".to_string(),
    })
}

#[test]
fn test_sanitize_invalid_backend_for_mainnet() {
    // Create a node config with an invalid backend for mainnet
    let config = SafetyRulesConfig { backend: SecureBackend::InMemoryStorage, ..Default::default() };

    // Verify that the config sanitizer fails
    let error = sanitize(config, RoleType::Validator, true).unwrap_err();
    assert!(matches!(error, Error::ConfigSanitizerFailed(_, _)));
    assert_eq!(
        error,
        Error::ConfigSanitizerFailed(
            Sanitizer::SafetyRulesConfig,
            SanitizerFailure::InMemoryBackendInMainnet
        )
    );
}

#[test]
fn test_sanitize_backend_for_mainnet_fullnodes() {
    // Create a node config with an invalid backend for mainnet validators
    let config = SafetyRulesConfig { backend: SecureBackend::InMemoryStorage, ..Default::default() };

    // Verify that the config sanitizer passes because the node is a fullnode
    sanitize(config, RoleType::FullNode, true).unwrap();
}

#[test]
fn test_sanitize_invalid_service_for_mainnet() {
    // Create a node config with a non-local service
    let config = SafetyRulesConfig { service: SafetyRulesService::Serializer, ..Default::default() };

    // Verify that the config sanitizer fails
    let error = sanitize(config, RoleType::Validator, true).unwrap_err();
    assert!(matches!(error, Error::ConfigSanitizerFailed(_, _)));
}

#[test]
fn test_sanitize_test_config_on_mainnet() {
    // Create a node config with a test config
    let config = SafetyRulesConfig {
        test: Some(SafetyRulesTestConfig::new([7; 32])),
        ..Default::default()
    };

    // Verify that the config sanitizer fails
    let error = sanitize(config, RoleType::Validator, true).unwrap_err();
    assert!(matches!(error, Error::ConfigSanitizerFailed(_, _)));
}

#[test]
fn test_sanitize_missing_initial_safety_rules() {
    // Create a node config with a test config
    let config = SafetyRulesConfig {
        test: Some(SafetyRulesTestConfig::new([7; 32])),
        ..Default::default()
    };

    // Verify that the config sanitizer fails
    let error = sanitize(config, RoleType::Validator, true).unwrap_err();
    assert!(matches!(error, Error::ConfigSanitizerFailed(_, _)));
}

#[test]
fn each_fault_of_the_safety_rules_is_told_apart() {
    let sound = SafetyRulesConfig {
        backend: on_disk(),
        initial_safety_rules_config: initial_from_file(),
        ..Default::default()
    };
    assert_eq!(sanitize(sound.clone(), RoleType::Validator, true), Ok(()));
    assert_eq!(
        sanitize(SafetyRulesConfig { backend: SecureBackend::GitHub, ..sound.clone() }, RoleType::Validator, true),
        failed(SanitizerFailure::GitHubBackendInMainnet)
    );
    assert_eq!(
        sanitize(
            SafetyRulesConfig { backend: SecureBackend::InMemoryStorage, ..sound.clone() },
            RoleType::Validator,
            true
        ),
        failed(SanitizerFailure::InMemoryBackendInMainnet)
    );
    let remote = SafetyRulesService::Process(RemoteService { server_address: "/ip4/127.0.0.1/tcp/1".to_string() });
    assert_eq!(
        sanitize(SafetyRulesConfig { service: remote.clone(), ..sound.clone() }, RoleType::Validator, true),
        failed(SanitizerFailure::ServiceNotLocalInMainnet)
    );
    assert_eq!(
        sanitize(
            SafetyRulesConfig { service: SafetyRulesService::Thread, ..sound.clone() },
            RoleType::Validator,
            true
        ),
        failed(SanitizerFailure::ServiceNotLocalInMainnet)
    );
    assert_eq!(
        sanitize(
            SafetyRulesConfig { test: Some(SafetyRulesTestConfig::new([0; 32])), ..sound.clone() },
            RoleType::Validator,
            true
        ),
        failed(SanitizerFailure::TestConfigInMainnet)
    );
    assert_eq!(
        sanitize(
            SafetyRulesConfig {
                initial_safety_rules_config: InitialSafetyRulesConfig::Unset,
                ..sound.clone()
            },
            RoleType::Validator,
            true
        ),
        failed(SanitizerFailure::InitialSafetyRulesMissing)
    );
    // Off mainnet only the initial safety rules are asked for.
    let loose = SafetyRulesConfig {
        backend: SecureBackend::GitHub,
        service: remote,
        test: Some(SafetyRulesTestConfig::new([0; 32])),
        ..sound
    };
    assert_eq!(sanitize(loose.clone(), RoleType::Validator, false), Ok(()));
    assert_eq!(
        sanitize(
            SafetyRulesConfig { initial_safety_rules_config: InitialSafetyRulesConfig::Unset, ..loose },
            RoleType::Validator,
            false
        ),
        failed(SanitizerFailure::InitialSafetyRulesMissing)
    );
}

#[test]
fn consensus_settings_fail_on_the_safety_rules_first() {
    let mut node_config = NodeConfig { consensus: ConsensusConfig::default() };
    assert_eq!(
        ConsensusConfig::sanitize(&node_config, RoleType::Validator, true, true),
        failed(SanitizerFailure::InMemoryBackendInMainnet)
    );
    node_config.consensus.safety_rules.backend = on_disk();
    node_config.consensus.safety_rules.initial_safety_rules_config = initial_from_file();
    assert_eq!(
        ConsensusConfig::sanitize(&node_config, RoleType::Validator, true, true),
        Err(Error::ConfigSanitizerFailed(
            Sanitizer::ConsensusConfig,
            SanitizerFailure::ConsensusOnlyPerfTestInMainnet
        ))
    );
    assert_eq!(ConsensusConfig::sanitize(&node_config, RoleType::Validator, true, false), Ok(()));
    assert_eq!(ConsensusConfig::sanitize(&node_config, RoleType::Validator, false, true), Ok(()));
    assert_eq!(
        ConsensusConfig::sanitize(&node_config, RoleType::FullNode, true, true),
        Err(Error::ConfigSanitizerFailed(
            Sanitizer::ConsensusConfig,
            SanitizerFailure::ConsensusOnlyPerfTestInMainnet
        ))
    );
}

#[test]
fn consensus_defaults() {
    let config = ConsensusConfig::default();
    assert_eq!(config.max_network_channel_size, 1024);
    assert_eq!(config.max_sending_block_txns(false), 2500);
    assert_eq!(config.max_sending_block_txns(true), 4000);
    assert_eq!(config.max_sending_block_bytes(false), 600 * 1024);
    assert_eq!(config.max_sending_block_bytes(true), 5 * 1024 * 1024);
    assert_eq!(config.max_receiving_block_txns(false), 10000);
    assert_eq!(config.max_receiving_block_txns(true), 8000);
    assert_eq!(config.max_receiving_block_bytes(false), 3 * 1024 * 1024);
    assert_eq!(config.max_receiving_block_bytes(true), 6 * 1024 * 1024);
    assert_eq!(f64::from_bits(config.round_timeout_backoff_exponent_base_bits), 1.2);
    assert_eq!(f32::from_bits(config.wait_for_full_blocks_above_recent_fill_threshold_bits), 1.1);
    assert_eq!(config.round_timeout_backoff_max_exponent, 6);
    assert_eq!(config.round_initial_timeout_ms, 1500);
    assert_eq!(config.channel_size, 30);
    assert_eq!(config.vote_back_pressure_limit, 30);
    assert_eq!(config.window_for_chain_health, 100);
    assert!(!config.sync_only);
    assert_eq!(config.safety_rules, SafetyRulesConfig::default());
    assert_eq!(config.quorum_store_configs, QuorumStoreConfig::default());
    assert_eq!(config.pipeline_backpressure.len(), 5);
    assert_eq!(
        config.pipeline_backpressure[3],
        PipelineBackpressureValues {
            back_pressure_pipeline_latency_limit_ms: 2500,
            max_sending_block_txns_override: 2000,
            max_sending_block_bytes_override: 512_000,
            backpressure_proposal_delay_ms: 300,
        }
    );
    assert_eq!(config.chain_health_backoff.len(), 5);
    assert_eq!(
        config.chain_health_backoff[1],
        ChainHealthBackoffValues {
            backoff_if_below_participating_voting_power_percentage: 77,
            max_sending_block_txns_override: 1000,
            max_sending_block_bytes_override: 256_000,
        }
    );
}

#[test]
fn quorum_store_defaults() {
    let config = QuorumStoreConfig::default();
    assert_eq!(config.channel_size, 1000);
    assert_eq!(config.max_batch_bytes, 4 * 1024 * 1024);
    assert_eq!(config.batch_expiry_gap_when_init_usecs, 60_000_000);
    assert_eq!(config.memory_quota, 120_000_000);
    assert_eq!(config.num_workers_for_remote_batches, 10);
    assert_eq!(config.back_pressure, QuorumStoreBackPressureConfig::default());
    assert_eq!(config.back_pressure.backlog_txn_limit_count, 32_000);
    assert_eq!(f64::from_bits(config.back_pressure.decrease_fraction_bits), 0.5);
    assert_eq!(config.back_pressure.dynamic_min_txn_per_s, 160);
    assert_eq!(config.back_pressure.dynamic_max_txn_per_s, 2000);
}

#[test]
fn safety_rules_defaults() {
    let config = SafetyRulesConfig::default();
    assert_eq!(config.backend, SecureBackend::InMemoryStorage);
    assert_eq!(config.service, SafetyRulesService::Local);
    assert_eq!(config.test, None);
    assert_eq!(config.network_timeout_ms, 30_000);
    assert!(config.enable_cached_safety_data);
    assert_eq!(config.initial_safety_rules_config, InitialSafetyRulesConfig::Unset);
}

#[test]
fn the_data_dir_moves_a_backend_on_disk() {
    let mut config = ConsensusConfig::default();
    config.set_data_dir("/elsewhere".to_string());
    assert_eq!(config.safety_rules.backend, SecureBackend::InMemoryStorage);
    config.safety_rules.backend = on_disk();
    config.set_data_dir("/elsewhere".to_string());
    assert_eq!(
        config.safety_rules.backend,
        SecureBackend::OnDiskStorage(OnDiskStorageConfig {
            path: "secure_storage.json".to_string(),
            data_dir: "/elsewhere".to_string(),
        })
    );
    let mut rules = SafetyRulesConfig {
        backend: SecureBackend::RocksDbStorage(OnDiskStorageConfig {
            path: "db".to_string(),
            data_dir: "/opt/data".to_string(),
        }),
        ..Default::default()
    };
    rules.set_data_dir("/there".to_string());
    assert_eq!(
        rules.backend,
        SecureBackend::RocksDbStorage(OnDiskStorageConfig {
            path: "db".to_string(),
            data_dir: "/there".to_string(),
        })
    );
}

#[test]
fn initial_safety_rules_name_their_sources() {
    let config = initial_from_file();
    assert_eq!(config.identity_blob(), "identity.yaml");
    assert_eq!(
        config.waypoint(),
        &WaypointConfig::FromConfig(Waypoint { version: 0, value: HashValue::new([1; 32]) })
    );
    let remote = RemoteService { server_address: "/ip4/10.0.0.1/tcp/6185".to_string() };
    assert_eq!(remote.server_address(), "/ip4/10.0.0.1/tcp/6185");
    let mut test = SafetyRulesTestConfig::new([9; 32]);
    assert_eq!((test.author, test.consensus_key.clone(), test.waypoint), ([9; 32], None, None));
    test.consensus_key(vec![1, 2, 3]);
    assert_eq!(test.consensus_key, Some(vec![1, 2, 3]));
    assert!(RoleType::Validator.is_validator());
    assert!(!RoleType::FullNode.is_validator());
    assert!(SecureBackend::GitHub.is_github());
    assert!(!SecureBackend::Vault.is_github());
    assert!(SecureBackend::InMemoryStorage.is_in_memory());
    assert!(SafetyRulesService::Local.is_local());
    assert!(!SafetyRulesService::Serializer.is_local());
}
