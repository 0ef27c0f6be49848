//! The settings of the safety rules, and the sanitizer that tells whether a
//! node may run with them.

use crate::config::config_sanitizer::{Error, RoleType, Sanitizer, SanitizerFailure};
use crate::types::HashValue;
use vstd::prelude::*;

verus! {

/// A store on disk with the directory it lives in.
#[derive(Clone, Debug, PartialEq, Eq)]
pub struct OnDiskStorageConfig {
    pub path: String,
    pub data_dir: String,
}

/// Where the safety rules keep their secrets.
#[derive(Clone, Debug, PartialEq, Eq)]
pub enum SecureBackend {
    GitHub,
    InMemoryStorage,
    Vault,
    OnDiskStorage(OnDiskStorageConfig),
    RocksDbStorage(OnDiskStorageConfig),
}

impl SecureBackend {
    pub open spec fn spec_is_github(&self) -> bool {
        *self is GitHub
    }

    #[verifier::when_used_as_spec(spec_is_github)]
    pub fn is_github(&self) -> (github: bool)
        ensures
            github == self.spec_is_github(),
    {
        match self {
            SecureBackend::GitHub => true,
            _ => false,
        }
    }

    pub open spec fn spec_is_in_memory(&self) -> bool {
        *self is InMemoryStorage
    }

    #[verifier::when_used_as_spec(spec_is_in_memory)]
    pub fn is_in_memory(&self) -> (in_memory: bool)
        ensures
            in_memory == self.spec_is_in_memory(),
    {
        match self {
            SecureBackend::InMemoryStorage => true,
            _ => false,
        }
    }
}

/// A point of the ledger that a node trusts: a version and the digest of the
/// ledger there.
#[derive(Clone, Copy, Debug, PartialEq, Eq)]
pub struct Waypoint {
    pub version: u64,
    pub value: HashValue,
}

/// Where a node's waypoint comes from.
#[derive(Clone, Debug, PartialEq, Eq)]
pub enum WaypointConfig {
    FromConfig(Waypoint),
    FromFile(String),
    FromStorage(SecureBackend),
    /// No waypoint is configured.
    Unset,
}

/// How the safety rules get their first identity and waypoint.
#[derive(Clone, Debug, PartialEq, Eq)]
pub enum InitialSafetyRulesConfig {
    FromFile { identity_blob_path: String, waypoint: WaypointConfig },
    /// Nothing is configured.
    Unset,
}

impl InitialSafetyRulesConfig {
    pub fn from_file(identity_blob_path: String, waypoint: WaypointConfig) -> (config: Self)
        ensures
            config == (InitialSafetyRulesConfig::FromFile { identity_blob_path, waypoint }),
    {
        InitialSafetyRulesConfig::FromFile { identity_blob_path, waypoint }
    }

    /// Where the waypoint comes from. There must be a file to take it from.
    pub fn waypoint(&self) -> (waypoint: &WaypointConfig)
        requires
            *self is FromFile,
        ensures
            *waypoint == self->waypoint,
    {
        match self {
            InitialSafetyRulesConfig::FromFile { waypoint, .. } => waypoint,
            InitialSafetyRulesConfig::Unset => unreached(),
        }
    }

    /// The file that holds the identity blob. There must be one.
    pub fn identity_blob(&self) -> (path: &String)
        requires
            *self is FromFile,
        ensures
            *path == self->identity_blob_path,
    {
        match self {
            InitialSafetyRulesConfig::FromFile { identity_blob_path, .. } => identity_blob_path,
            InitialSafetyRulesConfig::Unset => unreached(),
        }
    }
}

/// A safety rules service in a process of its own, at an address.
#[derive(Clone, Debug, PartialEq, Eq)]
pub struct RemoteService {
    pub server_address: String,
}

impl RemoteService {
    /// The address of the service, as it was configured.
    pub fn server_address(&self) -> (address: &String)
        ensures
            *address == self.server_address,
    {
        &self.server_address
    }
}

/// How the safety rules are run.
#[derive(Clone, Debug, PartialEq, Eq)]
pub enum SafetyRulesService {
    /// In the thread that processes events.
    Local,
    /// In a process of their own.
    Process(RemoteService),
    /// In the thread that processes events, behind a serializer.
    Serializer,
    /// In a thread of their own.
    Thread,
}

impl SafetyRulesService {
    pub open spec fn spec_is_local(&self) -> bool {
        *self is Local
    }

    /// Whether the service is local.
    #[verifier::when_used_as_spec(spec_is_local)]
    pub fn is_local(&self) -> (local: bool)
        ensures
            local == self.spec_is_local(),
    {
        match self {
            SafetyRulesService::Local => true,
            _ => false,
        }
    }
}

/// The identity that safety rules run under in a test.
#[derive(Clone, Debug, PartialEq, Eq)]
pub struct SafetyRulesTestConfig {
    /// The address of the author.
    pub author: [u8; 32],
    /// The encoded consensus key, once there is one.
    pub consensus_key: Option<Vec<u8>>,
    pub waypoint: Option<Waypoint>,
}

impl SafetyRulesTestConfig {
    pub fn new(author: [u8; 32]) -> (config: Self)
        ensures
            config.author == author,
            config.consensus_key.is_none(),
            config.waypoint.is_none(),
    {
        SafetyRulesTestConfig { author, consensus_key: None, waypoint: None }
    }

    /// Sets the consensus key, given encoded.
    pub fn consensus_key(&mut self, key: Vec<u8>)
        ensures
            final(self).consensus_key == Some(key),
            final(self).author == old(self).author,
            final(self).waypoint == old(self).waypoint,
    {
        self.consensus_key = Some(key);
    }
}

/// The settings of the safety rules.
#[derive(Clone, Debug, PartialEq, Eq)]
pub struct SafetyRulesConfig {
    pub backend: SecureBackend,
    pub service: SafetyRulesService,
    pub test: Option<SafetyRulesTestConfig>,
    /// The timeout of a network read, write or connect, in milliseconds.
    pub network_timeout_ms: u64,
    pub enable_cached_safety_data: bool,
    pub initial_safety_rules_config: InitialSafetyRulesConfig,
}

impl Default for SafetyRulesConfig {
    fn default() -> (config: Self)
        ensures
            config.backend == SecureBackend::InMemoryStorage,
            config.service == SafetyRulesService::Local,
            config.test.is_none(),
            config.network_timeout_ms == 30_000,
            config.enable_cached_safety_data,
            config.initial_safety_rules_config == InitialSafetyRulesConfig::Unset,
    {
        SafetyRulesConfig {
            backend: SecureBackend::InMemoryStorage,
            service: SafetyRulesService::Local,
            test: None,
            // Thirty seconds.
            network_timeout_ms: 30_000,
            enable_cached_safety_data: true,
            initial_safety_rules_config: InitialSafetyRulesConfig::Unset,
        }
    }
}

/// The backend after its move to `data_dir`: one that lives on disk lives
/// there; any other is as before.
pub open spec fn backend_in_dir(backend: SecureBackend, data_dir: String) -> SecureBackend {
    match backend {
        SecureBackend::OnDiskStorage(on_disk) => SecureBackend::OnDiskStorage(
            OnDiskStorageConfig { path: on_disk.path, data_dir },
        ),
        SecureBackend::RocksDbStorage(on_disk) => SecureBackend::RocksDbStorage(
            OnDiskStorageConfig { path: on_disk.path, data_dir },
        ),
        other => other,
    }
}

/// What is wrong with safety rules settings for a node of the given role,
/// on mainnet or not: the first of the faults in the sanitizer's order,
/// and nothing for a node that is no validator.
pub open spec fn safety_rules_fault(
    config: SafetyRulesConfig,
    node_role: RoleType,
    is_mainnet: bool,
) -> Option<SanitizerFailure> {
    if !node_role.spec_is_validator() {
        None
    } else if is_mainnet && config.backend.spec_is_github() {
        Some(SanitizerFailure::GitHubBackendInMainnet)
    } else if is_mainnet && config.backend.spec_is_in_memory() {
        Some(SanitizerFailure::InMemoryBackendInMainnet)
    } else if is_mainnet && !config.service.spec_is_local() {
        Some(SanitizerFailure::ServiceNotLocalInMainnet)
    } else if is_mainnet && config.test.is_some() {
        Some(SanitizerFailure::TestConfigInMainnet)
    } else if config.initial_safety_rules_config is Unset {
        Some(SanitizerFailure::InitialSafetyRulesMissing)
    } else {
        None
    }
}

impl SafetyRulesConfig {
    /// Moves a backend that lives on disk to `data_dir`.
    pub fn set_data_dir(&mut self, data_dir: String)
        ensures
            *final(self) == (SafetyRulesConfig {
                backend: backend_in_dir(old(self).backend, data_dir),
                ..*old(self)
            }),
    {
        match &mut self.backend {
            SecureBackend::OnDiskStorage(backend) => {
                backend.data_dir = data_dir;
            },
            SecureBackend::RocksDbStorage(backend) => {
                backend.data_dir = data_dir;
            },
            _ => {},
        }
    }

    /// Checks that a node of role `node_role` may run with these settings,
    /// on mainnet or elsewhere.
    pub fn sanitize(&self, node_role: RoleType, is_mainnet: bool) -> (checked: Result<(), Error>)
        ensures
            checked == match safety_rules_fault(*self, node_role, is_mainnet) {
                Some(failure) => Err::<(), Error>(
                    Error::ConfigSanitizerFailed(Sanitizer::SafetyRulesConfig, failure),
                ),
                None => Ok(()),
            },
    {
        // A node that is no validator runs no safety rules.
        if !node_role.is_validator() {
            return Ok(());
        }
        // The secure backend must be fit for a validator of mainnet.
        if is_mainnet {
            if self.backend.is_github() {
                return Err(
                    Error::ConfigSanitizerFailed(
                        Sanitizer::SafetyRulesConfig,
                        SanitizerFailure::GitHubBackendInMainnet,
                    ),
                );
            } else if self.backend.is_in_memory() {
                return Err(
                    Error::ConfigSanitizerFailed(
                        Sanitizer::SafetyRulesConfig,
                        SanitizerFailure::InMemoryBackendInMainnet,
                    ),
                );
            }
        }
        // On mainnet the service is local, which is fastest.
        if is_mainnet && !self.service.is_local() {
            return Err(
                Error::ConfigSanitizerFailed(
                    Sanitizer::SafetyRulesConfig,
                    SanitizerFailure::ServiceNotLocalInMainnet,
                ),
            );
        }
        // The test settings have no place on mainnet.
        if is_mainnet && self.test.is_some() {
            return Err(
                Error::ConfigSanitizerFailed(
                    Sanitizer::SafetyRulesConfig,
                    SanitizerFailure::TestConfigInMainnet,
                ),
            );
        }
        // A validator needs its initial safety rules.
        match self.initial_safety_rules_config {
            InitialSafetyRulesConfig::Unset => Err(
                Error::ConfigSanitizerFailed(
                    Sanitizer::SafetyRulesConfig,
                    SanitizerFailure::InitialSafetyRulesMissing,
                ),
            ),
            _ => Ok(()),
        }
    }
}

} // verus!
