//! What a sanitizer can find wrong with a configuration.

use vstd::prelude::*;

verus! {

/// The role that a node plays.
#[derive(Clone, Copy, Debug, PartialEq, Eq, Structural)]
pub enum RoleType {
    Validator,
    FullNode,
}

impl RoleType {
    pub open spec fn spec_is_validator(&self) -> bool {
        *self == RoleType::Validator
    }

    #[verifier::when_used_as_spec(spec_is_validator)]
    pub fn is_validator(&self) -> (validator: bool)
        ensures
            validator == self.spec_is_validator(),
    {
        match self {
            RoleType::Validator => true,
            RoleType::FullNode => false,
        }
    }
}

/// The sanitizer that refused a configuration.
#[derive(Clone, Copy, Debug, PartialEq, Eq, Structural)]
pub enum Sanitizer {
    ConsensusConfig,
    SafetyRulesConfig,
}

/// Why a sanitizer refused a configuration.
#[derive(Clone, Copy, Debug, PartialEq, Eq, Structural)]
pub enum SanitizerFailure {
    /// The secure backend should not be set to GitHub in mainnet.
    GitHubBackendInMainnet,
    /// The secure backend should not be set to in memory storage in mainnet.
    InMemoryBackendInMainnet,
    /// The safety rules service should be set to local in mainnet.
    ServiceNotLocalInMainnet,
    /// The safety rules test config should not be used in mainnet.
    TestConfigInMainnet,
    /// The initial safety rules config must be set for validators.
    InitialSafetyRulesMissing,
    /// The consensus-only performance test should not be enabled in mainnet.
    ConsensusOnlyPerfTestInMainnet,
}

/// A configuration that cannot be used.
#[derive(Clone, Copy, Debug, PartialEq, Eq, Structural)]
pub enum Error {
    ConfigSanitizerFailed(Sanitizer, SanitizerFailure),
}

} // verus!
