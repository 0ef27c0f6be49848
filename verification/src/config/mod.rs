//! Node configuration as far as consensus reads it.

pub mod config_sanitizer;
pub mod consensus_config;
pub mod quorum_store_config;
pub mod safety_rules_config;
