//! A versioned, authenticated key-value state store, with what stands around
//! it in a node.
//!
//! The store records the state after every version: `state_kv_db` holds
//! every write, `ledger_db` the usage after each version, `state_merkle_db`
//! the committed snapshots of the tree. `usage_ledger` accounts for a batch
//! of writes, `buffered_state` gathers writes in memory until a snapshot is
//! due, `commit_progress` reconciles the stores at startup,
//! `state_kv_pruner` reclaims what went stale, `sharding` routes a batch to
//! the shards of the raw store, and `state_restore` moves a snapshot in
//! chunks. `usage_laws`, `index_laws`, `batch_laws` and `restore_laws`
//! prove what holds of all of them.
//!
//! `config` holds the settings of consensus with their sanitizers, and
//! `data_service` the decisions of the service that streams committed
//! transactions.

pub mod batch_laws;
pub mod buffered_state;
pub mod commit_progress;
pub mod config;
pub mod data_service;
pub mod error;
pub mod index_laws;
pub mod io_pool;
pub mod ledger_db;
pub mod restore_laws;
pub mod sharding;
pub mod state_kv_db;
pub mod state_kv_pruner;
pub mod state_merkle_db;
pub mod state_restore;
pub mod state_store;
pub mod types;
pub mod usage_laws;
pub mod usage_ledger;
pub mod value_cache;
pub mod version_table;
