//! The ways in which an operation of the store fails.

use crate::types::{StateStorageUsage, Version};
use vstd::prelude::*;

verus! {

/// A failure of the store. Absence is recoverable; a usage that does not add
/// up, or a divergence beyond the bound, must stop the caller.
#[derive(Clone, Copy, Debug, PartialEq, Eq, Structural)]
pub enum StateStoreError {
    /// No usage is recorded at `version`.
    VersionDataNotFound { version: Version },
    /// The snapshot has no leaf at `first_index`.
    StateChunkNotFound { first_index: usize },
    /// The tree names a write at `version` of which the raw store has no
    /// value.
    StateValueMissing { version: Version },
    /// No snapshot is committed at `version`.
    StateSnapshotNotFound { version: Version },
    /// The usage computed for a batch is not the one the caller expected.
    UsageMismatch {
        expected: StateStorageUsage,
        calculated: StateStorageUsage,
        base_version: Option<Version>,
        base_version_usage: StateStorageUsage,
    },
    /// The usage counters cannot hold a step of the accounting.
    UsageOutOfRange,
    /// More versions follow the latest snapshot than may be replayed.
    TooManyVersionsAfterSnapshot { snapshot_next_version: Version, num_transactions: Version },
    /// A store's progress lies behind the overall progress.
    CommitProgressBehind { progress: Version, overall_commit_progress: Version },
    /// A store ran further ahead of the overall progress than the bound
    /// allows.
    CommitProgressTooFarAhead { progress: Version, overall_commit_progress: Version },
    /// A progress marker that must be there is not.
    CommitProgressMissing,
    /// A chunk whose indices and values do not belong together.
    ChunkMalformed,
    /// A chunk that starts after the leaf that the restore session expects
    /// next.
    ChunkOutOfOrder { expected_first_index: u64 },
    /// The restored tree does not have the root that was expected.
    RootHashMismatch,
    /// A restore session that has applied no chunk cannot finish.
    RestoreIncomplete,
}

impl StateStoreError {
    /// Whether the caller must stop rather than go on with the state as it
    /// is.
    pub open spec fn spec_is_fatal(&self) -> bool {
        match *self {
            StateStoreError::VersionDataNotFound { .. } => false,
            StateStoreError::StateChunkNotFound { .. } => false,
            StateStoreError::StateValueMissing { .. } => false,
            StateStoreError::StateSnapshotNotFound { .. } => false,
            StateStoreError::ChunkMalformed => false,
            StateStoreError::ChunkOutOfOrder { .. } => false,
            StateStoreError::RootHashMismatch => false,
            StateStoreError::RestoreIncomplete => false,
            _ => true,
        }
    }

    #[verifier::when_used_as_spec(spec_is_fatal)]
    pub fn is_fatal(&self) -> (fatal: bool)
        ensures
            fatal == self.spec_is_fatal(),
    {
        match self {
            StateStoreError::VersionDataNotFound { .. } => false,
            StateStoreError::StateChunkNotFound { .. } => false,
            StateStoreError::StateValueMissing { .. } => false,
            StateStoreError::StateSnapshotNotFound { .. } => false,
            StateStoreError::ChunkMalformed => false,
            StateStoreError::ChunkOutOfOrder { .. } => false,
            StateStoreError::RootHashMismatch => false,
            StateStoreError::RestoreIncomplete => false,
            _ => true,
        }
    }
}

} // verus!
