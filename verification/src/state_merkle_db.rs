//! The authenticated tree store as far as the state store decides on it: which
//! versions have a committed snapshot, and each snapshot's root and size. The
//! tree itself, its hashing and its proofs are the tree's own business.

use crate::error::StateStoreError;
use crate::types::{HashValue, Version};
use crate::version_table::{latest_before, VersionTable};
use vstd::prelude::*;

verus! {

/// A committed snapshot: the root of the tree and the number of its leaves.
#[derive(Clone, Copy, Debug, PartialEq, Eq)]
pub struct StateSnapshot {
    pub root_hash: HashValue,
    pub leaf_count: usize,
}

/// The index of the committed snapshots.
pub struct StateMerkleDb {
    pub snapshots: VersionTable<StateSnapshot>,
}

impl StateMerkleDb {
    /// The committed snapshot at each version that has one.
    pub open spec fn committed(&self) -> Map<Version, StateSnapshot> {
        self.snapshots.records()
    }

    /// A tree store without snapshots.
    pub fn new() -> (db: Self)
        ensures
            db.committed() == Map::<Version, StateSnapshot>::empty(),
    {
        StateMerkleDb { snapshots: VersionTable::new() }
    }

    /// Records that the tree committed a snapshot at `version`.
    pub fn commit(&mut self, version: Version, root_hash: HashValue, leaf_count: usize)
        ensures
            final(self).committed() == old(self).committed().insert(
                version,
                StateSnapshot { root_hash, leaf_count },
            ),
    {
        self.snapshots.put(version, StateSnapshot { root_hash, leaf_count });
    }

    /// The version of the latest snapshot strictly before `next_version`.
    pub fn get_state_snapshot_version_before(&self, next_version: Version) -> (found: Option<
        Version,
    >)
        ensures
            found == latest_before(self.committed(), next_version),
    {
        self.snapshots.latest_version_before(next_version)
    }

    /// The root of the snapshot at `version`.
    pub fn get_root_hash(&self, version: Version) -> (root: Result<HashValue, StateStoreError>)
        ensures
            root == if self.committed().dom().contains(version) {
                Ok::<HashValue, StateStoreError>(self.committed()[version].root_hash)
            } else {
                Err(StateStoreError::StateSnapshotNotFound { version })
            },
    {
        match self.snapshots.get(version) {
            Some(snapshot) => Ok(snapshot.root_hash),
            None => Err(StateStoreError::StateSnapshotNotFound { version }),
        }
    }

    /// The number of leaves of the snapshot at `version`.
    pub fn get_leaf_count(&self, version: Version) -> (count: Result<usize, StateStoreError>)
        ensures
            count == if self.committed().dom().contains(version) {
                Ok::<usize, StateStoreError>(self.committed()[version].leaf_count)
            } else {
                Err(StateStoreError::StateSnapshotNotFound { version })
            },
    {
        match self.snapshots.get(version) {
            Some(snapshot) => Ok(snapshot.leaf_count),
            None => Err(StateStoreError::StateSnapshotNotFound { version }),
        }
    }
}

} // verus!
