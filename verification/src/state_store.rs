//! The state store: reads "as of" a version, and the commit of value sets
//! with their usage and stale-index records.

use crate::buffered_state::{
    BufferedState, StateCheckpoint, StateDelta, WriteView, ASYNC_COMMIT_CHANNEL_BUFFER_SIZE,
    TARGET_SNAPSHOT_INTERVAL_IN_VERSION,
};
use crate::commit_progress::{commit_progress_fault, cuts_ledger, progress_fault, reconciled};
use crate::error::StateStoreError;
use crate::index_laws::{
    each_key_once_a_version, history_after_sets, lemma_commit_keeps_index,
    lemma_history_after_sets, lemma_history_of_entries, written_before,
};
use crate::io_pool::IoPool;
use crate::ledger_db::{
    lemma_counted_records_read_alike, lemma_records_of_counted, spec_state_storage_usage, LedgerDb,
    SchemaBatch,
};
use crate::state_kv_db::{
    value_as_of, versioned_value_view, StateKvDb, StateKvSchemaBatch, StateValueEntry, ValueHistory,
};
use crate::state_kv_pruner::index_consistent;
use crate::state_merkle_db::{StateMerkleDb, StateSnapshot};
use crate::types::{
    clone_value, value_view, HashValue, StateKey, StateStorageUsage, StateValue, Version,
};
use crate::usage_laws::{lemma_closing_usage_counted, lemma_usages_all_counted};
use crate::usage_ledger::{writes_before, LedgerState};
use crate::usage_ledger::{batch_outcome, compute_stats_and_indices, BatchOutcome, ValueSet};
use crate::version_table::{is_latest_before, latest_before, records_of, records_up_to};
use vstd::prelude::*;

verus! {

/// The three stores that hold the state.
pub struct StateDb {
    pub ledger_db: LedgerDb,
    pub state_merkle_db: StateMerkleDb,
    pub state_kv_db: StateKvDb,
}

/// The version before `first_version`, if there is one.
pub open spec fn spec_base_version(first_version: Version) -> Option<Version> {
    if first_version == 0 {
        None
    } else {
        Some((first_version - 1) as Version)
    }
}

/// The usage that the accounting of a batch starts from: the usage on
/// record at the version before `first_version`, and zero where there is no
/// such version or nothing is on record there.
pub open spec fn usage_before(
    records: Map<Version, StateStorageUsage>,
    first_version: Version,
) -> StateStorageUsage {
    match spec_base_version(first_version) {
        Some(version) => if records.dom().contains(version) {
            records[version]
        } else {
            StateStorageUsage::spec_new(0, 0)
        },
        None => StateStorageUsage::spec_new(0, 0),
    }
}

/// What the accounting of a batch comes to: the error it fails with, or
/// the usage after each version and the stale-index records.
///
/// It starts from the usage before the batch. It fails where the counters
/// cannot hold a step of it, and where the caller expects a tracked usage
/// other than the one computed.
pub open spec fn stats_and_indices(
    records: Map<Version, StateStorageUsage>,
    history: ValueHistory,
    value_sets: Seq<ValueSet>,
    first_version: Version,
    expected_usage: StateStorageUsage,
) -> Result<BatchOutcome, StateStoreError> {
    let base_usage = usage_before(records, first_version);
    match batch_outcome(history, base_usage, first_version, value_sets) {
        None => Err(StateStoreError::UsageOutOfRange),
        Some(outcome) => if expected_usage != StateStorageUsage::Untracked && expected_usage
            != outcome.ledger.usage {
            Err(
                StateStoreError::UsageMismatch {
                    expected: expected_usage,
                    calculated: outcome.ledger.usage,
                    base_version: spec_base_version(first_version),
                    base_version_usage: base_usage,
                },
            )
        } else {
            Ok(outcome)
        },
    }
}

/// The writes of a batch of value sets, version by version from
/// `first_version` on, each set in its order.
pub open spec fn writes_of(value_sets: Seq<ValueSet>, first_version: Version) -> Seq<
    (Seq<u8>, Version, Option<Seq<u8>>),
>
    decreases value_sets.len(),
{
    if value_sets.len() == 0 {
        Seq::empty()
    } else {
        let version = (first_version + value_sets.len() - 1) as Version;
        writes_of(value_sets.drop_last(), first_version) + value_sets.last()@.map_values(
            |write: (StateKey, Option<StateValue>)| (write.0@, version, value_view(write.1)),
        )
    }
}

/// The writes that a list of entries makes.
pub open spec fn entry_writes(entries: Seq<StateValueEntry>) -> Seq<
    (Seq<u8>, Version, Option<Seq<u8>>),
> {
    entries.map_values(|entry: StateValueEntry| (entry.key@, entry.version, value_view(entry.value)))
}

impl StateDb {
    /// The latest state snapshot strictly before `next_version`, with its
    /// root, if there is one.
    pub fn get_state_snapshot_before(&self, next_version: Version) -> (snapshot: Option<
        (Version, HashValue),
    >)
        ensures
            snapshot == match latest_before(self.state_merkle_db.committed(), next_version) {
                Some(version) => Some(
                    (version, self.state_merkle_db.committed()[version].root_hash),
                ),
                None => None,
            },
    {
        match self.state_merkle_db.get_state_snapshot_version_before(next_version) {
            Some(version) => {
                proof {
                    assert(is_latest_before(
                        self.state_merkle_db.committed(),
                        next_version,
                        version,
                    ));
                }
                match self.state_merkle_db.get_root_hash(version) {
                    Ok(root_hash) => Some((version, root_hash)),
                    Err(_) => None,
                }
            },
            None => None,
        }
    }

    /// The latest value of `state_key` at or before `version`, with the
    /// version it was written at.
    pub fn get_state_value_with_version_by_version(
        &self,
        state_key: &StateKey,
        version: Version,
    ) -> (found: Option<(Version, StateValue)>)
        ensures
            versioned_value_view(found) == value_as_of(
                self.state_kv_db.history(),
                state_key@,
                version,
            ),
    {
        self.state_kv_db.get_state_value_with_version_by_version(state_key, version)
    }

    /// The latest value of `state_key` at or before `version`.
    pub fn get_state_value_by_version(&self, state_key: &StateKey, version: Version) -> (value:
        Option<StateValue>)
        ensures
            value_view(value) == match value_as_of(
                self.state_kv_db.history(),
                state_key@,
                version,
            ) {
                Some((_, value)) => Some(value),
                None => None,
            },
    {
        self.state_kv_db.get_state_value_by_version(state_key, version)
    }

    /// The value of `state_key` as of `version`, which must be there.
    pub fn expect_value_by_version(&self, state_key: &StateKey, version: Version) -> (value: Result<
        StateValue,
        StateStoreError,
    >)
        ensures
            match value_as_of(self.state_kv_db.history(), state_key@, version) {
                Some((_, expected)) => value matches Ok(found) && found@ == expected,
                None => value == Err::<StateValue, StateStoreError>(
                    StateStoreError::StateValueMissing { version },
                ),
            },
    {
        match self.get_state_value_by_version(state_key, version) {
            Some(value) => Ok(value),
            None => Err(StateStoreError::StateValueMissing { version }),
        }
    }

    /// The value that the tree's leaf for a key stands for, handed on with
    /// the proof that the tree gave for that key: the value written at the
    /// leaf's version, and no value where the tree has no leaf.
    pub fn get_state_value_with_proof_by_version_ext<P>(
        &self,
        leaf_data: Option<(HashValue, (StateKey, Version))>,
        proof_ext: P,
    ) -> (proven: Result<(Option<StateValue>, P), StateStoreError>)
        ensures
            match leaf_data {
                Some((_, (key, version))) => match value_as_of(
                    self.state_kv_db.history(),
                    key@,
                    version,
                ) {
                    Some((_, expected)) => {
                        &&& proven matches Ok((Some(found), handed_on))
                        &&& found@ == expected
                        &&& handed_on == proof_ext
                    },
                    None => proven == Err::<(Option<StateValue>, P), StateStoreError>(
                        StateStoreError::StateValueMissing { version },
                    ),
                },
                None => proven matches Ok((None, handed_on)) && handed_on == proof_ext,
            },
    {
        match leaf_data {
            Some((_, (key, version))) => match self.expect_value_by_version(&key, version) {
                Ok(value) => Ok((Some(value), proof_ext)),
                Err(error) => Err(error),
            },
            None => Ok((None, proof_ext)),
        }
    }

    /// The usage of the state at `version`; that of the empty state where no
    /// version is given.
    pub fn get_state_storage_usage(&self, version: Option<Version>) -> (usage: Result<
        StateStorageUsage,
        StateStoreError,
    >)
        ensures
            usage == spec_state_storage_usage(self.ledger_db.usage_records(), version),
    {
        self.ledger_db.get_state_storage_usage(version)
    }

    /// The latest epoch ending strictly before `version`, as the version
    /// that ended the epoch and the epoch.
    pub fn get_previous_epoch_ending(&self, version: Version) -> (ending: Option<(Version, u64)>)
        ensures
            ending == match latest_before(self.ledger_db.epoch_endings(), version) {
                Some(ended_at) => Some((ended_at, self.ledger_db.epoch_endings()[ended_at])),
                None => None,
            },
    {
        self.ledger_db.get_previous_epoch_ending(version)
    }
}

/// The most versions that may follow the latest snapshot at startup: more
/// would be too many to replay.
pub const MAX_WRITE_SETS_AFTER_SNAPSHOT: u64 = TARGET_SNAPSHOT_INTERVAL_IN_VERSION * (
ASYNC_COMMIT_CHANNEL_BUFFER_SIZE + 2 + 1) * 2;

/// The versions whose write sets are to be replayed on top of the latest
/// snapshot.
#[derive(Clone, Copy, Debug, PartialEq, Eq, Structural)]
pub struct ReplayRange {
    pub first_version: Version,
    pub num_versions: u64,
}

/// The state store with its write buffer.
pub struct StateStore {
    pub state_db: StateDb,
    /// `base` is the latest snapshot of the tree store; `current` is the
    /// latest state replayed from there.
    pub buffered_state: BufferedState,
    pub buffered_state_target_items: usize,
}

/// The version after `version`; the first version of all after none.
pub open spec fn spec_next_version(version: Option<Version>) -> int {
    match version {
        Some(version) => version + 1,
        None => 0,
    }
}

/// The persisted state that a buffer starts from when the ledger holds
/// `num_transactions` transactions: the latest snapshot before that version
/// with its root and its usage, or the empty state with the root
/// `empty_root_hash`. Fails where the snapshot's usage is not on record.
pub open spec fn latest_persisted_state(
    committed: Map<Version, StateSnapshot>,
    records: Map<Version, StateStorageUsage>,
    num_transactions: Version,
    empty_root_hash: HashValue,
) -> Result<StateCheckpoint, StateStoreError> {
    let version = latest_before(committed, num_transactions);
    match spec_state_storage_usage(records, version) {
        Err(error) => Err(error),
        Ok(usage) => Ok(
            StateCheckpoint {
                version,
                root_hash: match version {
                    Some(version) => committed[version].root_hash,
                    None => empty_root_hash,
                },
                usage,
            },
        ),
    }
}

/// The versions to replay on top of the snapshot at `snapshot_version`:
/// those from the one after the snapshot up to the last transaction, if
/// there are any. Fails where they are to be counted and are more than
/// `MAX_WRITE_SETS_AFTER_SNAPSHOT`. Nothing is replayed, and nothing
/// counted, where the caller opts out of the consistency check.
pub open spec fn versions_to_replay(
    snapshot_version: Option<Version>,
    num_transactions: Version,
    hack_for_tests: bool,
    check_max_versions_after_snapshot: bool,
) -> Result<Option<ReplayRange>, StateStoreError> {
    let next = spec_next_version(snapshot_version);
    if hack_for_tests || next >= num_transactions {
        Ok(None)
    } else if check_max_versions_after_snapshot && num_transactions - next
        > MAX_WRITE_SETS_AFTER_SNAPSHOT {
        Err(
            StateStoreError::TooManyVersionsAfterSnapshot {
                snapshot_next_version: next as Version,
                num_transactions,
            },
        )
    } else {
        Ok(
            Some(
                ReplayRange {
                    first_version: next as Version,
                    num_versions: (num_transactions - next) as u64,
                },
            ),
        )
    }
}

/// What keeps a buffer from being opened on the stores, if anything does:
/// the usage of the latest snapshot not on record, or more versions to
/// replay than are counted for.
pub open spec fn buffer_fault(
    committed: Map<Version, StateSnapshot>,
    records: Map<Version, StateStorageUsage>,
    num_transactions: Version,
    hack_for_tests: bool,
    check_max_versions_after_snapshot: bool,
) -> Option<StateStoreError> {
    let version = latest_before(committed, num_transactions);
    match spec_state_storage_usage(records, version) {
        Err(error) => Some(error),
        Ok(_) => match versions_to_replay(
            version,
            num_transactions,
            hack_for_tests,
            check_max_versions_after_snapshot,
        ) {
            Err(error) => Some(error),
            Ok(_) => None,
        },
    }
}

/// What keeps the state store from being opened on the stores, if anything
/// does: a fault of the markers under the bound, or what keeps the buffer
/// from being opened once the stores are reconciled.
pub open spec fn opening_fault(
    ledger_db: LedgerDb,
    state_merkle_db: StateMerkleDb,
    state_kv_db: StateKvDb,
    num_transactions: Version,
    hack_for_tests: bool,
) -> Option<StateStoreError> {
    match progress_fault(
        ledger_db.overall_commit_progress,
        ledger_db.ledger_commit_progress,
        state_kv_db.commit_progress,
        true,
    ) {
        Some(fault) => Some(fault),
        None => buffer_fault(
            state_merkle_db.committed(),
            usage_records_after_sync(ledger_db, state_kv_db),
            num_transactions,
            hack_for_tests,
            true,
        ),
    }
}

/// What opening a buffer on the stores comes to: the persisted state to
/// start from and the versions to replay, or the first fault.
pub open spec fn buffer_on_latest_snapshot(
    committed: Map<Version, StateSnapshot>,
    records: Map<Version, StateStorageUsage>,
    num_transactions: Version,
    empty_root_hash: HashValue,
    hack_for_tests: bool,
    check_max_versions_after_snapshot: bool,
) -> Result<(StateCheckpoint, Option<ReplayRange>), StateStoreError> {
    match latest_persisted_state(committed, records, num_transactions, empty_root_hash) {
        Err(error) => Err(error),
        Ok(state) => match versions_to_replay(
            state.version,
            num_transactions,
            hack_for_tests,
            check_max_versions_after_snapshot,
        ) {
            Err(error) => Err(error),
            Ok(range) => Ok((state, range)),
        },
    }
}

impl StateStore {
    /// Opens a write buffer on the latest snapshot before `num_transactions`,
    /// the number of transactions in the ledger, and tells which versions
    /// are to be replayed into it. `empty_root_hash` is the root of a tree
    /// without leaves.
    pub fn create_buffered_state_from_latest_snapshot(
        state_db: &StateDb,
        num_transactions: Version,
        empty_root_hash: HashValue,
        buffered_state_target_items: usize,
        hack_for_tests: bool,
        check_max_versions_after_snapshot: bool,
    ) -> (created: Result<(BufferedState, Option<ReplayRange>), StateStoreError>)
        ensures
            match buffer_on_latest_snapshot(
                state_db.state_merkle_db.committed(),
                state_db.ledger_db.usage_records(),
                num_transactions,
                empty_root_hash,
                hack_for_tests,
                check_max_versions_after_snapshot,
            ) {
                Ok((state, range)) => {
                    &&& created matches Ok((buffer, to_replay))
                    &&& to_replay == range
                    &&& buffer.target_items == buffered_state_target_items
                    &&& buffer.state.base == state
                    &&& buffer.state.current == state
                    &&& buffer.state.buffered() == Seq::<WriteView>::empty()
                },
                Err(error) => created == Err::<
                    (BufferedState, Option<ReplayRange>),
                    StateStoreError,
                >(error),
            },
    {
        let latest_snapshot_version = state_db.state_merkle_db.get_state_snapshot_version_before(
            num_transactions,
        );
        let latest_snapshot_root_hash = match latest_snapshot_version {
            Some(version) => {
                proof {
                    assert(is_latest_before(
                        state_db.state_merkle_db.committed(),
                        num_transactions,
                        version,
                    ));
                }
                match state_db.state_merkle_db.get_root_hash(version) {
                    Ok(root_hash) => root_hash,
                    Err(_) => empty_root_hash,
                }
            },
            None => empty_root_hash,
        };
        let usage = match state_db.get_state_storage_usage(latest_snapshot_version) {
            Ok(usage) => usage,
            Err(error) => {
                return Err(error);
            },
        };
        let buffered_state = BufferedState::new(
            StateDelta::new_at_checkpoint(latest_snapshot_root_hash, usage, latest_snapshot_version),
            buffered_state_target_items,
        );
        if hack_for_tests {
            return Ok((buffered_state, None));
        }
        let snapshot_next_version = match latest_snapshot_version {
            Some(version) => version + 1,
            None => 0,
        };
        if snapshot_next_version < num_transactions {
            let num_versions = num_transactions - snapshot_next_version;
            if check_max_versions_after_snapshot && num_versions > MAX_WRITE_SETS_AFTER_SNAPSHOT {
                return Err(
                    StateStoreError::TooManyVersionsAfterSnapshot {
                        snapshot_next_version,
                        num_transactions,
                    },
                );
            }
            Ok((buffered_state, Some(ReplayRange { first_version: snapshot_next_version, num_versions })))
        } else {
            Ok((buffered_state, None))
        }
    }

    /// Tells what keeps a buffer from being opened on the latest snapshot
    /// before `num_transactions`, if anything does. With `cut_to`, the usage
    /// records are taken as they are once the ledger store is cut back to
    /// that version.
    fn check_buffer(
        state_merkle_db: &StateMerkleDb,
        ledger_db: &LedgerDb,
        cut_to: Option<Version>,
        num_transactions: Version,
        hack_for_tests: bool,
        check_max_versions_after_snapshot: bool,
    ) -> (fault: Option<StateStoreError>)
        ensures
            fault == buffer_fault(
                state_merkle_db.committed(),
                match cut_to {
                    Some(version) => records_up_to(ledger_db.usage_records(), version),
                    None => ledger_db.usage_records(),
                },
                num_transactions,
                hack_for_tests,
                check_max_versions_after_snapshot,
            ),
    {
        let latest_snapshot_version = state_merkle_db.get_state_snapshot_version_before(
            num_transactions,
        );
        let snapshot_next_version = match latest_snapshot_version {
            Some(version) => {
                proof {
                    assert(is_latest_before(state_merkle_db.committed(), num_transactions, version));
                }
                let cut_away = match cut_to {
                    Some(kept) => version > kept,
                    None => false,
                };
                if cut_away || ledger_db.get_version_data(version).is_none() {
                    return Some(StateStoreError::VersionDataNotFound { version });
                }
                version + 1
            },
            None => 0,
        };
        if !hack_for_tests && snapshot_next_version < num_transactions
            && check_max_versions_after_snapshot && num_transactions - snapshot_next_version
            > MAX_WRITE_SETS_AFTER_SNAPSHOT {
            return Some(
                StateStoreError::TooManyVersionsAfterSnapshot {
                    snapshot_next_version,
                    num_transactions,
                },
            );
        }
        None
    }

    /// Tells what keeps the state store from being opened on these stores
    /// with `num_transactions` transactions in the ledger, if anything does.
    pub fn opening_fault(
        ledger_db: &LedgerDb,
        state_merkle_db: &StateMerkleDb,
        state_kv_db: &StateKvDb,
        num_transactions: Version,
        hack_for_tests: bool,
    ) -> (fault: Option<StateStoreError>)
        ensures
            fault == opening_fault(
                *ledger_db,
                *state_merkle_db,
                *state_kv_db,
                num_transactions,
                hack_for_tests,
            ),
    {
        match commit_progress_fault(ledger_db, state_kv_db, true) {
            Some(fault) => Some(fault),
            None => {
                let cut_to = match (ledger_db.overall_commit_progress, ledger_db.ledger_commit_progress) {
                    (Some(overall), Some(ledger)) => if overall < ledger {
                        Some(overall)
                    } else {
                        None
                    },
                    _ => None,
                };
                Self::check_buffer(
                    state_merkle_db,
                    ledger_db,
                    cut_to,
                    num_transactions,
                    hack_for_tests,
                    true,
                )
            },
        }
    }

    /// Tells what keeps the write buffer from being opened anew, if anything
    /// does.
    pub fn reset_fault(&self, num_transactions: Version) -> (fault: Option<StateStoreError>)
        ensures
            fault == buffer_fault(
                self.state_db.state_merkle_db.committed(),
                self.state_db.ledger_db.usage_records(),
                num_transactions,
                false,
                true,
            ),
    {
        Self::check_buffer(
            &self.state_db.state_merkle_db,
            &self.state_db.ledger_db,
            None,
            num_transactions,
            false,
            true,
        )
    }

    /// Opens the state store: brings the stores to the overall commit
    /// progress, with the bound on how far a store may be ahead, then opens
    /// the write buffer on the latest snapshot, with the bound on the
    /// versions to replay.
    ///
    /// Nothing must keep the store from being opened: `opening_fault` tells.
    pub fn new(
        ledger_db: LedgerDb,
        state_merkle_db: StateMerkleDb,
        state_kv_db: StateKvDb,
        num_transactions: Version,
        empty_root_hash: HashValue,
        buffered_state_target_items: usize,
        hack_for_tests: bool,
    ) -> (opened: (Self, Option<ReplayRange>))
        requires
            opening_fault(
                ledger_db,
                state_merkle_db,
                state_kv_db,
                num_transactions,
                hack_for_tests,
            ).is_none(),
        ensures
            buffer_on_latest_snapshot(
                state_merkle_db.committed(),
                usage_records_after_sync(ledger_db, state_kv_db),
                num_transactions,
                empty_root_hash,
                hack_for_tests,
                true,
            ) matches Ok((state, range)) && {
                &&& opened.1 == range
                &&& reconciled(
                    ledger_db,
                    state_kv_db,
                    opened.0.state_db.ledger_db,
                    opened.0.state_db.state_kv_db,
                    true,
                )
                &&& opened.0.state_db.ledger_db.epoch_by_version == ledger_db.epoch_by_version
                &&& opened.0.state_db.state_kv_db.restore_progress == state_kv_db.restore_progress
                &&& opened.0.state_db.state_merkle_db == state_merkle_db
                &&& opened.0.buffered_state_target_items == buffered_state_target_items
                &&& opened.0.buffered_state.target_items == buffered_state_target_items
                &&& opened.0.buffered_state.state.base == state
                &&& opened.0.buffered_state.state.current == state
                &&& opened.0.buffered_state.state.buffered() == Seq::<WriteView>::empty()
            },
    {
        let mut ledger_db = ledger_db;
        let mut state_kv_db = state_kv_db;
        Self::sync_commit_progress(&mut ledger_db, &mut state_kv_db, true);
        let state_db = StateDb { ledger_db, state_merkle_db, state_kv_db };
        match Self::create_buffered_state_from_latest_snapshot(
            &state_db,
            num_transactions,
            empty_root_hash,
            buffered_state_target_items,
            hack_for_tests,
            true,
        ) {
            Ok((buffered_state, to_replay)) => (
                StateStore { state_db, buffered_state, buffered_state_target_items },
                to_replay,
            ),
            Err(_) => unreached(),
        }
    }

    /// Opens a write buffer on the latest snapshot for tooling that brings
    /// the tree store up to the ledger: no flush target, and no bound on the
    /// versions to replay.
    pub fn catch_up_state_merkle_db(
        state_db: &StateDb,
        num_transactions: Version,
        empty_root_hash: HashValue,
    ) -> (created: Result<(BufferedState, Option<ReplayRange>), StateStoreError>)
        ensures
            match buffer_on_latest_snapshot(
                state_db.state_merkle_db.committed(),
                state_db.ledger_db.usage_records(),
                num_transactions,
                empty_root_hash,
                false,
                false,
            ) {
                Ok((state, range)) => {
                    &&& created matches Ok((buffer, to_replay))
                    &&& to_replay == range
                    &&& buffer.target_items == 0
                    &&& buffer.state.base == state
                    &&& buffer.state.current == state
                    &&& buffer.state.buffered() == Seq::<WriteView>::empty()
                },
                Err(error) => created == Err::<
                    (BufferedState, Option<ReplayRange>),
                    StateStoreError,
                >(error),
            },
    {
        Self::create_buffered_state_from_latest_snapshot(
            state_db,
            num_transactions,
            empty_root_hash,
            0,
            false,
            false,
        )
    }

    /// Drops everything buffered and opens the write buffer anew on the
    /// latest snapshot.
    ///
    /// Nothing must keep the buffer from being opened: `reset_fault` tells.
    pub fn reset(&mut self, num_transactions: Version, empty_root_hash: HashValue) -> (to_replay: Option<
        ReplayRange,
    >)
        requires
            buffer_fault(
                old(self).state_db.state_merkle_db.committed(),
                old(self).state_db.ledger_db.usage_records(),
                num_transactions,
                false,
                true,
            ).is_none(),
        ensures
            final(self).state_db == old(self).state_db,
            final(self).buffered_state_target_items == old(self).buffered_state_target_items,
            buffer_on_latest_snapshot(
                old(self).state_db.state_merkle_db.committed(),
                old(self).state_db.ledger_db.usage_records(),
                num_transactions,
                empty_root_hash,
                false,
                true,
            ) matches Ok((state, range)) && {
                &&& to_replay == range
                &&& final(self).buffered_state.target_items == old(self).buffered_state_target_items
                &&& final(self).buffered_state.state.base == state
                &&& final(self).buffered_state.state.current == state
                &&& final(self).buffered_state.state.buffered() == Seq::<WriteView>::empty()
            },
    {
        match Self::create_buffered_state_from_latest_snapshot(
            &self.state_db,
            num_transactions,
            empty_root_hash,
            self.buffered_state_target_items,
            false,
            true,
        ) {
            Ok((buffered_state, to_replay)) => {
                self.buffered_state = buffered_state;
                to_replay
            },
            Err(_) => unreached(),
        }
    }

    /// The usage of the state at `version`.
    pub fn get_usage(&self, version: Option<Version>) -> (usage: Result<
        StateStorageUsage,
        StateStoreError,
    >)
        ensures
            usage == spec_state_storage_usage(self.state_db.ledger_db.usage_records(), version),
    {
        self.state_db.get_state_storage_usage(version)
    }

    /// The root of the snapshot at `version`.
    pub fn get_root_hash(&self, version: Version) -> (root: Result<HashValue, StateStoreError>)
        ensures
            root == if self.state_db.state_merkle_db.committed().dom().contains(version) {
                Ok::<HashValue, StateStoreError>(
                    self.state_db.state_merkle_db.committed()[version].root_hash,
                )
            } else {
                Err(StateStoreError::StateSnapshotNotFound { version })
            },
    {
        self.state_db.state_merkle_db.get_root_hash(version)
    }

    /// The number of values in the snapshot at `version`.
    pub fn get_value_count(&self, version: Version) -> (count: Result<usize, StateStoreError>)
        ensures
            count == if self.state_db.state_merkle_db.committed().dom().contains(version) {
                Ok::<usize, StateStoreError>(self.state_db.state_merkle_db.committed()[version].leaf_count)
            } else {
                Err(StateStoreError::StateSnapshotNotFound { version })
            },
    {
        self.state_db.state_merkle_db.get_leaf_count(version)
    }

    /// Puts into `batch` the usage after each version of the value sets, and
    /// into `state_kv_batch` the stale-index records that they give rise to.
    ///
    /// A deletion is coupled with a stale-index record of the tombstone
    /// itself, stale since its own version. A write to a key that had a live
    /// value is coupled with a stale-index record of that value, stale since
    /// the write. The accounting starts from the usage on record at the
    /// version before, and from zero where none is. Where it fails, both
    /// batches are as before. No version writes a key twice: `each_key_once`
    /// tells.
    pub fn put_stats_and_indices(
        &self,
        pool: &IoPool,
        value_state_sets: &Vec<ValueSet>,
        first_version: Version,
        expected_usage: StateStorageUsage,
        batch: &mut SchemaBatch,
        state_kv_batch: &mut StateKvSchemaBatch,
    ) -> (put: Result<(), StateStoreError>)
        requires
            first_version + value_state_sets@.len() <= u64::MAX,
            each_key_once_a_version(value_state_sets@),
        ensures
            final(state_kv_batch).values == old(state_kv_batch).values,
            match stats_and_indices(
                self.state_db.ledger_db.usage_records(),
                self.state_db.state_kv_db.history(),
                value_state_sets@,
                first_version,
                expected_usage,
            ) {
                Ok(outcome) => {
                    &&& put.is_ok()
                    &&& final(batch).version_data@ == old(batch).version_data@ + outcome.usages
                    &&& final(state_kv_batch).stale_records() == old(state_kv_batch).stale_records()
                        + outcome.ledger.stale
                },
                Err(error) => {
                    &&& put == Err::<(), StateStoreError>(error)
                    &&& *final(batch) == *old(batch)
                    &&& *final(state_kv_batch) == *old(state_kv_batch)
                },
            },
    {
        let base_version = if first_version == 0 {
            None
        } else {
            Some(first_version - 1)
        };
        // Where nothing is on record before the batch, the state was empty.
        let base_usage = match base_version {
            Some(version) => match self.state_db.ledger_db.get_version_data(version) {
                Some(usage) => usage,
                None => StateStorageUsage::zero(),
            },
            None => StateStorageUsage::zero(),
        };
        let (mut usages, mut stale) = match compute_stats_and_indices(
            pool,
            &self.state_db.state_kv_db,
            value_state_sets,
            first_version,
            base_usage,
        ) {
            Ok(computed) => computed,
            Err(error) => {
                return Err(error);
            },
        };
        let ghost outcome = batch_outcome(
            self.state_db.state_kv_db.history(),
            base_usage,
            first_version,
            value_state_sets@,
        ).unwrap();
        let usage = if usages.len() == 0 {
            base_usage
        } else {
            usages[usages.len() - 1].1
        };
        proof {
            lemma_closing_usage_counted(
                LedgerState {
                    usage: base_usage,
                    latest: writes_before(self.state_db.state_kv_db.history(), first_version),
                    stale: Seq::empty(),
                },
                first_version,
                value_state_sets@,
            );
        }
        if !expected_usage.is_untracked() && expected_usage != usage {
            return Err(
                StateStoreError::UsageMismatch {
                    expected: expected_usage,
                    calculated: usage,
                    base_version,
                    base_version_usage: base_usage,
                },
            );
        }
        batch.version_data.append(&mut usages);
        state_kv_batch.stale_indices.append(&mut stale);
        proof {
            assert(final(state_kv_batch).stale_records() =~= old(state_kv_batch).stale_records()
                + outcome.ledger.stale);
        }
        Ok(())
    }

    /// Commits the value sets of the versions from `first_version` on: their
    /// writes overlay the raw store's history, their stale-index records
    /// follow those there, and the usage after each version is on record.
    /// Where the accounting fails, nothing is written. No version writes a
    /// key twice: `each_key_once` tells.
    ///
    /// The stale index stays consistent where it was and the raw store holds
    /// no write at these versions or after.
    pub fn commit_value_sets(
        &mut self,
        pool: &IoPool,
        value_state_sets: &Vec<ValueSet>,
        first_version: Version,
        expected_usage: StateStorageUsage,
    ) -> (committed: Result<(), StateStoreError>)
        requires
            first_version + value_state_sets@.len() <= u64::MAX,
            each_key_once_a_version(value_state_sets@),
        ensures
            final(self).state_db.state_merkle_db == old(self).state_db.state_merkle_db,
            final(self).state_db.state_kv_db.commit_progress == old(
                self,
            ).state_db.state_kv_db.commit_progress,
            final(self).state_db.state_kv_db.restore_progress == old(
                self,
            ).state_db.state_kv_db.restore_progress,
            final(self).state_db.ledger_db.epoch_by_version == old(
                self,
            ).state_db.ledger_db.epoch_by_version,
            final(self).state_db.ledger_db.overall_commit_progress == old(
                self,
            ).state_db.ledger_db.overall_commit_progress,
            final(self).state_db.ledger_db.ledger_commit_progress == old(
                self,
            ).state_db.ledger_db.ledger_commit_progress,
            match stats_and_indices(
                old(self).state_db.ledger_db.usage_records(),
                old(self).state_db.state_kv_db.history(),
                value_state_sets@,
                first_version,
                expected_usage,
            ) {
                Ok(outcome) => {
                    &&& committed.is_ok()
                    &&& final(self).state_db.state_kv_db.history() == history_after_sets(
                        old(self).state_db.state_kv_db.history(),
                        first_version,
                        value_state_sets@,
                    )
                    &&& final(self).state_db.state_kv_db.stale_records() == old(
                        self,
                    ).state_db.state_kv_db.stale_records() + outcome.ledger.stale
                    &&& final(self).state_db.ledger_db.usage_records() == old(
                        self,
                    ).state_db.ledger_db.usage_records().union_prefer_right(
                        records_of(outcome.usages),
                    )
                    &&& index_consistent(
                        old(self).state_db.state_kv_db.history(),
                        old(self).state_db.state_kv_db.stale_records(),
                    ) && written_before(
                        old(self).state_db.state_kv_db.history(),
                        first_version as int,
                    ) ==> index_consistent(
                        final(self).state_db.state_kv_db.history(),
                        final(self).state_db.state_kv_db.stale_records(),
                    )
                },
                Err(error) => committed == Err::<(), StateStoreError>(error) && *final(self)
                    == *old(self),
            },
    {
        let mut ledger_batch = SchemaBatch::new();
        let mut state_kv_batch = StateKvSchemaBatch::new();
        match self.put_value_sets(
            pool,
            value_state_sets,
            first_version,
            expected_usage,
            &mut ledger_batch,
            &mut state_kv_batch,
        ) {
            Ok(()) => {},
            Err(error) => {
                return Err(error);
            },
        }
        proof {
            let history = self.state_db.state_kv_db.history();
            let outcome = stats_and_indices(
                self.state_db.ledger_db.usage_records(),
                history,
                value_state_sets@,
                first_version,
                expected_usage,
            ).unwrap();
            assert(entry_writes(state_kv_batch.values@) =~= writes_of(
                value_state_sets@,
                first_version,
            ));
            lemma_history_of_entries(history, state_kv_batch.values@);
            lemma_history_after_sets(history, first_version, value_state_sets@);
            assert(state_kv_batch.stale_records() =~= outcome.ledger.stale);
            assert(ledger_batch.version_data@ =~= outcome.usages);
            let base_usage = usage_before(self.state_db.ledger_db.usage_records(), first_version);
            lemma_usages_all_counted(
                LedgerState {
                    usage: base_usage,
                    latest: writes_before(history, first_version),
                    stale: Seq::empty(),
                },
                first_version,
                value_state_sets@,
            );
            lemma_records_of_counted(outcome.usages);
            lemma_counted_records_read_alike(records_of(outcome.usages));
            if index_consistent(history, self.state_db.state_kv_db.stale_records()) && written_before(
                history,
                first_version as int,
            ) {
                lemma_commit_keeps_index(
                    history,
                    self.state_db.state_kv_db.stale_records(),
                    base_usage,
                    first_version,
                    value_state_sets@,
                );
            }
        }
        self.state_db.state_kv_db.commit(state_kv_batch);
        self.state_db.ledger_db.write_schemas(ledger_batch);
        Ok(())
    }

    /// Puts the value sets into the batches: their usage and stale-index
    /// records, then every write of theirs with its version. Where the
    /// accounting fails, both batches are as before. No version writes a key
    /// twice: `each_key_once` tells.
    pub fn put_value_sets(
        &self,
        pool: &IoPool,
        value_state_sets: &Vec<ValueSet>,
        first_version: Version,
        expected_usage: StateStorageUsage,
        ledger_batch: &mut SchemaBatch,
        state_kv_batch: &mut StateKvSchemaBatch,
    ) -> (put: Result<(), StateStoreError>)
        requires
            first_version + value_state_sets@.len() <= u64::MAX,
            each_key_once_a_version(value_state_sets@),
        ensures
            match stats_and_indices(
                self.state_db.ledger_db.usage_records(),
                self.state_db.state_kv_db.history(),
                value_state_sets@,
                first_version,
                expected_usage,
            ) {
                Ok(outcome) => {
                    &&& put.is_ok()
                    &&& final(ledger_batch).version_data@ == old(ledger_batch).version_data@
                        + outcome.usages
                    &&& final(state_kv_batch).stale_records() == old(state_kv_batch).stale_records()
                        + outcome.ledger.stale
                    &&& entry_writes(final(state_kv_batch).values@) == entry_writes(
                        old(state_kv_batch).values@,
                    ) + writes_of(value_state_sets@, first_version)
                },
                Err(error) => {
                    &&& put == Err::<(), StateStoreError>(error)
                    &&& *final(ledger_batch) == *old(ledger_batch)
                    &&& *final(state_kv_batch) == *old(state_kv_batch)
                },
            },
    {
        match self.put_stats_and_indices(
            pool,
            value_state_sets,
            first_version,
            expected_usage,
            ledger_batch,
            state_kv_batch,
        ) {
            Ok(()) => {},
            Err(error) => {
                return Err(error);
            },
        }
        let ghost values_before = state_kv_batch.values@;
        let ghost stale_put = state_kv_batch.stale_indices;
        let mut at: usize = 0;
        proof {
            assert(value_state_sets@.subrange(0, 0) =~= Seq::<ValueSet>::empty());
            assert(entry_writes(values_before) + writes_of(
                value_state_sets@.subrange(0, 0),
                first_version,
            ) =~= entry_writes(values_before));
        }
        while at < value_state_sets.len()
            invariant
                at <= value_state_sets@.len(),
                first_version + value_state_sets@.len() <= u64::MAX,
                state_kv_batch.stale_indices == stale_put,
                entry_writes(state_kv_batch.values@) == entry_writes(values_before) + writes_of(
                    value_state_sets@.subrange(0, at as int),
                    first_version,
                ),
            decreases value_state_sets@.len() - at,
        {
            let writes = &value_state_sets[at];
            let version: Version = first_version + at as u64;
            let ghost done_sets = entry_writes(state_kv_batch.values@);
            let ghost as_writes = writes@.map_values(
                |write: (StateKey, Option<StateValue>)| (write.0@, version, value_view(write.1)),
            );
            let mut within: usize = 0;
            while within < writes.len()
                invariant
                    within <= writes@.len(),
                    state_kv_batch.stale_indices == stale_put,
                    as_writes == writes@.map_values(
                        |write: (StateKey, Option<StateValue>)| (
                            write.0@,
                            version,
                            value_view(write.1),
                        ),
                    ),
                    entry_writes(state_kv_batch.values@) == done_sets + as_writes.subrange(
                        0,
                        within as int,
                    ),
                decreases writes@.len() - within,
            {
                let ghost before = entry_writes(state_kv_batch.values@);
                state_kv_batch.values.push(
                    StateValueEntry {
                        key: writes[within].0.clone(),
                        version,
                        value: clone_value(&writes[within].1),
                    },
                );
                proof {
                    assert(entry_writes(state_kv_batch.values@) =~= before.push(
                        as_writes[within as int],
                    ));
                    assert(as_writes.subrange(0, within + 1) =~= as_writes.subrange(
                        0,
                        within as int,
                    ).push(as_writes[within as int]));
                }
                within = within + 1;
            }
            proof {
                assert(as_writes.subrange(0, writes@.len() as int) =~= as_writes);
                let next_sets = value_state_sets@.subrange(0, at + 1);
                assert(next_sets.drop_last() =~= value_state_sets@.subrange(0, at as int));
                assert(next_sets.last() == writes);
                assert(writes_of(next_sets, first_version) == writes_of(
                    value_state_sets@.subrange(0, at as int),
                    first_version,
                ) + as_writes);
            }
            at = at + 1;
        }
        proof {
            assert(value_state_sets@.subrange(0, value_state_sets@.len() as int)
                =~= value_state_sets@);
        }
        Ok(())
    }

    /// The write buffer.
    pub fn buffered_state(&self) -> (buffer: &BufferedState)
        ensures
            *buffer == self.buffered_state,
    {
        &self.buffered_state
    }
}

/// The usage records of the ledger store after the stores were brought to
/// the overall commit progress under the bound.
pub open spec fn usage_records_after_sync(ledger_db: LedgerDb, state_kv_db: StateKvDb) -> Map<
    Version,
    StateStorageUsage,
> {
    if cuts_ledger(
        ledger_db.overall_commit_progress,
        ledger_db.ledger_commit_progress,
        state_kv_db.commit_progress,
        true,
    ) {
        records_up_to(ledger_db.usage_records(), ledger_db.overall_commit_progress.unwrap())
    } else {
        ledger_db.usage_records()
    }
}

} // verus!
