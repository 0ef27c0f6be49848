use state_store::commit_progress::{commit_progress_fault, MAX_COMMIT_PROGRESS_DIFFERENCE};
use state_store::error::StateStoreError;
use state_store::ledger_db::LedgerDb;
use state_store::state_kv_db::StateKvDb;
use state_store::state_merkle_db::StateMerkleDb;
use state_store::state_store::{ReplayRange, StateDb, StateStore, MAX_WRITE_SETS_AFTER_SNAPSHOT};
use state_store::types::{
    HashValue, StaleStateValueIndex, StateKey, StateStorageUsage, StateValue,
};

fn key(name: &str) -> StateKey {
    StateKey::new(name.as_bytes().to_vec(), name.as_bytes()[0] % 16)
}

/// Reconciles the stores where their markers are without fault, and tells the fault otherwise.
fn sync(
    ledger_db: &mut LedgerDb,
    state_kv_db: &mut StateKvDb,
    bounded: bool,
) -> Result<(), StateStoreError> {
    match commit_progress_fault(ledger_db, state_kv_db, bounded) {
        Some(fault) => Err(fault),
        None => {
            StateStore::sync_commit_progress(ledger_db, state_kv_db, bounded);
            Ok(())
        },
    }
}

fn stores(overall: Option<u64>, ledger: Option<u64>, state_kv: Option<u64>) -> (LedgerDb, StateKvDb) {
    let mut ledger_db = LedgerDb::new();
    ledger_db.overall_commit_progress = overall;
    ledger_db.ledger_commit_progress = ledger;
    let mut state_kv_db = StateKvDb::new();
    state_kv_db.commit_progress = state_kv;
    (ledger_db, state_kv_db)
}

#[test]
fn stores_ahead_are_cut_back_to_the_overall_progress() {
    let (mut ledger_db, mut state_kv_db) = stores(Some(100), Some(105), Some(103));
    for version in 98..=105 {
        ledger_db.put_version_data(version, StateStorageUsage::new(version as usize, 0));
    }
    for version in 98..=103 {
        state_kv_db.put_value(key("k"), version, Some(StateValue::new(vec![version as u8])));
        state_kv_db.put_stale_index(StaleStateValueIndex {
            stale_since_version: version,
            version: version - 1,
            state_key: key("k"),
        });
    }
    assert_eq!(sync(&mut ledger_db, &mut state_kv_db, true), Ok(()));

    assert_eq!(ledger_db.overall_commit_progress, Some(100));
    assert_eq!(ledger_db.ledger_commit_progress, Some(100));
    assert_eq!(state_kv_db.commit_progress, Some(100));
    assert_eq!(ledger_db.version_data.get(100), Some(StateStorageUsage::new(100, 0)));
    assert_eq!(ledger_db.version_data.get(101), None);
    assert_eq!(ledger_db.version_data.get(105), None);
    assert_eq!(ledger_db.version_data.rows.len(), 3);
    assert_eq!(state_kv_db.entries.len(), 3);
    assert_eq!(state_kv_db.stale_index.len(), 3);
    assert_eq!(
        state_kv_db.get_state_value_with_version_by_version(&key("k"), 200),
        Some((100, StateValue::new(vec![100])))
    );
}

#[test]
fn stores_at_the_overall_progress_are_left_alone() {
    let (mut ledger_db, mut state_kv_db) = stores(Some(100), Some(100), Some(100));
    ledger_db.put_version_data(101, StateStorageUsage::zero());
    state_kv_db.put_value(key("k"), 101, None);
    assert_eq!(sync(&mut ledger_db, &mut state_kv_db, true), Ok(()));
    assert_eq!(ledger_db.version_data.get(101), Some(StateStorageUsage::zero()));
    assert_eq!(state_kv_db.entries.len(), 1);
}

#[test]
fn without_overall_progress_nothing_is_done() {
    let (mut ledger_db, mut state_kv_db) = stores(None, Some(7), None);
    ledger_db.put_version_data(7, StateStorageUsage::zero());
    assert_eq!(sync(&mut ledger_db, &mut state_kv_db, true), Ok(()));
    assert_eq!(ledger_db.ledger_commit_progress, Some(7));
    assert_eq!(state_kv_db.commit_progress, None);
    assert_eq!(ledger_db.version_data.get(7), Some(StateStorageUsage::zero()));
}

#[test]
fn a_divergence_beyond_the_bound_is_refused() {
    let (mut ledger_db, mut state_kv_db) = stores(Some(100), Some(200_100), Some(100));
    ledger_db.put_version_data(200_000, StateStorageUsage::zero());
    let result = sync(&mut ledger_db, &mut state_kv_db, true);
    assert_eq!(
        result,
        Err(StateStoreError::CommitProgressTooFarAhead {
            progress: 200_100,
            overall_commit_progress: 100
        })
    );
    assert!(result.unwrap_err().is_fatal());
    assert_eq!(ledger_db.ledger_commit_progress, Some(200_100));
    assert_eq!(ledger_db.version_data.get(200_000), Some(StateStorageUsage::zero()));
}

#[test]
fn the_bound_itself_is_tolerated() {
    assert_eq!(MAX_COMMIT_PROGRESS_DIFFERENCE, 100_000);
    let (mut ledger_db, mut state_kv_db) = stores(Some(5), Some(100_005), Some(100_006));
    let result = sync(&mut ledger_db, &mut state_kv_db, true);
    assert_eq!(
        result,
        Err(StateStoreError::CommitProgressTooFarAhead {
            progress: 100_006,
            overall_commit_progress: 5
        })
    );
    // Nothing is cut where a marker is at fault.
    assert_eq!(ledger_db.ledger_commit_progress, Some(100_005));
    assert_eq!(state_kv_db.commit_progress, Some(100_006));
    state_kv_db.commit_progress = Some(100_005);
    assert_eq!(sync(&mut ledger_db, &mut state_kv_db, true), Ok(()));
    assert_eq!(ledger_db.ledger_commit_progress, Some(5));
    assert_eq!(state_kv_db.commit_progress, Some(5));
}

#[test]
fn offline_tooling_tolerates_any_divergence() {
    let (mut ledger_db, mut state_kv_db) = stores(Some(100), Some(200_100), Some(300_100));
    assert_eq!(sync(&mut ledger_db, &mut state_kv_db, false), Ok(()));
    assert_eq!(ledger_db.ledger_commit_progress, Some(100));
    assert_eq!(state_kv_db.commit_progress, Some(100));
}

#[test]
fn a_store_behind_the_overall_progress_is_a_fault() {
    let (mut ledger_db, mut state_kv_db) = stores(Some(100), Some(99), Some(100));
    assert_eq!(
        sync(&mut ledger_db, &mut state_kv_db, false),
        Err(StateStoreError::CommitProgressBehind { progress: 99, overall_commit_progress: 100 })
    );
    let (mut ledger_db, mut state_kv_db) = stores(Some(100), Some(110), Some(42));
    assert_eq!(
        sync(&mut ledger_db, &mut state_kv_db, false),
        Err(StateStoreError::CommitProgressBehind { progress: 42, overall_commit_progress: 100 })
    );
    assert_eq!(ledger_db.ledger_commit_progress, Some(110));
}

#[test]
fn a_missing_marker_is_a_fault() {
    let (mut ledger_db, mut state_kv_db) = stores(Some(100), None, Some(100));
    assert_eq!(
        sync(&mut ledger_db, &mut state_kv_db, true),
        Err(StateStoreError::CommitProgressMissing)
    );
    let (mut ledger_db, mut state_kv_db) = stores(Some(100), Some(100), None);
    assert_eq!(
        sync(&mut ledger_db, &mut state_kv_db, true),
        Err(StateStoreError::CommitProgressMissing)
    );
    assert!(StateStoreError::CommitProgressMissing.is_fatal());
}

fn root(byte: u8) -> HashValue {
    HashValue::new([byte; 32])
}

#[test]
fn a_new_store_reconciles_then_opens_on_the_latest_snapshot() {
    let (mut ledger_db, state_kv_db) = stores(Some(10), Some(12), Some(10));
    ledger_db.put_version_data(8, StateStorageUsage::new(3, 30));
    ledger_db.put_version_data(12, StateStorageUsage::new(9, 90));
    let mut state_merkle_db = StateMerkleDb::new();
    state_merkle_db.commit(8, root(8), 3);

    assert_eq!(
        StateStore::opening_fault(&ledger_db, &state_merkle_db, &state_kv_db, 11, false),
        None
    );
    let (store, to_replay) =
        StateStore::new(ledger_db, state_merkle_db, state_kv_db, 11, root(0), 1000, false);
    assert_eq!(to_replay, Some(ReplayRange { first_version: 9, num_versions: 2 }));
    assert_eq!(store.state_db.ledger_db.ledger_commit_progress, Some(10));
    assert_eq!(store.state_db.ledger_db.version_data.get(12), None);
    assert_eq!(store.buffered_state_target_items, 1000);
    let state = store.buffered_state().current_state();
    assert_eq!(state.base.version, Some(8));
    assert_eq!(state.base.root_hash, root(8));
    assert_eq!(state.base.usage, StateStorageUsage::new(3, 30));
    assert_eq!(state.current, state.base);
    assert!(state.updates_since_base.is_empty());
}

#[test]
fn a_new_store_refuses_a_divergence_beyond_the_bound() {
    let (ledger_db, state_kv_db) = stores(Some(0), Some(0), Some(200_000));
    assert_eq!(
        StateStore::opening_fault(&ledger_db, &StateMerkleDb::new(), &state_kv_db, 0, false),
        Some(StateStoreError::CommitProgressTooFarAhead { progress: 200_000, overall_commit_progress: 0 })
    );
}

#[test]
fn a_store_is_not_opened_on_a_snapshot_that_the_reconciliation_cuts_the_usage_of() {
    let (mut ledger_db, state_kv_db) = stores(Some(10), Some(12), Some(10));
    ledger_db.put_version_data(11, StateStorageUsage::new(1, 1));
    let mut state_merkle_db = StateMerkleDb::new();
    state_merkle_db.commit(11, root(11), 1);
    assert_eq!(
        StateStore::opening_fault(&ledger_db, &state_merkle_db, &state_kv_db, 12, false),
        Some(StateStoreError::VersionDataNotFound { version: 11 })
    );
    // Too many versions after the snapshot keep the store from being opened as well.
    let (ledger_db, state_kv_db) = stores(None, None, None);
    assert_eq!(
        StateStore::opening_fault(&ledger_db, &StateMerkleDb::new(), &state_kv_db, 160_001, false),
        Some(StateStoreError::TooManyVersionsAfterSnapshot {
            snapshot_next_version: 0,
            num_transactions: 160_001
        })
    );
    assert_eq!(
        StateStore::opening_fault(&ledger_db, &StateMerkleDb::new(), &state_kv_db, 160_001, true),
        None
    );
}

fn db_with_snapshot_at(version: Option<u64>) -> StateDb {
    let mut db = StateDb {
        ledger_db: LedgerDb::new(),
        state_merkle_db: StateMerkleDb::new(),
        state_kv_db: StateKvDb::new(),
    };
    if let Some(version) = version {
        db.state_merkle_db.commit(version, root(1), 5);
        db.ledger_db.put_version_data(version, StateStorageUsage::new(5, 50));
    }
    db
}

#[test]
fn an_empty_store_opens_on_the_empty_state() {
    let db = db_with_snapshot_at(None);
    let (buffer, to_replay) =
        StateStore::create_buffered_state_from_latest_snapshot(&db, 0, root(9), 7, false, true)
            .ok()
            .unwrap();
    assert_eq!(to_replay, None);
    assert_eq!(buffer.target_items, 7);
    assert_eq!(buffer.state.base.version, None);
    assert_eq!(buffer.state.base.root_hash, root(9));
    assert_eq!(buffer.state.base.usage, StateStorageUsage::new(0, 0));
}

#[test]
fn too_many_versions_after_the_snapshot_fail_the_opening() {
    assert_eq!(MAX_WRITE_SETS_AFTER_SNAPSHOT, 160_000);
    let db = db_with_snapshot_at(Some(99));
    let at_the_bound = 100 + MAX_WRITE_SETS_AFTER_SNAPSHOT;
    let (_, to_replay) = StateStore::create_buffered_state_from_latest_snapshot(
        &db,
        at_the_bound,
        root(0),
        7,
        false,
        true,
    )
    .ok()
    .unwrap();
    assert_eq!(to_replay, Some(ReplayRange { first_version: 100, num_versions: 160_000 }));

    let result = StateStore::create_buffered_state_from_latest_snapshot(
        &db,
        at_the_bound + 1,
        root(0),
        7,
        false,
        true,
    );
    assert!(matches!(
        result,
        Err(StateStoreError::TooManyVersionsAfterSnapshot {
            snapshot_next_version: 100,
            num_transactions: 160_101
        })
    ));
    assert!(result.err().unwrap().is_fatal());

    // Tooling that catches the tree store up does not count.
    let (buffer, to_replay) =
        StateStore::catch_up_state_merkle_db(&db, at_the_bound + 1, root(0)).ok().unwrap();
    assert_eq!(to_replay, Some(ReplayRange { first_version: 100, num_versions: 160_001 }));
    assert_eq!(buffer.target_items, 0);

    // Without the consistency check nothing is replayed.
    let (_, to_replay) = StateStore::create_buffered_state_from_latest_snapshot(
        &db,
        at_the_bound + 1,
        root(0),
        7,
        true,
        true,
    )
    .ok()
    .unwrap();
    assert_eq!(to_replay, None);
}

#[test]
fn a_snapshot_without_usage_on_record_fails_the_opening() {
    let mut db = db_with_snapshot_at(None);
    db.state_merkle_db.commit(4, root(4), 1);
    let result =
        StateStore::create_buffered_state_from_latest_snapshot(&db, 10, root(0), 7, false, true);
    assert!(matches!(result, Err(StateStoreError::VersionDataNotFound { version: 4 })));
}

#[test]
fn reset_drops_what_was_buffered() {
    let db = db_with_snapshot_at(Some(3));
    let (buffer, _) =
        StateStore::create_buffered_state_from_latest_snapshot(&db, 4, root(0), 7, false, true)
            .ok()
            .unwrap();
    let mut store = StateStore { state_db: db, buffered_state: buffer, buffered_state_target_items: 7 };
    store.buffered_state.buffer(
        vec![(key("a"), None)],
        state_store::buffered_state::StateCheckpoint {
            version: Some(4),
            root_hash: root(4),
            usage: StateStorageUsage::new(5, 50),
        },
    );
    assert_eq!(store.buffered_state().current_state().updates_since_base.len(), 1);
    assert_eq!(store.reset_fault(6), None);
    assert_eq!(store.reset(6, root(0)), Some(ReplayRange { first_version: 4, num_versions: 2 }));
    assert_eq!(
        store.reset_fault(200_000),
        Some(StateStoreError::TooManyVersionsAfterSnapshot {
            snapshot_next_version: 4,
            num_transactions: 200_000
        })
    );
    let state = store.buffered_state().current_state();
    assert!(state.updates_since_base.is_empty());
    assert_eq!(state.current.version, Some(3));
    assert_eq!(state.base.version, Some(3));
}
