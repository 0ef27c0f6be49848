use state_store::error::StateStoreError;
use state_store::io_pool::{reader_name, IoPool};
use state_store::ledger_db::{LedgerDb, SchemaBatch};
use state_store::state_kv_db::{StateKvDb, StateKvSchemaBatch};
use state_store::state_merkle_db::StateMerkleDb;
use state_store::buffered_state::{BufferedState, StateDelta};
use state_store::state_store::{StateDb, StateStore};
use state_store::usage_ledger::each_key_once;
use state_store::types::{
    HashValue, StaleStateValueIndex, StateKey, StateStorageUsage, StateValue,
};

fn key(name: &str) -> StateKey {
    StateKey::new(name.as_bytes().to_vec(), name.as_bytes()[0] % 16)
}

fn value(bytes: &[u8]) -> StateValue {
    StateValue::new(bytes.to_vec())
}

fn empty_db() -> StateStore {
    StateStore {
        state_db: StateDb {
            ledger_db: LedgerDb::new(),
            state_merkle_db: StateMerkleDb::new(),
            state_kv_db: StateKvDb::new(),
        },
        buffered_state: BufferedState::new(
            StateDelta::new_at_checkpoint(HashValue::new([0; 32]), StateStorageUsage::zero(), None),
            0,
        ),
        buffered_state_target_items: 0,
    }
}

fn pool() -> IoPool {
    IoPool::new(4).unwrap()
}

fn stale(stale_since_version: u64, version: u64, name: &str) -> StaleStateValueIndex {
    StaleStateValueIndex { stale_since_version, version, state_key: key(name) }
}

/// Puts the value sets and writes both batches to the stores.
fn commit(
    db: &mut StateStore,
    sets: Vec<Vec<(StateKey, Option<StateValue>)>>,
    first_version: u64,
    expected: StateStorageUsage,
) -> Result<(), StateStoreError> {
    db.commit_value_sets(&pool(), &sets, first_version, expected)
}

#[test]
fn write_overwrite_delete_end_to_end() {
    let mut db = empty_db();
    let sets = vec![
        vec![(key("A"), Some(value(&[1])))],
        vec![(key("A"), Some(value(&[2])))],
        vec![(key("A"), None)],
    ];
    commit(&mut db, sets, 10, StateStorageUsage::new_untracked()).unwrap();

    assert_eq!(db.get_usage(Some(10)).unwrap(), StateStorageUsage::new(1, 2));
    assert_eq!(db.get_usage(Some(11)).unwrap(), StateStorageUsage::new(1, 2));
    assert_eq!(db.get_usage(Some(12)).unwrap(), StateStorageUsage::new(0, 0));
    assert_eq!(
        db.state_db.state_kv_db.stale_index,
        vec![stale(11, 10, "A"), stale(12, 12, "A"), stale(12, 11, "A")]
    );
    assert_eq!(db.state_db.get_state_value_by_version(&key("A"), 10), Some(value(&[1])));
    assert_eq!(db.state_db.get_state_value_by_version(&key("A"), 11), Some(value(&[2])));
    assert_eq!(db.state_db.get_state_value_by_version(&key("A"), 12), None);
    assert_eq!(db.state_db.get_state_value_by_version(&key("A"), 9), None);
}

#[test]
fn first_batch_of_all_needs_no_base_usage() {
    let mut db = empty_db();
    let sets = vec![vec![
        (key("a"), Some(value(b"xyz"))),
        (key("bc"), Some(value(b""))),
        (key("gone"), None),
    ]];
    commit(&mut db, sets, 0, StateStorageUsage::new(2, 6)).unwrap();
    assert_eq!(db.get_usage(Some(0)).unwrap(), StateStorageUsage::new(2, 6));
    assert_eq!(db.get_usage(None).unwrap(), StateStorageUsage::new(0, 0));
    assert_eq!(db.state_db.state_kv_db.stale_index, vec![stale(0, 0, "gone")]);
}

#[test]
fn usage_is_previous_usage_plus_net_delta() {
    let mut db = empty_db();
    commit(
        &mut db,
        vec![vec![(key("k1"), Some(value(b"0123456789"))), (key("k2"), Some(value(b"ab")))]],
        0,
        StateStorageUsage::new_untracked(),
    )
    .unwrap();
    assert_eq!(db.get_usage(Some(0)).unwrap(), StateStorageUsage::new(2, 16));
    // Version 1 replaces k1 (12 bytes go, 3 come), deletes k2 (4 go), adds k3 (5 come).
    commit(
        &mut db,
        vec![vec![
            (key("k1"), Some(value(b"z"))),
            (key("k2"), None),
            (key("k3"), Some(value(b"abc"))),
        ]],
        1,
        StateStorageUsage::new(2, 8),
    )
    .unwrap();
    assert_eq!(db.get_usage(Some(1)).unwrap(), StateStorageUsage::new(2, 8));
    assert_eq!(
        db.state_db.state_kv_db.stale_index,
        vec![stale(1, 0, "k1"), stale(1, 1, "k2"), stale(1, 0, "k2")]
    );
}

#[test]
fn previous_value_is_looked_up_in_the_store_not_beyond_the_key() {
    let mut db = empty_db();
    commit(
        &mut db,
        vec![vec![(key("ab"), Some(value(b"1")))], vec![(key("a"), Some(value(b"22")))]],
        0,
        StateStorageUsage::new_untracked(),
    )
    .unwrap();
    // "a" was not written at version 0, though "ab" was.
    assert_eq!(db.state_db.get_state_value_with_version_by_version(&key("a"), 0), None);
    assert_eq!(
        db.state_db.get_state_value_with_version_by_version(&key("a"), 5),
        Some((1, value(b"22")))
    );
    assert_eq!(
        db.state_db.get_state_value_with_version_by_version(&key("ab"), 5),
        Some((0, value(b"1")))
    );
    assert!(db.state_db.state_kv_db.stale_index.is_empty());
}

#[test]
fn every_stale_record_is_stale_since_its_version_or_later() {
    let mut db = empty_db();
    commit(
        &mut db,
        vec![
            vec![(key("x"), Some(value(b"1"))), (key("y"), Some(value(b"1")))],
            vec![(key("x"), None)],
            vec![(key("x"), Some(value(b"3"))), (key("y"), Some(value(b"4")))],
        ],
        0,
        StateStorageUsage::new_untracked(),
    )
    .unwrap();
    let records = &db.state_db.state_kv_db.stale_index;
    assert_eq!(records, &vec![stale(1, 1, "x"), stale(1, 0, "x"), stale(2, 0, "y")]);
    for record in records {
        assert!(record.stale_since_version >= record.version);
    }
}

#[test]
fn without_a_usage_on_record_the_accounting_starts_from_zero() {
    let db = empty_db();
    let mut ledger_batch = SchemaBatch::new();
    let mut kv_batch = StateKvSchemaBatch::new();
    let result = db.put_stats_and_indices(
        &pool(),
        &vec![
            vec![(key("A"), Some(value(&[1])))],
            vec![(key("A"), Some(value(&[2])))],
            vec![(key("A"), None)],
        ],
        10,
        StateStorageUsage::zero(),
        &mut ledger_batch,
        &mut kv_batch,
    );
    assert_eq!(result, Ok(()));
    assert_eq!(
        ledger_batch.version_data,
        vec![
            (10, StateStorageUsage::new(1, 2)),
            (11, StateStorageUsage::new(1, 2)),
            (12, StateStorageUsage::new(0, 0)),
        ]
    );
    assert_eq!(
        kv_batch.stale_indices,
        vec![stale(11, 10, "A"), stale(12, 12, "A"), stale(12, 11, "A")]
    );
    // The usage itself is still not on record at the version before.
    assert_eq!(db.get_usage(Some(9)), Err(StateStoreError::VersionDataNotFound { version: 9 }));
    assert!(!StateStoreError::VersionDataNotFound { version: 9 }.is_fatal());
}

#[test]
fn the_usage_on_record_before_the_batch_is_what_the_accounting_starts_from() {
    let mut db = empty_db();
    db.state_db.ledger_db.put_version_data(9, StateStorageUsage::new(3, 30));
    commit(
        &mut db,
        vec![vec![(key("A"), Some(value(&[1])))]],
        10,
        StateStorageUsage::new(4, 32),
    )
    .unwrap();
    assert_eq!(db.get_usage(Some(10)), Ok(StateStorageUsage::new(4, 32)));
}

#[test]
fn sets_are_told_apart_by_whether_a_version_writes_a_key_twice() {
    assert!(each_key_once(&vec![]));
    assert!(each_key_once(&vec![
        vec![(key("A"), None), (key("B"), None)],
        vec![(key("A"), Some(value(&[1])))],
    ]));
    assert!(!each_key_once(&vec![
        vec![(key("A"), None)],
        vec![(key("A"), Some(value(&[1]))), (key("B"), None), (key("A"), None)],
    ]));
}

#[test]
fn expected_usage_must_match_exactly() {
    let db = empty_db();
    let mut ledger_batch = SchemaBatch::new();
    let mut kv_batch = StateKvSchemaBatch::new();
    let result = db.put_value_sets(
        &pool(),
        &vec![vec![(key("A"), Some(value(&[1]))), (key("B"), None)]],
        0,
        StateStorageUsage::new(1, 3),
        &mut ledger_batch,
        &mut kv_batch,
    );
    let error = result.unwrap_err();
    assert_eq!(
        error,
        StateStoreError::UsageMismatch {
            expected: StateStorageUsage::new(1, 3),
            calculated: StateStorageUsage::new(1, 2),
            base_version: None,
            base_version_usage: StateStorageUsage::new(0, 0),
        }
    );
    assert!(error.is_fatal());
    assert!(ledger_batch.version_data.is_empty());
    assert!(kv_batch.stale_indices.is_empty());
    assert!(kv_batch.values.is_empty());
}

#[test]
fn usage_that_cannot_go_down_is_out_of_range() {
    let mut db = empty_db();
    db.state_db.state_kv_db.put_value(key("A"), 3, Some(value(b"long value")));
    // The record says the state is empty, though a live value is there.
    db.state_db.ledger_db.put_version_data(4, StateStorageUsage::zero());
    let result = commit(
        &mut db,
        vec![vec![(key("A"), None)]],
        5,
        StateStorageUsage::new_untracked(),
    );
    assert_eq!(result, Err(StateStoreError::UsageOutOfRange));
    assert!(StateStoreError::UsageOutOfRange.is_fatal());
}

#[test]
fn a_usage_is_recorded_as_its_counts() {
    let mut db = empty_db();
    db.state_db.ledger_db.put_version_data(0, StateStorageUsage::new_untracked());
    db.state_db.ledger_db.put_version_data(1, StateStorageUsage::new(2, 5));
    assert_eq!(db.get_usage(Some(0)), Ok(StateStorageUsage::new(0, 0)));
    assert_eq!(db.get_usage(Some(1)), Ok(StateStorageUsage::new(2, 5)));
    assert_eq!(StateStorageUsage::new_untracked().counted(), StateStorageUsage::new(0, 0));
    assert!(StateStorageUsage::new_untracked().is_untracked());
    commit(
        &mut db,
        vec![vec![(key("A"), Some(value(&[1])))]],
        2,
        StateStorageUsage::new_untracked(),
    )
    .unwrap();
    assert_eq!(db.get_usage(Some(2)), Ok(StateStorageUsage::new(3, 7)));
}

#[test]
fn usage_counters_add_and_remove() {
    let mut usage = StateStorageUsage::zero();
    assert!(usage.add_item(7));
    assert!(usage.add_item(5));
    assert_eq!(usage, StateStorageUsage::new(2, 12));
    assert!(usage.remove_item(7));
    assert_eq!((usage.items(), usage.bytes()), (1, 5));
    assert!(!usage.remove_item(6));
    assert_eq!(usage, StateStorageUsage::new(1, 5));
    let mut full = StateStorageUsage::new(usize::MAX, 0);
    assert!(!full.add_item(1));
    let mut heavy = StateStorageUsage::new(0, usize::MAX);
    assert!(!heavy.add_item(1));
    assert!(heavy.add_item(0));
}

#[test]
fn reads_as_of_a_version() {
    let mut db = empty_db();
    db.state_db.state_kv_db.put_value(key("K"), 3, Some(value(b"three")));
    db.state_db.state_kv_db.put_value(key("K"), 7, Some(value(b"seven")));
    db.state_db.state_kv_db.put_value(key("K"), 9, None);
    db.state_db.state_kv_db.put_value(key("L"), 5, Some(value(b"other")));
    assert_eq!(db.state_db.get_state_value_by_version(&key("K"), 2), None);
    assert_eq!(db.state_db.get_state_value_by_version(&key("K"), 3), Some(value(b"three")));
    assert_eq!(db.state_db.get_state_value_by_version(&key("K"), 6), Some(value(b"three")));
    assert_eq!(db.state_db.get_state_value_by_version(&key("K"), 7), Some(value(b"seven")));
    assert_eq!(db.state_db.get_state_value_by_version(&key("K"), 8), Some(value(b"seven")));
    assert_eq!(db.state_db.get_state_value_by_version(&key("K"), 9), None);
    assert_eq!(db.state_db.get_state_value_by_version(&key("K"), u64::MAX), None);
    assert_eq!(
        db.state_db.expect_value_by_version(&key("K"), 9),
        Err(StateStoreError::StateValueMissing { version: 9 })
    );
    assert_eq!(db.state_db.expect_value_by_version(&key("L"), 9), Ok(value(b"other")));
}

#[test]
fn a_later_write_to_the_same_version_replaces_the_earlier() {
    let mut db = empty_db();
    db.state_db.state_kv_db.put_value(key("K"), 3, Some(value(b"first")));
    db.state_db.state_kv_db.put_value(key("K"), 3, Some(value(b"second")));
    assert_eq!(
        db.state_db.get_state_value_with_version_by_version(&key("K"), 3),
        Some((3, value(b"second")))
    );
}

#[test]
fn value_with_proof_follows_the_leaf() {
    let mut db = empty_db();
    db.state_db.state_kv_db.put_value(key("K"), 3, Some(value(b"three")));
    let digest = HashValue::new([7; 32]);
    assert_eq!(
        db.state_db.get_state_value_with_proof_by_version_ext(Some((digest, (key("K"), 3))), "proof"),
        Ok((Some(value(b"three")), "proof"))
    );
    assert_eq!(
        db.state_db.get_state_value_with_proof_by_version_ext(None, 17u8),
        Ok((None, 17u8))
    );
    assert_eq!(
        db.state_db.get_state_value_with_proof_by_version_ext(Some((digest, (key("K"), 2))), ()),
        Err(StateStoreError::StateValueMissing { version: 2 })
    );
}

#[test]
fn snapshots_and_epochs_before_a_version() {
    let mut db = empty_db();
    assert_eq!(db.state_db.get_state_snapshot_before(10), None);
    db.state_db.state_merkle_db.commit(4, HashValue::new([4; 32]), 40);
    db.state_db.state_merkle_db.commit(8, HashValue::new([8; 32]), 80);
    assert_eq!(db.state_db.get_state_snapshot_before(4), None);
    assert_eq!(db.state_db.get_state_snapshot_before(5), Some((4, HashValue::new([4; 32]))));
    assert_eq!(db.state_db.get_state_snapshot_before(8), Some((4, HashValue::new([4; 32]))));
    assert_eq!(db.state_db.get_state_snapshot_before(9), Some((8, HashValue::new([8; 32]))));
    assert_eq!(db.get_root_hash(8), Ok(HashValue::new([8; 32])));
    assert_eq!(db.get_value_count(4), Ok(40));
    assert_eq!(db.get_root_hash(5), Err(StateStoreError::StateSnapshotNotFound { version: 5 }));
    assert_eq!(db.get_value_count(5), Err(StateStoreError::StateSnapshotNotFound { version: 5 }));

    db.state_db.ledger_db.epoch_by_version.put(100, 1);
    db.state_db.ledger_db.epoch_by_version.put(200, 2);
    assert_eq!(db.state_db.get_previous_epoch_ending(0), None);
    assert_eq!(db.state_db.get_previous_epoch_ending(100), None);
    assert_eq!(db.state_db.get_previous_epoch_ending(101), Some((100, 1)));
    assert_eq!(db.state_db.get_previous_epoch_ending(200), Some((100, 1)));
    assert_eq!(db.state_db.get_previous_epoch_ending(201), Some((200, 2)));
}

#[test]
fn the_pool_looks_keys_up_in_their_order() {
    let mut db = empty_db();
    let mut keys = Vec::new();
    for i in 0..200u64 {
        let name = format!("key-{}", i);
        if i % 3 != 0 {
            db.state_db.state_kv_db.put_value(key(&name), i, Some(value(&[i as u8])));
        }
        if i % 5 == 0 {
            db.state_db.state_kv_db.put_value(key(&name), i + 1, None);
        }
        keys.push(key(&name));
    }
    let writes = pool().lookup_writes(&db.state_db.state_kv_db, &keys, 150);
    assert_eq!(writes.len(), 200);
    for i in 0..200u64 {
        let expected = if i > 150 || i % 3 == 0 || (i % 5 == 0 && i + 1 <= 150) {
            (150, None)
        } else {
            (i, Some(vec![i as u8]))
        };
        assert_eq!(writes[i as usize], expected, "key {}", i);
    }
    assert!(IoPool::new(1).is_some());
}

#[test]
fn a_key_written_twice_in_a_batch_is_held_against_itself() {
    let mut db = empty_db();
    db.state_db.state_kv_db.put_value(key("A"), 2, Some(value(b"old")));
    db.state_db.ledger_db.put_version_data(4, StateStorageUsage::new(1, 4));
    commit(
        &mut db,
        vec![
            vec![(key("A"), Some(value(b"newer")))],
            vec![(key("B"), Some(value(b"b")))],
            vec![(key("A"), Some(value(b"newest!")))],
        ],
        5,
        StateStorageUsage::new(2, 10),
    )
    .unwrap();
    assert_eq!(db.get_usage(Some(5)).unwrap(), StateStorageUsage::new(1, 6));
    assert_eq!(db.get_usage(Some(6)).unwrap(), StateStorageUsage::new(2, 8));
    assert_eq!(db.get_usage(Some(7)).unwrap(), StateStorageUsage::new(2, 10));
    assert_eq!(db.state_db.state_kv_db.stale_index, vec![stale(5, 2, "A"), stale(7, 5, "A")]);
}

#[test]
fn value_sets_go_into_the_batches_before_the_stores() {
    let mut db = empty_db();
    let mut ledger_batch = SchemaBatch::new();
    let mut kv_batch = StateKvSchemaBatch::new();
    db.put_value_sets(
        &pool(),
        &vec![vec![(key("A"), Some(value(&[1])))], vec![(key("A"), None)]],
        0,
        StateStorageUsage::new(0, 0),
        &mut ledger_batch,
        &mut kv_batch,
    )
    .unwrap();
    assert_eq!(
        ledger_batch.version_data,
        vec![(0, StateStorageUsage::new(1, 2)), (1, StateStorageUsage::new(0, 0))]
    );
    assert_eq!(kv_batch.stale_indices, vec![stale(1, 1, "A"), stale(1, 0, "A")]);
    assert_eq!(kv_batch.values.len(), 2);
    assert_eq!(
        (kv_batch.values[1].key.clone(), kv_batch.values[1].version, kv_batch.values[1].value.clone()),
        (key("A"), 1, None)
    );
    // Nothing is in the stores yet.
    assert!(db.state_db.state_kv_db.entries.is_empty());
    assert_eq!(db.get_usage(Some(0)), Err(StateStoreError::VersionDataNotFound { version: 0 }));
    db.state_db.ledger_db.write_schemas(ledger_batch);
    db.state_db.state_kv_db.commit(kv_batch);
    assert_eq!(db.get_usage(Some(1)), Ok(StateStorageUsage::new(0, 0)));
    assert_eq!(db.state_db.get_state_value_by_version(&key("A"), 0), Some(value(&[1])));
}

#[test]
fn the_workers_of_the_pool_are_named_by_their_index() {
    assert_eq!(reader_name(0), "kv_reader_0");
    assert_eq!(reader_name(7), "kv_reader_7");
    assert_eq!(reader_name(10), "kv_reader_10");
    assert_eq!(reader_name(31), "kv_reader_31");
    assert_eq!(reader_name(1205), "kv_reader_1205");
    assert_eq!(reader_name(usize::MAX), format!("kv_reader_{}", usize::MAX));
    assert!(IoPool::new(3).is_some());
}
