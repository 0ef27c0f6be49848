use state_store::error::StateStoreError;
use state_store::ledger_db::LedgerDb;
use state_store::state_kv_db::{StateKvDb, StateValueEntry};
use state_store::state_merkle_db::StateMerkleDb;
use state_store::state_restore::{
    entries_are_distinct, keys_are_distinct, same_hash, SparseMerkleRangeProof, StateSnapshotRestore, StateValueChunk,
    StateValueChunkWithProof,
};
use state_store::buffered_state::{BufferedState, StateDelta};
use state_store::state_store::{StateDb, StateStore};
use state_store::types::{
    HashValue, StateKey, StateSnapshotProgress, StateStorageUsage, StateValue,
};

fn key(index: u8) -> StateKey {
    StateKey::new(vec![b'k', index], index % 16)
}

fn value(index: u8) -> StateValue {
    StateValue::new(vec![index; index as usize])
}

fn digest(index: u8) -> HashValue {
    HashValue::new([index; 32])
}

fn empty_db() -> StateStore {
    StateStore {
        state_db: StateDb {
            ledger_db: LedgerDb::new(),
            state_merkle_db: StateMerkleDb::new(),
            state_kv_db: StateKvDb::new(),
        },
        buffered_state: BufferedState::new(
            StateDelta::new_at_checkpoint(HashValue::new([0; 32]), StateStorageUsage::zero(), None),
            0,
        ),
        buffered_state_target_items: 0,
    }
}

/// A store whose snapshot at version 20 has the leaves 1..=count, the value of leaf i written
/// at version i.
fn source(count: u8) -> (StateStore, Vec<(HashValue, (StateKey, u64))>) {
    let mut db = empty_db();
    let mut leaves = Vec::new();
    for i in 1..=count {
        db.state_db.state_kv_db.put_value(key(i), i as u64, Some(value(i)));
        leaves.push((digest(i), (key(i), i as u64)));
    }
    db.state_db.state_merkle_db.commit(20, digest(200), count as usize);
    (db, leaves)
}

fn proof_of(last_key: HashValue) -> SparseMerkleRangeProof {
    SparseMerkleRangeProof { right_siblings: vec![last_key] }
}

fn export(
    db: &StateStore,
    leaves: &Vec<(HashValue, (StateKey, u64))>,
    first_index: usize,
    chunk_size: usize,
) -> Result<StateValueChunkWithProof, StateStoreError> {
    let rest: Vec<_> = leaves[first_index.min(leaves.len())..].to_vec();
    let chunk = db.get_value_chunk(first_index, chunk_size, &rest)?;
    let proof = proof_of(chunk.last_key);
    db.get_value_chunk_with_proof(20, chunk, proof)
}

#[test]
fn a_chunk_holds_the_leaves_from_its_first_index() {
    let (db, leaves) = source(5);
    let chunk = export(&db, &leaves, 1, 3).unwrap();
    assert_eq!(
        chunk,
        StateValueChunkWithProof {
            first_index: 1,
            last_index: 3,
            first_key: digest(2),
            last_key: digest(4),
            raw_values: vec![(key(2), value(2)), (key(3), value(3)), (key(4), value(4))],
            proof: proof_of(digest(4)),
            root_hash: digest(200),
        }
    );
    // The last chunk may be short.
    let chunk = export(&db, &leaves, 4, 3).unwrap();
    assert_eq!((chunk.first_index, chunk.last_index), (4, 4));
    assert_eq!(chunk.raw_values, vec![(key(5), value(5))]);
}

#[test]
fn a_chunk_without_leaves_is_not_found() {
    let (db, leaves) = source(5);
    let result = export(&db, &leaves, 5, 3);
    assert_eq!(result, Err(StateStoreError::StateChunkNotFound { first_index: 5 }));
    assert!(!result.unwrap_err().is_fatal());
    assert_eq!(
        db.get_value_chunk(0, 0, &leaves),
        Err(StateStoreError::StateChunkNotFound { first_index: 0 })
    );
}

#[test]
fn a_leaf_without_value_fails_the_chunk() {
    let (mut db, mut leaves) = source(3);
    db.state_db.state_kv_db.put_value(key(2), 7, None);
    leaves[1] = (digest(2), (key(2), 7));
    assert_eq!(
        db.get_value_chunk(0, 10, &leaves),
        Err(StateStoreError::StateValueMissing { version: 7 })
    );
    assert_eq!(
        db.get_state_keys_and_values(&leaves),
        Err(StateStoreError::StateValueMissing { version: 7 })
    );
    assert_eq!(
        db.get_state_key_and_value_iter(&leaves),
        vec![
            Ok((key(1), value(1))),
            Err(StateStoreError::StateValueMissing { version: 7 }),
            Ok((key(3), value(3))),
        ]
    );
    // A chunk that ends before that leaf is not affected.
    assert!(db.get_value_chunk(0, 1, &leaves).is_ok());
}

#[test]
fn a_chunk_of_a_version_without_snapshot_has_no_root() {
    let (db, leaves) = source(3);
    let chunk = db.get_value_chunk(0, 3, &leaves).unwrap();
    assert_eq!(
        db.get_value_chunk_with_proof(19, chunk, proof_of(digest(3))),
        Err(StateStoreError::StateSnapshotNotFound { version: 19 })
    );
}

#[test]
fn leaves_resolve_to_their_keys_and_values() {
    let (db, leaves) = source(3);
    assert_eq!(
        db.get_state_keys_and_values(&leaves),
        Ok(vec![(key(1), value(1)), (key(2), value(2)), (key(3), value(3))])
    );
    assert_eq!(
        db.get_state_key_and_value_iter(&leaves),
        vec![Ok((key(1), value(1))), Ok((key(2), value(2))), Ok((key(3), value(3)))]
    );
}

#[test]
fn a_snapshot_exported_in_chunks_is_restored_as_it_was() {
    let (from, leaves) = source(7);
    let mut to = empty_db();
    let session: StateSnapshotRestore = to.get_snapshot_receiver(20, digest(200));
    let mut first_index = 0;
    loop {
        match export(&from, &leaves, first_index, 3) {
            Ok(chunk) => {
                first_index = chunk.last_index as usize + 1;
                session.add_chunk(&mut to, chunk).unwrap();
            },
            Err(error) => {
                assert_eq!(error, StateStoreError::StateChunkNotFound { first_index: 7 });
                break;
            },
        }
    }
    // 7 keys of 2 bytes, values of 1 + 2 + .. + 7 bytes.
    let usage = StateStorageUsage::new(7, 14 + 28);
    assert_eq!(
        to.get_progress(20),
        Some(StateSnapshotProgress::new(6, digest(7), usage))
    );
    for i in 1..=7 {
        assert_eq!(
            to.state_db.get_state_value_with_version_by_version(&key(i), 20),
            Some((20, value(i)))
        );
        assert_eq!(to.state_db.get_state_value_by_version(&key(i), 19), None);
    }
    assert_eq!(to.get_root_hash(20), Err(StateStoreError::StateSnapshotNotFound { version: 20 }));
    assert_eq!(session.finish(&mut to, digest(200)), Ok(()));
    assert_eq!(to.get_usage(Some(20)), Ok(usage));
    assert_eq!(to.get_root_hash(20), Ok(digest(200)));
    assert_eq!(to.get_root_hash(20), from.get_root_hash(20));
    assert_eq!(to.get_value_count(20), Ok(7));
}

#[test]
fn a_chunk_delivered_again_changes_nothing() {
    let (from, leaves) = source(6);
    let mut to = empty_db();
    let session = to.get_snapshot_receiver(20, digest(200));
    session.add_chunk(&mut to, export(&from, &leaves, 0, 4).unwrap()).unwrap();
    let entries: Vec<StateValueEntry> = to.state_db.state_kv_db.entries.clone();
    let progress = to.get_progress(20);
    assert_eq!(progress, Some(StateSnapshotProgress::new(3, digest(4), StateStorageUsage::new(4, 18))));

    session.add_chunk(&mut to, export(&from, &leaves, 0, 4).unwrap()).unwrap();
    session.add_chunk(&mut to, export(&from, &leaves, 1, 2).unwrap()).unwrap();
    assert_eq!(to.state_db.state_kv_db.entries, entries);
    assert_eq!(to.get_progress(20), progress);
}

#[test]
fn a_chunk_that_overlaps_is_applied_from_where_the_session_stands() {
    let (from, leaves) = source(6);
    let mut to = empty_db();
    let session = to.get_snapshot_receiver(20, digest(200));
    session.add_chunk(&mut to, export(&from, &leaves, 0, 4).unwrap()).unwrap();
    session.add_chunk(&mut to, export(&from, &leaves, 2, 4).unwrap()).unwrap();
    assert_eq!(to.state_db.state_kv_db.entries.len(), 6);
    assert_eq!(
        to.get_progress(20),
        Some(StateSnapshotProgress::new(5, digest(6), StateStorageUsage::new(6, 12 + 21)))
    );
}

#[test]
fn a_chunk_that_leaves_a_gap_is_refused() {
    let (from, leaves) = source(6);
    let mut to = empty_db();
    let session = to.get_snapshot_receiver(20, digest(200));
    assert_eq!(
        session.add_chunk(&mut to, export(&from, &leaves, 1, 2).unwrap()),
        Err(StateStoreError::ChunkOutOfOrder { expected_first_index: 0 })
    );
    session.add_chunk(&mut to, export(&from, &leaves, 0, 2).unwrap()).unwrap();
    assert_eq!(
        session.add_chunk(&mut to, export(&from, &leaves, 3, 2).unwrap()),
        Err(StateStoreError::ChunkOutOfOrder { expected_first_index: 2 })
    );
    assert_eq!(to.state_db.state_kv_db.entries.len(), 2);
}

#[test]
fn a_chunk_whose_indices_do_not_match_its_values_is_refused() {
    let (from, leaves) = source(3);
    let mut to = empty_db();
    let session = to.get_snapshot_receiver(20, digest(200));
    let mut chunk = export(&from, &leaves, 0, 3).unwrap();
    chunk.last_index = 3;
    assert_eq!(session.add_chunk(&mut to, chunk), Err(StateStoreError::ChunkMalformed));
    let mut chunk = export(&from, &leaves, 0, 3).unwrap();
    chunk.raw_values.clear();
    assert_eq!(session.add_chunk(&mut to, chunk), Err(StateStoreError::ChunkMalformed));
    assert!(to.state_db.state_kv_db.entries.is_empty());
    assert_eq!(to.get_progress(20), None);
}

#[test]
fn a_chunk_with_a_key_twice_is_refused() {
    let (from, leaves) = source(3);
    let mut to = empty_db();
    let session = to.get_snapshot_receiver(20, digest(200));
    let mut chunk = export(&from, &leaves, 0, 3).unwrap();
    chunk.raw_values[2] = (key(1), value(3));
    assert!(!keys_are_distinct(&chunk.raw_values));
    assert_eq!(session.add_chunk(&mut to, chunk), Err(StateStoreError::ChunkMalformed));
    assert!(to.state_db.state_kv_db.entries.is_empty());
    assert!(keys_are_distinct(&export(&from, &leaves, 0, 3).unwrap().raw_values));
    assert!(keys_are_distinct(&vec![]));
}

#[test]
fn entries_are_told_apart_by_key_and_version() {
    let entry = |index: u8, version: u64| StateValueEntry {
        key: key(index),
        version,
        value: Some(value(index)),
    };
    assert!(entries_are_distinct(&vec![]));
    assert!(entries_are_distinct(&vec![entry(1, 5), entry(2, 5), entry(1, 6)]));
    assert!(!entries_are_distinct(&vec![entry(1, 5), entry(2, 5), entry(1, 5)]));
}

#[test]
fn a_session_finishes_only_with_the_expected_root() {
    let (from, leaves) = source(2);
    let mut to = empty_db();
    let session = to.get_snapshot_receiver(20, digest(200));
    assert_eq!(session.finish(&mut to, digest(200)), Err(StateStoreError::RestoreIncomplete));
    session.add_chunk(&mut to, export(&from, &leaves, 0, 2).unwrap()).unwrap();
    assert_eq!(session.finish(&mut to, digest(201)), Err(StateStoreError::RootHashMismatch));
    assert_eq!(to.get_root_hash(20), Err(StateStoreError::StateSnapshotNotFound { version: 20 }));
    assert_eq!(to.get_usage(Some(20)), Err(StateStoreError::VersionDataNotFound { version: 20 }));
    assert_eq!(session.finish(&mut to, digest(200)), Ok(()));
    assert_eq!(to.get_usage(Some(20)), Ok(StateStorageUsage::new(2, 7)));
}

#[test]
fn sessions_for_other_versions_keep_their_own_progress() {
    let mut db = empty_db();
    let progress = StateSnapshotProgress::new(4, digest(4), StateStorageUsage::new(5, 50));
    db.write_kv_batch(
        30,
        vec![StateValueEntry { key: key(1), version: 30, value: Some(value(1)) }],
        progress,
    );
    assert_eq!(db.get_progress(30), Some(progress));
    assert_eq!(db.get_progress(20), None);
    assert_eq!(db.state_db.get_state_value_by_version(&key(1), 30), Some(value(1)));
    db.write_usage(30, StateStorageUsage::new(5, 50));
    assert_eq!(db.get_usage(Some(30)), Ok(StateStorageUsage::new(5, 50)));
}

#[test]
fn a_chunk_changes_nothing_but_its_session_and_the_values() {
    let (from, leaves) = source(3);
    let mut to = empty_db();
    let other = StateSnapshotProgress::new(4, digest(4), StateStorageUsage::new(5, 50));
    to.write_kv_batch(30, vec![], other);
    to.state_db.state_kv_db.commit_progress = Some(7);
    to.state_db.ledger_db.overall_commit_progress = Some(7);
    to.state_db.state_kv_db.put_stale_index(state_store::types::StaleStateValueIndex {
        stale_since_version: 3,
        version: 2,
        state_key: key(9),
    });
    to.buffered_state_target_items = 11;
    let session = to.get_snapshot_receiver(20, digest(200));
    session.add_chunk(&mut to, export(&from, &leaves, 0, 3).unwrap()).unwrap();
    session.finish(&mut to, digest(200)).unwrap();
    assert_eq!(to.get_progress(30), Some(other));
    assert_eq!(to.state_db.state_kv_db.commit_progress, Some(7));
    assert_eq!(to.state_db.ledger_db.overall_commit_progress, Some(7));
    assert_eq!(to.state_db.state_kv_db.stale_index.len(), 1);
    assert_eq!(to.buffered_state_target_items, 11);
}

#[test]
fn digests_compare_by_their_bytes() {
    let mut bytes = [3u8; 32];
    assert!(same_hash(&digest(3), &HashValue::new(bytes)));
    bytes[31] = 4;
    assert!(!same_hash(&digest(3), &HashValue::new(bytes)));
}

#[test]
fn a_chunk_keeps_what_it_was_given() {
    let chunk = StateValueChunk {
        first_index: 0,
        last_index: 0,
        first_key: digest(1),
        last_key: digest(1),
        raw_values: vec![(key(1), value(1))],
    };
    let (db, _) = source(1);
    let proven = db.get_value_chunk_with_proof(20, chunk, proof_of(digest(9))).unwrap();
    assert_eq!(proven.proof, proof_of(digest(9)));
    assert_eq!(proven.root_hash, digest(200));
}
