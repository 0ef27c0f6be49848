use state_store::io_pool::IoPool;
use state_store::ledger_db::LedgerDb;
use state_store::state_kv_db::StateKvDb;
use state_store::state_merkle_db::StateMerkleDb;
use state_store::buffered_state::{BufferedState, StateDelta};
use state_store::state_store::{StateDb, StateStore};
use state_store::types::{
    HashValue, StaleStateValueIndex, StateKey, StateStorageUsage, StateValue,
};

fn key(name: &str) -> StateKey {
    StateKey::new(name.as_bytes().to_vec(), name.as_bytes()[0] % 16)
}

fn live(name: &str, value: u8) -> (StateKey, Option<StateValue>) {
    (key(name), Some(StateValue::new(vec![value])))
}

fn dead(name: &str) -> (StateKey, Option<StateValue>) {
    (key(name), None)
}

/// A store after five versions of writes to three keys.
fn committed() -> StateStore {
    let mut db = StateStore {
        state_db: StateDb {
            ledger_db: LedgerDb::new(),
            state_merkle_db: StateMerkleDb::new(),
            state_kv_db: StateKvDb::new(),
        },
        buffered_state: BufferedState::new(
            StateDelta::new_at_checkpoint(HashValue::new([0; 32]), StateStorageUsage::zero(), None),
            0,
        ),
        buffered_state_target_items: 0,
    };
    let sets = vec![
        vec![live("a", 1), live("b", 1)],
        vec![live("a", 2)],
        vec![dead("b"), live("c", 3)],
        vec![live("b", 4)],
        vec![dead("a"), live("c", 5)],
    ];
    let pool = IoPool::new(2).unwrap();
    db.commit_value_sets(&pool, &sets, 0, StateStorageUsage::new(2, 4)).unwrap();
    db
}

fn reads(db: &StateStore, version: u64) -> Vec<Option<StateValue>> {
    ["a", "b", "c", "d"].iter().map(|name| db.state_db.get_state_value_by_version(&key(name), version)).collect()
}

#[test]
fn pruning_changes_no_read_at_or_after_its_version() {
    for target in 0..=6 {
        let before = committed();
        let mut pruned = committed();
        pruned.state_db.state_kv_db.prune(target);
        for version in target..=7 {
            assert_eq!(reads(&pruned, version), reads(&before, version), "target {}", target);
        }
    }
}

#[test]
fn pruning_deletes_what_went_stale() {
    let mut db = committed();
    assert_eq!(db.state_db.state_kv_db.entries.len(), 8);
    assert_eq!(db.state_db.state_kv_db.stale_index.len(), 6);
    db.state_db.state_kv_db.prune(2);
    // Gone: a@0 (replaced at 1), b@0 (deleted at 2) and the tombstone b@2.
    assert_eq!(db.state_db.state_kv_db.entries.len(), 5);
    assert_eq!(
        db.state_db.state_kv_db.stale_index,
        vec![
            StaleStateValueIndex { stale_since_version: 4, version: 4, state_key: key("a") },
            StaleStateValueIndex { stale_since_version: 4, version: 1, state_key: key("a") },
            StaleStateValueIndex { stale_since_version: 4, version: 2, state_key: key("c") },
        ]
    );
    assert_eq!(db.state_db.get_state_value_by_version(&key("a"), 0), None);
    assert_eq!(db.state_db.get_state_value_by_version(&key("a"), 2), Some(StateValue::new(vec![2])));
    db.state_db.state_kv_db.prune(100);
    assert_eq!(db.state_db.state_kv_db.entries.len(), 2);
    assert!(db.state_db.state_kv_db.stale_index.is_empty());
    assert_eq!(
        reads(&db, 9),
        vec![None, Some(StateValue::new(vec![4])), Some(StateValue::new(vec![5])), None]
    );
}

#[test]
fn pruning_before_anything_went_stale_deletes_nothing() {
    let mut db = committed();
    db.state_db.state_kv_db.prune(0);
    assert_eq!(db.state_db.state_kv_db.entries.len(), 8);
    assert_eq!(db.state_db.state_kv_db.stale_index.len(), 6);
}
