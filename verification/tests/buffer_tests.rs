use state_store::buffered_state::{
    collect_writes, last_checkpoint_index, BufferedState, SnapshotCommit, StateCheckpoint,
    StateDelta,
};
use state_store::types::{HashValue, StateKey, StateStorageUsage, StateValue};

fn key(name: &str) -> StateKey {
    StateKey::new(name.as_bytes().to_vec(), name.as_bytes()[0] % 16)
}

fn live(name: &str, value: u8) -> (StateKey, Option<StateValue>) {
    (key(name), Some(StateValue::new(vec![value])))
}

fn dead(name: &str) -> (StateKey, Option<StateValue>) {
    (key(name), None)
}

fn checkpoint(version: u64) -> StateCheckpoint {
    StateCheckpoint {
        version: Some(version),
        root_hash: HashValue::new([version as u8; 32]),
        usage: StateStorageUsage::new(version as usize, 10 * version as usize),
    }
}

fn buffer_at(version: u64, target_items: usize) -> BufferedState {
    let at = checkpoint(version);
    BufferedState::new(StateDelta::new_at_checkpoint(at.root_hash, at.usage, at.version), target_items)
}

#[test]
fn writes_gather_in_memory_below_the_target() {
    let mut buffer = buffer_at(5, 3);
    assert_eq!(buffer.update(vec![live("a", 1), live("b", 2)], checkpoint(6), false), None);
    assert_eq!(buffer.update(vec![live("a", 3), dead("c")], checkpoint(7), false), None);
    let state = buffer.current_state();
    assert_eq!(state.base, checkpoint(5));
    assert_eq!(state.current, checkpoint(7));
    assert_eq!(state.updates_since_base, vec![live("a", 3), live("b", 2), dead("c")]);
}

#[test]
fn the_buffer_is_flushed_once_it_exceeds_the_target() {
    let mut buffer = buffer_at(5, 2);
    assert_eq!(buffer.update(vec![live("a", 1), live("b", 2)], checkpoint(6), false), None);
    let commit = buffer.update(vec![live("c", 3)], checkpoint(7), false);
    assert_eq!(
        commit,
        Some(SnapshotCommit {
            base_version: Some(5),
            state: checkpoint(7),
            updates: vec![live("a", 1), live("b", 2), live("c", 3)],
        })
    );
    let state = buffer.current_state();
    assert_eq!(state.base, checkpoint(7));
    assert_eq!(state.current, checkpoint(7));
    assert!(state.updates_since_base.is_empty());
    assert_eq!(buffer.target_items, 2);
}

#[test]
fn a_sync_commit_flushes_whatever_is_buffered() {
    let mut buffer = buffer_at(5, 100);
    let commit = buffer.update(vec![dead("a")], checkpoint(6), true);
    assert_eq!(
        commit,
        Some(SnapshotCommit { base_version: Some(5), state: checkpoint(6), updates: vec![dead("a")] })
    );
    let commit = buffer.update(vec![], checkpoint(7), true);
    assert_eq!(
        commit,
        Some(SnapshotCommit { base_version: Some(6), state: checkpoint(7), updates: vec![] })
    );
}

#[test]
fn a_delta_copies_with_its_writes() {
    let mut delta = StateDelta::new_at_checkpoint(HashValue::new([0; 32]), StateStorageUsage::zero(), None);
    delta.merge_update(key("a"), None);
    delta.merge_update(key("b"), Some(StateValue::new(vec![1])));
    delta.merge_update(key("a"), Some(StateValue::new(vec![2])));
    assert_eq!(delta.updates_since_base, vec![live("a", 2), live("b", 1)]);
    assert_eq!(delta.clone(), delta);
}

#[test]
fn the_last_checkpoint_is_found() {
    assert_eq!(last_checkpoint_index(&vec![]), None);
    assert_eq!(last_checkpoint_index(&vec![false, false]), None);
    assert_eq!(last_checkpoint_index(&vec![true, false, true, false]), Some(2));
    assert_eq!(last_checkpoint_index(&vec![false, true]), Some(1));
}

#[test]
fn writes_are_collected_set_after_set() {
    let sets = vec![vec![live("a", 1)], vec![], vec![dead("a"), live("b", 2)]];
    assert_eq!(collect_writes(&sets, 0, 3), vec![live("a", 1), dead("a"), live("b", 2)]);
    assert_eq!(collect_writes(&sets, 1, 3), vec![dead("a"), live("b", 2)]);
    assert_eq!(collect_writes(&sets, 2, 2), vec![]);
}

#[test]
fn replay_commits_up_to_the_last_checkpoint_and_buffers_the_rest() {
    let mut buffer = buffer_at(9, 1);
    let write_sets = vec![
        vec![live("a", 1)],
        vec![live("b", 2), live("a", 3)],
        vec![live("c", 4)],
        vec![dead("b"), live("d", 5), live("e", 6)],
    ];
    let commit = buffer.replay(&write_sets, &vec![true, true, false, false], checkpoint(11), checkpoint(13));
    assert_eq!(
        commit,
        Some(SnapshotCommit {
            base_version: Some(9),
            state: checkpoint(11),
            updates: vec![live("a", 3), live("b", 2)],
        })
    );
    let state = buffer.current_state();
    assert_eq!(state.base, checkpoint(11));
    assert_eq!(state.current, checkpoint(13));
    // What follows the last checkpoint stays in memory, though it is more than the target.
    assert_eq!(
        state.updates_since_base,
        vec![live("c", 4), dead("b"), live("d", 5), live("e", 6)]
    );
}

#[test]
fn replay_without_a_checkpoint_buffers_everything() {
    let mut buffer = buffer_at(9, 0);
    let write_sets = vec![vec![live("a", 1)], vec![live("a", 2)]];
    let commit = buffer.replay(&write_sets, &vec![false, false], checkpoint(0), checkpoint(11));
    assert_eq!(commit, None);
    let state = buffer.current_state();
    assert_eq!(state.base, checkpoint(9));
    assert_eq!(state.current, checkpoint(11));
    assert_eq!(state.updates_since_base, vec![live("a", 2)]);
}
