use state_store::state_kv_db::{StateKvSchemaBatch, StateValueEntry};
use state_store::types::{StaleStateValueIndex, StateKey, StateValue, NUM_STATE_SHARDS};

fn key(name: &str, shard_id: u8) -> StateKey {
    StateKey::new(name.as_bytes().to_vec(), shard_id)
}

fn entry(name: &str, shard_id: u8, version: u64) -> StateValueEntry {
    StateValueEntry { key: key(name, shard_id), version, value: Some(StateValue::new(vec![shard_id])) }
}

fn stale(name: &str, shard_id: u8, version: u64) -> StaleStateValueIndex {
    StaleStateValueIndex { stale_since_version: version + 1, version, state_key: key(name, shard_id) }
}

#[test]
fn a_key_is_routed_by_its_shard_alone() {
    assert_eq!(NUM_STATE_SHARDS, 16);
    assert_eq!(key("a", 0).get_shard_id(), 0);
    assert_eq!(key("a", 15).get_shard_id(), 15);
    assert_eq!(key("another", 15).get_shard_id(), 15);
    assert_eq!(key("a", 16).get_shard_id(), 0);
    assert_eq!(key("a", 255).get_shard_id(), 15);
    assert_eq!(key("a", 7).clone().get_shard_id(), 7);
}

#[test]
fn a_batch_is_split_among_the_shards_in_its_order() {
    let batch = StateKvSchemaBatch {
        values: vec![
            entry("a", 3, 1),
            entry("b", 0, 1),
            entry("c", 3, 1),
            entry("a", 3, 2),
            entry("d", 15, 2),
        ],
        stale_indices: vec![stale("a", 3, 1), stale("d", 15, 0)],
    };
    let sharded = batch.into_shards();
    assert_eq!(sharded.shards.len(), 16);
    assert_eq!(sharded.shards[3].values, vec![entry("a", 3, 1), entry("c", 3, 1), entry("a", 3, 2)]);
    assert_eq!(sharded.shards[3].stale_indices, vec![stale("a", 3, 1)]);
    assert_eq!(sharded.shards[0].values, vec![entry("b", 0, 1)]);
    assert!(sharded.shards[0].stale_indices.is_empty());
    assert_eq!(sharded.shards[15].values, vec![entry("d", 15, 2)]);
    assert_eq!(sharded.shards[15].stale_indices, vec![stale("d", 15, 0)]);
    let routed: usize = sharded.shards.iter().map(|shard| shard.values.len()).sum();
    assert_eq!(routed, 5);
    for shard in [1usize, 2, 4, 14] {
        assert!(sharded.shards[shard].values.is_empty());
        assert!(sharded.shards[shard].stale_indices.is_empty());
    }
    assert_eq!(batch.shard(3).values, sharded.shards[3].values);
}
