//! Routing to the shards of the raw store. What a commit stages is one
//! batch; each shard is written its part of it, and which part that is
//! depends on the key alone.

use crate::state_kv_db::{StateKvSchemaBatch, StateValueEntry};
use crate::types::{
    value_view, StaleIndexView, StaleStateValueIndex, Version, NUM_STATE_SHARDS,
};
use vstd::prelude::*;

verus! {

/// A write as plain values: the key, the version and the value.
pub type RoutedWrite = (Seq<u8>, Version, Option<Seq<u8>>);

/// The batches of the shards, one for each shard.
pub struct ShardedStateKvSchemaBatch {
    pub shards: Vec<StateKvSchemaBatch>,
}

/// The writes among `entries` whose keys are routed to `shard`, in their
/// order.
pub open spec fn writes_of_shard(entries: Seq<StateValueEntry>, shard: u8) -> Seq<RoutedWrite>
    decreases entries.len(),
{
    if entries.len() == 0 {
        Seq::empty()
    } else if entries.last().key.spec_get_shard_id() == shard {
        writes_of_shard(entries.drop_last(), shard).push(
            (entries.last().key@, entries.last().version, value_view(entries.last().value)),
        )
    } else {
        writes_of_shard(entries.drop_last(), shard)
    }
}

/// The stale-index records among `records` whose keys are routed to
/// `shard`, in their order.
pub open spec fn stale_of_shard(records: Seq<StaleStateValueIndex>, shard: u8) -> Seq<
    StaleIndexView,
>
    decreases records.len(),
{
    if records.len() == 0 {
        Seq::empty()
    } else if records.last().state_key.spec_get_shard_id() == shard {
        stale_of_shard(records.drop_last(), shard).push(records.last()@)
    } else {
        stale_of_shard(records.drop_last(), shard)
    }
}

/// The writes of a list of entries, as plain values.
pub open spec fn routed_writes(entries: Seq<StateValueEntry>) -> Seq<RoutedWrite> {
    entries.map_values(|entry: StateValueEntry| (entry.key@, entry.version, value_view(entry.value)))
}

impl StateKvSchemaBatch {
    /// The part of the batch that goes to `shard`: the writes and the
    /// stale-index records whose keys are routed there, in their order.
    pub fn shard(&self, shard: u8) -> (part: StateKvSchemaBatch)
        ensures
            routed_writes(part.values@) == writes_of_shard(self.values@, shard),
            part.stale_records() == stale_of_shard(self.stale_indices@, shard),
            forall|i: int|
                0 <= i < part.values@.len() ==> (#[trigger] part.values@[i]).key.spec_get_shard_id()
                    == shard,
            forall|i: int|
                0 <= i < part.stale_indices@.len() ==> (
                #[trigger] part.stale_indices@[i]).state_key.spec_get_shard_id() == shard,
    {
        let mut part = StateKvSchemaBatch::new();
        let mut i: usize = 0;
        proof {
            assert(self.values@.take(0) =~= Seq::<StateValueEntry>::empty());
            assert(routed_writes(part.values@) =~= Seq::<RoutedWrite>::empty());
        }
        while i < self.values.len()
            invariant
                i <= self.values@.len(),
                part.stale_indices@.len() == 0,
                routed_writes(part.values@) == writes_of_shard(self.values@.take(i as int), shard),
                forall|j: int|
                    0 <= j < part.values@.len() ==> (
                    #[trigger] part.values@[j]).key.spec_get_shard_id() == shard,
            decreases self.values@.len() - i,
        {
            proof {
                assert(self.values@.take(i + 1).drop_last() =~= self.values@.take(i as int));
                assert(self.values@.take(i + 1).last() == self.values@[i as int]);
            }
            if self.values[i].key.get_shard_id() == shard {
                let ghost before = part.values@;
                let entry = self.values[i].clone();
                part.values.push(entry);
                proof {
                    assert(routed_writes(part.values@) =~= routed_writes(before).push(
                        (entry.key@, entry.version, value_view(entry.value)),
                    ));
                    assert forall|j: int| 0 <= j < part.values@.len() implies (
                    #[trigger] part.values@[j]).key.spec_get_shard_id() == shard by {
                        if j < before.len() {
                            assert(part.values@[j] == before[j]);
                        }
                    }
                }
            }
            i = i + 1;
        }
        let mut k: usize = 0;
        proof {
            assert(self.values@.take(self.values@.len() as int) =~= self.values@);
            assert(self.stale_indices@.take(0) =~= Seq::<StaleStateValueIndex>::empty());
            assert(part.stale_records() =~= Seq::<StaleIndexView>::empty());
        }
        while k < self.stale_indices.len()
            invariant
                k <= self.stale_indices@.len(),
                routed_writes(part.values@) == writes_of_shard(self.values@, shard),
                forall|j: int|
                    0 <= j < part.values@.len() ==> (
                    #[trigger] part.values@[j]).key.spec_get_shard_id() == shard,
                part.stale_records() == stale_of_shard(self.stale_indices@.take(k as int), shard),
                forall|j: int|
                    0 <= j < part.stale_indices@.len() ==> (
                    #[trigger] part.stale_indices@[j]).state_key.spec_get_shard_id() == shard,
            decreases self.stale_indices@.len() - k,
        {
            proof {
                assert(self.stale_indices@.take(k + 1).drop_last() =~= self.stale_indices@.take(
                    k as int,
                ));
                assert(self.stale_indices@.take(k + 1).last() == self.stale_indices@[k as int]);
            }
            let record = &self.stale_indices[k];
            if record.state_key.get_shard_id() == shard {
                let ghost before = part.stale_indices@;
                let ghost records_before = part.stale_records();
                let copy = StaleStateValueIndex {
                    stale_since_version: record.stale_since_version,
                    version: record.version,
                    state_key: record.state_key.clone(),
                };
                part.stale_indices.push(copy);
                proof {
                    assert(part.stale_records() =~= records_before.push(record@));
                    assert forall|j: int| 0 <= j < part.stale_indices@.len() implies (
                    #[trigger] part.stale_indices@[j]).state_key.spec_get_shard_id() == shard by {
                        if j < before.len() {
                            assert(part.stale_indices@[j] == before[j]);
                        }
                    }
                }
            }
            k = k + 1;
        }
        proof {
            assert(self.stale_indices@.take(self.stale_indices@.len() as int)
                =~= self.stale_indices@);
        }
        part
    }

    /// The batch, routed: for each shard its part.
    pub fn into_shards(&self) -> (sharded: ShardedStateKvSchemaBatch)
        ensures
            sharded.shards@.len() == NUM_STATE_SHARDS,
            forall|shard: u8|
                shard < NUM_STATE_SHARDS ==> {
                    &&& routed_writes((#[trigger] sharded.shards@[shard as int]).values@)
                        == writes_of_shard(self.values@, shard)
                    &&& sharded.shards@[shard as int].stale_records() == stale_of_shard(
                        self.stale_indices@,
                        shard,
                    )
                },
    {
        let mut shards: Vec<StateKvSchemaBatch> = Vec::new();
        let mut shard: u8 = 0;
        while shard < NUM_STATE_SHARDS
            invariant
                shard <= NUM_STATE_SHARDS,
                shards@.len() == shard,
                forall|s: u8|
                    s < shard ==> {
                        &&& routed_writes((#[trigger] shards@[s as int]).values@)
                            == writes_of_shard(self.values@, s)
                        &&& shards@[s as int].stale_records() == stale_of_shard(
                            self.stale_indices@,
                            s,
                        )
                    },
            decreases NUM_STATE_SHARDS - shard,
        {
            let part = self.shard(shard);
            shards.push(part);
            shard = shard + 1;
        }
        ShardedStateKvSchemaBatch { shards }
    }
}

/// Every write of a batch goes to the shard of its key.
pub proof fn lemma_write_goes_to_the_shard_of_its_key(entries: Seq<StateValueEntry>, at: int)
    requires
        0 <= at < entries.len(),
    ensures
        writes_of_shard(entries, entries[at].key.spec_get_shard_id()).contains(
            (entries[at].key@, entries[at].version, value_view(entries[at].value)),
        ),
    decreases entries.len(),
{
    let shard = entries[at].key.spec_get_shard_id();
    let write = (entries[at].key@, entries[at].version, value_view(entries[at].value));
    if at == entries.len() - 1 {
        let routed = writes_of_shard(entries, shard);
        assert(routed[routed.len() - 1] == write);
    } else {
        lemma_write_goes_to_the_shard_of_its_key(entries.drop_last(), at);
        let before = writes_of_shard(entries.drop_last(), shard);
        let i = choose|i: int| 0 <= i < before.len() && before[i] == write;
        assert(writes_of_shard(entries, shard)[i] == write);
    }
}

} // verus!
