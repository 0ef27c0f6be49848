//! The write buffer. Writes of many versions gather in memory as a delta
//! against the last persisted snapshot; the delta is handed to the tree store
//! once it has grown past a target, or when the caller asks for it.

use crate::types::{
    clone_value, value_view, HashValue, StateKey, StateStorageUsage, StateValue, Version,
};
use vstd::prelude::*;

verus! {

/// The number of versions after which a snapshot is due.
pub const TARGET_SNAPSHOT_INTERVAL_IN_VERSION: u64 = 20_000;

/// The number of snapshots that may wait for the tree store at a time.
pub const ASYNC_COMMIT_CHANNEL_BUFFER_SIZE: u64 = 1;

/// A write as plain values: the key and its new value (`None`: deleted).
pub type WriteView = (Seq<u8>, Option<Seq<u8>>);

/// A state as the tree store knows it: its version, the root of its tree,
/// and its usage. No version: the state before any transaction.
#[derive(Clone, Copy, Debug, PartialEq, Eq)]
pub struct StateCheckpoint {
    pub version: Option<Version>,
    pub root_hash: HashValue,
    pub usage: StateStorageUsage,
}

/// Everything committed on disk up to `base`, plus everything buffered in
/// memory up to `current`.
#[derive(Debug, PartialEq, Eq)]
pub struct StateDelta {
    pub base: StateCheckpoint,
    pub current: StateCheckpoint,
    /// The buffered writes, one per key: the net change from `base` to
    /// `current`.
    pub updates_since_base: Vec<(StateKey, Option<StateValue>)>,
}

/// The views of a list of writes.
pub open spec fn write_views(writes: Seq<(StateKey, Option<StateValue>)>) -> Seq<WriteView> {
    writes.map_values(|write: (StateKey, Option<StateValue>)| (write.0@, value_view(write.1)))
}

/// The buffered writes after one more write: it takes the place of the
/// buffered write to the same key, or comes last where there is none.
pub open spec fn merge_write(buffered: Seq<WriteView>, write: WriteView) -> Seq<WriteView>
    decreases buffered.len(),
{
    if buffered.len() == 0 {
        seq![write]
    } else if buffered[0].0 == write.0 {
        seq![write] + buffered.skip(1)
    } else {
        seq![buffered[0]] + merge_write(buffered.skip(1), write)
    }
}

/// The buffered writes after a list of further writes, merged in order.
pub open spec fn merge_writes(buffered: Seq<WriteView>, writes: Seq<WriteView>) -> Seq<WriteView>
    decreases writes.len(),
{
    if writes.len() == 0 {
        buffered
    } else {
        merge_write(merge_writes(buffered, writes.drop_last()), writes.last())
    }
}

/// A write that no buffered write before `upto` shares its key with merges
/// into the rest alone.
pub proof fn lemma_merge_write_skips(buffered: Seq<WriteView>, write: WriteView, upto: int)
    requires
        0 <= upto <= buffered.len(),
        forall|i: int| 0 <= i < upto ==> buffered[i].0 != write.0,
    ensures
        merge_write(buffered, write) == buffered.take(upto) + merge_write(
            buffered.skip(upto),
            write,
        ),
    decreases upto,
{
    if upto == 0 {
        assert(buffered.take(0) + merge_write(buffered.skip(0), write) =~= merge_write(
            buffered,
            write,
        )) by {
            assert(buffered.skip(0) =~= buffered);
        }
    } else {
        lemma_merge_write_skips(buffered.skip(1), write, upto - 1);
        assert(buffered.skip(1).take(upto - 1) =~= buffered.take(upto).skip(1));
        assert(buffered.skip(1).skip(upto - 1) =~= buffered.skip(upto));
        assert(seq![buffered[0]] + (buffered.skip(1).take(upto - 1) + merge_write(
            buffered.skip(upto),
            write,
        )) =~= buffered.take(upto) + merge_write(buffered.skip(upto), write));
    }
}

impl Clone for StateDelta {
    fn clone(&self) -> (copy: Self)
        ensures
            copy.base == self.base,
            copy.current == self.current,
            write_views(copy.updates_since_base@) == write_views(self.updates_since_base@),
    {
        let mut updates: Vec<(StateKey, Option<StateValue>)> = Vec::new();
        let mut i: usize = 0;
        while i < self.updates_since_base.len()
            invariant
                i <= self.updates_since_base@.len(),
                write_views(updates@) == write_views(self.updates_since_base@).take(i as int),
            decreases self.updates_since_base@.len() - i,
        {
            let key = self.updates_since_base[i].0.clone();
            let value = clone_value(&self.updates_since_base[i].1);
            let ghost before = updates@;
            updates.push((key, value));
            proof {
                assert(write_views(updates@) =~= write_views(before).push(
                    (key@, value_view(value)),
                ));
                assert(write_views(updates@) =~= write_views(self.updates_since_base@).take(
                    i + 1,
                ));
            }
            i = i + 1;
        }
        proof {
            assert(write_views(self.updates_since_base@).take(
                self.updates_since_base@.len() as int,
            ) =~= write_views(self.updates_since_base@));
        }
        StateDelta { base: self.base, current: self.current, updates_since_base: updates }
    }
}

impl StateDelta {
    /// The buffered writes as plain values.
    pub open spec fn buffered(&self) -> Seq<WriteView> {
        write_views(self.updates_since_base@)
    }

    /// The delta that holds nothing beyond the persisted state at `version`.
    pub fn new_at_checkpoint(
        root_hash: HashValue,
        usage: StateStorageUsage,
        checkpoint_version: Option<Version>,
    ) -> (delta: Self)
        ensures
            delta.base == (StateCheckpoint { version: checkpoint_version, root_hash, usage }),
            delta.current == delta.base,
            delta.buffered() == Seq::<WriteView>::empty(),
    {
        let checkpoint = StateCheckpoint { version: checkpoint_version, root_hash, usage };
        let delta = StateDelta {
            base: checkpoint,
            current: checkpoint,
            updates_since_base: Vec::new(),
        };
        proof {
            assert(delta.buffered() =~= Seq::<WriteView>::empty());
        }
        delta
    }

    /// Buffers one write, in place of the buffered write to the same key or
    /// after all others.
    pub fn merge_update(&mut self, key: StateKey, value: Option<StateValue>)
        ensures
            final(self).buffered() == merge_write(old(self).buffered(), (key@, value_view(value))),
            final(self).base == old(self).base,
            final(self).current == old(self).current,
    {
        let ghost write = (key@, value_view(value));
        let ghost before = self.buffered();
        let mut i: usize = 0;
        while i < self.updates_since_base.len()
            invariant
                i <= self.updates_since_base@.len(),
                *self == *old(self),
                before == self.buffered(),
                write == (key@, value_view(value)),
                forall|j: int| 0 <= j < i ==> before[j].0 != write.0,
            decreases self.updates_since_base@.len() - i,
        {
            if self.updates_since_base[i].0.same_key(&key) {
                proof {
                    lemma_merge_write_skips(before, write, i as int);
                    assert(before.skip(i as int)[0] == before[i as int]);
                    assert(before.skip(i as int).skip(1) =~= before.skip(i + 1));
                }
                self.updates_since_base.set(i, (key, value));
                proof {
                    assert(final(self).buffered() =~= before.take(i as int) + (seq![write]
                        + before.skip(i + 1)));
                }
                return ;
            }
            i = i + 1;
        }
        proof {
            lemma_merge_write_skips(before, write, before.len() as int);
            assert(before.skip(before.len() as int) =~= Seq::<WriteView>::empty());
            assert(before.take(before.len() as int) =~= before);
        }
        self.updates_since_base.push((key, value));
        proof {
            assert(final(self).buffered() =~= before + seq![write]);
        }
    }
}

/// What the tree store is asked to persist: the snapshot at `state`, as the
/// writes `updates` on top of the snapshot at `base_version`.
#[derive(Debug, PartialEq, Eq)]
pub struct SnapshotCommit {
    pub base_version: Option<Version>,
    pub state: StateCheckpoint,
    pub updates: Vec<(StateKey, Option<StateValue>)>,
}

/// The write buffer with its flush target.
pub struct BufferedState {
    pub state: StateDelta,
    /// The number of buffered writes past which the buffer is flushed.
    pub target_items: usize,
}

impl BufferedState {
    /// Whether an update that leaves `buffered` writes in memory is
    /// flushed: the caller asks for it, or the writes exceed the target.
    pub open spec fn flushes(buffered: nat, target_items: usize, sync_commit: bool) -> bool {
        sync_commit || buffered > target_items
    }

    /// A buffer on top of the persisted state `state_after_checkpoint`.
    pub fn new(state_after_checkpoint: StateDelta, target_items: usize) -> (buffer: Self)
        ensures
            buffer.state == state_after_checkpoint,
            buffer.target_items == target_items,
    {
        BufferedState { state: state_after_checkpoint, target_items }
    }

    /// The state as it stands: persisted up to `base`, buffered up to
    /// `current`.
    pub fn current_state(&self) -> (state: &StateDelta)
        ensures
            *state == self.state,
    {
        &self.state
    }

    /// Buffers the writes that lead from the current state to `new_state`,
    /// and asks nothing of the tree store.
    pub fn buffer(
        &mut self,
        value_set_deltas: Vec<(StateKey, Option<StateValue>)>,
        new_state: StateCheckpoint,
    )
        ensures
            final(self).target_items == old(self).target_items,
            final(self).state.base == old(self).state.base,
            final(self).state.current == new_state,
            final(self).state.buffered() == merge_writes(
                old(self).state.buffered(),
                write_views(value_set_deltas@),
            ),
    {
        let ghost deltas = write_views(value_set_deltas@);
        let mut i: usize = 0;
        proof {
            assert(deltas.take(0) =~= Seq::<WriteView>::empty());
        }
        while i < value_set_deltas.len()
            invariant
                i <= value_set_deltas@.len(),
                deltas == write_views(value_set_deltas@),
                self.target_items == old(self).target_items,
                self.state.base == old(self).state.base,
                self.state.buffered() == merge_writes(old(self).state.buffered(), deltas.take(i as int)),
            decreases value_set_deltas@.len() - i,
        {
            let key = value_set_deltas[i].0.clone();
            let value = clone_value(&value_set_deltas[i].1);
            proof {
                assert(deltas.take(i + 1).drop_last() =~= deltas.take(i as int));
                assert(deltas.take(i + 1).last() == (key@, value_view(value)));
            }
            self.state.merge_update(key, value);
            i = i + 1;
        }
        proof {
            assert(deltas.take(deltas.len() as int) =~= deltas);
        }
        self.state.current = new_state;
    }

    /// Takes in the writes that lead from the current state to `new_state`.
    ///
    /// The writes are merged into the buffer and `current` advances to
    /// `new_state`. Where the buffer then holds more than `target_items`
    /// writes, or `sync_commit` is set, it is flushed: the result asks the
    /// tree store to persist `new_state` on top of the old base, `base`
    /// advances to `new_state`, and the buffer is empty. Otherwise nothing is
    /// asked of the tree store and `base` stays.
    pub fn update(
        &mut self,
        value_set_deltas: Vec<(StateKey, Option<StateValue>)>,
        new_state: StateCheckpoint,
        sync_commit: bool,
    ) -> (commit: Option<SnapshotCommit>)
        ensures
            final(self).target_items == old(self).target_items,
            final(self).state.current == new_state,
            ({
                let merged = merge_writes(old(self).state.buffered(), write_views(value_set_deltas@));
                if Self::flushes(merged.len(), old(self).target_items, sync_commit) {
                    &&& commit matches Some(asked)
                    &&& asked.base_version == old(self).state.base.version
                    &&& asked.state == new_state
                    &&& write_views(asked.updates@) == merged
                    &&& final(self).state.base == new_state
                    &&& final(self).state.buffered() == Seq::<WriteView>::empty()
                } else {
                    &&& commit.is_none()
                    &&& final(self).state.base == old(self).state.base
                    &&& final(self).state.buffered() == merged
                }
            }),
    {
        self.buffer(value_set_deltas, new_state);
        if sync_commit || self.state.updates_since_base.len() > self.target_items {
            let base_version = self.state.base.version;
            let ghost merged = self.state.buffered();
            let mut flushed: Vec<(StateKey, Option<StateValue>)> = Vec::new();
            flushed.append(&mut self.state.updates_since_base);
            self.state.base = new_state;
            proof {
                assert(write_views(flushed@) =~= merged);
                assert(self.state.buffered() =~= Seq::<WriteView>::empty());
            }
            Some(SnapshotCommit { base_version, state: new_state, updates: flushed })
        } else {
            None
        }
    }
}

/// The index of the last state checkpoint among the transactions whose
/// checkpoint marks are `is_state_checkpoint`.
pub fn last_checkpoint_index(is_state_checkpoint: &Vec<bool>) -> (last: Option<usize>)
    ensures
        match last {
            Some(index) => {
                &&& index < is_state_checkpoint@.len()
                &&& is_state_checkpoint@[index as int]
                &&& forall|later: int|
                    index < later < is_state_checkpoint@.len() ==> !is_state_checkpoint@[later]
            },
            None => forall|any: int|
                0 <= any < is_state_checkpoint@.len() ==> !is_state_checkpoint@[any],
        },
{
    let mut last: Option<usize> = None;
    let mut i: usize = 0;
    while i < is_state_checkpoint.len()
        invariant
            i <= is_state_checkpoint@.len(),
            match last {
                Some(index) => {
                    &&& index < i
                    &&& is_state_checkpoint@[index as int]
                    &&& forall|later: int| index < later < i ==> !is_state_checkpoint@[later]
                },
                None => forall|any: int| 0 <= any < i ==> !is_state_checkpoint@[any],
            },
        decreases is_state_checkpoint@.len() - i,
    {
        if is_state_checkpoint[i] {
            last = Some(i);
        }
        i = i + 1;
    }
    last
}

/// The writes of a run of value sets, set after set.
pub open spec fn flatten_writes(
    value_sets: Seq<Vec<(StateKey, Option<StateValue>)>>,
) -> Seq<WriteView>
    decreases value_sets.len(),
{
    if value_sets.len() == 0 {
        Seq::empty()
    } else {
        flatten_writes(value_sets.drop_last()) + write_views(value_sets.last()@)
    }
}

/// Copies the writes of the value sets from `from` up to `to` into one list.
pub fn collect_writes(value_sets: &Vec<Vec<(StateKey, Option<StateValue>)>>, from: usize, to: usize) -> (writes:
    Vec<(StateKey, Option<StateValue>)>)
    requires
        from <= to <= value_sets@.len(),
    ensures
        write_views(writes@) == flatten_writes(value_sets@.subrange(from as int, to as int)),
{
    let mut writes: Vec<(StateKey, Option<StateValue>)> = Vec::new();
    let mut at: usize = from;
    proof {
        assert(value_sets@.subrange(from as int, from as int) =~= Seq::<
            Vec<(StateKey, Option<StateValue>)>,
        >::empty());
        assert(write_views(writes@) =~= Seq::<WriteView>::empty());
    }
    while at < to
        invariant
            from <= at <= to <= value_sets@.len(),
            write_views(writes@) == flatten_writes(value_sets@.subrange(from as int, at as int)),
        decreases to - at,
    {
        let set = &value_sets[at];
        let ghost done = write_views(writes@);
        let mut within: usize = 0;
        while within < set.len()
            invariant
                within <= set@.len(),
                write_views(writes@) == done + write_views(set@).take(within as int),
            decreases set@.len() - within,
        {
            let key = set[within].0.clone();
            let value = clone_value(&set[within].1);
            let ghost before = writes@;
            writes.push((key, value));
            proof {
                assert(write_views(writes@) =~= write_views(before).push((key@, value_view(value))));
                assert(write_views(set@).take(within + 1) =~= write_views(set@).take(
                    within as int,
                ).push((key@, value_view(value))));
            }
            within = within + 1;
        }
        proof {
            assert(write_views(set@).take(set@.len() as int) =~= write_views(set@));
            let next = value_sets@.subrange(from as int, at + 1);
            assert(next.drop_last() =~= value_sets@.subrange(from as int, at as int));
            assert(next.last() == set);
        }
        at = at + 1;
    }
    writes
}

impl BufferedState {
    /// Takes in the write sets committed after the latest snapshot, split at
    /// the last state checkpoint among them: what leads up to and includes
    /// that checkpoint is handed to the tree store at once, as the snapshot
    /// `state_at_last_checkpoint`; what follows stays buffered, with
    /// `latest_state` as the current state. Without a checkpoint everything
    /// stays buffered.
    pub fn replay(
        &mut self,
        write_sets: &Vec<Vec<(StateKey, Option<StateValue>)>>,
        is_state_checkpoint: &Vec<bool>,
        state_at_last_checkpoint: StateCheckpoint,
        latest_state: StateCheckpoint,
    ) -> (commit: Option<SnapshotCommit>)
        requires
            is_state_checkpoint@.len() == write_sets@.len(),
        ensures
            final(self).target_items == old(self).target_items,
            final(self).state.current == latest_state,
            ({
                let split = replay_split(is_state_checkpoint@);
                let head = flatten_writes(write_sets@.subrange(0, split));
                let tail = flatten_writes(write_sets@.subrange(split, write_sets@.len() as int));
                if split > 0 {
                    &&& commit matches Some(asked)
                    &&& asked.base_version == old(self).state.base.version
                    &&& asked.state == state_at_last_checkpoint
                    &&& write_views(asked.updates@) == merge_writes(
                        old(self).state.buffered(),
                        head,
                    )
                    &&& final(self).state.base == state_at_last_checkpoint
                    &&& final(self).state.buffered() == merge_writes(Seq::empty(), tail)
                } else {
                    &&& commit.is_none()
                    &&& final(self).state.base == old(self).state.base
                    &&& final(self).state.buffered() == merge_writes(
                        old(self).state.buffered(),
                        tail,
                    )
                }
            }),
    {
        let transactions = is_state_checkpoint.len();
        let split: usize = match last_checkpoint_index(is_state_checkpoint) {
            Some(index) => {
                assert(index < transactions);
                index + 1
            },
            None => 0,
        };
        proof {
            lemma_replay_split(is_state_checkpoint@, split as int);
        }
        let commit = if split > 0 {
            let head = collect_writes(write_sets, 0, split);
            self.update(head, state_at_last_checkpoint, true)
        } else {
            None
        };
        let tail = collect_writes(write_sets, split, write_sets.len());
        self.buffer(tail, latest_state);
        commit
    }
}

/// Whether there is a state checkpoint at `index` and none after it.
pub open spec fn is_last_checkpoint(is_state_checkpoint: Seq<bool>, index: int) -> bool {
    &&& 0 <= index < is_state_checkpoint.len()
    &&& is_state_checkpoint[index]
    &&& forall|later: int| index < later < is_state_checkpoint.len() ==> !is_state_checkpoint[later]
}

/// The number of transactions up to and including the last state
/// checkpoint; none where there is no checkpoint.
pub open spec fn replay_split(is_state_checkpoint: Seq<bool>) -> int {
    if exists|index: int| is_last_checkpoint(is_state_checkpoint, index) {
        (choose|index: int| is_last_checkpoint(is_state_checkpoint, index)) + 1
    } else {
        0
    }
}

/// The split is one past the last checkpoint where `split` is, and zero
/// where there is no checkpoint.
pub proof fn lemma_replay_split(is_state_checkpoint: Seq<bool>, split: int)
    requires
        if split > 0 {
            is_last_checkpoint(is_state_checkpoint, split - 1)
        } else {
            split == 0 && forall|any: int|
                0 <= any < is_state_checkpoint.len() ==> !is_state_checkpoint[any]
        },
    ensures
        replay_split(is_state_checkpoint) == split,
{
    if split > 0 {
        let chosen = choose|index: int| is_last_checkpoint(is_state_checkpoint, index);
        assert(is_last_checkpoint(is_state_checkpoint, chosen));
        if chosen < split - 1 {
            assert(!is_state_checkpoint[split - 1]);
        } else if chosen > split - 1 {
            assert(!is_state_checkpoint[chosen]);
        }
    }
}

} // verus!
