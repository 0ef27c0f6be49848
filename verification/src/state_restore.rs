//! Bulk transfer of a state snapshot in chunks: the export of a chunk of
//! leaves with their values, and a restore session that takes chunks in and
//! keeps a progress marker, so that a chunk delivered again changes nothing.

use crate::error::StateStoreError;
use crate::state_kv_db::{history_of, value_as_of, StateValueEntry, ValueHistory};
use crate::state_merkle_db::StateSnapshot;
use crate::state_store::StateStore;
use crate::types::{
    value_view, HashValue, StateKey, StateSnapshotProgress, StateStorageUsage, StateValue, Version,
};
use crate::usage_ledger::item_size;
use vstd::prelude::*;

verus! {

/// A leaf of the tree as its iterator yields it: the key's digest, the key,
/// and the version of the key's value.
pub type JellyfishLeaf = (HashValue, (StateKey, Version));

/// A key with its value, as plain values.
pub type ItemView = (Seq<u8>, Seq<u8>);

/// The siblings on the right of the path to a leaf, which prove a range of
/// leaves up to that leaf. Made and checked by the tree.
#[derive(Clone, Debug, PartialEq, Eq)]
pub struct SparseMerkleRangeProof {
    pub right_siblings: Vec<HashValue>,
}

/// A slice of a snapshot: the leaves from `first_index` to `last_index` in
/// key-digest order, with their values.
#[derive(Debug, PartialEq, Eq)]
pub struct StateValueChunk {
    pub first_index: u64,
    pub last_index: u64,
    pub first_key: HashValue,
    pub last_key: HashValue,
    pub raw_values: Vec<(StateKey, StateValue)>,
}

/// A chunk with the proof of its range and the root that the proof leads to.
#[derive(Debug, PartialEq, Eq)]
pub struct StateValueChunkWithProof {
    pub first_index: u64,
    pub last_index: u64,
    pub first_key: HashValue,
    pub last_key: HashValue,
    pub raw_values: Vec<(StateKey, StateValue)>,
    pub proof: SparseMerkleRangeProof,
    pub root_hash: HashValue,
}

/// The views of a list of keys with their values.
pub open spec fn item_views(items: Seq<(StateKey, StateValue)>) -> Seq<ItemView> {
    items.map_values(|item: (StateKey, StateValue)| (item.0@, item.1@))
}

/// The keys and values that a list of leaves stands for, in order: each key
/// with its value as of the leaf's version. Fails at the first leaf of which
/// the raw store has no value.
pub open spec fn resolve_leaves(history: ValueHistory, leaves: Seq<JellyfishLeaf>) -> Result<
    Seq<ItemView>,
    StateStoreError,
>
    decreases leaves.len(),
{
    if leaves.len() == 0 {
        Ok(Seq::empty())
    } else {
        match resolve_leaves(history, leaves.drop_last()) {
            Err(error) => Err(error),
            Ok(items) => {
                let (_, (key, version)) = leaves.last();
                match value_as_of(history, key@, version) {
                    Some((_, value)) => Ok(items.push((key@, value))),
                    None => Err(StateStoreError::StateValueMissing { version }),
                }
            },
        }
    }
}

/// Once a leaf fails to resolve, the whole list fails with the same error.
pub proof fn lemma_resolve_fails_for_good(
    history: ValueHistory,
    leaves: Seq<JellyfishLeaf>,
    done: int,
)
    requires
        0 <= done <= leaves.len(),
        resolve_leaves(history, leaves.take(done)).is_err(),
    ensures
        resolve_leaves(history, leaves) == resolve_leaves(history, leaves.take(done)),
    decreases leaves.len() - done,
{
    if done == leaves.len() {
        assert(leaves.take(done) =~= leaves);
    } else {
        assert(leaves.drop_last().take(done) =~= leaves.take(done));
        lemma_resolve_fails_for_good(history, leaves.drop_last(), done);
    }
}

/// The number of leaves that a chunk of at most `chunk_size` takes of
/// `available`.
pub open spec fn chunk_len(available: nat, chunk_size: usize) -> nat {
    if available < chunk_size {
        available
    } else {
        chunk_size as nat
    }
}

/// The key and value that a leaf stands for: the key with its value as of
/// the leaf's version, which the raw store must have.
pub open spec fn resolve_leaf(history: ValueHistory, leaf: JellyfishLeaf) -> Result<
    ItemView,
    StateStoreError,
> {
    match value_as_of(history, leaf.1.0@, leaf.1.1) {
        Some((_, value)) => Ok((leaf.1.0@, value)),
        None => Err(StateStoreError::StateValueMissing { version: leaf.1.1 }),
    }
}

/// A key with its value, or the failure to find the value, as plain values.
pub open spec fn resolved_view(item: Result<(StateKey, StateValue), StateStoreError>) -> Result<
    ItemView,
    StateStoreError,
> {
    match item {
        Ok((key, value)) => Ok((key@, value@)),
        Err(error) => Err(error),
    }
}

impl StateStore {
    /// For each of `leaves`, in order, the key and value that it stands for,
    /// or the failure to find its value.
    pub fn get_state_key_and_value_iter(&self, leaves: &Vec<JellyfishLeaf>) -> (items: Vec<
        Result<(StateKey, StateValue), StateStoreError>,
    >)
        ensures
            items@.len() == leaves@.len(),
            forall|i: int|
                0 <= i < leaves@.len() ==> resolved_view(#[trigger] items@[i]) == resolve_leaf(
                    self.state_db.state_kv_db.history(),
                    leaves@[i],
                ),
    {
        let mut items: Vec<Result<(StateKey, StateValue), StateStoreError>> = Vec::new();
        let mut i: usize = 0;
        while i < leaves.len()
            invariant
                i <= leaves@.len(),
                items@.len() == i,
                forall|j: int|
                    0 <= j < i ==> resolved_view(#[trigger] items@[j]) == resolve_leaf(
                        self.state_db.state_kv_db.history(),
                        leaves@[j],
                    ),
            decreases leaves@.len() - i,
        {
            let key = &leaves[i].1.0;
            let version = leaves[i].1.1;
            let item = match self.state_db.expect_value_by_version(key, version) {
                Ok(value) => Ok((key.clone(), value)),
                Err(error) => Err(error),
            };
            items.push(item);
            i = i + 1;
        }
        items
    }

    /// The keys and values that `leaves` stand for, in order, where the raw
    /// store has the value of each; otherwise the failure at the first leaf
    /// without one.
    pub fn get_state_keys_and_values(&self, leaves: &Vec<JellyfishLeaf>) -> (items: Result<
        Vec<(StateKey, StateValue)>,
        StateStoreError,
    >)
        ensures
            match resolve_leaves(self.state_db.state_kv_db.history(), leaves@) {
                Ok(expected) => items matches Ok(found) && item_views(found@) == expected,
                Err(error) => items == Err::<Vec<(StateKey, StateValue)>, StateStoreError>(error),
            },
    {
        let mut items: Vec<(StateKey, StateValue)> = Vec::new();
        let mut i: usize = 0;
        proof {
            assert(leaves@.take(0) =~= Seq::<JellyfishLeaf>::empty());
            assert(item_views(items@) =~= Seq::<ItemView>::empty());
        }
        while i < leaves.len()
            invariant
                i <= leaves@.len(),
                resolve_leaves(self.state_db.state_kv_db.history(), leaves@.take(i as int)) == Ok::<
                    Seq<ItemView>,
                    StateStoreError,
                >(item_views(items@)),
            decreases leaves@.len() - i,
        {
            let key = &leaves[i].1.0;
            let version = leaves[i].1.1;
            proof {
                assert(leaves@.take(i + 1).drop_last() =~= leaves@.take(i as int));
                assert(leaves@.take(i + 1).last() == leaves@[i as int]);
            }
            match self.state_db.expect_value_by_version(key, version) {
                Ok(value) => {
                    let ghost before = items@;
                    let key = key.clone();
                    items.push((key, value));
                    proof {
                        assert(item_views(items@) =~= item_views(before).push((key@, value@)));
                    }
                },
                Err(error) => {
                    proof {
                        lemma_resolve_fails_for_good(
                            self.state_db.state_kv_db.history(),
                            leaves@,
                            i + 1,
                        );
                    }
                    return Err(error);
                },
            }
            i = i + 1;
        }
        proof {
            assert(leaves@.take(leaves@.len() as int) =~= leaves@);
        }
        Ok(items)
    }

    /// The chunk of at most `chunk_size` leaves that starts at `first_index`,
    /// where `leaves` are the leaves of the snapshot from `first_index` on, in
    /// key-digest order.
    ///
    /// Fails with `StateChunkNotFound` where the chunk would be empty, and
    /// with `StateValueMissing` where the raw store lacks the value of one of
    /// its leaves.
    pub fn get_value_chunk(
        &self,
        first_index: usize,
        chunk_size: usize,
        leaves: &Vec<JellyfishLeaf>,
    ) -> (chunk: Result<StateValueChunk, StateStoreError>)
        requires
            first_index + leaves@.len() <= usize::MAX,
        ensures
            ({
                let taken = leaves@.take(chunk_len(leaves@.len(), chunk_size) as int);
                match resolve_leaves(self.state_db.state_kv_db.history(), taken) {
                    Err(error) => chunk == Err::<StateValueChunk, StateStoreError>(error),
                    Ok(items) => if items.len() == 0 {
                        chunk == Err::<StateValueChunk, StateStoreError>(
                            StateStoreError::StateChunkNotFound { first_index },
                        )
                    } else {
                        &&& chunk matches Ok(found)
                        &&& item_views(found.raw_values@) == items
                        &&& found.first_index == first_index
                        &&& found.last_index == first_index + taken.len() - 1
                        &&& found.first_key == taken.first().0
                        &&& found.last_key == taken.last().0
                        &&& found.well_formed()
                    },
                }
            }),
    {
        let count = if leaves.len() < chunk_size {
            leaves.len()
        } else {
            chunk_size
        };
        let mut taken: Vec<JellyfishLeaf> = Vec::new();
        let mut i: usize = 0;
        while i < count
            invariant
                i <= count <= leaves@.len(),
                taken@.len() == i,
                forall|j: int|
                    0 <= j < i ==> {
                        &&& (#[trigger] taken@[j]).0 == leaves@[j].0
                        &&& taken@[j].1.0@ == leaves@[j].1.0@
                        &&& taken@[j].1.1 == leaves@[j].1.1
                    },
            decreases count - i,
        {
            taken.push((leaves[i].0, (leaves[i].1.0.clone(), leaves[i].1.1)));
            i = i + 1;
        }
        proof {
            lemma_resolve_by_views(
                self.state_db.state_kv_db.history(),
                taken@,
                leaves@.take(count as int),
            );
        }
        let items = match self.get_state_keys_and_values(&taken) {
            Ok(items) => items,
            Err(error) => {
                return Err(error);
            },
        };
        proof {
            lemma_resolve_len(self.state_db.state_kv_db.history(), taken@);
        }
        if items.len() == 0 {
            return Err(StateStoreError::StateChunkNotFound { first_index });
        }
        let last_index = (items.len() - 1 + first_index) as u64;
        let first_key = taken[0].0;
        let last_key = taken[taken.len() - 1].0;
        Ok(
            StateValueChunk {
                first_index: first_index as u64,
                last_index,
                first_key,
                last_key,
                raw_values: items,
            },
        )
    }

    /// A chunk, as `get_value_chunk` gives it, with the proof of its range and
    /// the root of the snapshot at `version`. Fails where no snapshot is
    /// committed at `version`.
    pub fn get_value_chunk_with_proof(
        &self,
        version: Version,
        chunk: StateValueChunk,
        proof_of_range: SparseMerkleRangeProof,
    ) -> (proven: Result<StateValueChunkWithProof, StateStoreError>)
        requires
            chunk.well_formed(),
        ensures
            if self.state_db.state_merkle_db.committed().dom().contains(version) {
                &&& proven matches Ok(found)
                &&& found.first_index == chunk.first_index
                &&& found.last_index == chunk.last_index
                &&& found.first_key == chunk.first_key
                &&& found.last_key == chunk.last_key
                &&& found.raw_values == chunk.raw_values
                &&& found.proof == proof_of_range
                &&& found.root_hash == self.state_db.state_merkle_db.committed()[version].root_hash
            } else {
                proven == Err::<StateValueChunkWithProof, StateStoreError>(
                    StateStoreError::StateSnapshotNotFound { version },
                )
            },
    {
        let root_hash = match self.get_root_hash(version) {
            Ok(root_hash) => root_hash,
            Err(error) => {
                return Err(error);
            },
        };
        Ok(
            StateValueChunkWithProof {
                first_index: chunk.first_index,
                last_index: chunk.last_index,
                first_key: chunk.first_key,
                last_key: chunk.last_key,
                raw_values: chunk.raw_values,
                proof: proof_of_range,
                root_hash,
            },
        )
    }
}

/// Leaves that name the same keys and versions resolve alike.
pub proof fn lemma_resolve_by_views(
    history: ValueHistory,
    a: Seq<JellyfishLeaf>,
    b: Seq<JellyfishLeaf>,
)
    requires
        a.len() == b.len(),
        forall|j: int| 0 <= j < a.len() ==> a[j].1.0@ == b[j].1.0@ && a[j].1.1 == b[j].1.1,
    ensures
        resolve_leaves(history, a) == resolve_leaves(history, b),
    decreases a.len(),
{
    if a.len() > 0 {
        lemma_resolve_by_views(history, a.drop_last(), b.drop_last());
    }
}

/// Leaves that all resolve give one item each.
pub proof fn lemma_resolve_len(history: ValueHistory, leaves: Seq<JellyfishLeaf>)
    requires
        resolve_leaves(history, leaves).is_ok(),
    ensures
        resolve_leaves(history, leaves).unwrap().len() == leaves.len(),
    decreases leaves.len(),
{
    if leaves.len() > 0 {
        lemma_resolve_len(history, leaves.drop_last());
    }
}

/// The index of the leaf that a restore session expects next.
pub open spec fn next_index(progress: Option<StateSnapshotProgress>) -> int {
    match progress {
        Some(progress) => progress.last_index + 1,
        None => 0,
    }
}

/// The usage that a restore session has counted so far.
pub open spec fn usage_so_far(progress: Option<StateSnapshotProgress>) -> StateStorageUsage {
    match progress {
        Some(progress) => progress.usage,
        None => StateStorageUsage::spec_new(0, 0),
    }
}

/// Whether no two of the items share a key.
pub open spec fn keys_distinct(items: Seq<ItemView>) -> bool {
    forall|i: int, j: int| 0 <= i < j < items.len() ==> items[i].0 != items[j].0
}

/// What is wrong with a chunk of the values `items` for a session at
/// `progress`, if anything: its indices do not match its values, two of its
/// values are under one key, or it leaves a gap after the last leaf
/// applied.
pub open spec fn chunk_fault(
    progress: Option<StateSnapshotProgress>,
    first_index: u64,
    last_index: u64,
    items: Seq<ItemView>,
) -> Option<StateStoreError> {
    if items.len() == 0 || last_index < first_index || last_index - first_index + 1 != items.len()
        || !keys_distinct(items) {
        Some(StateStoreError::ChunkMalformed)
    } else if first_index > next_index(progress) {
        Some(StateStoreError::ChunkOutOfOrder { expected_first_index: next_index(progress) as u64 })
    } else {
        None
    }
}

/// The number of values at the head of a sound chunk that the session has
/// applied already.
pub open spec fn applied_already(
    progress: Option<StateSnapshotProgress>,
    first_index: u64,
    len: nat,
) -> nat {
    if next_index(progress) - first_index >= len {
        len
    } else {
        (next_index(progress) - first_index) as nat
    }
}

/// The usage after counting `items` in, where the counters can hold them.
pub open spec fn usage_with_items(usage: StateStorageUsage, items: Seq<ItemView>) -> Option<
    StateStorageUsage,
>
    decreases items.len(),
{
    if items.len() == 0 {
        Some(usage)
    } else {
        match usage_with_items(usage, items.drop_last()) {
            Some(usage) => usage.spec_add_item(item_size(items.last().0, items.last().1)),
            None => None,
        }
    }
}

/// The history after `items` were written at `version`.
pub open spec fn history_with_items(
    history: ValueHistory,
    version: Version,
    items: Seq<ItemView>,
) -> ValueHistory
    decreases items.len(),
{
    if items.len() == 0 {
        history
    } else {
        history_with_items(history, version, items.drop_last()).insert(
            (items.last().0, version),
            Some(items.last().1),
        )
    }
}

/// Once the counters fail within a list of items, they have failed for the
/// whole of it.
pub proof fn lemma_usage_with_items_fails_for_good(
    usage: StateStorageUsage,
    items: Seq<ItemView>,
    done: int,
)
    requires
        0 <= done <= items.len(),
        usage_with_items(usage, items.take(done)).is_none(),
    ensures
        usage_with_items(usage, items).is_none(),
    decreases items.len() - done,
{
    if done == items.len() {
        assert(items.take(done) =~= items);
    } else {
        assert(items.drop_last().take(done) =~= items.take(done));
        lemma_usage_with_items_fails_for_good(usage, items.drop_last(), done);
    }
}

/// What a restore session holds in the stores: the raw store's history and
/// the session's progress.
pub struct RestoreView {
    pub history: ValueHistory,
    pub progress: Option<StateSnapshotProgress>,
}

/// A chunk as plain values.
pub struct ChunkView {
    pub first_index: u64,
    pub last_index: u64,
    pub last_key: HashValue,
    pub items: Seq<ItemView>,
}

impl StateValueChunk {
    /// Whether the chunk holds a value and its indices are those of its
    /// values.
    pub open spec fn well_formed(&self) -> bool {
        &&& self.raw_values@.len() > 0
        &&& self.first_index <= self.last_index
        &&& self.last_index - self.first_index + 1 == self.raw_values@.len()
    }
}

impl StateValueChunkWithProof {
    /// What a restore session applies of the chunk: its indices, the digest
    /// of its last key, and its values. The digest of the first key, the
    /// proof and the root are for the tree, which checks the chunk.
    pub open spec fn applied_part(&self) -> ChunkView {
        ChunkView {
            first_index: self.first_index,
            last_index: self.last_index,
            last_key: self.last_key,
            items: item_views(self.raw_values@),
        }
    }
}

/// The values of a sound chunk that the session has yet to apply.
pub open spec fn fresh_items(progress: Option<StateSnapshotProgress>, chunk: ChunkView) -> Seq<
    ItemView,
> {
    chunk.items.skip(applied_already(progress, chunk.first_index, chunk.items.len()) as int)
}

/// What taking a chunk in comes to, for the session restoring `version`.
///
/// A chunk with a fault is refused. Of a sound chunk, the values not yet
/// applied are written at `version` and counted into the usage, and the
/// progress moves to the chunk's last leaf; a chunk without such values
/// changes nothing.
pub open spec fn after_chunk(before: RestoreView, version: Version, chunk: ChunkView) -> Result<
    RestoreView,
    StateStoreError,
> {
    match chunk_fault(before.progress, chunk.first_index, chunk.last_index, chunk.items) {
        Some(fault) => Err(fault),
        None => {
            let fresh = fresh_items(before.progress, chunk);
            if fresh.len() == 0 {
                Ok(before)
            } else {
                match usage_with_items(usage_so_far(before.progress), fresh) {
                    None => Err(StateStoreError::UsageOutOfRange),
                    Some(usage) => Ok(
                        RestoreView {
                            history: history_with_items(before.history, version, fresh),
                            progress: Some(
                                StateSnapshotProgress {
                                    last_index: chunk.last_index,
                                    key_hash: chunk.last_key,
                                    usage,
                                },
                            ),
                        },
                    ),
                }
            }
        },
    }
}

/// A chunk delivered a second time changes nothing: the progress marker
/// keeps the session from applying it twice.
pub proof fn lemma_redelivery_changes_nothing(
    before: RestoreView,
    version: Version,
    chunk: ChunkView,
)
    requires
        after_chunk(before, version, chunk).is_ok(),
    ensures
        after_chunk(after_chunk(before, version, chunk).unwrap(), version, chunk) == after_chunk(
            before,
            version,
            chunk,
        ),
{
    let after = after_chunk(before, version, chunk).unwrap();
    if fresh_items(before.progress, chunk).len() > 0 {
        assert(next_index(after.progress) == chunk.last_index + 1);
        assert(applied_already(after.progress, chunk.first_index, chunk.items.len())
            == chunk.items.len());
        assert(fresh_items(after.progress, chunk).len() == 0);
    }
}

/// The entries of a list of items written at `version`.
pub open spec fn entries_write_items(
    entries: Seq<StateValueEntry>,
    version: Version,
    items: Seq<ItemView>,
) -> bool {
    &&& entries.len() == items.len()
    &&& forall|i: int|
        0 <= i < entries.len() ==> {
            &&& (#[trigger] entries[i]).key@ == items[i].0
            &&& entries[i].version == version
            &&& value_view(entries[i].value) == Some(items[i].1)
        }
}

/// Entries that write `items` at `version` leave the history with those
/// items.
pub proof fn lemma_entries_history(
    history_before: Seq<StateValueEntry>,
    entries: Seq<StateValueEntry>,
    version: Version,
    items: Seq<ItemView>,
)
    requires
        entries_write_items(entries, version, items),
    ensures
        history_of(history_before + entries) == history_with_items(
            history_of(history_before),
            version,
            items,
        ),
    decreases entries.len(),
{
    if entries.len() == 0 {
        assert(history_before + entries =~= history_before);
    } else {
        assert(entries_write_items(entries.drop_last(), version, items.drop_last()));
        lemma_entries_history(history_before, entries.drop_last(), version, items.drop_last());
        assert((history_before + entries).drop_last() =~= history_before + entries.drop_last());
        assert((history_before + entries).last() == entries.last());
    }
}

/// Whether no two of the entries are for one key and version.
pub open spec fn entries_distinct(entries: Seq<StateValueEntry>) -> bool {
    forall|i: int, j: int|
        0 <= i < j < entries.len() ==> (entries[i].key@, entries[i].version) != (
            entries[j].key@,
            entries[j].version,
        )
}

/// Entries written after others, no two of them for one key and version,
/// are all held by the history: each with its value.
pub proof fn lemma_entries_held(
    entries_before: Seq<StateValueEntry>,
    entries: Seq<StateValueEntry>,
    at: int,
)
    requires
        entries_distinct(entries),
        0 <= at < entries.len(),
    ensures
        history_of(entries_before + entries).dom().contains((entries[at].key@, entries[at].version)),
        history_of(entries_before + entries)[(entries[at].key@, entries[at].version)]
            == value_view(entries[at].value),
    decreases entries.len(),
{
    let all = entries_before + entries;
    assert(all.drop_last() =~= entries_before + entries.drop_last());
    assert(all.last() == entries.last());
    if at < entries.len() - 1 {
        assert(entries_distinct(entries.drop_last()));
        lemma_entries_held(entries_before, entries.drop_last(), at);
        assert((entries[at].key@, entries[at].version) != (
            entries[entries.len() - 1].key@,
            entries[entries.len() - 1].version,
        ));
    }
}

/// Tells whether no two of the entries are for one key and version.
pub fn entries_are_distinct(entries: &Vec<StateValueEntry>) -> (distinct: bool)
    ensures
        distinct == entries_distinct(entries@),
{
    let mut later: usize = 0;
    while later < entries.len()
        invariant
            later <= entries@.len(),
            forall|i: int, j: int|
                0 <= i < j < later ==> (entries@[i].key@, entries@[i].version) != (
                    entries@[j].key@,
                    entries@[j].version,
                ),
        decreases entries@.len() - later,
    {
        let mut earlier: usize = 0;
        while earlier < later
            invariant
                earlier <= later < entries@.len(),
                forall|i: int|
                    0 <= i < earlier ==> (entries@[i].key@, entries@[i].version) != (
                        entries@[later as int].key@,
                        entries@[later as int].version,
                    ),
            decreases later - earlier,
        {
            if entries[earlier].version == entries[later].version && entries[earlier].key.same_key(
                &entries[later].key,
            ) {
                return false;
            }
            earlier = earlier + 1;
        }
        later = later + 1;
    }
    true
}

/// Tells whether no two of the items share a key.
pub fn keys_are_distinct(items: &Vec<(StateKey, StateValue)>) -> (distinct: bool)
    ensures
        distinct == keys_distinct(item_views(items@)),
{
    let mut later: usize = 0;
    while later < items.len()
        invariant
            later <= items@.len(),
            forall|i: int, j: int| 0 <= i < j < later ==> items@[i].0@ != items@[j].0@,
        decreases items@.len() - later,
    {
        let mut earlier: usize = 0;
        while earlier < later
            invariant
                earlier <= later < items@.len(),
                forall|i: int| 0 <= i < earlier ==> items@[i].0@ != items@[later as int].0@,
            decreases later - earlier,
        {
            if items[earlier].0.same_key(&items[later].0) {
                proof {
                    assert(item_views(items@)[earlier as int].0 == item_views(items@)[later as int].0);
                }
                return false;
            }
            earlier = earlier + 1;
        }
        later = later + 1;
    }
    proof {
        assert forall|i: int, j: int| 0 <= i < j < item_views(items@).len() implies item_views(
            items@,
        )[i].0 != item_views(items@)[j].0 by {
            assert(items@[i].0@ != items@[j].0@);
        }
    }
    true
}

/// A session that restores the snapshot at `version`, whose tree must come
/// out with the root `expected_root_hash`.
#[derive(Clone, Copy, Debug, PartialEq, Eq)]
pub struct StateSnapshotRestore {
    pub version: Version,
    pub expected_root_hash: HashValue,
}

impl StateStore {
    /// What the restore session for `version` reads and writes of the
    /// stores: the raw store's history and the session's own progress.
    pub open spec fn session_view(&self, version: Version) -> RestoreView {
        RestoreView {
            history: self.state_db.state_kv_db.history(),
            progress: if self.state_db.state_kv_db.restore_records().dom().contains(version) {
                Some(self.state_db.state_kv_db.restore_records()[version])
            } else {
                None
            },
        }
    }

    /// Writes the values of a chunk and the session's progress in one piece.
    /// The batch holds no two entries for one key and version; the store
    /// then holds each of its entries.
    pub fn write_kv_batch(
        &mut self,
        version: Version,
        node_batch: Vec<StateValueEntry>,
        progress: StateSnapshotProgress,
    )
        requires
            entries_distinct(node_batch@),
        ensures
            forall|i: int|
                0 <= i < node_batch@.len() ==> final(self).state_db.state_kv_db.history().dom().contains(
                    ((#[trigger] node_batch@[i]).key@, node_batch@[i].version),
                ) && final(self).state_db.state_kv_db.history()[(
                    node_batch@[i].key@,
                    node_batch@[i].version,
                )] == value_view(node_batch@[i].value),
            final(self).state_db.state_kv_db.history() == history_of(
                old(self).state_db.state_kv_db.entries@ + node_batch@,
            ),
            final(self).state_db.state_kv_db.restore_records() == old(
                self,
            ).state_db.state_kv_db.restore_records().insert(version, progress),
            final(self).state_db.state_kv_db.stale_index == old(self).state_db.state_kv_db.stale_index,
            final(self).state_db.state_kv_db.commit_progress == old(self).state_db.state_kv_db.commit_progress,
            final(self).state_db.ledger_db == old(self).state_db.ledger_db,
            final(self).state_db.state_merkle_db == old(self).state_db.state_merkle_db,
            final(self).buffered_state == old(self).buffered_state,
            final(self).buffered_state_target_items == old(self).buffered_state_target_items,
    {
        let mut node_batch = node_batch;
        proof {
            assert forall|i: int| 0 <= i < node_batch@.len() implies history_of(
                self.state_db.state_kv_db.entries@ + node_batch@,
            ).dom().contains(((#[trigger] node_batch@[i]).key@, node_batch@[i].version))
                && history_of(self.state_db.state_kv_db.entries@ + node_batch@)[(
                node_batch@[i].key@,
                node_batch@[i].version,
            )] == value_view(node_batch@[i].value) by {
                lemma_entries_held(self.state_db.state_kv_db.entries@, node_batch@, i);
            }
        }
        self.state_db.state_kv_db.entries.append(&mut node_batch);
        self.state_db.state_kv_db.restore_progress.put(version, progress);
    }

    /// Records the counts of the usage of the restored state at `version`.
    /// Nothing else changes.
    pub fn write_usage(&mut self, version: Version, usage: StateStorageUsage)
        ensures
            final(self).state_db.ledger_db.usage_records() == old(
                self,
            ).state_db.ledger_db.usage_records().insert(version, usage.spec_counted()),
            final(self).state_db.ledger_db.epoch_by_version == old(
                self,
            ).state_db.ledger_db.epoch_by_version,
            final(self).state_db.ledger_db.overall_commit_progress == old(
                self,
            ).state_db.ledger_db.overall_commit_progress,
            final(self).state_db.ledger_db.ledger_commit_progress == old(
                self,
            ).state_db.ledger_db.ledger_commit_progress,
            final(self).state_db.state_kv_db == old(self).state_db.state_kv_db,
            final(self).state_db.state_merkle_db == old(self).state_db.state_merkle_db,
            final(self).buffered_state == old(self).buffered_state,
            final(self).buffered_state_target_items == old(self).buffered_state_target_items,
    {
        self.state_db.ledger_db.put_version_data(version, usage);
    }

    /// The progress of the restore session for `version`, if it has made
    /// any.
    pub fn get_progress(&self, version: Version) -> (progress: Option<StateSnapshotProgress>)
        ensures
            progress == self.session_view(version).progress,
    {
        self.state_db.state_kv_db.get_progress(version)
    }

    /// A session that restores the snapshot at `version`.
    pub fn get_snapshot_receiver(&self, version: Version, expected_root_hash: HashValue) -> (receiver:
        StateSnapshotRestore)
        ensures
            receiver == (StateSnapshotRestore { version, expected_root_hash }),
    {
        StateSnapshotRestore { version, expected_root_hash }
    }
}

impl StateSnapshotRestore {
    /// Takes a chunk in. The proof of the chunk is the tree's to check; what
    /// is decided here is whether the chunk is sound and which of its values
    /// are new to the session.
    ///
    /// On an error the stores are as before.
    pub fn add_chunk(&self, db: &mut StateStore, chunk: StateValueChunkWithProof) -> (added: Result<
        (),
        StateStoreError,
    >)
        ensures
            final(db).state_db.ledger_db == old(db).state_db.ledger_db,
            final(db).state_db.state_merkle_db == old(db).state_db.state_merkle_db,
            final(db).buffered_state == old(db).buffered_state,
            final(db).buffered_state_target_items == old(db).buffered_state_target_items,
            final(db).state_db.state_kv_db.stale_index == old(db).state_db.state_kv_db.stale_index,
            final(db).state_db.state_kv_db.commit_progress == old(
                db,
            ).state_db.state_kv_db.commit_progress,
            match after_chunk(
                old(db).session_view(self.version),
                self.version,
                chunk.applied_part(),
            ) {
                Ok(after) => {
                    &&& added.is_ok()
                    &&& final(db).state_db.state_kv_db.history() == after.history
                    &&& final(db).state_db.state_kv_db.restore_records() == match after.progress {
                        Some(progress) => old(db).state_db.state_kv_db.restore_records().insert(
                            self.version,
                            progress,
                        ),
                        None => old(db).state_db.state_kv_db.restore_records(),
                    }
                },
                Err(error) => added == Err::<(), StateStoreError>(error) && *final(db) == *old(db),
            },
    {
        let progress = db.get_progress(self.version);
        let len = chunk.raw_values.len();
        if len == 0 || chunk.last_index < chunk.first_index || chunk.last_index - chunk.first_index
            != (len - 1) as u64 || !keys_are_distinct(&chunk.raw_values) {
            return Err(StateStoreError::ChunkMalformed);
        }
        let skip: usize = match progress {
            None => {
                if chunk.first_index > 0 {
                    return Err(StateStoreError::ChunkOutOfOrder { expected_first_index: 0 });
                }
                0
            },
            Some(progress) => {
                if progress.last_index >= chunk.last_index {
                    len
                } else if progress.last_index < chunk.first_index {
                    if chunk.first_index - progress.last_index > 1 {
                        return Err(
                            StateStoreError::ChunkOutOfOrder {
                                expected_first_index: progress.last_index + 1,
                            },
                        );
                    }
                    0
                } else {
                    (progress.last_index - chunk.first_index + 1) as usize
                }
            },
        };
        let ghost before = db.session_view(self.version);
        let ghost view = chunk.applied_part();
        let ghost fresh = fresh_items(before.progress, view);
        proof {
            assert(skip == applied_already(before.progress, view.first_index, view.items.len()));
        }
        if skip == len {
            proof {
                if before.progress.is_some() {
                    assert(db.state_db.state_kv_db.restore_records().insert(
                        self.version,
                        before.progress.unwrap(),
                    ) =~= db.state_db.state_kv_db.restore_records());
                }
            }
            return Ok(());
        }
        let mut usage = match progress {
            Some(progress) => progress.usage,
            None => StateStorageUsage::zero(),
        };
        let mut batch: Vec<StateValueEntry> = Vec::new();
        let mut i: usize = skip;
        proof {
            assert(fresh.take(0) =~= Seq::<ItemView>::empty());
        }
        while i < len
            invariant
                skip <= i <= len,
                skip < len,
                len == chunk.raw_values@.len(),
                *db == *old(db),
                before == old(db).session_view(self.version),
                view == chunk.applied_part(),
                chunk_fault(before.progress, view.first_index, view.last_index, view.items).is_none(),
                fresh == fresh_items(before.progress, view),
                fresh == item_views(chunk.raw_values@).skip(skip as int),
                usage_with_items(usage_so_far(before.progress), fresh.take(i - skip)) == Some(usage),
                entries_write_items(batch@, self.version, fresh.take(i - skip)),
            decreases len - i,
        {
            let key = &chunk.raw_values[i].0;
            let value = &chunk.raw_values[i].1;
            proof {
                assert(fresh.take(i - skip + 1).drop_last() =~= fresh.take(i - skip));
                assert(fresh.take(i - skip + 1).last() == (key@, value@));
            }
            let counted = match key.size().checked_add(value.size()) {
                Some(size) => usage.add_item(size),
                None => usage.is_untracked(),
            };
            if !counted {
                proof {
                    lemma_usage_with_items_fails_for_good(
                        usage_so_far(before.progress),
                        fresh,
                        i - skip + 1,
                    );
                }
                return Err(StateStoreError::UsageOutOfRange);
            }
            batch.push(
                StateValueEntry { key: key.clone(), version: self.version, value: Some(value.clone()) },
            );
            i = i + 1;
        }
        proof {
            assert(fresh.take(len - skip) =~= fresh);
            lemma_entries_history(db.state_db.state_kv_db.entries@, batch@, self.version, fresh);
            assert forall|i: int, j: int| 0 <= i < j < batch@.len() implies (
                batch@[i].key@,
                batch@[i].version,
            ) != (batch@[j].key@, batch@[j].version) by {
                assert(fresh[i] == view.items[i + skip]);
                assert(fresh[j] == view.items[j + skip]);
            }
        }
        db.write_kv_batch(
            self.version,
            batch,
            StateSnapshotProgress::new(chunk.last_index, chunk.last_key, usage),
        );
        Ok(())
    }

    /// Closes the session once the tree has been rebuilt with the root
    /// `restored_root_hash`. Where that is the expected root and the session
    /// has made progress, the snapshot is on record at the session's version,
    /// with the expected root and as many leaves as the session counted
    /// items, and so are the counts of the usage. Nothing else changes.
    pub fn finish(&self, db: &mut StateStore, restored_root_hash: HashValue) -> (finished: Result<
        (),
        StateStoreError,
    >)
        ensures
            final(db).state_db.state_kv_db == old(db).state_db.state_kv_db,
            final(db).buffered_state == old(db).buffered_state,
            final(db).buffered_state_target_items == old(db).buffered_state_target_items,
            match old(db).session_view(self.version).progress {
                None => finished == Err::<(), StateStoreError>(StateStoreError::RestoreIncomplete)
                    && *final(db) == *old(db),
                Some(progress) => if restored_root_hash.bytes@ == self.expected_root_hash.bytes@ {
                    &&& finished.is_ok()
                    &&& final(db).state_db.state_merkle_db.committed() == old(
                        db,
                    ).state_db.state_merkle_db.committed().insert(
                        self.version,
                        StateSnapshot {
                            root_hash: self.expected_root_hash,
                            leaf_count: progress.usage.spec_items(),
                        },
                    )
                    &&& final(db).state_db.ledger_db.usage_records() == old(
                        db,
                    ).state_db.ledger_db.usage_records().insert(
                        self.version,
                        progress.usage.spec_counted(),
                    )
                    &&& final(db).state_db.ledger_db.epoch_by_version == old(
                        db,
                    ).state_db.ledger_db.epoch_by_version
                    &&& final(db).state_db.ledger_db.overall_commit_progress == old(
                        db,
                    ).state_db.ledger_db.overall_commit_progress
                    &&& final(db).state_db.ledger_db.ledger_commit_progress == old(
                        db,
                    ).state_db.ledger_db.ledger_commit_progress
                } else {
                    finished == Err::<(), StateStoreError>(StateStoreError::RootHashMismatch)
                        && *final(db) == *old(db)
                },
            },
    {
        let progress = match db.get_progress(self.version) {
            Some(progress) => progress,
            None => {
                return Err(StateStoreError::RestoreIncomplete);
            },
        };
        if !same_hash(&restored_root_hash, &self.expected_root_hash) {
            return Err(StateStoreError::RootHashMismatch);
        }
        db.state_db.state_merkle_db.commit(
            self.version,
            self.expected_root_hash,
            progress.usage.items(),
        );
        db.write_usage(self.version, progress.usage);
        Ok(())
    }
}

/// Tells whether two digests are the same.
pub fn same_hash(a: &HashValue, b: &HashValue) -> (same: bool)
    ensures
        same == (a.bytes@ == b.bytes@),
{
    let mut i: usize = 0;
    while i < 32
        invariant
            i <= 32,
            forall|j: int| 0 <= j < i ==> a.bytes@[j] == b.bytes@[j],
        decreases 32 - i,
    {
        if a.bytes[i] != b.bytes[i] {
            return false;
        }
        i = i + 1;
    }
    proof {
        assert(a.bytes@ =~= b.bytes@);
    }
    true
}

} // verus!
