//! What holds of every transfer of a snapshot in chunks: a snapshot that is
//! exported in chunks of any size and taken in again leaves the values that
//! were exported, each under its key at the snapshot's version.

use crate::error::StateStoreError;
use crate::state_kv_db::{is_latest_write, lemma_value_as_of_found, value_as_of, ValueHistory};
use crate::state_restore::{
    after_chunk, applied_already, chunk_fault, fresh_items, history_with_items, keys_distinct,
    next_index,
    usage_so_far, usage_with_items, ChunkView, ItemView, RestoreView,
};
use crate::types::{HashValue, StateSnapshotProgress, StateStorageUsage, Version};
use vstd::prelude::*;

verus! {

/// The chunks of at most `chunk_size` values each that carry `items`, the
/// values of the leaves from `first_index` on. `key_hashes` are the digests
/// of the keys of `items`.
pub open spec fn chunks_of(
    items: Seq<ItemView>,
    key_hashes: Seq<HashValue>,
    first_index: int,
    chunk_size: nat,
) -> Seq<ChunkView>
    decreases items.len(),
{
    if items.len() == 0 || chunk_size == 0 || key_hashes.len() != items.len() {
        Seq::empty()
    } else {
        let taken = if items.len() < chunk_size {
            items.len() as int
        } else {
            chunk_size as int
        };
        seq![
            ChunkView {
                first_index: first_index as u64,
                last_index: (first_index + taken - 1) as u64,
                last_key: key_hashes[taken - 1],
                items: items.take(taken),
            },
        ] + chunks_of(items.skip(taken), key_hashes.skip(taken), first_index + taken, chunk_size)
    }
}

/// What taking in a list of chunks, one after the other, comes to.
pub open spec fn after_chunks(
    before: RestoreView,
    version: Version,
    chunks: Seq<ChunkView>,
) -> Result<
    RestoreView,
    StateStoreError,
>
    decreases chunks.len(),
{
    if chunks.len() == 0 {
        Ok(before)
    } else {
        match after_chunk(before, version, chunks[0]) {
            Ok(after) => after_chunks(after, version, chunks.skip(1)),
            Err(error) => Err(error),
        }
    }
}

/// Counting two lists of items in, one after the other, is counting their
/// concatenation in.
pub proof fn lemma_usage_with_items_concat(
    usage: StateStorageUsage,
    head: Seq<ItemView>,
    tail: Seq<ItemView>,
)
    ensures
        usage_with_items(usage, head + tail) == match usage_with_items(usage, head) {
            Some(counted) => usage_with_items(counted, tail),
            None => None,
        },
    decreases tail.len(),
{
    if tail.len() == 0 {
        assert(head + tail =~= head);
    } else {
        lemma_usage_with_items_concat(usage, head, tail.drop_last());
        assert((head + tail).drop_last() =~= head + tail.drop_last());
        assert((head + tail).last() == tail.last());
    }
}

/// Writing two lists of items, one after the other, is writing their
/// concatenation.
pub proof fn lemma_history_with_items_concat(
    history: ValueHistory,
    version: Version,
    head: Seq<ItemView>,
    tail: Seq<ItemView>,
)
    ensures
        history_with_items(history, version, head + tail) == history_with_items(
            history_with_items(history, version, head),
            version,
            tail,
        ),
    decreases tail.len(),
{
    if tail.len() == 0 {
        assert(head + tail =~= head);
    } else {
        lemma_history_with_items_concat(history, version, head, tail.drop_last());
        assert((head + tail).drop_last() =~= head + tail.drop_last());
        assert((head + tail).last() == tail.last());
    }
}

/// Items written at a version, no two of them under one key, are read back
/// as of that version: each key gives its item's value.
pub proof fn lemma_restored_items_read_back(
    history: ValueHistory,
    version: Version,
    items: Seq<ItemView>,
    at: int,
)
    requires
        keys_distinct(items),
        0 <= at < items.len(),
    ensures
        value_as_of(history_with_items(history, version, items), items[at].0, version) == Some(
            (version, items[at].1),
        ),
    decreases items.len(),
{
    let restored = history_with_items(history, version, items);
    if at == items.len() - 1 {
        assert(is_latest_write(restored, items[at].0, version, version));
        lemma_value_as_of_found(restored, items[at].0, version, version);
    } else {
        assert(keys_distinct(items.drop_last()));
        lemma_restored_items_read_back(history, version, items.drop_last(), at);
        let before = history_with_items(history, version, items.drop_last());
        assert(items[at].0 != items.last().0);
        lemma_items_cover(history, version, items.drop_last(), at);
        assert(is_latest_write(restored, items[at].0, version, version));
        lemma_value_as_of_found(restored, items[at].0, version, version);
        assert(restored[(items[at].0, version)] == before[(items[at].0, version)]);
        lemma_items_value(history, version, items.drop_last(), at);
    }
}

/// Every item written at a version is in the history at that version.
pub proof fn lemma_items_cover(
    history: ValueHistory,
    version: Version,
    items: Seq<ItemView>,
    at: int,
)
    requires
        0 <= at < items.len(),
    ensures
        history_with_items(history, version, items).dom().contains((items[at].0, version)),
    decreases items.len(),
{
    if at < items.len() - 1 {
        lemma_items_cover(history, version, items.drop_last(), at);
    }
}

/// An item written at a version, under a key that no other item shares, is
/// what the history holds there.
pub proof fn lemma_items_value(
    history: ValueHistory,
    version: Version,
    items: Seq<ItemView>,
    at: int,
)
    requires
        keys_distinct(items),
        0 <= at < items.len(),
    ensures
        history_with_items(history, version, items)[(items[at].0, version)] == Some(items[at].1),
    decreases items.len(),
{
    if at < items.len() - 1 {
        assert(keys_distinct(items.drop_last()));
        lemma_items_value(history, version, items.drop_last(), at);
        assert(items[at].0 != items.last().0);
    }
}

/// A snapshot, no two of its values under one key, exported in chunks of any
/// size and taken in by a session that stands at the first of them comes out as the exported values written at
/// the session's version, counted into the usage, with the progress at the
/// last leaf.
pub proof fn lemma_chunks_restore_what_was_exported(
    before: RestoreView,
    version: Version,
    items: Seq<ItemView>,
    key_hashes: Seq<HashValue>,
    first_index: int,
    chunk_size: nat,
)
    requires
        items.len() > 0,
        chunk_size > 0,
        key_hashes.len() == items.len(),
        keys_distinct(items),
        next_index(before.progress) == first_index,
        first_index + items.len() - 1 <= u64::MAX,
        usage_with_items(usage_so_far(before.progress), items).is_some(),
    ensures
        after_chunks(before, version, chunks_of(items, key_hashes, first_index, chunk_size)) == Ok::<
            RestoreView,
            StateStoreError,
        >(
            RestoreView {
                history: history_with_items(before.history, version, items),
                progress: Some(
                    StateSnapshotProgress {
                        last_index: (first_index + items.len() - 1) as u64,
                        key_hash: key_hashes.last(),
                        usage: usage_with_items(usage_so_far(before.progress), items).unwrap(),
                    },
                ),
            },
        ),
    decreases items.len(),
{
    let taken = if items.len() < chunk_size {
        items.len() as int
    } else {
        chunk_size as int
    };
    let chunk = ChunkView {
        first_index: first_index as u64,
        last_index: (first_index + taken - 1) as u64,
        last_key: key_hashes[taken - 1],
        items: items.take(taken),
    };
    let chunks = chunks_of(items, key_hashes, first_index, chunk_size);
    let rest = chunks_of(items.skip(taken), key_hashes.skip(taken), first_index + taken, chunk_size);
    assert(chunks[0] == chunk);
    assert(chunks.skip(1) =~= rest);
    assert(items.take(taken) + items.skip(taken) =~= items);
    lemma_usage_with_items_concat(usage_so_far(before.progress), items.take(taken), items.skip(taken));
    lemma_history_with_items_concat(before.history, version, items.take(taken), items.skip(taken));
    assert(keys_distinct(chunk.items)) by {
        assert forall|i: int, j: int| 0 <= i < j < chunk.items.len() implies chunk.items[i].0
            != chunk.items[j].0 by {
            assert(chunk.items[i] == items[i] && chunk.items[j] == items[j]);
        }
    }
    assert(chunk_fault(before.progress, chunk.first_index, chunk.last_index, chunk.items).is_none());
    assert(applied_already(before.progress, chunk.first_index, chunk.items.len()) == 0);
    assert(fresh_items(before.progress, chunk) =~= chunk.items);
    let counted = usage_with_items(usage_so_far(before.progress), items.take(taken)).unwrap();
    let after = RestoreView {
        history: history_with_items(before.history, version, items.take(taken)),
        progress: Some(
            StateSnapshotProgress {
                last_index: chunk.last_index,
                key_hash: chunk.last_key,
                usage: counted,
            },
        ),
    };
    assert(after_chunk(before, version, chunk) == Ok::<RestoreView, StateStoreError>(after));
    assert(after_chunks(before, version, chunks) == after_chunks(after, version, rest));
    if items.len() == taken {
        assert(items.skip(taken) =~= Seq::<ItemView>::empty());
        assert(items.take(taken) =~= items);
        assert(rest =~= Seq::<ChunkView>::empty());
        assert(key_hashes[taken - 1] == key_hashes.last());
        assert(after_chunks(after, version, rest) == Ok::<RestoreView, StateStoreError>(after));
    } else {
        assert forall|i: int, j: int| 0 <= i < j < items.skip(taken).len() implies items.skip(
            taken,
        )[i].0 != items.skip(taken)[j].0 by {
            assert(items.skip(taken)[i] == items[i + taken]);
            assert(items.skip(taken)[j] == items[j + taken]);
        }
        lemma_chunks_restore_what_was_exported(
            after,
            version,
            items.skip(taken),
            key_hashes.skip(taken),
            first_index + taken,
            chunk_size,
        );
        assert(key_hashes.skip(taken).last() == key_hashes.last());
    }
}

} // verus!
