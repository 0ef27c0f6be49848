//! Reclaiming the raw store. A write that went stale at or before a version
//! is of no use to a read as of that version or later: the pruner deletes it,
//! and the stale-index record that named it.

use crate::state_kv_db::{
    history_of, is_latest_write, lemma_value_as_of_found, stale_views, value_as_of, StateKvDb,
    StateValueEntry, ValueHistory,
};
use crate::types::{value_view, StaleIndexView, StaleStateValueIndex, StateKey, Version};
use vstd::prelude::*;

verus! {

/// Whether a record that is stale since `target_version` or before names the
/// write at `at`.
pub open spec fn due(
    stale: Seq<StaleIndexView>,
    target_version: Version,
    at: (Seq<u8>, Version),
) -> bool {
    exists|i: int|
        0 <= i < stale.len() && (#[trigger] stale[i]).stale_since_version <= target_version
            && stale[i].state_key == at.0 && stale[i].version == at.1
}

/// The history without the writes that the records due at `target_version`
/// name.
pub open spec fn history_pruned(
    history: ValueHistory,
    stale: Seq<StaleIndexView>,
    target_version: Version,
) -> ValueHistory {
    Map::new(
        |at: (Seq<u8>, Version)| history.dom().contains(at) && !due(stale, target_version, at),
        |at: (Seq<u8>, Version)| history[at],
    )
}

/// The records that are stale only since after `target_version`, in their
/// order.
pub open spec fn stale_after(records: Seq<StaleIndexView>, target_version: Version) -> Seq<
    StaleIndexView,
>
    decreases records.len(),
{
    if records.len() == 0 {
        Seq::empty()
    } else if records.last().stale_since_version > target_version {
        stale_after(records.drop_last(), target_version).push(records.last())
    } else {
        stale_after(records.drop_last(), target_version)
    }
}

/// Tells whether a record due at `target_version` names the write to `key`
/// at `version`.
fn is_due(
    stale_index: &Vec<StaleStateValueIndex>,
    target_version: Version,
    key: &StateKey,
    version: Version,
) -> (found: bool)
    ensures
        found == due(stale_views(stale_index@), target_version, (key@, version)),
{
    let ghost records = stale_views(stale_index@);
    let mut i: usize = 0;
    while i < stale_index.len()
        invariant
            i <= stale_index@.len(),
            records == stale_views(stale_index@),
            forall|j: int|
                0 <= j < i ==> !((#[trigger] records[j]).stale_since_version <= target_version
                    && records[j].state_key == key@ && records[j].version == version),
        decreases stale_index@.len() - i,
    {
        let record = &stale_index[i];
        if record.stale_since_version <= target_version && record.version == version
            && record.state_key.same_key(key) {
            proof {
                assert(records[i as int] == record@);
            }
            return true;
        }
        proof {
            assert(records[i as int] == record@);
        }
        i = i + 1;
    }
    false
}

impl StateKvDb {
    /// Deletes every write that a record stale since `target_version` or
    /// before names, and those records. Where the index is consistent, it
    /// stays so, and every read as of `target_version` or later gives what
    /// it gave before.
    pub fn prune(&mut self, target_version: Version)
        ensures
            final(self).history() == history_pruned(
                old(self).history(),
                old(self).stale_records(),
                target_version,
            ),
            final(self).stale_records() == stale_after(old(self).stale_records(), target_version),
            final(self).commit_progress == old(self).commit_progress,
            final(self).restore_progress == old(self).restore_progress,
            index_consistent(old(self).history(), old(self).stale_records()) ==> {
                &&& index_consistent(final(self).history(), final(self).stale_records())
                &&& forall|key: Seq<u8>, version: Version|
                    target_version <= version ==> #[trigger] value_as_of(
                        final(self).history(),
                        key,
                        version,
                    ) == value_as_of(old(self).history(), key, version)
            },
    {
        let ghost records = self.stale_records();
        proof {
            if index_consistent(self.history(), records) {
                lemma_prune_keeps_index(self.history(), records, target_version);
                assert forall|key: Seq<u8>, version: Version|
                    target_version <= version implies #[trigger] value_as_of(
                    history_pruned(self.history(), records, target_version),
                    key,
                    version,
                ) == value_as_of(self.history(), key, version) by {
                    lemma_prune_keeps_reads(self.history(), records, target_version, key, version);
                }
            }
        }
        let mut kept: Vec<StateValueEntry> = Vec::new();
        let mut i: usize = 0;
        proof {
            assert(history_of(kept@) =~= history_pruned(
                history_of(self.entries@.subrange(0, 0)),
                records,
                target_version,
            ));
        }
        while i < self.entries.len()
            invariant
                i <= self.entries@.len(),
                records == stale_views(self.stale_index@),
                history_of(kept@) == history_pruned(
                    history_of(self.entries@.subrange(0, i as int)),
                    records,
                    target_version,
                ),
            decreases self.entries@.len() - i,
        {
            let ghost kept_before = kept@;
            proof {
                let next = self.entries@.subrange(0, i + 1);
                assert(next.drop_last() =~= self.entries@.subrange(0, i as int));
                assert(history_of(next) == history_of(self.entries@.subrange(0, i as int)).insert(
                    (next.last().key@, next.last().version),
                    value_view(next.last().value),
                ));
            }
            let entry = &self.entries[i];
            if !is_due(&self.stale_index, target_version, &entry.key, entry.version) {
                kept.push(entry.clone());
                proof {
                    assert(kept@.drop_last() =~= kept_before);
                }
            }
            proof {
                assert(history_of(kept@) =~= history_pruned(
                    history_of(self.entries@.subrange(0, i + 1)),
                    records,
                    target_version,
                ));
            }
            i = i + 1;
        }
        let mut kept_stale: Vec<StaleStateValueIndex> = Vec::new();
        let mut j: usize = 0;
        proof {
            assert(self.entries@.subrange(0, self.entries@.len() as int) =~= self.entries@);
            assert(stale_views(self.stale_index@.subrange(0, 0)) =~= Seq::<StaleIndexView>::empty());
            assert(stale_views(kept_stale@) =~= Seq::<StaleIndexView>::empty());
        }
        while j < self.stale_index.len()
            invariant
                j <= self.stale_index@.len(),
                stale_views(kept_stale@) == stale_after(
                    stale_views(self.stale_index@.subrange(0, j as int)),
                    target_version,
                ),
            decreases self.stale_index@.len() - j,
        {
            let ghost kept_before = kept_stale@;
            proof {
                let next = stale_views(self.stale_index@.subrange(0, j + 1));
                assert(next.drop_last() =~= stale_views(self.stale_index@.subrange(0, j as int)));
                assert(next.last() == self.stale_index@[j as int]@);
            }
            if self.stale_index[j].stale_since_version > target_version {
                let record = &self.stale_index[j];
                kept_stale.push(
                    StaleStateValueIndex {
                        stale_since_version: record.stale_since_version,
                        version: record.version,
                        state_key: record.state_key.clone(),
                    },
                );
                proof {
                    assert(stale_views(kept_stale@) =~= stale_views(kept_before).push(
                        self.stale_index@[j as int]@,
                    ));
                }
            }
            j = j + 1;
        }
        proof {
            assert(self.stale_index@.subrange(0, self.stale_index@.len() as int)
                =~= self.stale_index@);
        }
        self.entries = kept;
        self.stale_index = kept_stale;
    }
}

/// `next` is the version of the first write to `key` after `version`.
pub open spec fn is_next_write(
    history: ValueHistory,
    key: Seq<u8>,
    version: Version,
    next: Version,
) -> bool {
    &&& version < next
    &&& history.dom().contains((key, next))
    &&& forall|between: Version|
        version < between < next ==> !history.dom().contains((key, between))
}

/// Whether the index holds the record `record`.
pub open spec fn has_record(stale: Seq<StaleIndexView>, record: StaleIndexView) -> bool {
    exists|i: int| 0 <= i < stale.len() && #[trigger] stale[i] == record
}

/// Every record names a write that is there and is stale: a tombstone,
/// stale since its own version, or a live value, stale since the next write
/// to its key.
pub open spec fn index_sound(history: ValueHistory, stale: Seq<StaleIndexView>) -> bool {
    forall|i: int|
        0 <= i < stale.len() ==> {
            let record = #[trigger] stale[i];
            &&& history.dom().contains((record.state_key, record.version))
            &&& if record.stale_since_version == record.version {
                history[(record.state_key, record.version)].is_none()
            } else {
                &&& history[(record.state_key, record.version)].is_some()
                &&& is_next_write(
                    history,
                    record.state_key,
                    record.version,
                    record.stale_since_version,
                )
            }
        }
}

/// Every stale write has its record: each tombstone, and each live value
/// that a later write to its key follows.
pub open spec fn index_complete(history: ValueHistory, stale: Seq<StaleIndexView>) -> bool {
    forall|key: Seq<u8>, version: Version| #[trigger]
        history.dom().contains((key, version)) ==> {
            &&& history[(key, version)].is_none() ==> has_record(
                stale,
                StaleIndexView { stale_since_version: version, version, state_key: key },
            )
            &&& history[(key, version)].is_some() ==> forall|next: Version|
                is_next_write(history, key, version, next) ==> has_record(
                    stale,
                    StaleIndexView { stale_since_version: next, version, state_key: key },
                )
        }
}

/// Whether the index names the stale writes of the history, all of them and
/// no others.
pub open spec fn index_consistent(history: ValueHistory, stale: Seq<StaleIndexView>) -> bool {
    index_sound(history, stale) && index_complete(history, stale)
}

/// Where a key is written after `version`, at `later` or before, there is a
/// first such write.
pub proof fn lemma_next_write_exists(
    history: ValueHistory,
    key: Seq<u8>,
    version: Version,
    later: Version,
)
    requires
        version < later,
        history.dom().contains((key, later)),
    ensures
        exists|next: Version| next <= later && is_next_write(history, key, version, next),
    decreases later - version,
{
    if exists|between: Version| version < between < later && history.dom().contains((key, between)) {
        let between = choose|between: Version|
            version < between < later && history.dom().contains((key, between));
        lemma_next_write_exists(history, key, version, between);
        let next = choose|next: Version|
            next <= between && is_next_write(history, key, version, next);
        assert(next <= later && is_next_write(history, key, version, next));
    } else {
        assert(is_next_write(history, key, version, later));
    }
}

/// Pruning up to a version changes no read as of that version or later,
/// where the index is sound and complete: what the pruner deletes, no such
/// read would have given.
pub proof fn lemma_prune_keeps_reads(
    history: ValueHistory,
    stale: Seq<StaleIndexView>,
    target_version: Version,
    key: Seq<u8>,
    version: Version,
)
    requires
        index_consistent(history, stale),
        target_version <= version,
    ensures
        value_as_of(history_pruned(history, stale, target_version), key, version) == value_as_of(
            history,
            key,
            version,
        ),
{
    let pruned = history_pruned(history, stale, target_version);
    if exists|found: Version| is_latest_write(history, key, version, found) {
        let found = choose|found: Version| is_latest_write(history, key, version, found);
        lemma_value_as_of_found(history, key, version, found);
        if due(stale, target_version, (key, found)) {
            let i = choose|i: int|
                0 <= i < stale.len() && (#[trigger] stale[i]).stale_since_version <= target_version
                    && stale[i].state_key == key && stale[i].version == found;
            let record = stale[i];
            if record.stale_since_version != found {
                assert(is_next_write(history, key, found, record.stale_since_version));
                assert(history.dom().contains((key, record.stale_since_version)));
                assert(false);
            }
            assert(history[(key, found)].is_none());
            // Nothing is left of the key at or before the tombstone.
            if exists|left: Version| is_latest_write(pruned, key, version, left) {
                let left = choose|left: Version| is_latest_write(pruned, key, version, left);
                assert(pruned.dom().contains((key, left)));
                assert(history.dom().contains((key, left)));
                assert(left < found) by {
                    if left > found {
                        assert(!history.dom().contains((key, left)));
                    }
                }
                if history[(key, left)].is_none() {
                    let own = StaleIndexView {
                        stale_since_version: left,
                        version: left,
                        state_key: key,
                    };
                    assert(has_record(stale, own));
                    let j = choose|j: int| 0 <= j < stale.len() && #[trigger] stale[j] == own;
                    assert(stale[j].stale_since_version <= target_version);
                    assert(due(stale, target_version, (key, left)));
                } else {
                    lemma_next_write_exists(history, key, left, found);
                    let next = choose|next: Version|
                        next <= found && is_next_write(history, key, left, next);
                    let replaced = StaleIndexView {
                        stale_since_version: next,
                        version: left,
                        state_key: key,
                    };
                    assert(has_record(stale, replaced));
                    let j = choose|j: int| 0 <= j < stale.len() && #[trigger] stale[j] == replaced;
                    assert(stale[j].stale_since_version <= target_version);
                    assert(due(stale, target_version, (key, left)));
                }
                assert(false);
            }
        } else {
            assert(pruned.dom().contains((key, found)));
            assert(is_latest_write(pruned, key, version, found));
            lemma_value_as_of_found(pruned, key, version, found);
        }
    } else {
        assert forall|left: Version| !is_latest_write(pruned, key, version, left) by {
            if is_latest_write(pruned, key, version, left) {
                assert(history.dom().contains((key, left)));
                lemma_latest_exists(history, key, version, left);
            }
        }
    }
}

/// Where a key is written at or before a version, there is a latest such
/// write.
pub proof fn lemma_latest_exists(
    history: ValueHistory,
    key: Seq<u8>,
    version: Version,
    written: Version,
)
    requires
        written <= version,
        history.dom().contains((key, written)),
    ensures
        exists|found: Version| is_latest_write(history, key, version, found),
    decreases version - written,
{
    if exists|later: Version| written < later <= version && history.dom().contains((key, later)) {
        let later = choose|later: Version|
            written < later <= version && history.dom().contains((key, later));
        lemma_latest_exists(history, key, version, later);
    } else {
        assert(is_latest_write(history, key, version, written));
    }
}

/// Pruning keeps the stale index consistent: what is left of the index names
/// the stale writes of what is left of the store.
pub proof fn lemma_prune_keeps_index(
    history: ValueHistory,
    stale: Seq<StaleIndexView>,
    target_version: Version,
)
    requires
        index_consistent(history, stale),
    ensures
        index_consistent(
            history_pruned(history, stale, target_version),
            stale_after(stale, target_version),
        ),
{
    let pruned = history_pruned(history, stale, target_version);
    let left = stale_after(stale, target_version);
    lemma_stale_after(stale, target_version);
    // No record's stale-since version is before the version of its write.
    assert forall|i: int| 0 <= i < stale.len() implies (#[trigger] stale[i]).stale_since_version
        >= stale[i].version by {}
    // A record that is left names a write that is left.
    assert forall|i: int| 0 <= i < left.len() implies !due(
        stale,
        target_version,
        ((#[trigger] left[i]).state_key, left[i].version),
    ) by {
        let record = left[i];
        assert(has_record(stale, record));
        let at = choose|at: int| 0 <= at < stale.len() && #[trigger] stale[at] == record;
        if due(stale, target_version, (record.state_key, record.version)) {
            let j = choose|j: int|
                0 <= j < stale.len() && (#[trigger] stale[j]).stale_since_version <= target_version
                    && stale[j].state_key == record.state_key && stale[j].version == record.version;
            lemma_one_record_per_write(history, stale, at, j);
        }
    }
    assert forall|i: int| 0 <= i < left.len() implies ({
        let record = #[trigger] left[i];
        &&& pruned.dom().contains((record.state_key, record.version))
        &&& if record.stale_since_version == record.version {
            pruned[(record.state_key, record.version)].is_none()
        } else {
            &&& pruned[(record.state_key, record.version)].is_some()
            &&& is_next_write(pruned, record.state_key, record.version, record.stale_since_version)
        }
    }) by {
        let record = left[i];
        assert(has_record(stale, record));
        let at = choose|at: int| 0 <= at < stale.len() && #[trigger] stale[at] == record;
        assert(!due(stale, target_version, (record.state_key, record.version)));
        if record.stale_since_version != record.version {
            assert(is_next_write(
                history,
                record.state_key,
                record.version,
                record.stale_since_version,
            ));
            if due(stale, target_version, (record.state_key, record.stale_since_version)) {
                let j = choose|j: int|
                    0 <= j < stale.len() && (#[trigger] stale[j]).stale_since_version
                        <= target_version && stale[j].state_key == record.state_key
                        && stale[j].version == record.stale_since_version;
                assert(stale[j].stale_since_version >= stale[j].version);
            }
        }
    }
    assert forall|key: Seq<u8>, version: Version| #[trigger]
        pruned.dom().contains((key, version)) implies ({
        &&& pruned[(key, version)].is_none() ==> has_record(
            left,
            StaleIndexView { stale_since_version: version, version, state_key: key },
        )
        &&& pruned[(key, version)].is_some() ==> forall|next: Version|
            is_next_write(pruned, key, version, next) ==> has_record(
                left,
                StaleIndexView { stale_since_version: next, version, state_key: key },
            )
    }) by {
        assert(history.dom().contains((key, version)));
        assert(!due(stale, target_version, (key, version)));
        if history[(key, version)].is_none() {
            let own = StaleIndexView { stale_since_version: version, version, state_key: key };
            assert(has_record(stale, own));
            let j = choose|j: int| 0 <= j < stale.len() && #[trigger] stale[j] == own;
            assert(stale[j].stale_since_version > target_version);
        } else {
            assert forall|next: Version| is_next_write(pruned, key, version, next) implies has_record(
                left,
                StaleIndexView { stale_since_version: next, version, state_key: key },
            ) by {
                assert(history.dom().contains((key, next)));
                lemma_next_write_exists(history, key, version, next);
                let first = choose|first: Version|
                    first <= next && is_next_write(history, key, version, first);
                let replaced = StaleIndexView {
                    stale_since_version: first,
                    version,
                    state_key: key,
                };
                assert(has_record(stale, replaced));
                let j = choose|j: int| 0 <= j < stale.len() && #[trigger] stale[j] == replaced;
                assert(stale[j].stale_since_version > target_version);
                if first < next {
                    // The first write after this one is left too.
                    if due(stale, target_version, (key, first)) {
                        let k = choose|k: int|
                            0 <= k < stale.len() && (#[trigger] stale[k]).stale_since_version
                                <= target_version && stale[k].state_key == key && stale[k].version
                                == first;
                        assert(stale[k].stale_since_version >= stale[k].version);
                    }
                    assert(pruned.dom().contains((key, first)));
                }
            }
        }
    }
}

/// What is left of the records after pruning are the records stale since
/// after the target, and each is a record of the index.
pub proof fn lemma_stale_after(stale: Seq<StaleIndexView>, target_version: Version)
    ensures
        forall|i: int|
            0 <= i < stale_after(stale, target_version).len() ==> (#[trigger] stale_after(
                stale,
                target_version,
            )[i]).stale_since_version > target_version && has_record(
                stale,
                stale_after(stale, target_version)[i],
            ),
        forall|record: StaleIndexView|
            has_record(stale, record) && record.stale_since_version > target_version
                ==> has_record(stale_after(stale, target_version), record),
    decreases stale.len(),
{
    let left = stale_after(stale, target_version);
    if stale.len() > 0 {
        let before = stale.drop_last();
        let left_before = stale_after(before, target_version);
        lemma_stale_after(before, target_version);
        assert forall|i: int| 0 <= i < left.len() implies (#[trigger] left[i]).stale_since_version
            > target_version && has_record(stale, left[i]) by {
            if i < left_before.len() {
                assert(left[i] == left_before[i]);
                assert(has_record(before, left_before[i]));
                let at = choose|at: int| 0 <= at < before.len() && #[trigger] before[at] == left[i];
                assert(stale[at] == left[i]);
            } else {
                assert(left[i] == stale.last());
                assert(stale[stale.len() - 1] == left[i]);
            }
        }
        assert forall|record: StaleIndexView|
            has_record(stale, record) && record.stale_since_version
                > target_version implies has_record(left, record) by {
            let at = choose|at: int| 0 <= at < stale.len() && #[trigger] stale[at] == record;
            if at < before.len() {
                assert(before[at] == record);
                assert(has_record(before, record));
                let j = choose|j: int| 0 <= j < left_before.len() && #[trigger] left_before[j] == record;
                assert(left[j] == record);
            } else {
                assert(left[left.len() - 1] == record);
            }
        }
    }
}

/// Two records of a sound index that name one write are stale since the
/// same version.
pub proof fn lemma_one_record_per_write(
    history: ValueHistory,
    stale: Seq<StaleIndexView>,
    i: int,
    j: int,
)
    requires
        index_sound(history, stale),
        0 <= i < stale.len(),
        0 <= j < stale.len(),
        stale[i].state_key == stale[j].state_key,
        stale[i].version == stale[j].version,
    ensures
        stale[i].stale_since_version == stale[j].stale_since_version,
{
    let a = stale[i];
    let b = stale[j];
    if a.stale_since_version != a.version && b.stale_since_version != b.version {
        assert(is_next_write(history, a.state_key, a.version, a.stale_since_version));
        assert(is_next_write(history, b.state_key, b.version, b.stale_since_version));
        if a.stale_since_version < b.stale_since_version {
            assert(!history.dom().contains((a.state_key, a.stale_since_version)));
        } else if b.stale_since_version < a.stale_since_version {
            assert(!history.dom().contains((b.state_key, b.stale_since_version)));
        }
    }
}

} // verus!
