//! The versioned raw store: `(key, version) -> value or tombstone`, read "as
//! of" a version, with a secondary index of the writes that went stale.

use crate::index_laws::lemma_truncate_keeps_index;
use crate::state_kv_pruner::index_consistent;
use crate::types::{
    clone_value, value_view, StaleIndexView, StaleStateValueIndex, StateKey, StateSnapshotProgress,
    StateValue, Version,
};
use crate::version_table::VersionTable;
use vstd::prelude::*;

verus! {

/// What the raw store holds, as a map from key and version to the value
/// written there (`None`: a tombstone).
pub type ValueHistory = Map<(Seq<u8>, Version), Option<Seq<u8>>>;

/// One write: the value of `key` from `version` on (`None`: deleted).
#[derive(Debug, PartialEq, Eq)]
pub struct StateValueEntry {
    pub key: StateKey,
    pub version: Version,
    pub value: Option<StateValue>,
}

impl Clone for StateValueEntry {
    fn clone(&self) -> (copy: Self)
        ensures
            copy.key@ == self.key@,
            copy.key.shard_id == self.key.shard_id,
            copy.version == self.version,
            value_view(copy.value) == value_view(self.value),
    {
        StateValueEntry {
            key: self.key.clone(),
            version: self.version,
            value: clone_value(&self.value),
        }
    }
}

/// The history that a sequence of writes leaves: a later write to the same
/// key and version replaces an earlier one.
pub open spec fn history_of(entries: Seq<StateValueEntry>) -> ValueHistory
    decreases entries.len(),
{
    if entries.len() == 0 {
        Map::empty()
    } else {
        let last = entries.last();
        history_of(entries.drop_last()).insert((last.key@, last.version), value_view(last.value))
    }
}

/// `found` is the version of the latest write to `key` at or before `version`.
pub open spec fn is_latest_write(
    history: ValueHistory,
    key: Seq<u8>,
    version: Version,
    found: Version,
) -> bool {
    &&& found <= version
    &&& history.dom().contains((key, found))
    &&& forall|w: Version| found < w <= version ==> !history.dom().contains((key, w))
}

/// The latest write to `key` at or before `version`, with the version it was
/// made at: `None` where the key was never written by then, or where that
/// write is a tombstone.
pub open spec fn value_as_of(history: ValueHistory, key: Seq<u8>, version: Version) -> Option<
    (Version, Seq<u8>),
> {
    if exists|found: Version| is_latest_write(history, key, version, found) {
        let found = choose|found: Version| is_latest_write(history, key, version, found);
        match history[(key, found)] {
            Some(value) => Some((found, value)),
            None => None,
        }
    } else {
        None
    }
}

/// The latest write to a key before a version is one write: two versions that
/// both qualify are the same.
pub proof fn lemma_latest_write_unique(
    history: ValueHistory,
    key: Seq<u8>,
    version: Version,
    a: Version,
    b: Version,
)
    requires
        is_latest_write(history, key, version, a),
        is_latest_write(history, key, version, b),
    ensures
        a == b,
{
}

/// A read as of a version gives what the latest write to the key by then
/// wrote: where the key was written at `found` and not again up to
/// `version`, it gives the value written at `found`, or nothing where that
/// write was a deletion.
pub proof fn lemma_value_as_of_found(
    history: ValueHistory,
    key: Seq<u8>,
    version: Version,
    found: Version,
)
    requires
        is_latest_write(history, key, version, found),
    ensures
        value_as_of(history, key, version) == match history[(key, found)] {
            Some(value) => Some((found, value)),
            None => None,
        },
{
    let chosen = choose|f: Version| is_latest_write(history, key, version, f);
    lemma_latest_write_unique(history, key, version, chosen, found);
}

/// Where the key was not written by `version`, `value_as_of` reads nothing.
pub proof fn lemma_value_as_of_unwritten(history: ValueHistory, key: Seq<u8>, version: Version)
    requires
        forall|w: Version| w <= version ==> !history.dom().contains((key, w)),
    ensures
        value_as_of(history, key, version).is_none(),
{
}

/// The optional pair of a version and a value, as plain values.
pub open spec fn versioned_value_view(found: Option<(Version, StateValue)>) -> Option<
    (Version, Seq<u8>),
> {
    match found {
        Some((version, value)) => Some((version, value@)),
        None => None,
    }
}

/// The raw store: every write ever made, and the index of the stale ones.
pub struct StateKvDb {
    pub entries: Vec<StateValueEntry>,
    pub stale_index: Vec<StaleStateValueIndex>,
    /// The last version that the raw store has fully applied.
    pub commit_progress: Option<Version>,
    /// The progress of each restore session, by the version it restores.
    pub restore_progress: VersionTable<StateSnapshotProgress>,
}

/// What is to be written to the raw store in one piece.
pub struct StateKvSchemaBatch {
    pub values: Vec<StateValueEntry>,
    pub stale_indices: Vec<StaleStateValueIndex>,
}

/// The views of a list of stale-index records.
pub open spec fn stale_views(records: Seq<StaleStateValueIndex>) -> Seq<StaleIndexView> {
    records.map_values(|record: StaleStateValueIndex| record@)
}

/// The writes of a history at or before `version`.
pub open spec fn history_up_to(history: ValueHistory, version: Version) -> ValueHistory {
    Map::new(
        |at: (Seq<u8>, Version)| history.dom().contains(at) && at.1 <= version,
        |at: (Seq<u8>, Version)| history[at],
    )
}

/// The stale-index records of writes that went stale at or before `version`,
/// in their order.
pub open spec fn stale_up_to(records: Seq<StaleIndexView>, version: Version) -> Seq<StaleIndexView>
    decreases records.len(),
{
    if records.len() == 0 {
        Seq::empty()
    } else if records.last().stale_since_version <= version {
        stale_up_to(records.drop_last(), version).push(records.last())
    } else {
        stale_up_to(records.drop_last(), version)
    }
}

/// Writes made after others overlay them in the history.
pub proof fn lemma_history_concat(entries: Seq<StateValueEntry>, more: Seq<StateValueEntry>)
    ensures
        history_of(entries + more) == history_of(entries).union_prefer_right(history_of(more)),
    decreases more.len(),
{
    if more.len() == 0 {
        assert(entries + more =~= entries);
        assert(history_of(entries).union_prefer_right(history_of(more)) =~= history_of(entries));
    } else {
        lemma_history_concat(entries, more.drop_last());
        assert((entries + more).drop_last() =~= entries + more.drop_last());
        assert((entries + more).last() == more.last());
        assert(history_of(entries + more) =~= history_of(entries).union_prefer_right(
            history_of(more),
        ));
    }
}

impl StateKvSchemaBatch {
    /// The writes of the batch, as a history of their own.
    pub open spec fn history(&self) -> ValueHistory {
        history_of(self.values@)
    }

    /// The stale-index records of the batch, in order.
    pub open spec fn stale_records(&self) -> Seq<StaleIndexView> {
        stale_views(self.stale_indices@)
    }

    /// An empty batch.
    pub fn new() -> (batch: Self)
        ensures
            batch.values@ == Seq::<StateValueEntry>::empty(),
            batch.stale_indices@ == Seq::<StaleStateValueIndex>::empty(),
    {
        StateKvSchemaBatch { values: Vec::new(), stale_indices: Vec::new() }
    }
}

impl StateKvDb {
    /// The store's history of writes.
    pub open spec fn history(&self) -> ValueHistory {
        history_of(self.entries@)
    }

    /// The stale-index records, in the order they were put.
    pub open spec fn stale_records(&self) -> Seq<StaleIndexView> {
        stale_views(self.stale_index@)
    }

    /// The progress recorded for each restore session.
    pub open spec fn restore_records(&self) -> Map<Version, StateSnapshotProgress> {
        self.restore_progress.records()
    }

    /// An empty store.
    pub fn new() -> (db: Self)
        ensures
            db.history() == Map::<(Seq<u8>, Version), Option<Seq<u8>>>::empty(),
            db.stale_records() == Seq::<StaleIndexView>::empty(),
            db.commit_progress.is_none(),
            db.restore_records() == Map::<Version, StateSnapshotProgress>::empty(),
    {
        let db = StateKvDb {
            entries: Vec::new(),
            stale_index: Vec::new(),
            commit_progress: None,
            restore_progress: VersionTable::new(),
        };
        proof {
            assert(db.stale_records() =~= Seq::<StaleIndexView>::empty());
        }
        db
    }

    /// The latest value of `state_key` at or before `version`, with the
    /// version it was written at. The search stays within the writes to this
    /// very key.
    pub fn get_state_value_with_version_by_version(
        &self,
        state_key: &StateKey,
        version: Version,
    ) -> (found: Option<(Version, StateValue)>)
        ensures
            versioned_value_view(found) == value_as_of(self.history(), state_key@, version),
    {
        let ghost key = state_key@;
        let mut best: Option<usize> = None;
        let mut i: usize = 0;
        while i < self.entries.len()
            invariant
                i <= self.entries@.len(),
                key == state_key@,
                match best {
                    Some(at) => {
                        &&& at < i
                        &&& self.entries@[at as int].key@ == key
                        &&& is_latest_write(
                            history_of(self.entries@.subrange(0, i as int)),
                            key,
                            version,
                            self.entries@[at as int].version,
                        )
                        &&& history_of(self.entries@.subrange(0, i as int))[(
                            key,
                            self.entries@[at as int].version,
                        )] == value_view(self.entries@[at as int].value)
                    },
                    None => forall|w: Version|
                        w <= version ==> !history_of(
                            self.entries@.subrange(0, i as int),
                        ).dom().contains((key, w)),
                },
            decreases self.entries@.len() - i,
        {
            let entry = &self.entries[i];
            proof {
                let next = self.entries@.subrange(0, i + 1);
                assert(next.drop_last() =~= self.entries@.subrange(0, i as int));
                assert(next.last() == self.entries@[i as int]);
                assert(history_of(next) == history_of(self.entries@.subrange(0, i as int)).insert(
                    (entry.key@, entry.version),
                    value_view(entry.value),
                ));
            }
            if entry.version <= version && entry.key.same_key(state_key) {
                let newer = match best {
                    Some(at) => self.entries[at].version <= entry.version,
                    None => true,
                };
                if newer {
                    best = Some(i);
                }
            }
            i = i + 1;
        }
        proof {
            assert(self.entries@.subrange(0, self.entries@.len() as int) =~= self.entries@);
        }
        match best {
            Some(at) => {
                proof {
                    lemma_value_as_of_found(self.history(), key, version, self.entries@[at as int].version);
                }
                match &self.entries[at].value {
                    Some(value) => Some((self.entries[at].version, value.clone())),
                    None => None,
                }
            },
            None => {
                proof {
                    lemma_value_as_of_unwritten(self.history(), key, version);
                }
                None
            },
        }
    }

    /// The latest value of `state_key` at or before `version`.
    pub fn get_state_value_by_version(&self, state_key: &StateKey, version: Version) -> (value:
        Option<StateValue>)
        ensures
            value_view(value) == match value_as_of(self.history(), state_key@, version) {
                Some((_, value)) => Some(value),
                None => None,
            },
    {
        match self.get_state_value_with_version_by_version(state_key, version) {
            Some((_, value)) => Some(value),
            None => None,
        }
    }

    /// Records one write. A write already there for the same key and version
    /// is replaced.
    pub fn put_value(&mut self, key: StateKey, version: Version, value: Option<StateValue>)
        ensures
            final(self).history() == old(self).history().insert(
                (key@, version),
                value_view(value),
            ),
            final(self).stale_index == old(self).stale_index,
            final(self).commit_progress == old(self).commit_progress,
            final(self).restore_progress == old(self).restore_progress,
    {
        self.entries.push(StateValueEntry { key, version, value });
        proof {
            assert(final(self).entries@.drop_last() =~= old(self).entries@);
        }
    }

    /// Records that a write went stale.
    pub fn put_stale_index(&mut self, record: StaleStateValueIndex)
        ensures
            final(self).stale_records() == old(self).stale_records().push(record@),
            final(self).entries == old(self).entries,
            final(self).commit_progress == old(self).commit_progress,
            final(self).restore_progress == old(self).restore_progress,
    {
        self.stale_index.push(record);
        proof {
            assert(final(self).stale_records() =~= old(self).stale_records().push(record@));
        }
    }
    /// Writes a batch in one piece: its writes overlay the history, and its
    /// stale-index records follow those already there.
    pub fn commit(&mut self, batch: StateKvSchemaBatch)
        ensures
            final(self).history() == old(self).history().union_prefer_right(batch.history()),
            final(self).stale_records() == old(self).stale_records() + batch.stale_records(),
            final(self).commit_progress == old(self).commit_progress,
            final(self).restore_progress == old(self).restore_progress,
    {
        let mut values = batch.values;
        let mut stale_indices = batch.stale_indices;
        proof {
            lemma_history_concat(self.entries@, values@);
        }
        self.entries.append(&mut values);
        self.stale_index.append(&mut stale_indices);
        proof {
            assert(final(self).stale_records() =~= old(self).stale_records()
                + batch.stale_records());
        }
    }

    /// The progress of the restore session for `version`, if it has made
    /// any.
    pub fn get_progress(&self, version: Version) -> (progress: Option<StateSnapshotProgress>)
        ensures
            progress == if self.restore_records().dom().contains(version) {
                Some(self.restore_records()[version])
            } else {
                None
            },
    {
        self.restore_progress.get(version)
    }

    /// Deletes the writes after `target_version` and the stale-index records
    /// of what went stale after it, and sets the store's progress back to
    /// there. Where the index is consistent, it stays so.
    pub fn truncate(&mut self, target_version: Version)
        ensures
            final(self).history() == history_up_to(old(self).history(), target_version),
            final(self).stale_records() == stale_up_to(old(self).stale_records(), target_version),
            final(self).commit_progress == Some(target_version),
            final(self).restore_progress == old(self).restore_progress,
            index_consistent(old(self).history(), old(self).stale_records()) ==> index_consistent(
                final(self).history(),
                final(self).stale_records(),
            ),
    {
        proof {
            if index_consistent(self.history(), self.stale_records()) {
                lemma_truncate_keeps_index(self.history(), self.stale_records(), target_version);
            }
        }
        let mut kept: Vec<StateValueEntry> = Vec::new();
        let mut i: usize = 0;
        proof {
            assert(history_of(kept@) =~= history_up_to(
                history_of(self.entries@.subrange(0, 0)),
                target_version,
            ));
        }
        while i < self.entries.len()
            invariant
                i <= self.entries@.len(),
                history_of(kept@) == history_up_to(
                    history_of(self.entries@.subrange(0, i as int)),
                    target_version,
                ),
            decreases self.entries@.len() - i,
        {
            let ghost kept_before = kept@;
            proof {
                let next = self.entries@.subrange(0, i + 1);
                assert(next.drop_last() =~= self.entries@.subrange(0, i as int));
                assert(history_of(next) == history_of(self.entries@.subrange(0, i as int)).insert(
                    (next.last().key@, next.last().version),
                    value_view(next.last().value),
                ));
            }
            if self.entries[i].version <= target_version {
                kept.push(self.entries[i].clone());
                proof {
                    assert(kept@.drop_last() =~= kept_before);
                }
            }
            proof {
                assert(history_of(kept@) =~= history_up_to(
                    history_of(self.entries@.subrange(0, i + 1)),
                    target_version,
                ));
            }
            i = i + 1;
        }
        let mut kept_stale: Vec<StaleStateValueIndex> = Vec::new();
        let mut j: usize = 0;
        proof {
            assert(self.entries@.subrange(0, self.entries@.len() as int) =~= self.entries@);
            assert(stale_views(self.stale_index@.subrange(0, 0)) =~= Seq::<StaleIndexView>::empty());
            assert(stale_views(kept_stale@) =~= Seq::<StaleIndexView>::empty());
        }
        while j < self.stale_index.len()
            invariant
                j <= self.stale_index@.len(),
                stale_views(kept_stale@) == stale_up_to(
                    stale_views(self.stale_index@.subrange(0, j as int)),
                    target_version,
                ),
            decreases self.stale_index@.len() - j,
        {
            let ghost kept_before = kept_stale@;
            proof {
                let next = stale_views(self.stale_index@.subrange(0, j + 1));
                assert(next.drop_last() =~= stale_views(self.stale_index@.subrange(0, j as int)));
                assert(next.last() == self.stale_index@[j as int]@);
            }
            if self.stale_index[j].stale_since_version <= target_version {
                let record = &self.stale_index[j];
                kept_stale.push(
                    StaleStateValueIndex {
                        stale_since_version: record.stale_since_version,
                        version: record.version,
                        state_key: record.state_key.clone(),
                    },
                );
                proof {
                    assert(stale_views(kept_stale@) =~= stale_views(kept_before).push(
                        self.stale_index@[j as int]@,
                    ));
                }
            }
            j = j + 1;
        }
        proof {
            assert(self.stale_index@.subrange(0, self.stale_index@.len() as int)
                =~= self.stale_index@);
        }
        self.entries = kept;
        self.stale_index = kept_stale;
        self.commit_progress = Some(target_version);
    }
}

} // verus!
