//! The stale index keeps step with the raw store: a commit on top of a sound
//! and complete index leaves the index sound and complete, so that pruning
//! never takes away what a read may still give.

use crate::state_kv_db::{
    history_of, history_up_to, is_latest_write, lemma_value_as_of_found, stale_up_to, value_as_of,
    StateValueEntry, ValueHistory,
};
use crate::state_store::{entry_writes, writes_of};
use crate::state_kv_pruner::{
    has_record, index_consistent, index_sound, is_next_write,
};
use crate::types::{value_view, StaleIndexView, StateKey, StateStorageUsage, StateValue, Version};
use crate::usage_laws::{keys_written_once, lemma_no_stale_record_twice, records_distinct, wrote};
use crate::usage_ledger::{
    apply_value_set, apply_value_sets, apply_write, batch_outcome, live_before,
    stale_records_of_write, writes_before, LedgerState, ValueSet,
};
use vstd::prelude::*;

verus! {

/// The history after the writes of one version.
pub open spec fn history_after_set(
    history: ValueHistory,
    version: Version,
    writes: Seq<(StateKey, Option<StateValue>)>,
) -> ValueHistory
    decreases writes.len(),
{
    if writes.len() == 0 {
        history
    } else {
        history_after_set(history, version, writes.drop_last()).insert(
            (writes.last().0@, version),
            value_view(writes.last().1),
        )
    }
}

/// The history after the value sets of consecutive versions from
/// `first_version` on.
pub open spec fn history_after_sets(
    history: ValueHistory,
    first_version: Version,
    value_sets: Seq<ValueSet>,
) -> ValueHistory
    decreases value_sets.len(),
{
    if value_sets.len() == 0 {
        history
    } else {
        history_after_set(
            history_after_sets(history, first_version, value_sets.drop_last()),
            (first_version + value_sets.len() - 1) as Version,
            value_sets.last()@,
        )
    }
}

/// Whether every write of the history is before `version`.
pub open spec fn written_before(history: ValueHistory, version: int) -> bool {
    forall|at: (Seq<u8>, Version)| #[trigger] history.dom().contains(at) ==> at.1 < version
}

/// Every write that went stale at `since` or later has its record: each
/// tombstone written then, and each live value that a write made then
/// follows. With `since` the first version of all, this is the whole of
/// the index's completeness.
pub open spec fn index_complete_since(
    history: ValueHistory,
    stale: Seq<StaleIndexView>,
    since: Version,
) -> bool {
    forall|key: Seq<u8>, version: Version| #[trigger]
        history.dom().contains((key, version)) ==> {
            &&& since <= version && history[(key, version)].is_none() ==> has_record(
                stale,
                StaleIndexView { stale_since_version: version, version, state_key: key },
            )
            &&& history[(key, version)].is_some() ==> forall|next: Version|
                since <= next && is_next_write(history, key, version, next) ==> has_record(
                    stale,
                    StaleIndexView { stale_since_version: next, version, state_key: key },
                )
        }
}

/// How the store and the accounting stand to each other within the version
/// `version`, after the writes `done` of it: the index, with the records of
/// the accounting, is sound and complete; the accounting knows of each key
/// the live value that the store would give; and the store holds nothing
/// later, and of this version only writes to the keys of `done`.
pub open spec fn in_step(
    history: ValueHistory,
    stale_before: Seq<StaleIndexView>,
    since: Version,
    state: LedgerState,
    version: Version,
    done: Seq<(StateKey, Option<StateValue>)>,
) -> bool {
    &&& since <= version
    &&& index_sound(history, stale_before + state.stale)
    &&& index_complete_since(history, stale_before + state.stale, since)
    &&& forall|key: Seq<u8>| #[trigger]
        live_before(state.latest, key) == value_as_of(history, key, version)
    &&& forall|at: (Seq<u8>, Version)| #[trigger]
        history.dom().contains(at) ==> at.1 <= version && (at.1 == version ==> wrote(done, at.0))
}

/// A write to one key changes no read of another.
pub proof fn lemma_read_of_other_key(
    history: ValueHistory,
    key: Seq<u8>,
    written: Version,
    value: Option<Seq<u8>>,
    other: Seq<u8>,
    version: Version,
)
    requires
        other != key,
    ensures
        value_as_of(history.insert((key, written), value), other, version) == value_as_of(
            history,
            other,
            version,
        ),
{
    let after = history.insert((key, written), value);
    if exists|found: Version| is_latest_write(history, other, version, found) {
        let found = choose|found: Version| is_latest_write(history, other, version, found);
        assert(is_latest_write(after, other, version, found));
        lemma_value_as_of_found(history, other, version, found);
        lemma_value_as_of_found(after, other, version, found);
    } else {
        assert forall|found: Version| !is_latest_write(after, other, version, found) by {
            if is_latest_write(after, other, version, found) {
                assert((other, found) != (key, written));
                assert(history.dom().contains((other, found)));
                assert forall|later: Version| found < later <= version implies !history.dom().contains(
                    (other, later),
                ) by {
                    assert(!after.dom().contains((other, later)));
                }
                assert(is_latest_write(history, other, version, found));
            }
        }
    }
}

/// A read as of a version is a read as of any later version up to which
/// the key was not written again.
pub proof fn lemma_read_is_stable(
    history: ValueHistory,
    key: Seq<u8>,
    version: Version,
    later: Version,
)
    requires
        version <= later,
        forall|between: Version| version < between <= later ==> !history.dom().contains((key, between)),
    ensures
        value_as_of(history, key, later) == value_as_of(history, key, version),
{
    if exists|found: Version| is_latest_write(history, key, version, found) {
        let found = choose|found: Version| is_latest_write(history, key, version, found);
        assert(is_latest_write(history, key, later, found));
        lemma_value_as_of_found(history, key, version, found);
        lemma_value_as_of_found(history, key, later, found);
    } else {
        assert forall|found: Version| !is_latest_write(history, key, later, found) by {
            if is_latest_write(history, key, later, found) {
                assert(found <= version);
                assert(is_latest_write(history, key, version, found));
            }
        }
    }
}

/// A record that an index holds, it holds with more records after it.
pub proof fn lemma_has_record_extends(
    stale: Seq<StaleIndexView>,
    more: Seq<StaleIndexView>,
    record: StaleIndexView,
)
    requires
        has_record(stale, record),
    ensures
        has_record(stale + more, record),
{
    let i = choose|i: int| 0 <= i < stale.len() && #[trigger] stale[i] == record;
    assert((stale + more)[i] == record);
}

/// A write to a key that the version has not written yet keeps the store
/// and the accounting in step.
pub proof fn lemma_write_keeps_step(
    history: ValueHistory,
    stale_before: Seq<StaleIndexView>,
    since: Version,
    state: LedgerState,
    version: Version,
    done: Seq<(StateKey, Option<StateValue>)>,
    write: (StateKey, Option<StateValue>),
)
    requires
        in_step(history, stale_before, since, state, version, done),
        !wrote(done, write.0@),
        apply_write(state, version, write.0@, value_view(write.1)).is_some(),
    ensures
        in_step(
            history.insert((write.0@, version), value_view(write.1)),
            stale_before,
            since,
            apply_write(state, version, write.0@, value_view(write.1)).unwrap(),
            version,
            done.push(write),
        ),
{
    let key = write.0@;
    let value = value_view(write.1);
    let after_state = apply_write(state, version, key, value).unwrap();
    let after = history.insert((key, version), value);
    let fresh = stale_records_of_write(state.latest, version, key, value);
    let index = stale_before + state.stale;
    let after_index = stale_before + after_state.stale;
    let all = done.push(write);
    assert(after_index =~= index + fresh);
    assert(all[done.len() as int].0@ == key);
    assert forall|other: Seq<u8>| wrote(done, other) implies wrote(all, other) by {
        let i = choose|i: int| 0 <= i < done.len() && (#[trigger] done[i]).0@ == other;
        assert(all[i].0@ == other);
    }
    // The key has not been written at this version.
    assert(!history.dom().contains((key, version)));
    let previous = live_before(state.latest, key);
    assert(previous == value_as_of(history, key, version));

    // The store holds nothing later, and of this version only the keys done.
    assert forall|at: (Seq<u8>, Version)| #[trigger] after.dom().contains(at) implies at.1
        <= version && (at.1 == version ==> wrote(all, at.0)) by {
        if at != (key, version) {
            assert(history.dom().contains(at));
        }
    }

    // The accounting knows of each key what the store would give.
    assert forall|other: Seq<u8>| #[trigger]
        live_before(after_state.latest, other) == value_as_of(after, other, version) by {
        if other == key {
            assert(is_latest_write(after, key, version, version));
            lemma_value_as_of_found(after, key, version, version);
        } else {
            lemma_read_of_other_key(history, key, version, value, other, version);
            assert(live_before(state.latest, other) == value_as_of(history, other, version));
        }
    }

    // What the latest write before this one was, where it left a live value.
    if previous.is_some() {
        let found = previous.unwrap().0;
        if exists|f: Version| is_latest_write(history, key, version, f) {
            let f = choose|f: Version| is_latest_write(history, key, version, f);
            lemma_value_as_of_found(history, key, version, f);
            assert(f == found);
            assert(history[(key, found)].is_some());
            assert(found < version);
            assert(is_next_write(after, key, found, version));
        }
    }

    // Every record names a write that is there and is stale.
    assert forall|i: int| 0 <= i < after_index.len() implies ({
        let record = #[trigger] after_index[i];
        &&& after.dom().contains((record.state_key, record.version))
        &&& if record.stale_since_version == record.version {
            after[(record.state_key, record.version)].is_none()
        } else {
            &&& after[(record.state_key, record.version)].is_some()
            &&& is_next_write(after, record.state_key, record.version, record.stale_since_version)
        }
    }) by {
        let record = after_index[i];
        if i < index.len() {
            assert(record == index[i]);
            assert(history.dom().contains((record.state_key, record.version)));
            if record.stale_since_version != record.version {
                assert(is_next_write(
                    history,
                    record.state_key,
                    record.version,
                    record.stale_since_version,
                ));
                assert(history.dom().contains((record.state_key, record.stale_since_version)));
                assert(record.stale_since_version <= version);
            }
        } else {
            assert(record == fresh[i - index.len()]);
        }
    }

    // Every stale write has its record.
    assert forall|other: Seq<u8>, written: Version| #[trigger]
        after.dom().contains((other, written)) implies ({
        &&& since <= written && after[(other, written)].is_none() ==> has_record(
            after_index,
            StaleIndexView { stale_since_version: written, version: written, state_key: other },
        )
        &&& after[(other, written)].is_some() ==> forall|next: Version|
            since <= next && is_next_write(after, other, written, next) ==> has_record(
                after_index,
                StaleIndexView { stale_since_version: next, version: written, state_key: other },
            )
    }) by {
        if (other, written) == (key, version) {
            if value.is_none() {
                assert(fresh[0] == StaleIndexView {
                    stale_since_version: version,
                    version,
                    state_key: key,
                });
                assert(after_index[index.len() as int] == fresh[0]);
            }
            assert forall|next: Version|
                since <= next && is_next_write(after, other, written, next) implies false by {
                assert(after.dom().contains((other, next)));
            }
        } else {
            assert(history.dom().contains((other, written)));
            if history[(other, written)].is_none() {
                if since <= written {
                    lemma_has_record_extends(
                        index,
                        fresh,
                        StaleIndexView {
                            stale_since_version: written,
                            version: written,
                            state_key: other,
                        },
                    );
                }
            } else {
                assert forall|next: Version|
                    since <= next && is_next_write(after, other, written, next) implies has_record(
                    after_index,
                    StaleIndexView { stale_since_version: next, version: written, state_key: other },
                ) by {
                    let record = StaleIndexView {
                        stale_since_version: next,
                        version: written,
                        state_key: other,
                    };
                    if other == key && next == version {
                        // The write replaced is the latest write to the key so far.
                        assert(written < version);
                        assert(is_latest_write(history, key, version, written)) by {
                            assert forall|between: Version|
                                written < between <= version implies !history.dom().contains(
                                (key, between),
                            ) by {
                                if between < version {
                                    assert(!after.dom().contains((key, between)));
                                }
                            }
                        }
                        lemma_value_as_of_found(history, key, version, written);
                        assert(previous == Some((written, history[(key, written)].unwrap())));
                        assert(fresh.last() == record);
                        assert(after_index[after_index.len() - 1] == record);
                    } else {
                        assert(history.dom().contains((other, next)));
                        assert(is_next_write(history, other, written, next)) by {
                            assert forall|between: Version|
                                written < between < next implies !history.dom().contains(
                                (other, between),
                            ) by {
                                assert(!after.dom().contains((other, between)));
                            }
                        }
                        lemma_has_record_extends(index, fresh, record);
                    }
                }
            }
        }
    }
}

/// The writes of one version, no two of them to one key, keep the store and
/// the accounting in step.
pub proof fn lemma_value_set_keeps_step(
    history: ValueHistory,
    stale_before: Seq<StaleIndexView>,
    since: Version,
    state: LedgerState,
    version: Version,
    writes: Seq<(StateKey, Option<StateValue>)>,
)
    requires
        keys_written_once(writes),
        in_step(history, stale_before, since, state, version, Seq::empty()),
        apply_value_set(state, version, writes).is_some(),
    ensures
        in_step(
            history_after_set(history, version, writes),
            stale_before,
            since,
            apply_value_set(state, version, writes).unwrap(),
            version,
            writes,
        ),
    decreases writes.len(),
{
    if writes.len() == 0 {
        assert(writes =~= Seq::empty());
    } else {
        let done = writes.drop_last();
        assert(keys_written_once(done));
        lemma_value_set_keeps_step(history, stale_before, since, state, version, done);
        if wrote(done, writes.last().0@) {
            let i = choose|i: int| 0 <= i < done.len() && (#[trigger] done[i]).0@ == writes.last().0@;
            assert(writes[i].0@ != writes[writes.len() - 1].0@);
        }
        lemma_write_keeps_step(
            history_after_set(history, version, done),
            stale_before,
            since,
            apply_value_set(state, version, done).unwrap(),
            version,
            done,
            writes.last(),
        );
        assert(done.push(writes.last()) =~= writes);
    }
}

/// How the store and the accounting stand to each other between versions,
/// before the version `next_version`.
pub open spec fn between_versions(
    history: ValueHistory,
    stale_before: Seq<StaleIndexView>,
    since: Version,
    state: LedgerState,
    next_version: int,
) -> bool {
    &&& since <= next_version
    &&& index_sound(history, stale_before + state.stale)
    &&& index_complete_since(history, stale_before + state.stale, since)
    &&& written_before(history, next_version)
    &&& forall|key: Seq<u8>, version: Version|
        next_version - 1 <= version ==> #[trigger] live_before(state.latest, key) == #[trigger] value_as_of(
            history,
            key,
            version,
        )
}

/// The value sets of consecutive versions, none with two writes to one key,
/// keep the store and the accounting in step.
pub proof fn lemma_value_sets_keep_step(
    history: ValueHistory,
    stale_before: Seq<StaleIndexView>,
    since: Version,
    state: LedgerState,
    first_version: Version,
    value_sets: Seq<ValueSet>,
)
    requires
        first_version + value_sets.len() <= u64::MAX,
        forall|at: int| 0 <= at < value_sets.len() ==> keys_written_once(#[trigger] value_sets[at]@),
        between_versions(history, stale_before, since, state, first_version as int),
        apply_value_sets(state, first_version, value_sets).is_some(),
    ensures
        between_versions(
            history_after_sets(history, first_version, value_sets),
            stale_before,
            since,
            apply_value_sets(state, first_version, value_sets).unwrap().ledger,
            first_version + value_sets.len(),
        ),
    decreases value_sets.len(),
{
    if value_sets.len() > 0 {
        assert forall|at: int| 0 <= at < value_sets.drop_last().len() implies keys_written_once(
            #[trigger] value_sets.drop_last()[at]@,
        ) by {
            assert(value_sets.drop_last()[at] == value_sets[at]);
        }
        lemma_value_sets_keep_step(
            history,
            stale_before,
            since,
            state,
            first_version,
            value_sets.drop_last(),
        );
        let before = apply_value_sets(state, first_version, value_sets.drop_last()).unwrap().ledger;
        let history_before = history_after_sets(history, first_version, value_sets.drop_last());
        let version = (first_version + value_sets.len() - 1) as Version;
        assert(keys_written_once(value_sets[value_sets.len() - 1]@));
        assert forall|key: Seq<u8>| #[trigger]
            live_before(before.latest, key) == value_as_of(history_before, key, version) by {}
        assert(in_step(history_before, stale_before, since, before, version, Seq::empty()));
        lemma_value_set_keeps_step(
            history_before,
            stale_before,
            since,
            before,
            version,
            value_sets.last()@,
        );
        let after = apply_value_set(before, version, value_sets.last()@).unwrap();
        let history_after = history_after_set(history_before, version, value_sets.last()@);
        assert forall|key: Seq<u8>, later: Version| version <= later implies #[trigger] live_before(
            after.latest,
            key,
        ) == #[trigger] value_as_of(history_after, key, later) by {
            assert(live_before(after.latest, key) == value_as_of(history_after, key, version));
            assert forall|between: Version| version < between <= later implies !history_after.dom().contains(
                (key, between),
            ) by {
                if history_after.dom().contains((key, between)) {
                    assert(between <= version);
                }
            }
            lemma_read_is_stable(history_after, key, version, later);
        }
    }
}

/// A commit keeps the stale index sound and complete.
///
/// Where the index is sound and complete for the store, the store holds no
/// write at the batch's versions or after, and no version of the batch
/// writes a key twice, the index with the batch's records is sound and
/// complete for the store with the batch's writes.
pub proof fn lemma_commit_keeps_index(
    history: ValueHistory,
    stale: Seq<StaleIndexView>,
    base_usage: StateStorageUsage,
    first_version: Version,
    value_sets: Seq<ValueSet>,
)
    requires
        first_version + value_sets.len() <= u64::MAX,
        each_key_once_a_version(value_sets),
        index_consistent(history, stale),
        written_before(history, first_version as int),
        batch_outcome(history, base_usage, first_version, value_sets).is_some(),
    ensures
        index_consistent(
            history_after_sets(history, first_version, value_sets),
            stale + batch_outcome(
                history,
                base_usage,
                first_version,
                value_sets,
            ).unwrap().ledger.stale,
        ),
{
    let start = LedgerState {
        usage: base_usage,
        latest: writes_before(history, first_version),
        stale: Seq::empty(),
    };
    assert(stale + start.stale =~= stale);
    lemma_start_knows_the_store(history, base_usage, first_version);
    assert(index_complete_since(history, stale, 0));
    lemma_value_sets_keep_step(history, stale, 0, start, first_version, value_sets);
}

/// The stale-index records that a batch stages are exactly those of its
/// writes, whatever the index held before.
///
/// Each staged record names a write that is in the store once the batch is:
/// a tombstone of the batch, stale since its own version, or a live value,
/// stale since the write of the batch that follows it next. Each tombstone
/// of the batch has its record, and so has each live value that a write of
/// the batch follows next. No record is staged twice.
pub proof fn lemma_staged_records_are_exact(
    history: ValueHistory,
    base_usage: StateStorageUsage,
    first_version: Version,
    value_sets: Seq<ValueSet>,
)
    requires
        first_version + value_sets.len() <= u64::MAX,
        each_key_once_a_version(value_sets),
        written_before(history, first_version as int),
        batch_outcome(history, base_usage, first_version, value_sets).is_some(),
    ensures
        ({
            let staged = batch_outcome(
                history,
                base_usage,
                first_version,
                value_sets,
            ).unwrap().ledger.stale;
            let after = history_after_sets(history, first_version, value_sets);
            &&& index_sound(after, staged)
            &&& index_complete_since(after, staged, first_version)
            &&& records_distinct(staged)
            &&& forall|i: int|
                0 <= i < staged.len() ==> first_version <= (
                #[trigger] staged[i]).stale_since_version
        }),
{
    let start = LedgerState {
        usage: base_usage,
        latest: writes_before(history, first_version),
        stale: Seq::empty(),
    };
    let none = Seq::<StaleIndexView>::empty();
    assert(none + start.stale =~= none);
    lemma_start_knows_the_store(history, base_usage, first_version);
    lemma_value_sets_keep_step(history, none, first_version, start, first_version, value_sets);
    let outcome = apply_value_sets(start, first_version, value_sets).unwrap();
    assert(none + outcome.ledger.stale =~= outcome.ledger.stale);
    lemma_no_stale_record_twice(history, base_usage, first_version, value_sets);
    lemma_staged_since(start, first_version, value_sets);
}

/// Before a batch, the accounting knows of each key the live value that the
/// store gives as of the version before the batch or later, where the store
/// holds no write at the batch's versions or after.
pub proof fn lemma_start_knows_the_store(
    history: ValueHistory,
    base_usage: StateStorageUsage,
    first_version: Version,
)
    requires
        written_before(history, first_version as int),
    ensures
        forall|key: Seq<u8>, version: Version|
            first_version - 1 <= version ==> #[trigger] live_before(
                writes_before(history, first_version),
                key,
            ) == #[trigger] value_as_of(history, key, version),
{
    let latest = writes_before(history, first_version);
    assert forall|key: Seq<u8>, version: Version| first_version - 1 <= version implies #[trigger] live_before(
        latest,
        key,
    ) == #[trigger] value_as_of(history, key, version) by {
        if first_version == 0 {
            assert forall|found: Version| !is_latest_write(history, key, version, found) by {
                if is_latest_write(history, key, version, found) {
                    assert(history.dom().contains((key, found)));
                }
            }
        } else {
            let base = (first_version - 1) as Version;
            assert forall|between: Version| base < between <= version implies !history.dom().contains(
                (key, between),
            ) by {
                if history.dom().contains((key, between)) {
                    assert(between < first_version);
                }
            }
            lemma_read_is_stable(history, key, base, version);
        }
    }
}

/// The records that a batch adds are stale since a version of the batch.
pub proof fn lemma_staged_since(state: LedgerState, first_version: Version, value_sets: Seq<ValueSet>)
    requires
        first_version + value_sets.len() <= u64::MAX,
        forall|i: int|
            0 <= i < state.stale.len() ==> first_version <= (
            #[trigger] state.stale[i]).stale_since_version,
        apply_value_sets(state, first_version, value_sets).is_some(),
    ensures
        forall|i: int|
            0 <= i < apply_value_sets(state, first_version, value_sets).unwrap().ledger.stale.len()
                ==> first_version <= (#[trigger] apply_value_sets(
                state,
                first_version,
                value_sets,
            ).unwrap().ledger.stale[i]).stale_since_version,
    decreases value_sets.len(),
{
    if value_sets.len() > 0 {
        lemma_staged_since(state, first_version, value_sets.drop_last());
        let before = apply_value_sets(state, first_version, value_sets.drop_last()).unwrap().ledger;
        let version = (first_version + value_sets.len() - 1) as Version;
        lemma_set_staged_since(before, first_version, version, value_sets.last()@);
    }
}

/// The records that the writes of a version add are stale since that
/// version.
pub proof fn lemma_set_staged_since(
    state: LedgerState,
    first_version: Version,
    version: Version,
    writes: Seq<(StateKey, Option<StateValue>)>,
)
    requires
        first_version <= version,
        forall|i: int|
            0 <= i < state.stale.len() ==> first_version <= (
            #[trigger] state.stale[i]).stale_since_version,
        apply_value_set(state, version, writes).is_some(),
    ensures
        forall|i: int|
            0 <= i < apply_value_set(state, version, writes).unwrap().stale.len() ==> first_version
                <= (#[trigger] apply_value_set(state, version, writes).unwrap().stale[i]).stale_since_version,
    decreases writes.len(),
{
    if writes.len() > 0 {
        lemma_set_staged_since(state, first_version, version, writes.drop_last());
        let before = apply_value_set(state, version, writes.drop_last()).unwrap();
        let after = apply_value_set(state, version, writes).unwrap();
        let fresh = stale_records_of_write(
            before.latest,
            version,
            writes.last().0@,
            value_view(writes.last().1),
        );
        assert forall|i: int| 0 <= i < after.stale.len() implies first_version <= (
        #[trigger] after.stale[i]).stale_since_version by {
            if i < before.stale.len() {
                assert(after.stale[i] == before.stale[i]);
            } else {
                assert(after.stale[i] == fresh[i - before.stale.len()]);
            }
        }
    }
}

/// Whether no version of the batch writes a key twice.
pub open spec fn each_key_once_a_version(value_sets: Seq<ValueSet>) -> bool {
    forall|at: int| 0 <= at < value_sets.len() ==> keys_written_once(#[trigger] value_sets[at]@)
}

/// A write as plain values: the key, the version and the value.
pub type VersionedWrite = (Seq<u8>, Version, Option<Seq<u8>>);

/// The history after a list of writes.
pub open spec fn history_with_writes(
    history: ValueHistory,
    writes: Seq<VersionedWrite>,
) -> ValueHistory
    decreases writes.len(),
{
    if writes.len() == 0 {
        history
    } else {
        history_with_writes(history, writes.drop_last()).insert(
            (writes.last().0, writes.last().1),
            writes.last().2,
        )
    }
}

/// Writes made after others are writes on top of the history that the
/// others left.
pub proof fn lemma_history_with_writes_concat(
    history: ValueHistory,
    head: Seq<VersionedWrite>,
    tail: Seq<VersionedWrite>,
)
    ensures
        history_with_writes(history, head + tail) == history_with_writes(
            history_with_writes(history, head),
            tail,
        ),
    decreases tail.len(),
{
    if tail.len() == 0 {
        assert(head + tail =~= head);
    } else {
        lemma_history_with_writes_concat(history, head, tail.drop_last());
        assert((head + tail).drop_last() =~= head + tail.drop_last());
        assert((head + tail).last() == tail.last());
    }
}

/// The writes of one version at `version`, as plain values.
pub open spec fn versioned(writes: Seq<(StateKey, Option<StateValue>)>, version: Version) -> Seq<
    VersionedWrite,
> {
    writes.map_values(
        |write: (StateKey, Option<StateValue>)| (write.0@, version, value_view(write.1)),
    )
}

/// The history after the writes of one version is the history with those
/// writes at that version.
pub proof fn lemma_history_after_set(
    history: ValueHistory,
    version: Version,
    writes: Seq<(StateKey, Option<StateValue>)>,
)
    ensures
        history_with_writes(history, versioned(writes, version)) == history_after_set(
            history,
            version,
            writes,
        ),
    decreases writes.len(),
{
    if writes.len() > 0 {
        lemma_history_after_set(history, version, writes.drop_last());
        assert(versioned(writes, version).drop_last() =~= versioned(writes.drop_last(), version));
    }
}

/// The history after the value sets of a batch is the history with the
/// writes of the batch.
pub proof fn lemma_history_after_sets(
    history: ValueHistory,
    first_version: Version,
    value_sets: Seq<ValueSet>,
)
    ensures
        history_with_writes(history, writes_of(value_sets, first_version)) == history_after_sets(
            history,
            first_version,
            value_sets,
        ),
    decreases value_sets.len(),
{
    if value_sets.len() > 0 {
        let version = (first_version + value_sets.len() - 1) as Version;
        lemma_history_after_sets(history, first_version, value_sets.drop_last());
        lemma_history_with_writes_concat(
            history,
            writes_of(value_sets.drop_last(), first_version),
            versioned(value_sets.last()@, version),
        );
        lemma_history_after_set(
            history_after_sets(history, first_version, value_sets.drop_last()),
            version,
            value_sets.last()@,
        );
    }
}

/// Entries written to a store leave the history with their writes.
pub proof fn lemma_history_of_entries(history: ValueHistory, entries: Seq<StateValueEntry>)
    ensures
        history.union_prefer_right(history_of(entries)) == history_with_writes(
            history,
            entry_writes(entries),
        ),
    decreases entries.len(),
{
    if entries.len() == 0 {
        assert(history.union_prefer_right(history_of(entries)) =~= history);
    } else {
        lemma_history_of_entries(history, entries.drop_last());
        assert(entry_writes(entries).drop_last() =~= entry_writes(entries.drop_last()));
        assert(history.union_prefer_right(history_of(entries)) =~= history.union_prefer_right(
            history_of(entries.drop_last()),
        ).insert((entries.last().key@, entries.last().version), value_view(entries.last().value)));
    }
}

/// What is left of the records after a cut back to a version are the
/// records stale since that version or before, and each is a record of the
/// index.
pub proof fn lemma_stale_up_to(stale: Seq<StaleIndexView>, target_version: Version)
    ensures
        forall|i: int|
            0 <= i < stale_up_to(stale, target_version).len() ==> (#[trigger] stale_up_to(
                stale,
                target_version,
            )[i]).stale_since_version <= target_version && has_record(
                stale,
                stale_up_to(stale, target_version)[i],
            ),
        forall|record: StaleIndexView|
            has_record(stale, record) && record.stale_since_version <= target_version
                ==> has_record(stale_up_to(stale, target_version), record),
    decreases stale.len(),
{
    let left = stale_up_to(stale, target_version);
    if stale.len() > 0 {
        let before = stale.drop_last();
        let left_before = stale_up_to(before, target_version);
        lemma_stale_up_to(before, target_version);
        assert forall|i: int| 0 <= i < left.len() implies (#[trigger] left[i]).stale_since_version
            <= target_version && has_record(stale, left[i]) by {
            if i < left_before.len() {
                assert(left[i] == left_before[i]);
                assert(has_record(before, left_before[i]));
                let at = choose|at: int| 0 <= at < before.len() && #[trigger] before[at] == left[i];
                assert(stale[at] == left[i]);
            } else {
                assert(left[i] == stale.last());
                assert(stale[stale.len() - 1] == left[i]);
            }
        }
        assert forall|record: StaleIndexView|
            has_record(stale, record) && record.stale_since_version
                <= target_version implies has_record(left, record) by {
            let at = choose|at: int| 0 <= at < stale.len() && #[trigger] stale[at] == record;
            if at < before.len() {
                assert(before[at] == record);
                assert(has_record(before, record));
                let j = choose|j: int| 0 <= j < left_before.len() && #[trigger] left_before[j] == record;
                assert(left[j] == record);
            } else {
                assert(left[left.len() - 1] == record);
            }
        }
    }
}

/// A cut back to a version keeps the stale index consistent: the records
/// stale by then name the stale writes of the store as it was then.
pub proof fn lemma_truncate_keeps_index(
    history: ValueHistory,
    stale: Seq<StaleIndexView>,
    target_version: Version,
)
    requires
        index_consistent(history, stale),
    ensures
        index_consistent(
            history_up_to(history, target_version),
            stale_up_to(stale, target_version),
        ),
{
    let cut = history_up_to(history, target_version);
    let left = stale_up_to(stale, target_version);
    lemma_stale_up_to(stale, target_version);
    assert forall|i: int| 0 <= i < left.len() implies ({
        let record = #[trigger] left[i];
        &&& cut.dom().contains((record.state_key, record.version))
        &&& if record.stale_since_version == record.version {
            cut[(record.state_key, record.version)].is_none()
        } else {
            &&& cut[(record.state_key, record.version)].is_some()
            &&& is_next_write(cut, record.state_key, record.version, record.stale_since_version)
        }
    }) by {
        let record = left[i];
        assert(has_record(stale, record));
        let at = choose|at: int| 0 <= at < stale.len() && #[trigger] stale[at] == record;
        if record.stale_since_version != record.version {
            assert(is_next_write(
                history,
                record.state_key,
                record.version,
                record.stale_since_version,
            ));
        }
    }
    assert forall|key: Seq<u8>, version: Version| #[trigger]
        cut.dom().contains((key, version)) implies ({
        &&& cut[(key, version)].is_none() ==> has_record(
            left,
            StaleIndexView { stale_since_version: version, version, state_key: key },
        )
        &&& cut[(key, version)].is_some() ==> forall|next: Version|
            is_next_write(cut, key, version, next) ==> has_record(
                left,
                StaleIndexView { stale_since_version: next, version, state_key: key },
            )
    }) by {
        assert(history.dom().contains((key, version)));
        if history[(key, version)].is_some() {
            assert forall|next: Version| is_next_write(cut, key, version, next) implies has_record(
                left,
                StaleIndexView { stale_since_version: next, version, state_key: key },
            ) by {
                assert(cut.dom().contains((key, next)));
                assert(is_next_write(history, key, version, next)) by {
                    assert forall|between: Version|
                        version < between < next implies !history.dom().contains((key, between)) by {
                        assert(!cut.dom().contains((key, between)));
                    }
                }
            }
        }
    }
}

} // verus!
