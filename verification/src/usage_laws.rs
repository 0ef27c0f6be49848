//! What holds of the accounting of every batch: each version's usage is the
//! usage before it plus what its writes bring less what they replace, and
//! the stale-index records are one for each tombstone and one for each live
//! value replaced, none of them stale before it was written.

use crate::ledger_db::{lemma_usage_records_counted, LedgerDb};
use crate::state_kv_db::{is_latest_write, ValueHistory};
use crate::state_store::{stats_and_indices, usage_before};
use crate::types::{value_view, StaleIndexView, StateKey, StateStorageUsage, StateValue, Version};
use crate::usage_ledger::{
    apply_value_set, apply_value_sets, apply_write, batch_outcome, item_size, live_before,
    stale_records_of_write, write_as_of, writes_before, LedgerState, ValueSet,
};
use crate::value_cache::LatestWrite;
use vstd::prelude::*;

verus! {

/// Each key's latest write after the writes of one version, taken in order.
pub open spec fn latest_after(
    latest: Map<Seq<u8>, LatestWrite>,
    version: Version,
    writes: Seq<(StateKey, Option<StateValue>)>,
) -> Map<Seq<u8>, LatestWrite>
    decreases writes.len(),
{
    if writes.len() == 0 {
        latest
    } else {
        latest_after(latest, version, writes.drop_last()).insert(
            writes.last().0@,
            (version, value_view(writes.last().1)),
        )
    }
}

/// The number of live values that the writes bring.
pub open spec fn items_added(writes: Seq<(StateKey, Option<StateValue>)>) -> int
    decreases writes.len(),
{
    if writes.len() == 0 {
        0
    } else {
        items_added(writes.drop_last()) + if writes.last().1.is_some() {
            1int
        } else {
            0int
        }
    }
}

/// The bytes of the live values that the writes bring, keys included.
pub open spec fn bytes_added(writes: Seq<(StateKey, Option<StateValue>)>) -> int
    decreases writes.len(),
{
    if writes.len() == 0 {
        0
    } else {
        bytes_added(writes.drop_last()) + match value_view(writes.last().1) {
            Some(value) => item_size(writes.last().0@, value),
            None => 0,
        }
    }
}

/// The number of tombstones among the writes.
pub open spec fn tombstones(writes: Seq<(StateKey, Option<StateValue>)>) -> int
    decreases writes.len(),
{
    if writes.len() == 0 {
        0
    } else {
        tombstones(writes.drop_last()) + if writes.last().1.is_none() {
            1int
        } else {
            0int
        }
    }
}

/// The number of live values that the writes replace, by a new value or by a
/// tombstone, each write held against the latest write to its key before it.
pub open spec fn items_superseded(
    latest: Map<Seq<u8>, LatestWrite>,
    version: Version,
    writes: Seq<(StateKey, Option<StateValue>)>,
) -> int
    decreases writes.len(),
{
    if writes.len() == 0 {
        0
    } else {
        items_superseded(latest, version, writes.drop_last()) + if live_before(
            latest_after(latest, version, writes.drop_last()),
            writes.last().0@,
        ).is_some() {
            1int
        } else {
            0int
        }
    }
}

/// The bytes of the live values that the writes replace, keys included.
pub open spec fn bytes_superseded(
    latest: Map<Seq<u8>, LatestWrite>,
    version: Version,
    writes: Seq<(StateKey, Option<StateValue>)>,
) -> int
    decreases writes.len(),
{
    if writes.len() == 0 {
        0
    } else {
        bytes_superseded(latest, version, writes.drop_last()) + match live_before(
            latest_after(latest, version, writes.drop_last()),
            writes.last().0@,
        ) {
            Some((_, old_value)) => item_size(writes.last().0@, old_value),
            None => 0,
        }
    }
}

/// After the writes of one version a tracked usage is the usage before them,
/// plus the live values they bring, less the live values they replace; and
/// they leave one stale-index record for each tombstone and one for each
/// live value replaced.
pub proof fn lemma_value_set_net_delta(
    state: LedgerState,
    version: Version,
    writes: Seq<(StateKey, Option<StateValue>)>,
)
    requires
        apply_value_set(state, version, writes).is_some(),
    ensures
        ({
            let after = apply_value_set(state, version, writes).unwrap();
            &&& after.latest == latest_after(state.latest, version, writes)
            &&& after.stale.len() == state.stale.len() + tombstones(writes) + items_superseded(
                state.latest,
                version,
                writes,
            )
            &&& state.usage is Counted ==> {
                &&& after.usage is Counted
                &&& after.usage.spec_items() == state.usage.spec_items() + items_added(writes)
                    - items_superseded(state.latest, version, writes)
                &&& after.usage.spec_bytes() == state.usage.spec_bytes() + bytes_added(writes)
                    - bytes_superseded(state.latest, version, writes)
            }
            &&& state.usage is Untracked ==> after.usage is Untracked
        }),
    decreases writes.len(),
{
    if writes.len() > 0 {
        lemma_value_set_net_delta(state, version, writes.drop_last());
    }
}

/// A batch that can be accounted for can be accounted for up to each of its
/// versions, and the usages up to there are the same.
pub proof fn lemma_batch_prefix(
    state: LedgerState,
    first_version: Version,
    value_sets: Seq<ValueSet>,
    upto: int,
)
    requires
        0 <= upto <= value_sets.len(),
        apply_value_sets(state, first_version, value_sets).is_some(),
    ensures
        apply_value_sets(state, first_version, value_sets.take(upto)).is_some(),
        apply_value_sets(state, first_version, value_sets.take(upto)).unwrap().usages
            == apply_value_sets(state, first_version, value_sets).unwrap().usages.take(upto),
        apply_value_sets(state, first_version, value_sets).unwrap().usages.len()
            == value_sets.len(),
    decreases value_sets.len() - upto,
{
    lemma_usages_count(state, first_version, value_sets);
    if upto == value_sets.len() {
        assert(value_sets.take(upto) =~= value_sets);
        assert(apply_value_sets(state, first_version, value_sets).unwrap().usages.take(upto)
            =~= apply_value_sets(state, first_version, value_sets).unwrap().usages);
    } else {
        assert(value_sets.drop_last().take(upto) =~= value_sets.take(upto));
        lemma_batch_prefix(state, first_version, value_sets.drop_last(), upto);
        assert(apply_value_sets(state, first_version, value_sets.drop_last()).unwrap().usages.take(
            upto,
        ) =~= apply_value_sets(state, first_version, value_sets).unwrap().usages.take(upto));
    }
}

/// A batch that can be accounted for leaves one usage for each version.
pub proof fn lemma_usages_count(
    state: LedgerState,
    first_version: Version,
    value_sets: Seq<ValueSet>,
)
    requires
        apply_value_sets(state, first_version, value_sets).is_some(),
    ensures
        apply_value_sets(state, first_version, value_sets).unwrap().usages.len()
            == value_sets.len(),
    decreases value_sets.len(),
{
    if value_sets.len() > 0 {
        lemma_usages_count(state, first_version, value_sets.drop_last());
    }
}

/// The usage at a version is the usage at the version before it, plus the
/// live values that the version's writes bring, less the live values that
/// they replace.
///
/// `at` counts the versions of the batch from its first. The usage before
/// the first version is the usage that the batch starts from.
pub proof fn lemma_usage_is_previous_plus_net_delta(
    history: ValueHistory,
    base_usage: StateStorageUsage,
    first_version: Version,
    value_sets: Seq<ValueSet>,
    at: int,
)
    requires
        0 <= at < value_sets.len(),
        first_version + value_sets.len() <= u64::MAX,
        base_usage is Counted,
        batch_outcome(history, base_usage, first_version, value_sets).is_some(),
    ensures
        batch_outcome(history, base_usage, first_version, value_sets.take(at)).is_some(),
        ({
            let outcome = batch_outcome(history, base_usage, first_version, value_sets).unwrap();
            let before = batch_outcome(
                history,
                base_usage,
                first_version,
                value_sets.take(at),
            ).unwrap();
            let previous = if at == 0 {
                base_usage
            } else {
                outcome.usages[at - 1].1
            };
            let version = (first_version + at) as Version;
            let writes = value_sets[at]@;
            &&& outcome.usages.len() == value_sets.len()
            &&& outcome.usages[at].0 == version
            &&& before.ledger.usage == previous
            &&& previous is Counted
            &&& outcome.usages[at].1 is Counted
            &&& outcome.usages[at].1.spec_items() == previous.spec_items() + items_added(writes)
                - items_superseded(before.ledger.latest, version, writes)
            &&& outcome.usages[at].1.spec_bytes() == previous.spec_bytes() + bytes_added(writes)
                - bytes_superseded(before.ledger.latest, version, writes)
        }),
{
    let start = LedgerState {
        usage: base_usage,
        latest: writes_before(history, first_version),
        stale: Seq::empty(),
    };
    lemma_batch_prefix(start, first_version, value_sets, at);
    lemma_batch_prefix(start, first_version, value_sets, at + 1);
    let before = apply_value_sets(start, first_version, value_sets.take(at)).unwrap();
    let through = value_sets.take(at + 1);
    assert(through.drop_last() =~= value_sets.take(at));
    assert(through.last() == value_sets[at]);
    lemma_usages_count(start, first_version, value_sets.take(at));
    lemma_closing_usage_counted(start, first_version, value_sets.take(at));
    let version = (first_version + at) as Version;
    lemma_value_set_net_delta(before.ledger, version, value_sets[at]@);
    let outcome = apply_value_sets(start, first_version, value_sets).unwrap();
    assert(outcome.usages.take(at + 1)[at] == outcome.usages[at]);
    if at > 0 {
        assert(outcome.usages.take(at)[at - 1] == outcome.usages[at - 1]);
    }
}

/// The closing usage of a batch is the usage after its last version, or the
/// usage it started from where it has no version; from a tracked usage it is
/// tracked.
pub proof fn lemma_closing_usage_counted(
    state: LedgerState,
    first_version: Version,
    value_sets: Seq<ValueSet>,
)
    requires
        apply_value_sets(state, first_version, value_sets).is_some(),
    ensures
        ({
            let outcome = apply_value_sets(state, first_version, value_sets).unwrap();
            &&& outcome.usages.len() == value_sets.len()
            &&& outcome.ledger.usage == if value_sets.len() == 0 {
                state.usage
            } else {
                outcome.usages.last().1
            }
            &&& state.usage is Counted ==> outcome.ledger.usage is Counted
        }),
    decreases value_sets.len(),
{
    if value_sets.len() > 0 {
        lemma_closing_usage_counted(state, first_version, value_sets.drop_last());
        let before = apply_value_sets(state, first_version, value_sets.drop_last()).unwrap();
        let version = (first_version + value_sets.len() - 1) as Version;
        lemma_value_set_net_delta(before.ledger, version, value_sets.last()@);
    }
}

/// From a tracked usage, the usage after every version of a batch is
/// tracked.
pub proof fn lemma_usages_all_counted(
    state: LedgerState,
    first_version: Version,
    value_sets: Seq<ValueSet>,
)
    requires
        state.usage is Counted,
        apply_value_sets(state, first_version, value_sets).is_some(),
    ensures
        forall|i: int|
            0 <= i < apply_value_sets(state, first_version, value_sets).unwrap().usages.len() ==> (
            #[trigger] apply_value_sets(state, first_version, value_sets).unwrap().usages[i]).1 is Counted,
    decreases value_sets.len(),
{
    if value_sets.len() > 0 {
        lemma_usages_all_counted(state, first_version, value_sets.drop_last());
        lemma_closing_usage_counted(state, first_version, value_sets.drop_last());
        lemma_closing_usage_counted(state, first_version, value_sets);
        let before = apply_value_sets(state, first_version, value_sets.drop_last()).unwrap();
        let after = apply_value_sets(state, first_version, value_sets).unwrap();
        assert forall|i: int| 0 <= i < after.usages.len() implies (#[trigger] after.usages[i]).1 is Counted by {
            if i < before.usages.len() {
                assert(after.usages[i] == before.usages[i]);
            } else {
                assert(after.usages[i] == after.usages.last());
            }
        }
    }
}

/// No key's latest write is later than `bound`.
pub open spec fn latest_bounded(latest: Map<Seq<u8>, LatestWrite>, bound: int) -> bool {
    forall|key: Seq<u8>| #[trigger] latest.dom().contains(key) ==> latest[key].0 <= bound
}

/// No record is stale since before the version of its write.
pub open spec fn stale_in_order(stale: Seq<StaleIndexView>) -> bool {
    forall|i: int|
        0 <= i < stale.len() ==> (#[trigger] stale[i]).stale_since_version >= stale[i].version
}

/// What the raw store knows of a key as of a version is a write at or before
/// that version.
pub proof fn lemma_write_as_of_bounded(history: ValueHistory, key: Seq<u8>, base_version: Version)
    ensures
        write_as_of(history, key, base_version).0 <= base_version,
{
    if exists|found: Version| is_latest_write(history, key, base_version, found) {
        let found = choose|found: Version| is_latest_write(history, key, base_version, found);
        assert(is_latest_write(history, key, base_version, found));
    }
}

/// A write at `version`, on top of writes none later than `version`, leaves
/// the records in order and no write later than `version`.
pub proof fn lemma_write_keeps_order(
    state: LedgerState,
    version: Version,
    key: Seq<u8>,
    value: Option<Seq<u8>>,
)
    requires
        latest_bounded(state.latest, version as int),
        stale_in_order(state.stale),
        apply_write(state, version, key, value).is_some(),
    ensures
        latest_bounded(apply_write(state, version, key, value).unwrap().latest, version as int),
        stale_in_order(apply_write(state, version, key, value).unwrap().stale),
{
    let after = apply_write(state, version, key, value).unwrap();
    let fresh = stale_records_of_write(state.latest, version, key, value);
    assert forall|i: int| 0 <= i < fresh.len() implies (#[trigger] fresh[i]).stale_since_version
        >= fresh[i].version by {
        if live_before(state.latest, key).is_some() {
            assert(state.latest.dom().contains(key));
        }
    }
    assert forall|i: int| 0 <= i < after.stale.len() implies (#[trigger] after.stale[i]).stale_since_version
        >= after.stale[i].version by {
        if i < state.stale.len() {
            assert(after.stale[i] == state.stale[i]);
        } else {
            assert(after.stale[i] == fresh[i - state.stale.len()]);
        }
    }
}

/// The writes of one version keep the records in order.
pub proof fn lemma_value_set_keeps_order(
    state: LedgerState,
    version: Version,
    writes: Seq<(StateKey, Option<StateValue>)>,
)
    requires
        latest_bounded(state.latest, version as int),
        stale_in_order(state.stale),
        apply_value_set(state, version, writes).is_some(),
    ensures
        latest_bounded(apply_value_set(state, version, writes).unwrap().latest, version as int),
        stale_in_order(apply_value_set(state, version, writes).unwrap().stale),
    decreases writes.len(),
{
    if writes.len() > 0 {
        lemma_value_set_keeps_order(state, version, writes.drop_last());
        lemma_write_keeps_order(
            apply_value_set(state, version, writes.drop_last()).unwrap(),
            version,
            writes.last().0@,
            value_view(writes.last().1),
        );
    }
}

/// The value sets of consecutive versions keep the records in order.
pub proof fn lemma_value_sets_keep_order(
    state: LedgerState,
    first_version: Version,
    value_sets: Seq<ValueSet>,
)
    requires
        first_version + value_sets.len() <= u64::MAX,
        latest_bounded(state.latest, first_version - 1),
        stale_in_order(state.stale),
        apply_value_sets(state, first_version, value_sets).is_some(),
    ensures
        latest_bounded(
            apply_value_sets(state, first_version, value_sets).unwrap().ledger.latest,
            first_version + value_sets.len() - 1,
        ),
        stale_in_order(apply_value_sets(state, first_version, value_sets).unwrap().ledger.stale),
    decreases value_sets.len(),
{
    if value_sets.len() > 0 {
        lemma_value_sets_keep_order(state, first_version, value_sets.drop_last());
        let before = apply_value_sets(state, first_version, value_sets.drop_last()).unwrap();
        let version = (first_version + value_sets.len() - 1) as Version;
        lemma_value_set_keeps_order(before.ledger, version, value_sets.last()@);
    }
}

/// Every stale-index record of a batch is stale since the version of its
/// write or later.
pub proof fn lemma_stale_since_not_before_version(
    history: ValueHistory,
    base_usage: StateStorageUsage,
    first_version: Version,
    value_sets: Seq<ValueSet>,
)
    requires
        first_version + value_sets.len() <= u64::MAX,
        batch_outcome(history, base_usage, first_version, value_sets).is_some(),
    ensures
        stale_in_order(
            batch_outcome(history, base_usage, first_version, value_sets).unwrap().ledger.stale,
        ),
{
    let start = LedgerState {
        usage: base_usage,
        latest: writes_before(history, first_version),
        stale: Seq::empty(),
    };
    assert forall|key: Seq<u8>| #[trigger] start.latest.dom().contains(key) implies start.latest[key].0
        <= first_version - 1 by {
        if first_version > 0 {
            lemma_write_as_of_bounded(history, key, (first_version - 1) as Version);
        }
    }
    lemma_value_sets_keep_order(start, first_version, value_sets);
}

/// The stale-index records of one version are one for each tombstone among
/// its writes and one for each live value that its writes replace: no write
/// that needs a record goes without, and none gets a second.
pub proof fn lemma_one_stale_record_per_tombstone_or_replaced_value(
    state: LedgerState,
    version: Version,
    writes: Seq<(StateKey, Option<StateValue>)>,
)
    requires
        apply_value_set(state, version, writes).is_some(),
    ensures
        apply_value_set(state, version, writes).unwrap().stale.len() == state.stale.len()
            + tombstones(writes) + items_superseded(state.latest, version, writes),
{
    lemma_value_set_net_delta(state, version, writes);
}

/// Whether no two of the writes are to one key.
pub open spec fn keys_written_once(writes: Seq<(StateKey, Option<StateValue>)>) -> bool {
    forall|i: int, j: int| 0 <= i < j < writes.len() ==> writes[i].0@ != writes[j].0@
}

/// Whether one of the writes is to `key`.
pub open spec fn wrote(writes: Seq<(StateKey, Option<StateValue>)>, key: Seq<u8>) -> bool {
    exists|i: int| 0 <= i < writes.len() && (#[trigger] writes[i]).0@ == key
}

/// Whether no two of the records are the same.
pub open spec fn records_distinct(stale: Seq<StaleIndexView>) -> bool {
    forall|i: int, j: int| 0 <= i < j < stale.len() ==> stale[i] != stale[j]
}

/// Where the accounting stands after all writes up to the version `bound`:
/// no write and no record is later, and no two records are the same.
pub open spec fn settled(state: LedgerState, bound: int) -> bool {
    &&& latest_bounded(state.latest, bound)
    &&& forall|i: int|
        0 <= i < state.stale.len() ==> (#[trigger] state.stale[i]).stale_since_version <= bound
    &&& records_distinct(state.stale)
}

/// Where the accounting stands within the version `version`, after the
/// writes `done` of it: what is of this version, write or record, is of a
/// key among `done`, nothing is later, and no two records are the same.
pub open spec fn within_version(
    state: LedgerState,
    version: Version,
    done: Seq<(StateKey, Option<StateValue>)>,
) -> bool {
    &&& forall|key: Seq<u8>| #[trigger]
        state.latest.dom().contains(key) ==> state.latest[key].0 <= version && (
        state.latest[key].0 == version ==> wrote(done, key))
    &&& forall|i: int|
        0 <= i < state.stale.len() ==> (#[trigger] state.stale[i]).stale_since_version <= version
            && (state.stale[i].stale_since_version == version ==> wrote(
            done,
            state.stale[i].state_key,
        ))
    &&& records_distinct(state.stale)
}

/// A write to a key that the version has not written yet leaves no record
/// twice.
pub proof fn lemma_write_keeps_records_distinct(
    state: LedgerState,
    version: Version,
    done: Seq<(StateKey, Option<StateValue>)>,
    write: (StateKey, Option<StateValue>),
)
    requires
        within_version(state, version, done),
        !wrote(done, write.0@),
        apply_write(state, version, write.0@, value_view(write.1)).is_some(),
    ensures
        within_version(
            apply_write(state, version, write.0@, value_view(write.1)).unwrap(),
            version,
            done.push(write),
        ),
{
    let key = write.0@;
    let after = apply_write(state, version, key, value_view(write.1)).unwrap();
    let fresh = stale_records_of_write(state.latest, version, key, value_view(write.1));
    let all = done.push(write);
    assert(all[done.len() as int].0@ == key);
    assert(wrote(all, key));
    assert forall|other: Seq<u8>| wrote(done, other) implies wrote(all, other) by {
        let i = choose|i: int| 0 <= i < done.len() && (#[trigger] done[i]).0@ == other;
        assert(all[i].0@ == other);
    }
    if live_before(state.latest, key).is_some() {
        assert(state.latest.dom().contains(key));
        assert(state.latest[key].0 < version);
    }
    assert forall|i: int| 0 <= i < fresh.len() implies (#[trigger] fresh[i]).stale_since_version
        == version && fresh[i].state_key == key by {}
    assert forall|i: int| 0 <= i < after.stale.len() implies (#[trigger] after.stale[i]).stale_since_version
        <= version && (after.stale[i].stale_since_version == version ==> wrote(
        all,
        after.stale[i].state_key,
    )) by {
        if i < state.stale.len() {
            assert(after.stale[i] == state.stale[i]);
        } else {
            assert(after.stale[i] == fresh[i - state.stale.len()]);
        }
    }
    assert forall|i: int, j: int| 0 <= i < j < after.stale.len() implies after.stale[i]
        != after.stale[j] by {
        if j < state.stale.len() {
            assert(after.stale[i] == state.stale[i]);
            assert(after.stale[j] == state.stale[j]);
        } else if i < state.stale.len() {
            assert(after.stale[i] == state.stale[i]);
            assert(after.stale[j] == fresh[j - state.stale.len()]);
            if state.stale[i].stale_since_version == version {
                assert(wrote(done, state.stale[i].state_key));
            }
        } else {
            assert(after.stale[i] == fresh[i - state.stale.len()]);
            assert(after.stale[j] == fresh[j - state.stale.len()]);
            assert(fresh[0].version == version);
            assert(fresh[1].version == state.latest[key].0);
        }
    }
}

/// The writes of one version, no two of them to one key, leave no record
/// twice.
pub proof fn lemma_value_set_keeps_records_distinct(
    state: LedgerState,
    version: Version,
    writes: Seq<(StateKey, Option<StateValue>)>,
)
    requires
        keys_written_once(writes),
        within_version(state, version, Seq::empty()),
        apply_value_set(state, version, writes).is_some(),
    ensures
        within_version(apply_value_set(state, version, writes).unwrap(), version, writes),
    decreases writes.len(),
{
    if writes.len() == 0 {
        assert(writes =~= Seq::empty());
    } else {
        let done = writes.drop_last();
        assert(keys_written_once(done));
        lemma_value_set_keeps_records_distinct(state, version, done);
        if wrote(done, writes.last().0@) {
            let i = choose|i: int| 0 <= i < done.len() && (#[trigger] done[i]).0@ == writes.last().0@;
            assert(writes[i].0@ != writes[writes.len() - 1].0@);
        }
        lemma_write_keeps_records_distinct(
            apply_value_set(state, version, done).unwrap(),
            version,
            done,
            writes.last(),
        );
        assert(done.push(writes.last()) =~= writes);
    }
}

/// The value sets of consecutive versions, none with two writes to one key,
/// leave no record twice.
pub proof fn lemma_value_sets_keep_records_distinct(
    state: LedgerState,
    first_version: Version,
    value_sets: Seq<ValueSet>,
)
    requires
        first_version + value_sets.len() <= u64::MAX,
        forall|at: int| 0 <= at < value_sets.len() ==> keys_written_once(#[trigger] value_sets[at]@),
        settled(state, first_version - 1),
        apply_value_sets(state, first_version, value_sets).is_some(),
    ensures
        settled(
            apply_value_sets(state, first_version, value_sets).unwrap().ledger,
            first_version + value_sets.len() - 1,
        ),
    decreases value_sets.len(),
{
    if value_sets.len() > 0 {
        assert forall|at: int| 0 <= at < value_sets.drop_last().len() implies keys_written_once(
            #[trigger] value_sets.drop_last()[at]@,
        ) by {
            assert(value_sets.drop_last()[at] == value_sets[at]);
        }
        lemma_value_sets_keep_records_distinct(state, first_version, value_sets.drop_last());
        let before = apply_value_sets(state, first_version, value_sets.drop_last()).unwrap();
        let version = (first_version + value_sets.len() - 1) as Version;
        assert(keys_written_once(value_sets[value_sets.len() - 1]@));
        lemma_value_set_keeps_records_distinct(before.ledger, version, value_sets.last()@);
    }
}

/// The stale-index records of a batch in which no version writes a key
/// twice are all different: none of the writes that need a record has two.
pub proof fn lemma_no_stale_record_twice(
    history: ValueHistory,
    base_usage: StateStorageUsage,
    first_version: Version,
    value_sets: Seq<ValueSet>,
)
    requires
        first_version + value_sets.len() <= u64::MAX,
        forall|at: int| 0 <= at < value_sets.len() ==> keys_written_once(#[trigger] value_sets[at]@),
        batch_outcome(history, base_usage, first_version, value_sets).is_some(),
    ensures
        records_distinct(
            batch_outcome(history, base_usage, first_version, value_sets).unwrap().ledger.stale,
        ),
{
    let start = LedgerState {
        usage: base_usage,
        latest: writes_before(history, first_version),
        stale: Seq::empty(),
    };
    assert forall|key: Seq<u8>| #[trigger] start.latest.dom().contains(key) implies start.latest[key].0
        <= first_version - 1 by {
        if first_version > 0 {
            lemma_write_as_of_bounded(history, key, (first_version - 1) as Version);
        }
    }
    lemma_value_sets_keep_records_distinct(start, first_version, value_sets);
}

/// The usage staged for a version is the usage of the version before it,
/// plus the live values that the version's writes bring, less the live
/// values that they replace.
///
/// `at` counts the versions of the batch from its first. The usage before
/// the first version is the usage on record there, and that of the empty
/// state where none is.
pub proof fn lemma_staged_usage_is_previous_plus_net_delta(
    ledger_db: LedgerDb,
    history: ValueHistory,
    value_sets: Seq<ValueSet>,
    first_version: Version,
    expected_usage: StateStorageUsage,
    at: int,
)
    requires
        0 <= at < value_sets.len(),
        first_version + value_sets.len() <= u64::MAX,
        stats_and_indices(
            ledger_db.usage_records(),
            history,
            value_sets,
            first_version,
            expected_usage,
        ).is_ok(),
    ensures
        ({
            let outcome = stats_and_indices(
                ledger_db.usage_records(),
                history,
                value_sets,
                first_version,
                expected_usage,
            ).unwrap();
            let base_usage = usage_before(ledger_db.usage_records(), first_version);
            let before = batch_outcome(history, base_usage, first_version, value_sets.take(at));
            let previous = if at == 0 {
                base_usage
            } else {
                outcome.usages[at - 1].1
            };
            let version = (first_version + at) as Version;
            let writes = value_sets[at]@;
            &&& before.is_some()
            &&& outcome.usages.len() == value_sets.len()
            &&& outcome.usages[at].0 == version
            &&& previous is Counted
            &&& outcome.usages[at].1 is Counted
            &&& outcome.usages[at].1.spec_items() == previous.spec_items() + items_added(writes)
                - items_superseded(before.unwrap().ledger.latest, version, writes)
            &&& outcome.usages[at].1.spec_bytes() == previous.spec_bytes() + bytes_added(writes)
                - bytes_superseded(before.unwrap().ledger.latest, version, writes)
        }),
{
    lemma_usage_records_counted(ledger_db);
    let base_usage = usage_before(ledger_db.usage_records(), first_version);
    lemma_usage_is_previous_plus_net_delta(history, base_usage, first_version, value_sets, at);
}

} // verus!
