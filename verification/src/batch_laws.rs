//! Batches compose: what one batch stages, the same value sets stage in two
//! batches, the second committed on top of the first.

use crate::index_laws::{
    between_versions, each_key_once_a_version, history_after_sets, index_complete_since,
    lemma_start_knows_the_store, lemma_value_sets_keep_step, written_before,
};
use crate::state_kv_db::{value_as_of, ValueHistory};
use crate::types::{value_view, StaleIndexView, StateKey, StateStorageUsage, StateValue, Version};
use crate::usage_laws::{keys_written_once, lemma_closing_usage_counted};
use crate::usage_ledger::{
    apply_value_set, apply_value_sets, apply_write, batch_outcome, live_before, writes_before,
    BatchOutcome, LedgerState, ValueSet,
};
use vstd::prelude::*;

verus! {

/// Two states of the accounting that go on alike: they hold the same usage,
/// know the same live value of every key, and the records of the first are
/// `earlier` and then the records of the second.
pub open spec fn go_on_alike(first: LedgerState, second: LedgerState, earlier: Seq<StaleIndexView>) -> bool {
    &&& first.usage == second.usage
    &&& first.stale == earlier + second.stale
    &&& forall|key: Seq<u8>| #[trigger]
        live_before(first.latest, key) == live_before(second.latest, key)
}

/// States that go on alike go on alike after a write.
pub proof fn lemma_write_goes_on_alike(
    first: LedgerState,
    second: LedgerState,
    earlier: Seq<StaleIndexView>,
    version: Version,
    key: Seq<u8>,
    value: Option<Seq<u8>>,
)
    requires
        go_on_alike(first, second, earlier),
    ensures
        apply_write(first, version, key, value).is_some() == apply_write(
            second,
            version,
            key,
            value,
        ).is_some(),
        apply_write(first, version, key, value).is_some() ==> go_on_alike(
            apply_write(first, version, key, value).unwrap(),
            apply_write(second, version, key, value).unwrap(),
            earlier,
        ),
{
    assert(live_before(first.latest, key) == live_before(second.latest, key));
    if apply_write(first, version, key, value).is_some() {
        let after_first = apply_write(first, version, key, value).unwrap();
        let after_second = apply_write(second, version, key, value).unwrap();
        assert(after_first.stale =~= earlier + after_second.stale);
        assert forall|other: Seq<u8>| #[trigger]
            live_before(after_first.latest, other) == live_before(after_second.latest, other) by {
            if other != key {
                assert(live_before(first.latest, other) == live_before(second.latest, other));
            }
        }
    }
}

/// States that go on alike go on alike after the writes of a version.
pub proof fn lemma_value_set_goes_on_alike(
    first: LedgerState,
    second: LedgerState,
    earlier: Seq<StaleIndexView>,
    version: Version,
    writes: Seq<(StateKey, Option<StateValue>)>,
)
    requires
        go_on_alike(first, second, earlier),
    ensures
        apply_value_set(first, version, writes).is_some() == apply_value_set(
            second,
            version,
            writes,
        ).is_some(),
        apply_value_set(first, version, writes).is_some() ==> go_on_alike(
            apply_value_set(first, version, writes).unwrap(),
            apply_value_set(second, version, writes).unwrap(),
            earlier,
        ),
    decreases writes.len(),
{
    if writes.len() > 0 {
        lemma_value_set_goes_on_alike(first, second, earlier, version, writes.drop_last());
        if apply_value_set(first, version, writes.drop_last()).is_some() {
            lemma_write_goes_on_alike(
                apply_value_set(first, version, writes.drop_last()).unwrap(),
                apply_value_set(second, version, writes.drop_last()).unwrap(),
                earlier,
                version,
                writes.last().0@,
                value_view(writes.last().1),
            );
        }
    }
}

/// States that go on alike go on alike after the value sets of consecutive
/// versions, and leave the same usage after each version.
pub proof fn lemma_value_sets_go_on_alike(
    first: LedgerState,
    second: LedgerState,
    earlier: Seq<StaleIndexView>,
    first_version: Version,
    value_sets: Seq<ValueSet>,
)
    requires
        go_on_alike(first, second, earlier),
    ensures
        apply_value_sets(first, first_version, value_sets).is_some() == apply_value_sets(
            second,
            first_version,
            value_sets,
        ).is_some(),
        apply_value_sets(first, first_version, value_sets).is_some() ==> {
            &&& go_on_alike(
                apply_value_sets(first, first_version, value_sets).unwrap().ledger,
                apply_value_sets(second, first_version, value_sets).unwrap().ledger,
                earlier,
            )
            &&& apply_value_sets(first, first_version, value_sets).unwrap().usages
                == apply_value_sets(second, first_version, value_sets).unwrap().usages
        },
    decreases value_sets.len(),
{
    if value_sets.len() > 0 {
        lemma_value_sets_go_on_alike(first, second, earlier, first_version, value_sets.drop_last());
        if apply_value_sets(first, first_version, value_sets.drop_last()).is_some() {
            let version = (first_version + value_sets.len() - 1) as Version;
            lemma_value_set_goes_on_alike(
                apply_value_sets(first, first_version, value_sets.drop_last()).unwrap().ledger,
                apply_value_sets(second, first_version, value_sets.drop_last()).unwrap().ledger,
                earlier,
                version,
                value_sets.last()@,
            );
        }
    }
}

/// The accounting of value sets is the accounting of the first of them,
/// gone on with for the rest.
pub proof fn lemma_value_sets_go_on(
    state: LedgerState,
    first_version: Version,
    head: Seq<ValueSet>,
    tail: Seq<ValueSet>,
)
    requires
        first_version + head.len() + tail.len() <= u64::MAX,
    ensures
        apply_value_sets(state, first_version, head + tail) == match apply_value_sets(
            state,
            first_version,
            head,
        ) {
            Some(first) => match apply_value_sets(
                first.ledger,
                (first_version + head.len()) as Version,
                tail,
            ) {
                Some(rest) => Some(
                    BatchOutcome { ledger: rest.ledger, usages: first.usages + rest.usages },
                ),
                None => None,
            },
            None => None,
        },
    decreases tail.len(),
{
    if tail.len() == 0 {
        assert(head + tail =~= head);
        if apply_value_sets(state, first_version, head).is_some() {
            let first = apply_value_sets(state, first_version, head).unwrap();
            assert(first.usages + Seq::<(Version, StateStorageUsage)>::empty() =~= first.usages);
        }
    } else {
        lemma_value_sets_go_on(state, first_version, head, tail.drop_last());
        assert((head + tail).drop_last() =~= head + tail.drop_last());
        assert((head + tail).last() == tail.last());
        if apply_value_sets(state, first_version, head).is_some() {
            let first = apply_value_sets(state, first_version, head).unwrap();
            let from = (first_version + head.len()) as Version;
            if apply_value_sets(first.ledger, from, tail.drop_last()).is_some() {
                let before = apply_value_sets(first.ledger, from, tail.drop_last()).unwrap();
                let version = (first_version + (head + tail).len() - 1) as Version;
                assert(version == (from + tail.len() - 1) as Version);
                if apply_value_set(before.ledger, version, tail.last()@).is_some() {
                    let ledger = apply_value_set(before.ledger, version, tail.last()@).unwrap();
                    assert(first.usages + before.usages.push((version, ledger.usage)) =~= (
                    first.usages + before.usages).push((version, ledger.usage)));
                }
            }
        }
    }
}

/// What one batch stages, the same value sets stage in two batches.
///
/// Where the store holds no write at the batch's versions or after, and no
/// version writes a key twice, the value sets split at `split` and
/// committed as two batches, the second on the store with the writes of
/// the first and from the usage that the first closed with, stage the
/// usages and the stale-index records of the one batch, in its order.
pub proof fn lemma_two_batches_stage_what_one_does(
    history: ValueHistory,
    base_usage: StateStorageUsage,
    first_version: Version,
    value_sets: Seq<ValueSet>,
    split: int,
)
    requires
        0 < split < value_sets.len(),
        first_version + value_sets.len() <= u64::MAX,
        each_key_once_a_version(value_sets),
        written_before(history, first_version as int),
        batch_outcome(history, base_usage, first_version, value_sets).is_some(),
    ensures
        batch_outcome(history, base_usage, first_version, value_sets.take(split)).is_some(),
        ({
            let whole = batch_outcome(history, base_usage, first_version, value_sets).unwrap();
            let first = batch_outcome(
                history,
                base_usage,
                first_version,
                value_sets.take(split),
            ).unwrap();
            let second = batch_outcome(
                history_after_sets(history, first_version, value_sets.take(split)),
                first.usages.last().1,
                (first_version + split) as Version,
                value_sets.skip(split),
            );
            &&& first.usages.len() == split
            &&& second.is_some()
            &&& whole.usages == first.usages + second.unwrap().usages
            &&& whole.ledger.stale == first.ledger.stale + second.unwrap().ledger.stale
            &&& whole.ledger.usage == second.unwrap().ledger.usage
        }),
{
    let start = LedgerState {
        usage: base_usage,
        latest: writes_before(history, first_version),
        stale: Seq::empty(),
    };
    let head = value_sets.take(split);
    let tail = value_sets.skip(split);
    let from = (first_version + split) as Version;
    assert(head + tail =~= value_sets);
    lemma_value_sets_go_on(start, first_version, head, tail);
    let first = apply_value_sets(start, first_version, head).unwrap();
    lemma_closing_usage_counted(start, first_version, head);

    // After the first batch the accounting knows what the store then gives.
    let none = Seq::<StaleIndexView>::empty();
    assert(none + start.stale =~= none);
    lemma_start_knows_the_store(history, base_usage, first_version);
    assert(index_complete_since(history, none, first_version));
    assert forall|at: int| 0 <= at < head.len() implies keys_written_once(#[trigger] head[at]@) by {
        assert(head[at] == value_sets[at]);
    }
    lemma_value_sets_keep_step(history, none, first_version, start, first_version, head);
    let history_between = history_after_sets(history, first_version, head);
    assert(between_versions(history_between, none, first_version, first.ledger, from as int));
    lemma_start_knows_the_store(history_between, first.ledger.usage, from);

    // A second batch opens as the first closed, but for the records.
    let reopened = LedgerState {
        usage: first.usages.last().1,
        latest: writes_before(history_between, from),
        stale: Seq::empty(),
    };
    assert(first.ledger.stale + reopened.stale =~= first.ledger.stale);
    assert forall|key: Seq<u8>| #[trigger]
        live_before(first.ledger.latest, key) == live_before(reopened.latest, key) by {
        let version = (from - 1) as Version;
        assert(live_before(first.ledger.latest, key) == value_as_of(
            history_between,
            key,
            version,
        ));
        assert(live_before(reopened.latest, key) == value_as_of(
            history_between,
            key,
            version,
        ));
    }
    lemma_value_sets_go_on_alike(first.ledger, reopened, first.ledger.stale, from, tail);
}

} // verus!
