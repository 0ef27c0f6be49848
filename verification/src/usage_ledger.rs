//! Usage accounting and stale-index bookkeeping for a batch of writes.
//!
//! Each write of a batch is held against the latest write to the same key
//! before it. A tombstone is stale from birth. A live value that the write
//! replaces leaves the usage and goes stale at the write's version. A live
//! value that the write brings enters the usage.

use crate::error::StateStoreError;
use crate::index_laws::each_key_once_a_version;
use crate::io_pool::IoPool;
use crate::state_kv_db::{stale_views, value_as_of, StateKvDb, ValueHistory};
use crate::usage_laws::keys_written_once;
use crate::types::{
    bytes_clone, value_view, StaleIndexView, StaleStateValueIndex, StateKey, StateStorageUsage,
    StateValue, Version,
};
use crate::value_cache::{
    cache_entries, cache_insert, new_cache, write_view, LatestWrite, ValueCache,
};
use vstd::prelude::*;

verus! {

/// The writes of one version: keys with their new values (`None`: deleted).
pub type ValueSet = Vec<(StateKey, Option<StateValue>)>;

/// Where the accounting stands between two writes.
pub struct LedgerState {
    /// The usage so far.
    pub usage: StateStorageUsage,
    /// For each key, its latest write so far.
    pub latest: Map<Seq<u8>, LatestWrite>,
    /// The stale-index records so far, in the order they arose.
    pub stale: Seq<StaleIndexView>,
}

/// What a batch of writes comes to: the closing state of the accounting, and
/// the usage after each version.
pub struct BatchOutcome {
    pub ledger: LedgerState,
    pub usages: Seq<(Version, StateStorageUsage)>,
}

/// The bytes that a key with a live value accounts for.
pub open spec fn item_size(key: Seq<u8>, value: Seq<u8>) -> int {
    (key.len() + value.len()) as int
}

/// The live value, if any, that the latest write to `key` left.
pub open spec fn live_before(latest: Map<Seq<u8>, LatestWrite>, key: Seq<u8>) -> Option<
    (Version, Seq<u8>),
> {
    if latest.dom().contains(key) {
        match latest[key].1 {
            Some(value) => Some((latest[key].0, value)),
            None => None,
        }
    } else {
        None
    }
}

/// The stale-index records that the write of `value` to `key` at `version`
/// gives rise to: one for the write itself where it is a tombstone, then one
/// for the live value it replaces, where there is one.
pub open spec fn stale_records_of_write(
    latest: Map<Seq<u8>, LatestWrite>,
    version: Version,
    key: Seq<u8>,
    value: Option<Seq<u8>>,
) -> Seq<StaleIndexView> {
    let tombstone = if value.is_none() {
        seq![StaleIndexView { stale_since_version: version, version, state_key: key }]
    } else {
        Seq::empty()
    };
    match live_before(latest, key) {
        Some((old_version, _)) => tombstone.push(
            StaleIndexView { stale_since_version: version, version: old_version, state_key: key },
        ),
        None => tombstone,
    }
}

/// The usage after the write of `value` to `key`: less the live value it
/// replaces, plus the live value it brings. `None` where the counters cannot
/// hold a step of it.
pub open spec fn usage_after_write(
    usage: StateStorageUsage,
    latest: Map<Seq<u8>, LatestWrite>,
    key: Seq<u8>,
    value: Option<Seq<u8>>,
) -> Option<StateStorageUsage> {
    let removed = match live_before(latest, key) {
        Some((_, old_value)) => usage.spec_remove_item(item_size(key, old_value)),
        None => Some(usage),
    };
    match (removed, value) {
        (Some(usage), Some(value)) => usage.spec_add_item(item_size(key, value)),
        (Some(usage), None) => Some(usage),
        (None, _) => None,
    }
}

/// The accounting after the write of `value` to `key` at `version`.
pub open spec fn apply_write(
    state: LedgerState,
    version: Version,
    key: Seq<u8>,
    value: Option<Seq<u8>>,
) -> Option<LedgerState> {
    match usage_after_write(state.usage, state.latest, key, value) {
        Some(usage) => Some(
            LedgerState {
                usage,
                latest: state.latest.insert(key, (version, value)),
                stale: state.stale + stale_records_of_write(state.latest, version, key, value),
            },
        ),
        None => None,
    }
}

/// The accounting after the writes of one version, taken in order.
pub open spec fn apply_value_set(
    state: LedgerState,
    version: Version,
    writes: Seq<(StateKey, Option<StateValue>)>,
) -> Option<LedgerState>
    decreases writes.len(),
{
    if writes.len() == 0 {
        Some(state)
    } else {
        match apply_value_set(state, version, writes.drop_last()) {
            Some(before) => apply_write(
                before,
                version,
                writes.last().0@,
                value_view(writes.last().1),
            ),
            None => None,
        }
    }
}

/// The accounting after the value sets of consecutive versions from
/// `first_version` on, with the usage after each version.
pub open spec fn apply_value_sets(
    state: LedgerState,
    first_version: Version,
    value_sets: Seq<ValueSet>,
) -> Option<BatchOutcome>
    decreases value_sets.len(),
{
    if value_sets.len() == 0 {
        Some(BatchOutcome { ledger: state, usages: Seq::empty() })
    } else {
        match apply_value_sets(state, first_version, value_sets.drop_last()) {
            Some(before) => {
                let version = (first_version + value_sets.len() - 1) as Version;
                match apply_value_set(before.ledger, version, value_sets.last()@) {
                    Some(ledger) => Some(
                        BatchOutcome { ledger, usages: before.usages.push((version, ledger.usage)) },
                    ),
                    None => None,
                }
            },
            None => None,
        }
    }
}

/// What the raw store knows of `key` as of `base_version`: its latest live
/// value with the version of it, or nothing live as of `base_version`.
pub open spec fn write_as_of(
    history: ValueHistory,
    key: Seq<u8>,
    base_version: Version,
) -> LatestWrite {
    match value_as_of(history, key, base_version) {
        Some((version, value)) => (version, Some(value)),
        None => (base_version, None),
    }
}

/// Each key's latest write before a batch that starts at `first_version`:
/// none before the first version of all, and otherwise what the raw store
/// knows as of the version before.
pub open spec fn writes_before(history: ValueHistory, first_version: Version) -> Map<
    Seq<u8>,
    LatestWrite,
> {
    if first_version == 0 {
        Map::empty()
    } else {
        Map::total(|key: Seq<u8>| write_as_of(history, key, (first_version - 1) as Version))
    }
}

/// The accounting of a batch on top of the raw store's `history` and the
/// usage `base_usage` of the version before: `None` where the counters cannot
/// hold a step of it.
pub open spec fn batch_outcome(
    history: ValueHistory,
    base_usage: StateStorageUsage,
    first_version: Version,
    value_sets: Seq<ValueSet>,
) -> Option<BatchOutcome> {
    apply_value_sets(
        LedgerState {
            usage: base_usage,
            latest: writes_before(history, first_version),
            stale: Seq::empty(),
        },
        first_version,
        value_sets,
    )
}

/// Once the counters fail within a version's writes, they have failed for
/// the whole of them.
pub proof fn lemma_value_set_fails_for_good(
    state: LedgerState,
    version: Version,
    writes: Seq<(StateKey, Option<StateValue>)>,
    done: int,
)
    requires
        0 <= done <= writes.len(),
        apply_value_set(state, version, writes.subrange(0, done)).is_none(),
    ensures
        apply_value_set(state, version, writes).is_none(),
    decreases writes.len() - done,
{
    if done == writes.len() {
        assert(writes.subrange(0, done) =~= writes);
    } else {
        assert(writes.drop_last().subrange(0, done) =~= writes.subrange(0, done));
        lemma_value_set_fails_for_good(state, version, writes.drop_last(), done);
    }
}

/// Once the counters fail within a batch, they have failed for the whole of
/// it.
pub proof fn lemma_value_sets_fail_for_good(
    state: LedgerState,
    first_version: Version,
    value_sets: Seq<ValueSet>,
    done: int,
)
    requires
        0 <= done <= value_sets.len(),
        apply_value_sets(state, first_version, value_sets.subrange(0, done)).is_none(),
    ensures
        apply_value_sets(state, first_version, value_sets).is_none(),
    decreases value_sets.len() - done,
{
    if done == value_sets.len() {
        assert(value_sets.subrange(0, done) =~= value_sets);
    } else {
        assert(value_sets.drop_last().subrange(0, done) =~= value_sets.subrange(0, done));
        lemma_value_sets_fail_for_good(state, first_version, value_sets.drop_last(), done);
    }
}

/// How the cache stands to the accounting: it holds nothing that the
/// accounting does not, and before the first version of all it holds exactly
/// what the accounting does.
pub open spec fn cache_agrees(
    cached: Map<Seq<u8>, LatestWrite>,
    latest: Map<Seq<u8>, LatestWrite>,
    first_version: Version,
) -> bool {
    &&& forall|key: Seq<u8>| #[trigger]
        cached.dom().contains(key) ==> latest.dom().contains(key) && cached[key] == latest[key]
    &&& first_version == 0 ==> cached == latest
}

/// Whether the cache knows every key that the batch writes.
pub open spec fn cache_covers(
    cached: Map<Seq<u8>, LatestWrite>,
    value_sets: Seq<ValueSet>,
) -> bool {
    forall|at: int, within: int|
        0 <= at < value_sets.len() && 0 <= within < value_sets[at]@.len() ==> cached.dom().contains(
            #[trigger] value_sets[at]@[within].0@,
        )
}

/// Takes the live item `key` with a value of `value_size` bytes off the
/// usage.
fn remove_live_item(usage: &mut StateStorageUsage, key_size: usize, value_size: usize) -> (counted:
    bool)
    ensures
        counted == old(usage).spec_remove_item(key_size + value_size).is_some(),
        counted ==> Some(*final(usage)) == old(usage).spec_remove_item(key_size + value_size),
{
    match key_size.checked_add(value_size) {
        Some(size) => usage.remove_item(size),
        None => usage.is_untracked(),
    }
}

/// Counts the live item `key` with a value of `value_size` bytes into the
/// usage.
fn add_live_item(usage: &mut StateStorageUsage, key_size: usize, value_size: usize) -> (counted:
    bool)
    ensures
        counted == old(usage).spec_add_item(key_size + value_size).is_some(),
        counted ==> Some(*final(usage)) == old(usage).spec_add_item(key_size + value_size),
{
    match key_size.checked_add(value_size) {
        Some(size) => usage.add_item(size),
        None => usage.is_untracked(),
    }
}

/// The bytes of an optional value, copied.
fn value_bytes(value: &Option<StateValue>) -> (bytes: Option<Vec<u8>>)
    ensures
        match bytes {
            Some(bytes) => value_view(*value) == Some(bytes@),
            None => value_view(*value).is_none(),
        },
{
    match value {
        Some(value) => Some(bytes_clone(&value.bytes)),
        None => None,
    }
}

/// Whether `key` is among `keys`.
pub open spec fn has_key(keys: Seq<StateKey>, key: Seq<u8>) -> bool {
    exists|i: int| 0 <= i < keys.len() && (#[trigger] keys[i])@ == key
}

/// Tells whether `key` is among `keys`.
fn is_among(keys: &Vec<StateKey>, key: &StateKey) -> (found: bool)
    ensures
        found == has_key(keys@, key@),
{
    let mut i: usize = 0;
    while i < keys.len()
        invariant
            i <= keys@.len(),
            forall|j: int| 0 <= j < i ==> (#[trigger] keys@[j])@ != key@,
        decreases keys@.len() - i,
    {
        if keys[i].same_key(key) {
            return true;
        }
        i = i + 1;
    }
    false
}

/// The keys that a batch writes, each once.
fn batch_keys(value_sets: &Vec<ValueSet>) -> (keys: Vec<StateKey>)
    ensures
        forall|at: int, within: int|
            0 <= at < value_sets@.len() && 0 <= within < value_sets@[at]@.len() ==> has_key(
                keys@,
                #[trigger] value_sets@[at]@[within].0@,
            ),
        forall|i: int, j: int| 0 <= i < j < keys@.len() ==> keys@[i]@ != keys@[j]@,
{
    let mut keys: Vec<StateKey> = Vec::new();
    let mut at: usize = 0;
    while at < value_sets.len()
        invariant
            at <= value_sets@.len(),
            forall|a: int, b: int|
                0 <= a < at && 0 <= b < value_sets@[a]@.len() ==> has_key(
                    keys@,
                    #[trigger] value_sets@[a]@[b].0@,
                ),
            forall|i: int, j: int| 0 <= i < j < keys@.len() ==> keys@[i]@ != keys@[j]@,
        decreases value_sets@.len() - at,
    {
        let writes = &value_sets[at];
        let mut within: usize = 0;
        while within < writes.len()
            invariant
                at < value_sets@.len(),
                writes == value_sets@[at as int],
                within <= writes@.len(),
                forall|a: int, b: int|
                    0 <= a < at && 0 <= b < value_sets@[a]@.len() ==> has_key(
                        keys@,
                        #[trigger] value_sets@[a]@[b].0@,
                    ),
                forall|b: int| 0 <= b < within ==> has_key(keys@, #[trigger] writes@[b].0@),
                forall|i: int, j: int| 0 <= i < j < keys@.len() ==> keys@[i]@ != keys@[j]@,
            decreases writes@.len() - within,
        {
            if !is_among(&keys, &writes[within].0) {
                let ghost before = keys@;
                keys.push(writes[within].0.clone());
                proof {
                    assert forall|key: Seq<u8>| has_key(before, key) implies has_key(keys@, key) by {
                        let i = choose|i: int| 0 <= i < before.len() && (#[trigger] before[i])@ == key;
                        assert(keys@[i]@ == key);
                    }
                    assert(keys@[before.len() as int]@ == writes@[within as int].0@);
                    assert forall|i: int, j: int| 0 <= i < j < keys@.len() implies keys@[i]@
                        != keys@[j]@ by {
                        if j == before.len() {
                            assert(before[i]@ == keys@[i]@);
                        } else {
                            assert(before[i] == keys@[i] && before[j] == keys@[j]);
                        }
                    }
                }
            }
            within = within + 1;
        }
        at = at + 1;
    }
    keys
}

/// Tells whether no version of the batch writes a key twice.
pub fn each_key_once(value_sets: &Vec<ValueSet>) -> (once: bool)
    ensures
        once == each_key_once_a_version(value_sets@),
{
    let mut at: usize = 0;
    while at < value_sets.len()
        invariant
            at <= value_sets@.len(),
            forall|a: int| 0 <= a < at ==> keys_written_once(#[trigger] value_sets@[a]@),
        decreases value_sets@.len() - at,
    {
        let writes = &value_sets[at];
        let mut later: usize = 0;
        while later < writes.len()
            invariant
                at < value_sets@.len(),
                writes == value_sets@[at as int],
                later <= writes@.len(),
                forall|i: int, j: int| 0 <= i < j < later ==> writes@[i].0@ != writes@[j].0@,
            decreases writes@.len() - later,
        {
            let mut earlier: usize = 0;
            while earlier < later
                invariant
                    at < value_sets@.len(),
                    writes == value_sets@[at as int],
                    earlier <= later < writes@.len(),
                    forall|i: int| 0 <= i < earlier ==> writes@[i].0@ != writes@[later as int].0@,
                decreases later - earlier,
            {
                if writes[earlier].0.same_key(&writes[later].0) {
                    proof {
                        assert(!keys_written_once(value_sets@[at as int]@));
                    }
                    return false;
                }
                earlier = earlier + 1;
            }
            later = later + 1;
        }
        proof {
            assert(keys_written_once(writes@));
        }
        at = at + 1;
    }
    true
}

/// Copies the bytes of a cached write.
fn clone_write(write: &(Version, Option<Vec<u8>>)) -> (copy: (Version, Option<Vec<u8>>))
    ensures
        write_view(copy) == write_view(*write),
{
    match &write.1 {
        Some(bytes) => (write.0, Some(bytes_clone(bytes))),
        None => (write.0, None),
    }
}

/// Fills a cache with what the raw store knows, as of `base_version`, of
/// every key that the batch writes. The workers of `pool` look the keys up
/// side by side.
fn prime_cache(
    pool: &IoPool,
    kv_db: &StateKvDb,
    value_sets: &Vec<ValueSet>,
    base_version: Version,
) -> (cache: ValueCache)
    ensures
        cache_covers(cache_entries(cache), value_sets@),
        forall|key: Seq<u8>| #[trigger]
            cache_entries(cache).dom().contains(key) ==> cache_entries(cache)[key] == write_as_of(
                kv_db.history(),
                key,
                base_version,
            ),
{
    let keys = batch_keys(value_sets);
    let writes = pool.lookup_writes(kv_db, &keys, base_version);
    let mut cache = new_cache();
    let mut i: usize = 0;
    while i < keys.len()
        invariant
            i <= keys@.len() == writes@.len(),
            forall|j: int|
                0 <= j < keys@.len() ==> write_view(#[trigger] writes@[j]) == write_as_of(
                    kv_db.history(),
                    keys@[j]@,
                    base_version,
                ),
            forall|j: int| 0 <= j < i ==> cache_entries(cache).dom().contains((#[trigger] keys@[j])@),
            forall|key: Seq<u8>| #[trigger]
                cache_entries(cache).dom().contains(key) ==> cache_entries(cache)[key]
                    == write_as_of(kv_db.history(), key, base_version),
        decreases keys@.len() - i,
    {
        let ghost before = cache_entries(cache);
        let _ = cache_insert(&mut cache, bytes_clone(&keys[i].bytes), clone_write(&writes[i]));
        proof {
            assert forall|j: int| 0 <= j < i + 1 implies cache_entries(cache).dom().contains(
                (#[trigger] keys@[j])@,
            ) by {
                if j < i {
                    assert(before.dom().contains(keys@[j]@));
                }
            }
        }
        i = i + 1;
    }
    proof {
        assert forall|at: int, within: int|
            0 <= at < value_sets@.len() && 0 <= within < value_sets@[at]@.len() implies cache_entries(
            cache,
        ).dom().contains(#[trigger] value_sets@[at]@[within].0@) by {
            assert(has_key(keys@, value_sets@[at]@[within].0@));
            let j = choose|j: int|
                0 <= j < keys@.len() && (#[trigger] keys@[j])@ == value_sets@[at]@[within].0@;
            assert(cache_entries(cache).dom().contains(keys@[j]@));
        }
    }
    cache
}

/// The usage after each version of a batch and the stale-index records that
/// the batch gives rise to, on top of the raw store `kv_db` and the usage
/// `base_usage` of the version before `first_version`. The workers of `pool`
/// look up what the raw store knows of the batch's keys.
///
/// Fails, with `UsageOutOfRange`, exactly where the counters cannot hold a
/// step of the accounting.
pub fn compute_stats_and_indices(
    pool: &IoPool,
    kv_db: &StateKvDb,
    value_sets: &Vec<ValueSet>,
    first_version: Version,
    base_usage: StateStorageUsage,
) -> (computed: Result<(Vec<(Version, StateStorageUsage)>, Vec<StaleStateValueIndex>), StateStoreError>)
    requires
        first_version + value_sets@.len() <= u64::MAX,
    ensures
        match batch_outcome(kv_db.history(), base_usage, first_version, value_sets@) {
            Some(outcome) => {
                &&& computed matches Ok((usages, stale))
                &&& usages@ == outcome.usages
                &&& stale_views(stale@) == outcome.ledger.stale
            },
            None => computed == Err::<
                (Vec<(Version, StateStorageUsage)>, Vec<StaleStateValueIndex>),
                StateStoreError,
            >(StateStoreError::UsageOutOfRange),
        },
{
    let ghost start = LedgerState {
        usage: base_usage,
        latest: writes_before(kv_db.history(), first_version),
        stale: Seq::empty(),
    };
    let mut cache = if first_version > 0 {
        prime_cache(pool, kv_db, value_sets, first_version - 1)
    } else {
        new_cache()
    };
    let mut usage = base_usage;
    let mut usages: Vec<(Version, StateStorageUsage)> = Vec::new();
    let mut stale: Vec<StaleStateValueIndex> = Vec::new();
    let ghost mut outcome = BatchOutcome { ledger: start, usages: Seq::empty() };
    proof {
        assert(value_sets@.subrange(0, 0) =~= Seq::<ValueSet>::empty());
        assert(stale_views(stale@) =~= Seq::<StaleIndexView>::empty());
        assert(first_version == 0 ==> cache_entries(cache) =~= start.latest);
    }
    let mut at: usize = 0;
    while at < value_sets.len()
        invariant
            at <= value_sets@.len(),
            first_version + value_sets@.len() <= u64::MAX,
            batch_outcome(kv_db.history(), base_usage, first_version, value_sets@)
                == apply_value_sets(start, first_version, value_sets@),
            apply_value_sets(start, first_version, value_sets@.subrange(0, at as int)) == Some(
                outcome,
            ),
            usage == outcome.ledger.usage,
            usages@ == outcome.usages,
            stale_views(stale@) == outcome.ledger.stale,
            cache_agrees(cache_entries(cache), outcome.ledger.latest, first_version),
            first_version > 0 ==> cache_covers(cache_entries(cache), value_sets@),
        decreases value_sets@.len() - at,
    {
        let writes = &value_sets[at];
        let version: Version = first_version + at as u64;
        let ghost mut ledger = outcome.ledger;
        proof {
            assert(writes@.subrange(0, 0) =~= Seq::<(StateKey, Option<StateValue>)>::empty());
        }
        let mut within: usize = 0;
        while within < writes.len()
            invariant
                at < value_sets@.len(),
                writes == value_sets@[at as int],
                within <= writes@.len(),
                batch_outcome(kv_db.history(), base_usage, first_version, value_sets@)
                    == apply_value_sets(start, first_version, value_sets@),
                apply_value_set(outcome.ledger, version, writes@.subrange(0, within as int))
                    == Some(ledger),
                apply_value_sets(start, first_version, value_sets@.subrange(0, at as int)) == Some(
                    outcome,
                ),
                version == first_version + at,
                usage == ledger.usage,
                stale_views(stale@) == ledger.stale,
                cache_agrees(cache_entries(cache), ledger.latest, first_version),
                first_version > 0 ==> cache_covers(cache_entries(cache), value_sets@),
            decreases writes@.len() - within,
        {
            let key = &writes[within].0;
            let value = &writes[within].1;
            let ghost before = ledger;
            let ghost cached = cache_entries(cache);
            let ghost next_writes = writes@.subrange(0, within + 1);
            proof {
                assert(next_writes.drop_last() =~= writes@.subrange(0, within as int));
                assert(next_writes.last() == writes@[within as int]);
                assert(first_version > 0 ==> cached.dom().contains(
                    value_sets@[at as int]@[within as int].0@,
                ));
                assert(first_version > 0 ==> before.latest.dom().contains(key@));
                assert(live_before(cached, key@) == live_before(before.latest, key@));
            }
            if value.is_none() {
                stale.push(
                    StaleStateValueIndex {
                        stale_since_version: version,
                        version,
                        state_key: key.clone(),
                    },
                );
            }
            let previous = cache_insert(&mut cache, bytes_clone(&key.bytes), (version, value_bytes(value)));
            let mut counted = true;
            match previous {
                Some((old_version, Some(old_value))) => {
                    counted = remove_live_item(&mut usage, key.size(), old_value.len());
                    stale.push(
                        StaleStateValueIndex {
                            stale_since_version: version,
                            version: old_version,
                            state_key: key.clone(),
                        },
                    );
                },
                _ => {},
            }
            if counted {
                match value {
                    Some(value) => {
                        counted = add_live_item(&mut usage, key.size(), value.size());
                    },
                    None => {},
                }
            }
            if !counted {
                proof {
                    assert(apply_write(before, version, key@, value_view(*value)).is_none());
                    assert(apply_value_set(outcome.ledger, version, next_writes).is_none());
                    lemma_value_set_fails_for_good(outcome.ledger, version, writes@, within + 1);
                    let next_sets = value_sets@.subrange(0, at + 1);
                    assert(next_sets.drop_last() =~= value_sets@.subrange(0, at as int));
                    assert(next_sets.last() == writes);
                    assert(apply_value_sets(start, first_version, next_sets).is_none());
                    lemma_value_sets_fail_for_good(start, first_version, value_sets@, at + 1);
                }
                return Err(StateStoreError::UsageOutOfRange);
            }
            proof {
                let after = apply_write(before, version, key@, value_view(*value)).unwrap();
                ledger = after;
                assert(stale_views(stale@) =~= after.stale);
                assert(cache_entries(cache) == cached.insert(key@, (version, value_view(*value))));
                assert(first_version == 0 ==> cache_entries(cache) =~= after.latest);
                assert(first_version > 0 ==> cache_covers(cache_entries(cache), value_sets@)) by {
                    if first_version > 0 {
                        assert forall|a: int, b: int|
                            0 <= a < value_sets@.len() && 0 <= b < value_sets@[a]@.len() implies cache_entries(
                            cache,
                        ).dom().contains(#[trigger] value_sets@[a]@[b].0@) by {
                            assert(cached.dom().contains(value_sets@[a]@[b].0@));
                        }
                    }
                }
            }
            within = within + 1;
        }
        usages.push((version, usage));
        proof {
            assert(writes@.subrange(0, writes@.len() as int) =~= writes@);
            let next_sets = value_sets@.subrange(0, at + 1);
            assert(next_sets.drop_last() =~= value_sets@.subrange(0, at as int));
            assert(next_sets.last() == writes);
            outcome = BatchOutcome { ledger, usages: outcome.usages.push((version, ledger.usage)) };
        }
        at = at + 1;
    }
    proof {
        assert(value_sets@.subrange(0, value_sets@.len() as int) =~= value_sets@);
    }
    Ok((usages, stale))
}

} // verus!
