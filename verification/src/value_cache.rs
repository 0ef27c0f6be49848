//! The cache of each key's latest write, held in a concurrent map.

use crate::types::Version;
use dashmap::DashMap;
use std::collections::hash_map::RandomState;
use vstd::prelude::*;

verus! {

/// `dashmap::DashMap`, a map that many threads may read and write at once.
/// Nothing inside it is visible here: what it holds has a name below.
#[verifier::external_type_specification]
#[verifier::external_body]
#[verifier::reject_recursive_types(K)]
#[verifier::reject_recursive_types(V)]
#[verifier::reject_recursive_types(S)]
pub struct ExDashMap<K, V, S>(DashMap<K, V, S>);

/// The cache: from a key's bytes to the version and the value of its latest
/// write.
pub type ValueCache = DashMap<Vec<u8>, (Version, Option<Vec<u8>>), RandomState>;

/// A key's latest write as plain values: the version it was made at, and the
/// value (`None`: a tombstone, or a key that was never written).
pub type LatestWrite = (Version, Option<Seq<u8>>);

/// What a cache holds: for each key in it, that key's latest write.
pub uninterp spec fn cache_entries(cache: ValueCache) -> Map<Seq<u8>, LatestWrite>;

/// The plain value of a cached write.
pub open spec fn write_view(write: (Version, Option<Vec<u8>>)) -> LatestWrite {
    (
        write.0,
        match write.1 {
            Some(bytes) => Some(bytes@),
            None => None,
        },
    )
}

/// The plain value of what a cache handed back.
pub open spec fn previous_view(previous: Option<(Version, Option<Vec<u8>>)>) -> Option<
    LatestWrite,
> {
    match previous {
        Some(write) => Some(write_view(write)),
        None => None,
    }
}

/// The contents of a cache that holds nothing.
pub open spec fn no_entries() -> Map<Seq<u8>, LatestWrite> {
    Map::empty()
}

/// `DashMap::new`: the new map holds nothing.
#[verifier::external_body]
pub(crate) fn new_cache() -> (cache: ValueCache)
    ensures
        cache_entries(cache) == no_entries(),
{
    DashMap::new()
}

/// `DashMap::insert`: afterwards the map holds `write` under `key` and is
/// otherwise as before; the result is what it held under `key` before, if
/// anything.
#[verifier::external_body]
pub(crate) fn cache_insert(
    cache: &mut ValueCache,
    key: Vec<u8>,
    write: (Version, Option<Vec<u8>>),
) -> (previous: Option<(Version, Option<Vec<u8>>)>)
    ensures
        cache_entries(*final(cache)) == cache_entries(*old(cache)).insert(key@, write_view(write)),
        previous_view(previous) == if cache_entries(*old(cache)).dom().contains(key@) {
            Some(cache_entries(*old(cache))[key@])
        } else {
            None
        },
{
    cache.insert(key, write)
}

} // verus!
