//! A table with one row per version, as both stores keep for their
//! per-version records.

use crate::types::Version;
use vstd::prelude::*;

verus! {

/// The records that a sequence of puts leaves: a later put at the same
/// version replaces an earlier one.
pub open spec fn records_of<T>(rows: Seq<(Version, T)>) -> Map<Version, T>
    decreases rows.len(),
{
    if rows.len() == 0 {
        Map::empty()
    } else {
        records_of(rows.drop_last()).insert(rows.last().0, rows.last().1)
    }
}

/// The records at or before `version`.
pub open spec fn records_up_to<T>(records: Map<Version, T>, version: Version) -> Map<Version, T> {
    Map::new(|v: Version| records.dom().contains(v) && v <= version, |v: Version| records[v])
}

/// `found` is the latest version with a record strictly before `next_version`.
pub open spec fn is_latest_before<T>(
    records: Map<Version, T>,
    next_version: Version,
    found: Version,
) -> bool {
    &&& found < next_version
    &&& records.dom().contains(found)
    &&& forall|v: Version| found < v < next_version ==> !records.dom().contains(v)
}

/// The latest version with a record strictly before `next_version`, if there
/// is one.
pub open spec fn latest_before<T>(records: Map<Version, T>, next_version: Version) -> Option<
    Version,
> {
    if exists|found: Version| is_latest_before(records, next_version, found) {
        Some(choose|found: Version| is_latest_before(records, next_version, found))
    } else {
        None
    }
}

/// Where `found` is the latest version with a record before `next_version`,
/// `latest_before` is `found`.
pub proof fn lemma_latest_before_found<T>(
    records: Map<Version, T>,
    next_version: Version,
    found: Version,
)
    requires
        is_latest_before(records, next_version, found),
    ensures
        latest_before(records, next_version) == Some(found),
{
    let chosen = choose|f: Version| is_latest_before(records, next_version, f);
    assert(is_latest_before(records, next_version, chosen));
    if chosen < found {
        assert(!records.dom().contains(found));
    } else if found < chosen {
        assert(!records.dom().contains(chosen));
    }
}

/// Where no version before `next_version` has a record, `latest_before` is
/// `None`.
pub proof fn lemma_latest_before_none<T>(records: Map<Version, T>, next_version: Version)
    requires
        forall|v: Version| v < next_version ==> !records.dom().contains(v),
    ensures
        latest_before(records, next_version).is_none(),
{
}

/// Rows put after others overlay them in the records.
pub proof fn lemma_records_concat<T>(rows: Seq<(Version, T)>, more: Seq<(Version, T)>)
    ensures
        records_of(rows + more) == records_of(rows).union_prefer_right(records_of(more)),
    decreases more.len(),
{
    if more.len() == 0 {
        assert(rows + more =~= rows);
        assert(records_of(rows).union_prefer_right(records_of(more)) =~= records_of(rows));
    } else {
        lemma_records_concat(rows, more.drop_last());
        assert((rows + more).drop_last() =~= rows + more.drop_last());
        assert((rows + more).last() == more.last());
        assert(records_of(rows + more) =~= records_of(rows).union_prefer_right(records_of(more)));
    }
}

/// One record per version.
pub struct VersionTable<T> {
    pub rows: Vec<(Version, T)>,
}

impl<T: Copy> VersionTable<T> {
    /// The record at each version.
    pub open spec fn records(&self) -> Map<Version, T> {
        records_of(self.rows@)
    }

    /// A table without records.
    pub fn new() -> (table: Self)
        ensures
            table.records() == Map::<Version, T>::empty(),
    {
        VersionTable { rows: Vec::new() }
    }

    /// The record at `version`, if any.
    pub fn get(&self, version: Version) -> (record: Option<T>)
        ensures
            record == if self.records().dom().contains(version) {
                Some(self.records()[version])
            } else {
                None
            },
    {
        let mut found: Option<T> = None;
        let mut i: usize = 0;
        while i < self.rows.len()
            invariant
                i <= self.rows@.len(),
                found == if records_of(self.rows@.subrange(0, i as int)).dom().contains(version) {
                    Some(records_of(self.rows@.subrange(0, i as int))[version])
                } else {
                    None
                },
            decreases self.rows@.len() - i,
        {
            proof {
                let next = self.rows@.subrange(0, i + 1);
                assert(next.drop_last() =~= self.rows@.subrange(0, i as int));
                assert(records_of(next) == records_of(self.rows@.subrange(0, i as int)).insert(
                    next.last().0,
                    next.last().1,
                ));
            }
            if self.rows[i].0 == version {
                found = Some(self.rows[i].1);
            }
            i = i + 1;
        }
        proof {
            assert(self.rows@.subrange(0, self.rows@.len() as int) =~= self.rows@);
        }
        found
    }

    /// Puts `record` at `version`, in place of a record already there.
    pub fn put(&mut self, version: Version, record: T)
        ensures
            final(self).records() == old(self).records().insert(version, record),
    {
        self.rows.push((version, record));
        proof {
            assert(final(self).rows@.drop_last() =~= old(self).rows@);
        }
    }

    /// Puts `rows` in their order, each in place of a record already there.
    pub fn put_all(&mut self, rows: Vec<(Version, T)>)
        ensures
            final(self).records() == old(self).records().union_prefer_right(records_of(rows@)),
    {
        let mut rows = rows;
        proof {
            lemma_records_concat(self.rows@, rows@);
        }
        self.rows.append(&mut rows);
    }

    /// The latest version with a record strictly before `next_version`.
    pub fn latest_version_before(&self, next_version: Version) -> (found: Option<Version>)
        ensures
            found == latest_before(self.records(), next_version),
    {
        let mut best: Option<Version> = None;
        let mut i: usize = 0;
        while i < self.rows.len()
            invariant
                i <= self.rows@.len(),
                match best {
                    Some(found) => is_latest_before(
                        records_of(self.rows@.subrange(0, i as int)),
                        next_version,
                        found,
                    ),
                    None => forall|v: Version|
                        v < next_version ==> !records_of(
                            self.rows@.subrange(0, i as int),
                        ).dom().contains(v),
                },
            decreases self.rows@.len() - i,
        {
            proof {
                let next = self.rows@.subrange(0, i + 1);
                assert(next.drop_last() =~= self.rows@.subrange(0, i as int));
                assert(records_of(next) == records_of(self.rows@.subrange(0, i as int)).insert(
                    next.last().0,
                    next.last().1,
                ));
            }
            let version = self.rows[i].0;
            if version < next_version {
                let later = match best {
                    Some(found) => found < version,
                    None => true,
                };
                if later {
                    best = Some(version);
                }
            }
            i = i + 1;
        }
        proof {
            assert(self.rows@.subrange(0, self.rows@.len() as int) =~= self.rows@);
            match best {
                Some(found) => lemma_latest_before_found(self.records(), next_version, found),
                None => lemma_latest_before_none(self.records(), next_version),
            }
        }
        best
    }

    /// Deletes the records after `version`.
    pub fn truncate_after(&mut self, version: Version)
        ensures
            final(self).records() == records_up_to(old(self).records(), version),
    {
        let mut kept: Vec<(Version, T)> = Vec::new();
        let mut i: usize = 0;
        proof {
            assert(records_of(kept@) =~= records_up_to(
                records_of(self.rows@.subrange(0, 0)),
                version,
            ));
        }
        while i < self.rows.len()
            invariant
                i <= self.rows@.len(),
                records_of(kept@) == records_up_to(
                    records_of(self.rows@.subrange(0, i as int)),
                    version,
                ),
            decreases self.rows@.len() - i,
        {
            let ghost kept_before = kept@;
            proof {
                let next = self.rows@.subrange(0, i + 1);
                assert(next.drop_last() =~= self.rows@.subrange(0, i as int));
                assert(records_of(next) == records_of(self.rows@.subrange(0, i as int)).insert(
                    next.last().0,
                    next.last().1,
                ));
            }
            if self.rows[i].0 <= version {
                kept.push(self.rows[i]);
                proof {
                    assert(kept@.drop_last() =~= kept_before);
                }
            }
            proof {
                assert(records_of(kept@) =~= records_up_to(
                    records_of(self.rows@.subrange(0, i + 1)),
                    version,
                ));
            }
            i = i + 1;
        }
        proof {
            assert(self.rows@.subrange(0, self.rows@.len() as int) =~= self.rows@);
        }
        self.rows = kept;
    }
}

} // verus!
