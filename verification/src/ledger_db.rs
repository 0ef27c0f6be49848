//! The ledger store as far as the state store reads and writes it: one usage
//! record per version, and two of the three commit-progress markers.

use crate::error::StateStoreError;
use crate::types::{StateStorageUsage, Version};
use crate::version_table::{
    is_latest_before, latest_before, records_of, records_up_to, VersionTable,
};
use vstd::prelude::*;

verus! {

/// What is to be written to the ledger store in one piece.
pub struct SchemaBatch {
    pub version_data: Vec<(Version, StateStorageUsage)>,
}

impl SchemaBatch {
    /// An empty batch.
    pub fn new() -> (batch: Self)
        ensures
            batch.version_data@ == Seq::<(Version, StateStorageUsage)>::empty(),
    {
        SchemaBatch { version_data: Vec::new() }
    }
}

/// The ledger store's part in state accounting.
pub struct LedgerDb {
    pub version_data: VersionTable<StateStorageUsage>,
    /// The epoch that ended at a version, for each version that ended one.
    pub epoch_by_version: VersionTable<u64>,
    /// The last version that every store has fully applied.
    pub overall_commit_progress: Option<Version>,
    /// The last version that the ledger store has fully applied.
    pub ledger_commit_progress: Option<Version>,
}

/// The usage of the state at `version` by the records: zero before any
/// version, the record where there is one, and otherwise not found.
pub open spec fn spec_state_storage_usage(
    records: Map<Version, StateStorageUsage>,
    version: Option<Version>,
) -> Result<StateStorageUsage, StateStoreError> {
    match version {
        None => Ok(StateStorageUsage::spec_new(0, 0)),
        Some(version) => if records.dom().contains(version) {
            Ok(records[version])
        } else {
            Err(StateStoreError::VersionDataNotFound { version })
        },
    }
}

/// The records as they read: each with its usage as counts.
pub open spec fn counted_records(records: Map<Version, StateStorageUsage>) -> Map<
    Version,
    StateStorageUsage,
> {
    Map::new(
        |version: Version| records.dom().contains(version),
        |version: Version| records[version].spec_counted(),
    )
}

/// Whether every record is a usage in counts.
pub open spec fn all_counted(records: Map<Version, StateStorageUsage>) -> bool {
    forall|version: Version| #[trigger]
        records.dom().contains(version) ==> records[version] is Counted
}

/// Records in counts read as they are.
pub proof fn lemma_counted_records_read_alike(records: Map<Version, StateStorageUsage>)
    requires
        all_counted(records),
    ensures
        counted_records(records) == records,
{
    assert(counted_records(records) =~= records);
}

/// Whatever was put, the records read in counts.
pub proof fn lemma_usage_records_counted(ledger_db: LedgerDb)
    ensures
        all_counted(ledger_db.usage_records()),
{
}

/// Puts of usages in counts leave records in counts.
pub proof fn lemma_records_of_counted(puts: Seq<(Version, StateStorageUsage)>)
    requires
        forall|i: int| 0 <= i < puts.len() ==> (#[trigger] puts[i]).1 is Counted,
    ensures
        all_counted(records_of(puts)),
    decreases puts.len(),
{
    if puts.len() > 0 {
        assert forall|i: int| 0 <= i < puts.drop_last().len() implies (
        #[trigger] puts.drop_last()[i]).1 is Counted by {
            assert(puts.drop_last()[i] == puts[i]);
        }
        lemma_records_of_counted(puts.drop_last());
        assert(puts[puts.len() - 1].1 is Counted);
    }
}

impl LedgerDb {
    /// The usage recorded at each version. A record holds counts: whatever
    /// was put, it reads as a tracked usage.
    pub open spec fn usage_records(&self) -> Map<Version, StateStorageUsage> {
        counted_records(self.version_data.records())
    }

    /// The epoch that ended at each version that ended one.
    pub open spec fn epoch_endings(&self) -> Map<Version, u64> {
        self.epoch_by_version.records()
    }

    /// A ledger store without records or markers.
    pub fn new() -> (db: Self)
        ensures
            db.usage_records() == Map::<Version, StateStorageUsage>::empty(),
            db.epoch_endings() == Map::<Version, u64>::empty(),
            db.overall_commit_progress.is_none(),
            db.ledger_commit_progress.is_none(),
    {
        let db = LedgerDb {
            version_data: VersionTable::new(),
            epoch_by_version: VersionTable::new(),
            overall_commit_progress: None,
            ledger_commit_progress: None,
        };
        proof {
            assert(db.usage_records() =~= Map::<Version, StateStorageUsage>::empty());
        }
        db
    }

    /// The usage recorded at `version`, if any.
    pub fn get_version_data(&self, version: Version) -> (usage: Option<StateStorageUsage>)
        ensures
            usage == if self.usage_records().dom().contains(version) {
                Some(self.usage_records()[version])
            } else {
                None
            },
            usage matches Some(found) ==> found is Counted,
    {
        match self.version_data.get(version) {
            Some(usage) => Some(usage.counted()),
            None => None,
        }
    }

    /// Records the counts of `usage` at `version`, in place of a record
    /// already there.
    pub fn put_version_data(&mut self, version: Version, usage: StateStorageUsage)
        ensures
            final(self).usage_records() == old(self).usage_records().insert(
                version,
                usage.spec_counted(),
            ),
            final(self).epoch_by_version == old(self).epoch_by_version,
            final(self).overall_commit_progress == old(self).overall_commit_progress,
            final(self).ledger_commit_progress == old(self).ledger_commit_progress,
    {
        self.version_data.put(version, usage.counted());
        proof {
            assert(final(self).usage_records() =~= old(self).usage_records().insert(
                version,
                usage.spec_counted(),
            ));
        }
    }

    /// Writes a batch in one piece: its usage records overlay those there.
    pub fn write_schemas(&mut self, batch: SchemaBatch)
        ensures
            final(self).usage_records() == old(self).usage_records().union_prefer_right(
                counted_records(records_of(batch.version_data@)),
            ),
            final(self).epoch_by_version == old(self).epoch_by_version,
            final(self).overall_commit_progress == old(self).overall_commit_progress,
            final(self).ledger_commit_progress == old(self).ledger_commit_progress,
    {
        self.version_data.put_all(batch.version_data);
        proof {
            assert(final(self).usage_records() =~= old(self).usage_records().union_prefer_right(
                counted_records(records_of(batch.version_data@)),
            ));
        }
    }

    /// The latest epoch ending strictly before `version`, as the version
    /// that ended the epoch and the epoch.
    pub fn get_previous_epoch_ending(&self, version: Version) -> (ending: Option<(Version, u64)>)
        ensures
            ending == match latest_before(self.epoch_endings(), version) {
                Some(ended_at) => Some((ended_at, self.epoch_endings()[ended_at])),
                None => None,
            },
    {
        match self.epoch_by_version.latest_version_before(version) {
            Some(ended_at) => {
                proof {
                    assert(is_latest_before(self.epoch_endings(), version, ended_at));
                }
                match self.epoch_by_version.get(ended_at) {
                    Some(epoch) => Some((ended_at, epoch)),
                    None => None,
                }
            },
            None => None,
        }
    }

    /// The usage of the state at `version`; that of the empty state where no
    /// version is given.
    pub fn get_state_storage_usage(&self, version: Option<Version>) -> (usage: Result<
        StateStorageUsage,
        StateStoreError,
    >)
        ensures
            usage == spec_state_storage_usage(self.usage_records(), version),
    {
        match version {
            None => Ok(StateStorageUsage::zero()),
            Some(version) => match self.get_version_data(version) {
                Some(usage) => Ok(usage),
                None => Err(StateStoreError::VersionDataNotFound { version }),
            },
        }
    }

    /// Deletes what the ledger store recorded after `target_version` and sets
    /// its progress back to there.
    pub fn truncate(&mut self, target_version: Version)
        ensures
            final(self).usage_records() == records_up_to(old(self).usage_records(), target_version),
            final(self).ledger_commit_progress == Some(target_version),
            final(self).overall_commit_progress == old(self).overall_commit_progress,
            final(self).epoch_by_version == old(self).epoch_by_version,
    {
        self.version_data.truncate_after(target_version);
        self.ledger_commit_progress = Some(target_version);
        proof {
            assert(final(self).usage_records() =~= records_up_to(
                old(self).usage_records(),
                target_version,
            ));
        }
    }
}

} // verus!
