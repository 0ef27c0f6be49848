//! Reconciling the stores at startup. The overall commit progress is written
//! last and is the truth: a store that ran ahead of it is cut back to it.

use crate::error::StateStoreError;
use crate::ledger_db::LedgerDb;
use crate::state_kv_db::{history_up_to, stale_up_to, StateKvDb};
use crate::state_kv_pruner::index_consistent;
use crate::state_store::StateStore;
use crate::types::Version;
use crate::version_table::records_up_to;
use vstd::prelude::*;

verus! {

/// The most versions that a store may be ahead of the overall progress where
/// the caller asks for the bound.
pub const MAX_COMMIT_PROGRESS_DIFFERENCE: u64 = 100000;

/// Whether a store at `progress` is further ahead of `overall` than the
/// caller tolerates.
pub open spec fn too_far_ahead(progress: Version, overall: Version, bounded: bool) -> bool {
    bounded && progress - overall > MAX_COMMIT_PROGRESS_DIFFERENCE
}

/// The first thing wrong with the markers, if anything is: a store's marker
/// missing beside the overall one, a store behind the overall progress, or,
/// where `bounded`, a store too far ahead of it. The ledger store is looked
/// at before the raw store, and for each fault both stores before the next
/// fault.
pub open spec fn progress_fault(
    overall: Option<Version>,
    ledger: Option<Version>,
    state_kv: Option<Version>,
    bounded: bool,
) -> Option<StateStoreError> {
    match (overall, ledger, state_kv) {
        (None, _, _) => None,
        (Some(_), None, _) => Some(StateStoreError::CommitProgressMissing),
        (Some(overall), Some(ledger), _) if ledger < overall => Some(
            StateStoreError::CommitProgressBehind {
                progress: ledger,
                overall_commit_progress: overall,
            },
        ),
        (Some(_), Some(_), None) => Some(StateStoreError::CommitProgressMissing),
        (Some(overall), Some(_), Some(state_kv)) if state_kv < overall => Some(
            StateStoreError::CommitProgressBehind {
                progress: state_kv,
                overall_commit_progress: overall,
            },
        ),
        (Some(overall), Some(ledger), Some(state_kv)) => if too_far_ahead(ledger, overall, bounded) {
            Some(
                StateStoreError::CommitProgressTooFarAhead {
                    progress: ledger,
                    overall_commit_progress: overall,
                },
            )
        } else if too_far_ahead(state_kv, overall, bounded) {
            Some(
                StateStoreError::CommitProgressTooFarAhead {
                    progress: state_kv,
                    overall_commit_progress: overall,
                },
            )
        } else {
            None
        },
    }
}

/// Whether reconciling cuts the ledger store back: it is ahead of the
/// overall progress, the raw store is not behind it, and the ledger store is
/// not too far ahead.
pub open spec fn cuts_ledger(
    overall: Option<Version>,
    ledger: Option<Version>,
    state_kv: Option<Version>,
    bounded: bool,
) -> bool {
    match (overall, ledger, state_kv) {
        (Some(overall), Some(ledger), Some(state_kv)) => overall < ledger && overall <= state_kv
            && !too_far_ahead(ledger, overall, bounded),
        _ => false,
    }
}

/// Whether reconciling cuts the raw store back: it is ahead of the overall
/// progress and nothing is wrong with the markers.
pub open spec fn cuts_state_kv(
    overall: Option<Version>,
    ledger: Option<Version>,
    state_kv: Option<Version>,
    bounded: bool,
) -> bool {
    match (overall, state_kv) {
        (Some(overall), Some(state_kv)) => overall < state_kv && progress_fault(
            Some(overall),
            ledger,
            Some(state_kv),
            bounded,
        ).is_none(),
        _ => false,
    }
}

/// How the stores after a reconciliation stand to the stores before it: the
/// overall progress is as it was, and each store is cut back to it or is as
/// it was.
pub open spec fn reconciled(
    before_ledger: LedgerDb,
    before_state_kv: StateKvDb,
    after_ledger: LedgerDb,
    after_state_kv: StateKvDb,
    bounded: bool,
) -> bool {
    &&& after_ledger.overall_commit_progress == before_ledger.overall_commit_progress
    &&& if cuts_ledger(
        before_ledger.overall_commit_progress,
        before_ledger.ledger_commit_progress,
        before_state_kv.commit_progress,
        bounded,
    ) {
        &&& after_ledger.usage_records() == records_up_to(
            before_ledger.usage_records(),
            before_ledger.overall_commit_progress.unwrap(),
        )
        &&& after_ledger.ledger_commit_progress == before_ledger.overall_commit_progress
    } else {
        after_ledger == before_ledger
    }
    &&& if cuts_state_kv(
        before_ledger.overall_commit_progress,
        before_ledger.ledger_commit_progress,
        before_state_kv.commit_progress,
        bounded,
    ) {
        &&& after_state_kv.history() == history_up_to(
            before_state_kv.history(),
            before_ledger.overall_commit_progress.unwrap(),
        )
        &&& after_state_kv.stale_records() == stale_up_to(
            before_state_kv.stale_records(),
            before_ledger.overall_commit_progress.unwrap(),
        )
        &&& after_state_kv.commit_progress == before_ledger.overall_commit_progress
    } else {
        after_state_kv == before_state_kv
    }
}

/// Tells what is wrong with the markers of the two stores, if anything is:
/// the fault that a reconciliation, bounded or not, must not be started on.
pub fn commit_progress_fault(ledger_db: &LedgerDb, state_kv_db: &StateKvDb, bounded: bool) -> (fault:
    Option<StateStoreError>)
    ensures
        fault == progress_fault(
            ledger_db.overall_commit_progress,
            ledger_db.ledger_commit_progress,
            state_kv_db.commit_progress,
            bounded,
        ),
{
    let overall_commit_progress = match ledger_db.overall_commit_progress {
        Some(version) => version,
        None => {
            return None;
        },
    };
    let ledger_commit_progress = match ledger_db.ledger_commit_progress {
        Some(version) => version,
        None => {
            return Some(StateStoreError::CommitProgressMissing);
        },
    };
    if ledger_commit_progress < overall_commit_progress {
        return Some(
            StateStoreError::CommitProgressBehind {
                progress: ledger_commit_progress,
                overall_commit_progress,
            },
        );
    }
    let state_kv_commit_progress = match state_kv_db.commit_progress {
        Some(version) => version,
        None => {
            return Some(StateStoreError::CommitProgressMissing);
        },
    };
    if state_kv_commit_progress < overall_commit_progress {
        return Some(
            StateStoreError::CommitProgressBehind {
                progress: state_kv_commit_progress,
                overall_commit_progress,
            },
        );
    }
    if bounded && ledger_commit_progress - overall_commit_progress
        > MAX_COMMIT_PROGRESS_DIFFERENCE {
        return Some(
            StateStoreError::CommitProgressTooFarAhead {
                progress: ledger_commit_progress,
                overall_commit_progress,
            },
        );
    }
    if bounded && state_kv_commit_progress - overall_commit_progress
        > MAX_COMMIT_PROGRESS_DIFFERENCE {
        return Some(
            StateStoreError::CommitProgressTooFarAhead {
                progress: state_kv_commit_progress,
                overall_commit_progress,
            },
        );
    }
    None
}

impl StateStore {
    /// Brings both stores to the overall commit progress: a store ahead of it
    /// loses what it recorded after it, and its marker is set back. Without
    /// an overall progress nothing is done.
    ///
    /// The markers must be without fault: beside an overall progress each
    /// store has its marker, no store is behind it, and (where
    /// `crash_if_difference_is_too_large`) none is more than
    /// `MAX_COMMIT_PROGRESS_DIFFERENCE` versions ahead of it.
    /// `commit_progress_fault` tells.
    pub fn sync_commit_progress(
        ledger_db: &mut LedgerDb,
        state_kv_db: &mut StateKvDb,
        crash_if_difference_is_too_large: bool,
    )
        requires
            progress_fault(
                old(ledger_db).overall_commit_progress,
                old(ledger_db).ledger_commit_progress,
                old(state_kv_db).commit_progress,
                crash_if_difference_is_too_large,
            ).is_none(),
        ensures
            final(ledger_db).epoch_by_version == old(ledger_db).epoch_by_version,
            final(state_kv_db).restore_progress == old(state_kv_db).restore_progress,
            reconciled(
                *old(ledger_db),
                *old(state_kv_db),
                *final(ledger_db),
                *final(state_kv_db),
                crash_if_difference_is_too_large,
            ),
            index_consistent(old(state_kv_db).history(), old(state_kv_db).stale_records())
                ==> index_consistent(
                final(state_kv_db).history(),
                final(state_kv_db).stale_records(),
            ),
    {
        match (
            ledger_db.overall_commit_progress,
            ledger_db.ledger_commit_progress,
            state_kv_db.commit_progress,
        ) {
            (Some(overall_commit_progress), Some(ledger_commit_progress), Some(state_kv_commit_progress)) => {
                if ledger_commit_progress != overall_commit_progress {
                    ledger_db.truncate(overall_commit_progress);
                }
                if state_kv_commit_progress != overall_commit_progress {
                    state_kv_db.truncate(overall_commit_progress);
                }
            },
            // Without an overall progress there is nothing to reconcile.
            _ => {},
        }
    }
}

/// After a reconciliation that found no fault, all three markers stand at
/// the overall commit progress, and neither store holds anything recorded
/// after it.
pub proof fn lemma_markers_converge(
    before_ledger: LedgerDb,
    before_state_kv: StateKvDb,
    after_ledger: LedgerDb,
    after_state_kv: StateKvDb,
    bounded: bool,
)
    requires
        before_ledger.overall_commit_progress.is_some(),
        progress_fault(
            before_ledger.overall_commit_progress,
            before_ledger.ledger_commit_progress,
            before_state_kv.commit_progress,
            bounded,
        ).is_none(),
        reconciled(before_ledger, before_state_kv, after_ledger, after_state_kv, bounded),
    ensures
        after_ledger.ledger_commit_progress == before_ledger.overall_commit_progress,
        after_state_kv.commit_progress == before_ledger.overall_commit_progress,
        after_ledger.overall_commit_progress == before_ledger.overall_commit_progress,
        forall|version: Version|
            after_ledger.usage_records().dom().contains(version) ==> before_ledger.usage_records().dom().contains(
                version,
            ) && (before_ledger.ledger_commit_progress != before_ledger.overall_commit_progress
                ==> version <= before_ledger.overall_commit_progress.unwrap()),
        forall|at: (Seq<u8>, Version)|
            after_state_kv.history().dom().contains(at) ==> before_state_kv.history().dom().contains(
                at,
            ) && (before_state_kv.commit_progress != before_ledger.overall_commit_progress ==> at.1
                <= before_ledger.overall_commit_progress.unwrap()),
{
}

} // verus!
