use vstd::prelude::*;
use crate::age::current_epoch_seconds;
use crate::age::epoch_in_range;
use crate::classify::classify;
use crate::classify::stale_of;
use crate::collect::collect_records;
use crate::collect::records_of;
use crate::error::BranchError;
use crate::record::BranchRecord;
use crate::record::BranchRecordModel;
use crate::record::RawBranch;

verus! {

/// The fixed inputs of one cleanup run: the protected names, the staleness
/// threshold in whole days, whether the run is a dry run, and the reference
/// time the run classifies against.
pub struct CleanupParams {
    pub protected: Vec<String>,
    pub threshold_days: u32,
    pub dry_run: bool,
    pub now: i64,
}

/// The states of the deletion workflow.
pub enum CleanupState {
    /// Waiting for the branch enumeration of the repository.
    Collecting,
    /// The stale candidates were computed and must be shown to the caller.
    Reporting { stale: Vec<BranchRecord> },
    /// The caller was asked to confirm the deletion.
    Confirming { stale: Vec<BranchRecord> },
    /// Deletion is under way; `done` branches of `stale` were deleted so far.
    Deleting { stale: Vec<BranchRecord>, done: usize },
    /// The run ended; `deleted` branches were deleted.
    Finished { deleted: usize },
    /// The run aborted with an error; earlier deletions stay applied.
    Failed { error: BranchError },
}

/// What the caller reports back to the workflow.
pub enum CleanupEvent {
    /// The repository's local branches were enumerated.
    Collected { raw: Vec<RawBranch> },
    /// Enumeration failed; the error aborts the run.
    CollectionFailed { error: BranchError },
    /// The candidate report was shown.
    Acknowledged,
    /// The caller answered the confirmation prompt.
    ConfirmAnswer { yes: bool },
    /// The branch the workflow asked to delete was deleted.
    DeletionSucceeded,
    /// Deleting the branch failed; the error aborts the run.
    DeletionFailed { error: BranchError },
}

/// What the workflow asks the caller to do next.
pub enum CleanupAction {
    /// Report that no branch is stale; the run is over.
    ReportNoStale,
    /// Show the stale candidates held by the new state.
    ReportStale,
    /// Ask the caller to confirm the deletion.
    PromptConfirm,
    /// Delete the named local branch and report the outcome.
    DeleteBranch { name: String },
    /// Report that `count` branches were deleted; the run is over.
    ReportDeleted { count: usize },
    /// Report that nothing was deleted (dry run or declined); the run is over.
    ReportSkipped,
    /// Report the error held by the new state; the run is over.
    Fail,
    /// The event did not belong to the current state; nothing happens.
    Idle,
}

/// The stale candidates a state carries.
pub open spec fn state_stale(state: CleanupState) -> Seq<BranchRecordModel> {
    match state {
        CleanupState::Reporting { stale } => stale.deep_view(),
        CleanupState::Confirming { stale } => stale.deep_view(),
        CleanupState::Deleting { stale, done: _ } => stale.deep_view(),
        _ => Seq::empty(),
    }
}

/// Whether the event is the one the state waits for.
pub open spec fn expects(state: CleanupState, event: CleanupEvent) -> bool {
    match (state, event) {
        (CleanupState::Collecting, CleanupEvent::Collected { .. }) => true,
        (CleanupState::Collecting, CleanupEvent::CollectionFailed { .. }) => true,
        (CleanupState::Reporting { .. }, CleanupEvent::Acknowledged) => true,
        (CleanupState::Confirming { .. }, CleanupEvent::ConfirmAnswer { .. }) => true,
        (CleanupState::Deleting { .. }, CleanupEvent::DeletionSucceeded) => true,
        (CleanupState::Deleting { .. }, CleanupEvent::DeletionFailed { .. }) => true,
        _ => false,
    }
}

/// The workflow's state invariant: a state that shows, confirms or deletes
/// candidates always holds at least one, deletion never runs past the
/// candidate list, and a dry run never confirms or deletes.
pub open spec fn cleanup_inv(params: CleanupParams, state: CleanupState) -> bool {
    &&& (state matches CleanupState::Reporting { stale } ==> stale@.len() > 0)
    &&& (state matches CleanupState::Confirming { stale } ==> stale@.len() > 0 && !params.dry_run)
    &&& (state matches CleanupState::Deleting { stale, done } ==> stale@.len() > 0 && done
        < stale@.len() && !params.dry_run)
}

/// Drives the deletion workflow one step: from the current state and the
/// caller's event to the next state and the next action.  The workflow
/// classifies the collected branches, ends at once when nothing is stale,
/// ends without deleting on a dry run or a declined confirmation, deletes the
/// candidates one by one otherwise, and aborts on the first failure, leaving
/// earlier deletions applied.
pub fn cleanup_step(params: &CleanupParams, state: CleanupState, event: CleanupEvent) -> (r: (
    CleanupState,
    CleanupAction,
))
    ensures
        cleanup_inv(*params, state) ==> cleanup_inv(*params, r.0),
        params.dry_run ==> !(r.1 is DeleteBranch),
        r.1 is PromptConfirm ==> state_stale(state).len() > 0,
        !expects(state, event) ==> r.0 == state && r.1 is Idle,
        match (state, event) {
            (CleanupState::Collecting, CleanupEvent::Collected { raw }) => match records_of(
                raw.deep_view(),
            ) {
                Err(e) => r.0 == (CleanupState::Failed { error: e }) && r.1 is Fail,
                Ok(recs) => {
                    let st = stale_of(
                        recs,
                        params.protected.deep_view(),
                        params.threshold_days,
                        params.now as int,
                    );
                    if st.len() == 0 {
                        r.0 == (CleanupState::Finished { deleted: 0usize }) && r.1 is ReportNoStale
                    } else {
                        (r.0 matches CleanupState::Reporting { stale } && stale.deep_view() == st)
                            && r.1 is ReportStale
                    }
                },
            },
            (CleanupState::Collecting, CleanupEvent::CollectionFailed { error }) => r.0 == (
            CleanupState::Failed { error }) && r.1 is Fail,
            (CleanupState::Reporting { stale }, CleanupEvent::Acknowledged) => {
                if stale@.len() == 0 {
                    r.0 == (CleanupState::Finished { deleted: 0usize }) && r.1 is ReportNoStale
                } else if params.dry_run {
                    r.0 == (CleanupState::Finished { deleted: 0usize }) && r.1 is ReportSkipped
                } else {
                    (r.0 matches CleanupState::Confirming { stale: s2 } && s2 == stale)
                        && r.1 is PromptConfirm
                }
            },
            (CleanupState::Confirming { stale }, CleanupEvent::ConfirmAnswer { yes }) => {
                if !yes || params.dry_run || stale@.len() == 0 {
                    r.0 == (CleanupState::Finished { deleted: 0usize }) && r.1 is ReportSkipped
                } else {
                    (r.0 matches CleanupState::Deleting { stale: s2, done } && s2 == stale && done
                        == 0) && (r.1 matches CleanupAction::DeleteBranch { name } && name@
                        == stale.deep_view()[0].name)
                }
            },
            (CleanupState::Deleting { stale, done }, CleanupEvent::DeletionSucceeded) => {
                let next = if (done as int) < stale@.len() {
                    done as int + 1
                } else {
                    stale@.len() as int
                };
                if next < stale@.len() && !params.dry_run {
                    (r.0 matches CleanupState::Deleting { stale: s2, done: d2 } && s2 == stale && d2
                        == next) && (r.1 matches CleanupAction::DeleteBranch { name } && name@
                        == stale.deep_view()[next].name)
                } else if next < stale@.len() {
                    (r.0 matches CleanupState::Finished { deleted } && deleted == next)
                        && r.1 is ReportSkipped
                } else {
                    (r.0 matches CleanupState::Finished { deleted } && deleted == next) && (
                    r.1 matches CleanupAction::ReportDeleted { count } && count == next)
                }
            },
            (CleanupState::Deleting { stale, done }, CleanupEvent::DeletionFailed { error }) => r.0
                == (CleanupState::Failed { error }) && r.1 is Fail,
            _ => true,
        },
{
    match (state, event) {
        (CleanupState::Collecting, CleanupEvent::Collected { raw }) => {
            match collect_records(raw) {
                Err(e) => (CleanupState::Failed { error: e }, CleanupAction::Fail),
                Ok(records) => {
                    let stale = classify(
                        &records,
                        &params.protected,
                        params.threshold_days,
                        params.now,
                    );
                    if stale.len() == 0 {
                        proof {
                            assert(stale.deep_view().len() == 0);
                        }
                        (CleanupState::Finished { deleted: 0 }, CleanupAction::ReportNoStale)
                    } else {
                        proof {
                            assert(stale.deep_view().len() > 0);
                        }
                        (CleanupState::Reporting { stale }, CleanupAction::ReportStale)
                    }
                },
            }
        },
        (CleanupState::Collecting, CleanupEvent::CollectionFailed { error }) => {
            (CleanupState::Failed { error }, CleanupAction::Fail)
        },
        (CleanupState::Reporting { stale }, CleanupEvent::Acknowledged) => {
            if stale.len() == 0 {
                (CleanupState::Finished { deleted: 0 }, CleanupAction::ReportNoStale)
            } else if params.dry_run {
                (CleanupState::Finished { deleted: 0 }, CleanupAction::ReportSkipped)
            } else {
                (CleanupState::Confirming { stale }, CleanupAction::PromptConfirm)
            }
        },
        (CleanupState::Confirming { stale }, CleanupEvent::ConfirmAnswer { yes }) => {
            if !yes || params.dry_run || stale.len() == 0 {
                (CleanupState::Finished { deleted: 0 }, CleanupAction::ReportSkipped)
            } else {
                let name = stale[0].name.clone();
                proof {
                    assert(name@ == stale.deep_view()[0].name);
                }
                (
                    CleanupState::Deleting { stale, done: 0 },
                    CleanupAction::DeleteBranch { name },
                )
            }
        },
        (CleanupState::Deleting { stale, done }, CleanupEvent::DeletionSucceeded) => {
            let next = if done < stale.len() {
                done + 1
            } else {
                stale.len()
            };
            if next < stale.len() && !params.dry_run {
                let name = stale[next].name.clone();
                proof {
                    assert(name@ == stale.deep_view()[next as int].name);
                }
                (
                    CleanupState::Deleting { stale, done: next },
                    CleanupAction::DeleteBranch { name },
                )
            } else if next < stale.len() {
                (CleanupState::Finished { deleted: next }, CleanupAction::ReportSkipped)
            } else {
                (
                    CleanupState::Finished { deleted: next },
                    CleanupAction::ReportDeleted { count: next },
                )
            }
        },
        (CleanupState::Deleting { stale: _, done: _ }, CleanupEvent::DeletionFailed { error }) => {
            (CleanupState::Failed { error }, CleanupAction::Fail)
        },
        (st, _) => (st, CleanupAction::Idle),
    }
}

/// Builds the parameters of one cleanup run, stamped with the current time.
pub fn new_cleanup_params(protected: Vec<String>, threshold_days: u32, dry_run: bool) -> (r:
    CleanupParams)
    ensures
        r.protected == protected,
        r.threshold_days == threshold_days,
        r.dry_run == dry_run,
        epoch_in_range(r.now as int),
{
    let now = current_epoch_seconds();
    CleanupParams { protected, threshold_days, dry_run, now }
}

} // verus!
