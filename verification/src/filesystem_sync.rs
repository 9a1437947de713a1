//! Decisions of the targeted filesystem sync of one source: whether a sync is admitted and run,
//! whether its worker hands the exact browser projection over, and what the GUI does with a
//! finished sync.
use vstd::prelude::*;

verus! {

/// What queueing a targeted filesystem sync does.
#[derive(Clone, Copy, Debug, PartialEq, Eq, Structural)]
pub enum SyncAdmission {
    /// No path changed: nothing to sync.
    Nothing,
    /// The source could not be admitted: queue a refresh after a failed sync under the
    /// source's current lifecycle.
    RefreshAfterFailedAdmission,
    /// A targeted sync of the source is already running: plan the change again, which defers it.
    Replan,
    /// Run the sync on a background worker.
    Run,
}

/// The admission of a targeted sync. `admitted` is whether the source was admitted (asked only
/// when paths changed) and `started` whether it could be marked as syncing (asked only once it
/// was admitted).
pub open spec fn admission_spec(path_count: usize, admitted: bool, started: bool) -> SyncAdmission {
    if path_count == 0 {
        SyncAdmission::Nothing
    } else if !admitted {
        SyncAdmission::RefreshAfterFailedAdmission
    } else if !started {
        SyncAdmission::Replan
    } else {
        SyncAdmission::Run
    }
}

/// Decide how a targeted filesystem sync of `path_count` changed paths is queued.
pub fn filesystem_sync_admission(path_count: usize, admitted: bool, started: bool) -> (admission:
    SyncAdmission)
    ensures
        admission == admission_spec(path_count, admitted, started),
{
    if path_count == 0 {
        SyncAdmission::Nothing
    } else if !admitted {
        SyncAdmission::RefreshAfterFailedAdmission
    } else if !started {
        SyncAdmission::Replan
    } else {
        SyncAdmission::Run
    }
}

/// Whether the worker hands the exact browser projection over when it releases its scan
/// permit: only for an uncancelled, complete sync that produced a projection delta. Otherwise it
/// hands the source over for a full reconciliation.
pub fn projection_handoff(cancelled: bool, incomplete: bool, has_projection: bool) -> (handoff:
    bool)
    ensures
        handoff == (!cancelled && !incomplete && has_projection),
{
    !cancelled && !incomplete && has_projection
}

/// What a successful sync reported, reduced to what the completion decides on.
#[derive(Clone, Copy, Debug, PartialEq, Eq, Structural)]
pub struct SyncSuccessModel {
    /// The sync committed but reported itself incomplete.
    pub incomplete: bool,
    /// The committed browser projection delta applied (asked only for a complete sync with a
    /// delta; false without one).
    pub projection_applied: bool,
    /// The projection handoff ticket was accepted (asked only when the delta applied; false
    /// without a ticket).
    pub ticket_accepted: bool,
    /// The worker captured the source root identity.
    pub root_identity_known: bool,
    /// The replay event identity is known.
    pub event_id_known: bool,
    /// A watcher continuity proof came with the sync.
    pub continuity_proof_known: bool,
    /// The committed delta changes nothing.
    pub delta_empty: bool,
}

/// What the worker reported.
#[derive(Clone, Copy, Debug, PartialEq, Eq, Structural)]
pub enum SyncOutcomeModel {
    Failed,
    Succeeded(SyncSuccessModel),
}

/// The watcher checkpoint a finished sync submits.
#[derive(Clone, Copy, Debug, PartialEq, Eq, Structural)]
pub enum SyncCheckpoint {
    /// No checkpoint.
    Skip,
    /// Submit a targeted-replay checkpoint at the committed revision, with the continuity proof
    /// when one came with the sync.
    Submit { with_proof: bool },
}

/// Why a finished sync hands the source over for a full reconciliation.
#[derive(Clone, Copy, Debug, PartialEq, Eq, Structural)]
pub enum FullReconciliationReason {
    IncompleteAfterCommit,
    RootIdentityMissing,
}

/// The text under which the supervisor records a full-reconciliation reason.
pub open spec fn full_reconciliation_reason_text(reason: FullReconciliationReason) -> Seq<char> {
    match reason {
        FullReconciliationReason::IncompleteAfterCommit => "filesystem_sync_incomplete_after_commit"@,
        FullReconciliationReason::RootIdentityMissing => "targeted_sync_root_identity_missing"@,
    }
}

impl FullReconciliationReason {
    /// The reason as the supervisor records it.
    pub fn as_str(self) -> (text: &'static str)
        ensures
            text@ == full_reconciliation_reason_text(self),
    {
        match self {
            FullReconciliationReason::IncompleteAfterCommit => "filesystem_sync_incomplete_after_commit",
            FullReconciliationReason::RootIdentityMissing => "targeted_sync_root_identity_missing",
        }
    }
}

/// The steps after a successful sync of the current lifecycle.
#[derive(Clone, Copy, Debug, PartialEq, Eq, Structural)]
pub struct SyncCompletionSteps {
    /// Reject the projection handoff ticket, if there is one.
    pub reject_ticket: bool,
    pub checkpoint: SyncCheckpoint,
    /// Report the synced changes and queue source preparation.
    pub queue_prep: bool,
    /// Wake the source for a full reconciliation and queue a refresh after an incomplete sync.
    pub reconcile: Option<FullReconciliationReason>,
}

/// What the GUI does with a finished sync (after marking it finished, and before running a
/// pending refresh, which it does in every case).
#[derive(Clone, Copy, Debug, PartialEq, Eq, Structural)]
pub enum SyncCompletionPlan {
    /// The sync ran under another lifecycle of the source.
    IgnoreInactive,
    /// The source was removed meanwhile.
    IgnoreRemoved,
    /// The sync failed: report it for the selected source and queue a refresh after a failed
    /// sync.
    Failed,
    Completed(SyncCompletionSteps),
}

/// The steps after a successful sync.
pub open spec fn completion_steps(cancelled: bool, success: SyncSuccessModel) -> SyncCompletionSteps {
    let applied = !success.incomplete && success.projection_applied;
    let accepted = applied && success.ticket_accepted;
    let incomplete = success.incomplete || !accepted;
    let checkpoint_turn = !cancelled && accepted && !incomplete;
    let missing_identity = checkpoint_turn && !success.root_identity_known;
    let checkpoint = if checkpoint_turn && success.root_identity_known && success.event_id_known {
        SyncCheckpoint::Submit { with_proof: success.continuity_proof_known }
    } else {
        SyncCheckpoint::Skip
    };
    let finally_incomplete = incomplete || missing_identity;
    SyncCompletionSteps {
        reject_ticket: !applied,
        checkpoint,
        queue_prep: !cancelled && !success.delta_empty && accepted && !finally_incomplete,
        reconcile: if cancelled || finally_incomplete {
            Some(
                if missing_identity {
                    FullReconciliationReason::RootIdentityMissing
                } else {
                    FullReconciliationReason::IncompleteAfterCommit
                },
            )
        } else {
            None
        },
    }
}

/// The plan for a finished sync.
pub open spec fn sync_completion_spec(
    current_generation: Option<u64>,
    result_generation: u64,
    source_exists: bool,
    cancelled: bool,
    outcome: SyncOutcomeModel,
) -> SyncCompletionPlan {
    if current_generation != Some(result_generation) {
        SyncCompletionPlan::IgnoreInactive
    } else if !source_exists {
        SyncCompletionPlan::IgnoreRemoved
    } else {
        match outcome {
            SyncOutcomeModel::Failed => SyncCompletionPlan::Failed,
            SyncOutcomeModel::Succeeded(success) => SyncCompletionPlan::Completed(
                completion_steps(cancelled, success),
            ),
        }
    }
}

/// Decide what to do with a finished targeted sync: a completion of another lifecycle or of a
/// removed source is ignored; a failure queues a refresh; a success submits a watcher
/// checkpoint only when it was neither cancelled nor incomplete and its exact projection was
/// accepted, refuses a checkpoint without a captured root identity, and hands an incomplete or
/// cancelled sync over for a full reconciliation.
pub fn filesystem_sync_completion(
    current_generation: Option<u64>,
    result_generation: u64,
    source_exists: bool,
    cancelled: bool,
    outcome: SyncOutcomeModel,
) -> (plan: SyncCompletionPlan)
    ensures
        plan == sync_completion_spec(
            current_generation,
            result_generation,
            source_exists,
            cancelled,
            outcome,
        ),
{
    let current = match current_generation {
        Some(generation) => generation == result_generation,
        None => false,
    };
    if !current {
        return SyncCompletionPlan::IgnoreInactive;
    }
    if !source_exists {
        return SyncCompletionPlan::IgnoreRemoved;
    }
    let success = match outcome {
        SyncOutcomeModel::Failed => {
            return SyncCompletionPlan::Failed;
        },
        SyncOutcomeModel::Succeeded(success) => success,
    };
    let applied = !success.incomplete && success.projection_applied;
    let accepted = applied && success.ticket_accepted;
    let mut incomplete = success.incomplete || !accepted;
    let mut reason = FullReconciliationReason::IncompleteAfterCommit;
    let mut checkpoint = SyncCheckpoint::Skip;
    if !cancelled && accepted && !incomplete {
        if !success.root_identity_known {
            incomplete = true;
            reason = FullReconciliationReason::RootIdentityMissing;
        } else if success.event_id_known {
            checkpoint = SyncCheckpoint::Submit { with_proof: success.continuity_proof_known };
        }
    }
    let queue_prep = !cancelled && !success.delta_empty && accepted && !incomplete;
    let reconcile = if cancelled || incomplete {
        Some(reason)
    } else {
        None
    };
    SyncCompletionPlan::Completed(
        SyncCompletionSteps { reject_ticket: !applied, checkpoint, queue_prep, reconcile },
    )
}

/// A finished sync submits a watcher checkpoint only when it is of the current lifecycle, its
/// source still exists, it was neither cancelled nor incomplete, its exact projection was
/// accepted and the worker captured the root identity; and such a checkpoint never comes
/// together with a full reconciliation.
pub proof fn lemma_checkpoint_only_after_exact_projection(
    current_generation: Option<u64>,
    result_generation: u64,
    source_exists: bool,
    cancelled: bool,
    outcome: SyncOutcomeModel,
)
    ensures
        sync_completion_spec(current_generation, result_generation, source_exists, cancelled, outcome)
            matches SyncCompletionPlan::Completed(steps) ==> (steps.checkpoint
            matches SyncCheckpoint::Submit { .. } ==> {
            &&& current_generation == Some(result_generation)
            &&& source_exists
            &&& !cancelled
            &&& outcome matches SyncOutcomeModel::Succeeded(success)
            &&& !success.incomplete
            &&& success.projection_applied
            &&& success.ticket_accepted
            &&& success.root_identity_known
            &&& steps.reconcile is None
        }),
{
}

} // verus!
