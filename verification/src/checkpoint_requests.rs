//! Revision-bound checkpoint requests on the source-processing coordinator.
//!
//! A request is resolved against the control state before the source database is opened and
//! again under the publish gate. It is dropped when its source lifecycle is no longer current
//! or the source was replaced in between; a live root identity that cannot be read or no
//! longer matches asks for a manifest audit; otherwise the checkpoint is written, and a write
//! that needs an audit or can only be retried asks for a manifest audit too.
use vstd::prelude::*;
use crate::checkpoint::{
    CheckpointAdvanceOutcome, RevisionBoundCheckpoint, SourceWatcherCheckpoint, advance_outcome,
    decide_checkpoint_advance,
};
use crate::control::{tokens_unchanged, ControlState, SampleSource};

verus! {

/// Why a checkpoint request asks for a manifest audit.
#[derive(Clone, Copy, Debug, PartialEq, Eq, Structural)]
pub enum CheckpointAuditReason {
    RootIdentityUnavailable,
    RootIdentityChanged,
    AuditRequired,
    Retryable,
}

/// The wake reason recorded for an audit asked for by a checkpoint request.
pub open spec fn audit_reason_name(reason: CheckpointAuditReason) -> Seq<char> {
    match reason {
        CheckpointAuditReason::RootIdentityUnavailable => "watcher_checkpoint_root_identity_unavailable"@,
        CheckpointAuditReason::RootIdentityChanged => "watcher_checkpoint_root_identity_changed"@,
        CheckpointAuditReason::AuditRequired => "watcher_checkpoint_audit_required"@,
        CheckpointAuditReason::Retryable => "watcher_checkpoint_retryable"@,
    }
}

impl CheckpointAuditReason {
    pub fn as_str(self) -> (name: &'static str)
        ensures
            name@ == audit_reason_name(self),
    {
        match self {
            CheckpointAuditReason::RootIdentityUnavailable => "watcher_checkpoint_root_identity_unavailable",
            CheckpointAuditReason::RootIdentityChanged => "watcher_checkpoint_root_identity_changed",
            CheckpointAuditReason::AuditRequired => "watcher_checkpoint_audit_required",
            CheckpointAuditReason::Retryable => "watcher_checkpoint_retryable",
        }
    }
}

/// What the coordinator does with a checkpoint request once it holds the publish gate.
#[derive(Clone, Copy, Debug, PartialEq, Eq, Structural)]
pub enum CheckpointRequestAction {
    /// The request no longer belongs to the source as configured.
    Drop,
    /// Ask for a manifest audit of the request's source.
    Audit(CheckpointAuditReason),
    /// Write the checkpoint into the source database.
    Write,
}

/// Two resolutions of a source describe the same source: the same id, root and database
/// folder.
pub open spec fn same_descriptor(left: SampleSource, right: SampleSource) -> bool {
    &&& left.id@ == right.id@
    &&& left.root@ == right.root@
    &&& left.database_root@ == right.database_root@
}

fn descriptors_match(left: &SampleSource, right: &SampleSource) -> (same: bool)
    ensures
        same == same_descriptor(*left, *right),
{
    left.id == right.id && left.root == right.root && left.database_root == right.database_root
}

/// Decide a checkpoint request at the publish gate: drop it when its source is gone or was
/// replaced since it was resolved, ask for an audit when the live root identity cannot be read
/// or differs from the requested one, and write it otherwise.
pub fn checkpoint_request_action(
    resolved: &SampleSource,
    current: Option<&SampleSource>,
    live_root_identity: Option<&String>,
    request: &RevisionBoundCheckpoint,
) -> (action: CheckpointRequestAction)
    ensures
        match current {
            None => action == CheckpointRequestAction::Drop,
            Some(source) => if !same_descriptor(*resolved, *source) {
                action == CheckpointRequestAction::Drop
            } else {
                match live_root_identity {
                    None => action == CheckpointRequestAction::Audit(
                        CheckpointAuditReason::RootIdentityUnavailable,
                    ),
                    Some(identity) => if identity@ == request.root_identity@ {
                        action == CheckpointRequestAction::Write
                    } else {
                        action == CheckpointRequestAction::Audit(
                            CheckpointAuditReason::RootIdentityChanged,
                        )
                    },
                }
            },
        },
{
    let source = match current {
        Some(source) => source,
        None => {
            return CheckpointRequestAction::Drop;
        },
    };
    if !descriptors_match(resolved, source) {
        return CheckpointRequestAction::Drop;
    }
    match live_root_identity {
        None => CheckpointRequestAction::Audit(CheckpointAuditReason::RootIdentityUnavailable),
        Some(identity) => {
            if *identity == request.root_identity {
                CheckpointRequestAction::Write
            } else {
                CheckpointRequestAction::Audit(CheckpointAuditReason::RootIdentityChanged)
            }
        },
    }
}

/// The audit a checkpoint write asks for: none when the cursor advanced or did not need to,
/// one when the stored evidence needs an audit or the write can only be retried.
pub open spec fn outcome_audit(outcome: CheckpointAdvanceOutcome) -> Option<CheckpointAuditReason> {
    match outcome {
        CheckpointAdvanceOutcome::Applied => None,
        CheckpointAdvanceOutcome::AlreadyApplied => None,
        CheckpointAdvanceOutcome::Superseded => None,
        CheckpointAdvanceOutcome::AuditRequired => Some(CheckpointAuditReason::AuditRequired),
        CheckpointAdvanceOutcome::Retryable => Some(CheckpointAuditReason::Retryable),
    }
}

pub fn checkpoint_outcome_audit(outcome: CheckpointAdvanceOutcome) -> (reason: Option<
    CheckpointAuditReason,
>)
    ensures
        reason == outcome_audit(outcome),
{
    match outcome {
        CheckpointAdvanceOutcome::Applied => None,
        CheckpointAdvanceOutcome::AlreadyApplied => None,
        CheckpointAdvanceOutcome::Superseded => None,
        CheckpointAdvanceOutcome::AuditRequired => Some(CheckpointAuditReason::AuditRequired),
        CheckpointAdvanceOutcome::Retryable => Some(CheckpointAuditReason::Retryable),
    }
}

impl<D> ControlState<D> {
    /// Ask for the manifest audit a checkpoint request needs, if any.
    pub fn request_checkpoint_audit(&mut self, source_id: &str, reason: Option<CheckpointAuditReason>)
        ensures
            final(self).sources@ == old(self).sources@,
            tokens_unchanged(final(self), old(self)),
            final(self).source_lifecycle_generations@ == old(self).source_lifecycle_generations@,
            final(self).next_lifecycle_generation == old(self).next_lifecycle_generation,
            final(self).pending_readiness_deltas@ == old(self).pending_readiness_deltas@,
            final(self).accepted_manifest_revisions@ == old(self).accepted_manifest_revisions@,
            final(self).force_reanalysis_sources@ == old(self).force_reanalysis_sources@,
            final(self).quarantined_sources@ == old(self).quarantined_sources@,
            final(self).pending_retirements@ == old(self).pending_retirements@,
            final(self).pending_watcher_checkpoints@ == old(self).pending_watcher_checkpoints@,
            match reason {
                None => {
                    &&& final(self).force_manifest_audit_sources@ == old(
                        self,
                    ).force_manifest_audit_sources@
                    &&& final(self).dirty_sources@ == old(self).dirty_sources@
                    &&& final(self).safety_probe_sources@ == old(self).safety_probe_sources@
                    &&& final(self).wake_generation == old(self).wake_generation
                    &&& final(self).wake_reason == old(self).wake_reason
                },
                Some(reason) => {
                    &&& final(self).force_manifest_audit_sources@ == old(
                        self,
                    ).force_manifest_audit_sources@.insert(source_id@)
                    &&& old(self).active(source_id@) ==> {
                        &&& final(self).dirty_sources@ == old(self).dirty_sources@.insert(
                            source_id@,
                        )
                        &&& final(self).safety_probe_sources@ == old(
                            self,
                        ).safety_probe_sources@.remove(source_id@)
                        &&& final(self).wake_reason@ == audit_reason_name(reason)
                    }
                    &&& !old(self).active(source_id@) ==> {
                        &&& final(self).dirty_sources@ == old(self).dirty_sources@
                        &&& final(self).wake_generation == old(self).wake_generation
                    }
                },
            },
    {
        match reason {
            Some(reason) => self.request_source_manifest_audit(source_id, reason.as_str()),
            None => {},
        }
    }
}

/// What reading the stored cursor inside the write transaction found.
#[derive(Clone, Debug, PartialEq, Eq)]
pub enum StoredCheckpointRead {
    /// The metadata could not be read.
    Unreadable,
    /// No cursor is stored.
    Missing,
    /// The stored bytes are not a cursor.
    Malformed,
    Present(SourceWatcherCheckpoint),
}

/// The outcome of a checkpoint write, decided inside the write transaction from the stored
/// cursor and the current truth: an unreadable cursor can be retried, malformed bytes need an
/// audit and are never rewritten, and otherwise the advance rule decides. The new cursor is
/// written exactly when the outcome is `Applied`.
pub fn checkpoint_write_outcome(
    stored: &StoredCheckpointRead,
    requested: &RevisionBoundCheckpoint,
    expected_source_id: &str,
    current_lifecycle_generation: u64,
    current_source_revision: u64,
    current_root_identity: &str,
) -> (outcome: CheckpointAdvanceOutcome)
    ensures
        match stored {
            StoredCheckpointRead::Unreadable => outcome == CheckpointAdvanceOutcome::Retryable,
            StoredCheckpointRead::Malformed => outcome == CheckpointAdvanceOutcome::AuditRequired,
            StoredCheckpointRead::Missing => outcome == advance_outcome(
                None,
                requested@,
                expected_source_id@,
                current_lifecycle_generation,
                current_source_revision,
                current_root_identity@,
            ),
            StoredCheckpointRead::Present(current) => outcome == advance_outcome(
                Some(current@),
                requested@,
                expected_source_id@,
                current_lifecycle_generation,
                current_source_revision,
                current_root_identity@,
            ),
        },
{
    match stored {
        StoredCheckpointRead::Unreadable => CheckpointAdvanceOutcome::Retryable,
        StoredCheckpointRead::Malformed => CheckpointAdvanceOutcome::AuditRequired,
        StoredCheckpointRead::Missing => decide_checkpoint_advance(
            None,
            requested,
            expected_source_id,
            current_lifecycle_generation,
            current_source_revision,
            current_root_identity,
        ),
        StoredCheckpointRead::Present(current) => decide_checkpoint_advance(
            Some(current),
            requested,
            expected_source_id,
            current_lifecycle_generation,
            current_source_revision,
            current_root_identity,
        ),
    }
}

} // verus!
