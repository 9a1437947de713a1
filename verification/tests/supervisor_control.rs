use std::sync::atomic::{AtomicBool, Ordering};
use std::sync::Arc;

use sempal::checkpoint::{CheckpointAdvanceOutcome, CheckpointCause, RevisionBoundCheckpoint};
use sempal::checkpoint_requests::{
    checkpoint_outcome_audit, checkpoint_request_action, CheckpointAuditReason,
    CheckpointRequestAction,
};
use sempal::control::{
    configured_source_for_request, AcceptedManifestRevision, CommittedSourceDelta, ControlState,
    PendingReadinessDelta, PendingReadinessDeltaMerge, PendingSourceRetirement, SampleSource,
    SourceDeltaQueueResult,
};

/// Readiness accumulator that keeps the highest merged revision and reports a gap when a
/// delta skips one.
#[derive(Debug, Default)]
struct RecordingDelta {
    revision: Option<u64>,
    merges: usize,
}

impl PendingReadinessDelta for RecordingDelta {
    fn empty() -> Self {
        RecordingDelta::default()
    }

    fn merge(&mut self, delta: &CommittedSourceDelta, _reason: &'static str) -> PendingReadinessDeltaMerge {
        self.merges += 1;
        match self.revision {
            Some(current) if delta.revision <= current => PendingReadinessDeltaMerge::Stale,
            Some(current) if delta.revision > current + 1 => PendingReadinessDeltaMerge::RevisionGap,
            _ => {
                self.revision = Some(delta.revision);
                PendingReadinessDeltaMerge::Merged
            }
        }
    }
}

fn source(id: &str, root: &str) -> SampleSource {
    SampleSource {
        id: id.to_string(),
        root: root.to_string(),
        database_root: root.to_string(),
    }
}

fn control_with(sources: &[SampleSource]) -> ControlState<RecordingDelta> {
    let mut control = ControlState::new(1, "startup");
    for source in sources {
        let generation = control.allocate_lifecycle_generation();
        control.sources.insert(source.id.clone(), source.clone());
        control
            .source_lifecycle_generations
            .insert(source.id.clone(), generation);
    }
    control.reset_source_work_tokens();
    control
}

fn token(control: &ControlState<RecordingDelta>, id: &str) -> Arc<AtomicBool> {
    control.source_work_cancels.get(id).expect("work token").flag.clone()
}

#[test]
fn configured_and_active_sources_exclude_quarantine_and_pending_retirement() {
    let mut control = control_with(&[source("a", "/one"), source("b", "/two"), source("c", "/three")]);
    control.quarantined_sources.insert("b".to_string());
    control.pending_retirements.push(PendingSourceRetirement {
        source: source("old", "/three"),
    });

    assert!(control.source_is_configured("a"));
    assert!(control.source_is_active("a"));
    assert!(!control.source_is_configured("b"));
    assert!(!control.source_is_active("b"));
    assert!(control.source_is_configured("c"));
    assert!(!control.source_is_active("c"));
    assert!(!control.source_is_configured("missing"));
    assert!(!control.source_is_active("missing"));
}

#[test]
fn lifecycle_generations_skip_zero_after_wrapping() {
    let mut control = control_with(&[]);
    control.next_lifecycle_generation = u64::MAX;

    assert_eq!(control.allocate_lifecycle_generation(), u64::MAX);
    assert_eq!(control.next_lifecycle_generation, 1);
    assert_eq!(control.allocate_lifecycle_generation(), 1);
    assert_eq!(control.next_lifecycle_generation, 2);
}

#[test]
fn notify_wraps_the_wake_counter() {
    let mut control = control_with(&[]);
    control.wake_generation = u64::MAX;

    control.notify("work");

    assert_eq!(control.wake_generation, 0);
    assert_eq!(control.wake_reason, "work");
}

#[test]
fn only_active_sources_are_marked_dirty() {
    let mut control = control_with(&[source("a", "/one"), source("b", "/two")]);
    control.quarantined_sources.insert("b".to_string());
    control.safety_probe_sources.insert("a".to_string());

    control.mark_source_dirty("b", "quarantined");
    assert!(!control.dirty_sources.contains("b"));
    assert_eq!(control.wake_generation, 0);
    assert_eq!(control.wake_reason, "startup");

    control.mark_source_dirty("a", "changed");
    assert!(control.dirty_sources.contains("a"));
    assert!(!control.safety_probe_sources.contains("a"));
    assert_eq!(control.wake_generation, 1);
    assert_eq!(control.wake_reason, "changed");
}

#[test]
fn accepted_manifest_revision_only_grows_within_a_lifecycle() {
    let mut control = control_with(&[source("a", "/one")]);

    control.accept_reconciled_manifest_revision("a", 1, 5);
    assert_eq!(
        control.accepted_manifest_revisions.get("a"),
        Some(&AcceptedManifestRevision {
            lifecycle_generation: 1,
            revision: 5,
            recovery_floor: None
        })
    );

    control.accept_reconciled_manifest_revision("a", 1, 3);
    assert_eq!(control.accepted_manifest_revisions.get("a").unwrap().revision, 5);

    control.accept_reconciled_manifest_revision("a", 2, 4);
    assert_eq!(control.accepted_manifest_revisions.get("a").unwrap().revision, 5);

    control.accepted_manifest_revisions.insert(
        "a".to_string(),
        AcceptedManifestRevision {
            lifecycle_generation: 1,
            revision: 5,
            recovery_floor: Some(8),
        },
    );
    control.accept_reconciled_manifest_revision("a", 1, 7);
    assert_eq!(
        control.accepted_manifest_revisions.get("a"),
        Some(&AcceptedManifestRevision {
            lifecycle_generation: 1,
            revision: 7,
            recovery_floor: Some(8)
        })
    );
    control.accept_reconciled_manifest_revision("a", 1, 8);
    assert_eq!(
        control.accepted_manifest_revisions.get("a"),
        Some(&AcceptedManifestRevision {
            lifecycle_generation: 1,
            revision: 8,
            recovery_floor: None
        })
    );
}

#[test]
fn a_fence_of_another_lifecycle_starts_over() {
    let mut control = control_with(&[source("a", "/one")]);
    control.accepted_manifest_revisions.insert(
        "a".to_string(),
        AcceptedManifestRevision {
            lifecycle_generation: 7,
            revision: 40,
            recovery_floor: Some(41),
        },
    );

    control.accept_reconciled_manifest_revision("a", 1, 3);

    assert_eq!(
        control.accepted_manifest_revisions.get("a"),
        Some(&AcceptedManifestRevision {
            lifecycle_generation: 1,
            revision: 3,
            recovery_floor: None
        })
    );
}

#[test]
fn mark_all_sources_dirty_skips_quarantined_sources_and_clears_probes() {
    let mut control = control_with(&[source("a", "/one"), source("b", "/two")]);
    control.quarantined_sources.insert("b".to_string());
    control.safety_probe_sources.insert("a".to_string());

    control.mark_all_sources_dirty("config");

    assert!(control.dirty_sources.contains("a"));
    assert!(!control.dirty_sources.contains("b"));
    assert_eq!(control.safety_probe_sources.len(), 0);
    assert_eq!(control.wake_reason, "config");
}

#[test]
fn safety_sweep_marks_unquarantined_sources_for_probe_and_work() {
    let mut control = control_with(&[source("a", "/one"), source("b", "/two")]);
    control.quarantined_sources.insert("b".to_string());

    control.mark_all_sources_for_safety_probe();

    assert!(control.dirty_sources.contains("a"));
    assert!(control.safety_probe_sources.contains("a"));
    assert!(!control.dirty_sources.contains("b"));
    assert!(!control.safety_probe_sources.contains("b"));
    assert_eq!(control.wake_reason, "periodic_safety_sweep");
    assert_eq!(control.wake_generation, 1);
}

#[test]
fn cancelling_work_signals_the_old_token_and_issues_a_fresh_one() {
    let mut control = control_with(&[source("a", "/one"), source("b", "/two")]);
    let old_a = token(&control, "a");
    let old_b = token(&control, "b");

    control.cancel_source_work("a");

    assert!(old_a.load(Ordering::Acquire));
    assert!(!token(&control, "a").load(Ordering::Acquire));
    assert!(!old_b.load(Ordering::Acquire));
    assert!(Arc::ptr_eq(&old_b, &token(&control, "b")));
}

#[test]
fn cancelling_a_quarantined_source_keeps_its_signalled_token() {
    let mut control = control_with(&[source("a", "/one")]);
    control.quarantined_sources.insert("a".to_string());
    let old = token(&control, "a");

    control.cancel_source_work("a");

    assert!(old.load(Ordering::Acquire));
    assert!(Arc::ptr_eq(&old, &token(&control, "a")));
}

#[test]
fn cancel_all_signals_every_token_and_reset_issues_new_ones() {
    let mut control = control_with(&[source("a", "/one"), source("b", "/two")]);
    let old_a = token(&control, "a");
    let old_b = token(&control, "b");

    control.cancel_all_source_work();
    assert!(old_a.load(Ordering::Acquire));
    assert!(old_b.load(Ordering::Acquire));

    control.quarantined_sources.insert("b".to_string());
    control.reset_source_work_tokens();
    assert!(!token(&control, "a").load(Ordering::Acquire));
    assert!(token(&control, "b").load(Ordering::Acquire));
    assert_eq!(control.source_work_cancels.len(), 2);
}

fn request(source_id: &str, lifecycle_generation: u64) -> RevisionBoundCheckpoint {
    RevisionBoundCheckpoint {
        source_id: source_id.to_string(),
        lifecycle_generation,
        source_revision: 3,
        root_identity: "root".to_string(),
        event_id: 9,
        cause: CheckpointCause::TargetedReplay,
    }
}

#[test]
fn checkpoint_requests_resolve_only_the_current_active_lifecycle() {
    let mut control = control_with(&[source("a", "/one"), source("b", "/two")]);
    control.quarantined_sources.insert("b".to_string());

    assert_eq!(
        configured_source_for_request(&control, &request("a", 1)),
        Some(source("a", "/one"))
    );
    assert_eq!(configured_source_for_request(&control, &request("a", 2)), None);
    assert_eq!(configured_source_for_request(&control, &request("b", 2)), None);
    assert_eq!(configured_source_for_request(&control, &request("z", 1)), None);
}

fn delta(revision: u64) -> CommittedSourceDelta {
    CommittedSourceDelta { revision }
}

#[test]
fn deltas_of_another_lifecycle_are_rejected() {
    let mut control = control_with(&[source("a", "/one")]);

    assert_eq!(
        control.queue_source_delta("a", 2, &delta(1), "delta"),
        SourceDeltaQueueResult::Rejected
    );
    assert_eq!(
        control.queue_source_delta("missing", 1, &delta(1), "delta"),
        SourceDeltaQueueResult::Rejected
    );
    assert_eq!(control.pending_readiness_deltas.len(), 0);
    assert_eq!(control.wake_generation, 0);
}

#[test]
fn consecutive_deltas_queue_and_stale_merges_are_ignored() {
    let mut control = control_with(&[source("a", "/one")]);

    assert_eq!(
        control.queue_source_delta("a", 1, &delta(1), "delta"),
        SourceDeltaQueueResult::Queued
    );
    assert!(control.dirty_sources.contains("a"));
    assert_eq!(control.wake_reason, "delta");
    assert_eq!(
        control.queue_source_delta("a", 1, &delta(2), "delta"),
        SourceDeltaQueueResult::Queued
    );
    assert_eq!(
        control.queue_source_delta("a", 1, &delta(2), "again"),
        SourceDeltaQueueResult::Ignored
    );
    assert_eq!(control.wake_reason, "delta");
    let pending = control.pending_readiness_deltas.get("a").expect("pending delta");
    assert_eq!(pending.revision, Some(2));
    assert_eq!(pending.merges, 3);
}

#[test]
fn deltas_at_or_below_the_accepted_fence_are_ignored() {
    let mut control = control_with(&[source("a", "/one")]);
    control.accept_reconciled_manifest_revision("a", 1, 5);

    assert_eq!(
        control.queue_source_delta("a", 1, &delta(5), "delta"),
        SourceDeltaQueueResult::Ignored
    );
    assert_eq!(
        control.queue_source_delta("a", 1, &delta(6), "delta"),
        SourceDeltaQueueResult::Queued
    );
}

#[test]
fn a_skipped_revision_falls_back_to_full_reconciliation() {
    let mut control = control_with(&[source("a", "/one")]);
    control.accept_reconciled_manifest_revision("a", 1, 5);
    let old_token = token(&control, "a");

    assert_eq!(
        control.queue_source_delta("a", 1, &delta(8), "delta"),
        SourceDeltaQueueResult::Fallback
    );
    assert_eq!(
        control.accepted_manifest_revisions.get("a"),
        Some(&AcceptedManifestRevision {
            lifecycle_generation: 1,
            revision: 5,
            recovery_floor: Some(8)
        })
    );
    assert!(old_token.load(Ordering::Acquire));
    assert!(!token(&control, "a").load(Ordering::Acquire));
    assert!(control.dirty_sources.contains("a"));
    assert_eq!(control.wake_reason, "source_delta_revision_gap");

    assert_eq!(
        control.queue_source_delta("a", 1, &delta(8), "delta"),
        SourceDeltaQueueResult::Ignored
    );
    assert_eq!(
        control.queue_source_delta("a", 1, &delta(10), "delta"),
        SourceDeltaQueueResult::Fallback
    );
    assert_eq!(
        control.accepted_manifest_revisions.get("a").unwrap().recovery_floor,
        Some(10)
    );
    assert_eq!(control.wake_reason, "source_delta_recovery_pending");
    assert!(control.pending_readiness_deltas.get("a").is_none());
}

#[test]
fn a_merge_gap_raises_the_recovery_floor_for_the_current_lifecycle() {
    let mut control = control_with(&[source("a", "/one")]);

    assert_eq!(
        control.queue_source_delta("a", 1, &delta(1), "delta"),
        SourceDeltaQueueResult::Queued
    );
    assert_eq!(
        control.queue_source_delta("a", 1, &delta(4), "delta"),
        SourceDeltaQueueResult::Fallback
    );
    assert!(control.pending_readiness_deltas.get("a").is_none());
    assert_eq!(
        control.accepted_manifest_revisions.get("a"),
        Some(&AcceptedManifestRevision {
            lifecycle_generation: 1,
            revision: 0,
            recovery_floor: Some(4)
        })
    );
    assert_eq!(control.wake_reason, "source_delta_revision_gap");
}

#[test]
fn checkpoint_requests_drop_after_replacement_and_audit_root_changes() {
    let resolved = source("a", "/one");
    let replaced = source("a", "/elsewhere");
    let request = request("a", 1);
    let live = "root".to_string();
    let moved = "other-root".to_string();

    assert_eq!(
        checkpoint_request_action(&resolved, None, Some(&live), &request),
        CheckpointRequestAction::Drop
    );
    assert_eq!(
        checkpoint_request_action(&resolved, Some(&replaced), Some(&live), &request),
        CheckpointRequestAction::Drop
    );
    assert_eq!(
        checkpoint_request_action(&resolved, Some(&resolved), None, &request),
        CheckpointRequestAction::Audit(CheckpointAuditReason::RootIdentityUnavailable)
    );
    assert_eq!(
        checkpoint_request_action(&resolved, Some(&resolved), Some(&moved), &request),
        CheckpointRequestAction::Audit(CheckpointAuditReason::RootIdentityChanged)
    );
    assert_eq!(
        checkpoint_request_action(&resolved, Some(&resolved), Some(&live), &request),
        CheckpointRequestAction::Write
    );
}

#[test]
fn only_audit_and_retry_outcomes_ask_for_an_audit() {
    assert_eq!(checkpoint_outcome_audit(CheckpointAdvanceOutcome::Applied), None);
    assert_eq!(checkpoint_outcome_audit(CheckpointAdvanceOutcome::AlreadyApplied), None);
    assert_eq!(checkpoint_outcome_audit(CheckpointAdvanceOutcome::Superseded), None);
    assert_eq!(
        checkpoint_outcome_audit(CheckpointAdvanceOutcome::AuditRequired),
        Some(CheckpointAuditReason::AuditRequired)
    );
    assert_eq!(
        checkpoint_outcome_audit(CheckpointAdvanceOutcome::Retryable),
        Some(CheckpointAuditReason::Retryable)
    );
    assert_eq!(
        CheckpointAuditReason::AuditRequired.as_str(),
        "watcher_checkpoint_audit_required"
    );
    assert_eq!(
        CheckpointAuditReason::RootIdentityChanged.as_str(),
        "watcher_checkpoint_root_identity_changed"
    );
}

#[test]
fn audit_required_checkpoint_requests_a_source_scoped_manifest_audit() {
    let mut control = control_with(&[source("a", "/one"), source("b", "/two")]);

    control.request_checkpoint_audit("a", checkpoint_outcome_audit(CheckpointAdvanceOutcome::AuditRequired));

    assert!(control.force_manifest_audit_sources.contains("a"));
    assert!(control.dirty_sources.contains("a"));
    assert!(!control.force_manifest_audit_sources.contains("b"));
    assert!(!control.dirty_sources.contains("b"));
    assert_eq!(control.wake_reason, "watcher_checkpoint_audit_required");

    control.request_checkpoint_audit("b", checkpoint_outcome_audit(CheckpointAdvanceOutcome::Applied));
    assert!(!control.force_manifest_audit_sources.contains("b"));
    assert!(!control.dirty_sources.contains("b"));
}

#[test]
fn pending_checkpoint_requests_are_handed_over_in_order_once() {
    let mut control = control_with(&[source("a", "/one")]);
    control.pending_watcher_checkpoints.push(request("a", 1));
    control.pending_watcher_checkpoints.push(request("a", 2));

    let taken = control.take_pending_watcher_checkpoints();

    assert_eq!(taken, vec![request("a", 1), request("a", 2)]);
    assert!(control.take_pending_watcher_checkpoints().is_empty());
}

#[test]
fn every_reset_token_is_new_and_old_tokens_stay_as_they_were() {
    let mut control = control_with(&[source("a", "/one"), source("b", "/two")]);
    let first_a = token(&control, "a");
    control.cancel_source_work("a");
    let second_a = token(&control, "a");
    assert!(first_a.load(Ordering::Acquire));
    assert!(!second_a.load(Ordering::Acquire));

    control.quarantined_sources.insert("a".to_string());
    control.reset_source_work_tokens();
    assert!(token(&control, "a").load(Ordering::Acquire));
    assert!(!token(&control, "b").load(Ordering::Acquire));
    assert!(!second_a.load(Ordering::Acquire));
    assert!(!Arc::ptr_eq(&second_a, &token(&control, "a")));

    control.cancel_source_work("missing");
    assert_eq!(control.source_work_cancels.len(), 2);
}
