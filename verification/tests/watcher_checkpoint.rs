use sempal::checkpoint::{
    decide_checkpoint_advance, AuditBarrier, CheckpointAdvanceOutcome, CheckpointCause,
    RevisionBoundCheckpoint, SourceWatcherCheckpoint,
};

fn revision_bound_checkpoint(event_id: u64) -> RevisionBoundCheckpoint {
    RevisionBoundCheckpoint {
        source_id: "source-a".to_string(),
        lifecycle_generation: 4,
        source_revision: 9,
        root_identity: "root-a".to_string(),
        event_id,
        cause: CheckpointCause::TargetedReplay,
    }
}

fn decide(
    current: Option<&SourceWatcherCheckpoint>,
    requested: &RevisionBoundCheckpoint,
) -> CheckpointAdvanceOutcome {
    decide_checkpoint_advance(current, requested, "source-a", 4, 9, "root-a")
}

#[test]
fn historical_lifecycle_advances_but_invalid_requests_require_an_audit() {
    let mut historical_request = revision_bound_checkpoint(7);
    historical_request.lifecycle_generation = 3;
    let current = SourceWatcherCheckpoint::from_revision_bound(&historical_request);

    assert_eq!(
        decide(Some(&current), &revision_bound_checkpoint(8)),
        CheckpointAdvanceOutcome::Applied
    );

    let mut mismatched_revision = revision_bound_checkpoint(8);
    mismatched_revision.source_revision = 8;
    assert_eq!(
        decide(Some(&current), &mismatched_revision),
        CheckpointAdvanceOutcome::AuditRequired
    );

    let mut mismatched_root = revision_bound_checkpoint(8);
    mismatched_root.root_identity = "root-b".to_string();
    assert_eq!(
        decide(Some(&current), &mismatched_root),
        CheckpointAdvanceOutcome::AuditRequired
    );

    let regressed_cursor = revision_bound_checkpoint(6);
    assert_eq!(
        decide(Some(&current), &regressed_cursor),
        CheckpointAdvanceOutcome::AuditRequired
    );
}

#[test]
fn configured_source_id_mismatch_requires_an_audit() {
    let requested = RevisionBoundCheckpoint {
        source_id: "source-b".to_string(),
        ..revision_bound_checkpoint(8)
    };
    let current = SourceWatcherCheckpoint::from_revision_bound(&requested);

    assert_eq!(
        decide(Some(&current), &requested),
        CheckpointAdvanceOutcome::AuditRequired
    );
}

#[test]
fn missing_current_checkpoint_requires_an_audit() {
    assert_eq!(
        decide(None, &revision_bound_checkpoint(8)),
        CheckpointAdvanceOutcome::AuditRequired
    );
}

#[test]
fn duplicate_checkpoint_is_idempotent_and_newer_checkpoint_applies() {
    let current_request = revision_bound_checkpoint(7);
    let current = SourceWatcherCheckpoint::from_revision_bound(&current_request);

    assert_eq!(
        decide(Some(&current), &current_request),
        CheckpointAdvanceOutcome::AlreadyApplied
    );
    assert_eq!(
        decide(Some(&current), &revision_bound_checkpoint(8)),
        CheckpointAdvanceOutcome::Applied
    );
}

#[test]
fn historical_v2_baseline_allows_revision_and_lifecycle_advance() {
    let mut historical = revision_bound_checkpoint(7);
    historical.lifecycle_generation = 3;
    historical.source_revision = 8;
    let historical = SourceWatcherCheckpoint::from_revision_bound(&historical);

    assert_eq!(
        decide(Some(&historical), &revision_bound_checkpoint(8)),
        CheckpointAdvanceOutcome::Applied
    );

    let mut equal_event_request = revision_bound_checkpoint(7);
    equal_event_request.cause = CheckpointCause::CompletedFallbackAudit;
    assert_eq!(
        decide(Some(&historical), &equal_event_request),
        CheckpointAdvanceOutcome::Superseded
    );
}

#[test]
fn stored_revision_ahead_of_current_truth_requires_an_audit() {
    let mut historical = revision_bound_checkpoint(7);
    historical.source_revision = 10;
    let historical = SourceWatcherCheckpoint::from_revision_bound(&historical);

    assert_eq!(
        decide(Some(&historical), &revision_bound_checkpoint(8)),
        CheckpointAdvanceOutcome::AuditRequired
    );
}

#[test]
fn legacy_checkpoint_without_revision_bound_evidence_requires_an_audit() {
    let legacy = SourceWatcherCheckpoint::legacy("root-a".to_string(), 7);

    assert_eq!(
        decide(Some(&legacy), &revision_bound_checkpoint(8)),
        CheckpointAdvanceOutcome::AuditRequired
    );
}

#[test]
fn completed_fallback_audit_establishes_or_upgrades_a_valid_cursor() {
    let mut requested = revision_bound_checkpoint(8);
    requested.cause = CheckpointCause::CompletedFallbackAudit;
    let legacy = SourceWatcherCheckpoint::legacy("root-a".to_string(), 7);

    assert_eq!(decide(None, &requested), CheckpointAdvanceOutcome::Applied);
    assert_eq!(
        decide(Some(&legacy), &requested),
        CheckpointAdvanceOutcome::Applied
    );

    let mut current = requested.clone();
    current.event_id = 8;
    assert_eq!(
        decide(
            Some(&SourceWatcherCheckpoint::from_revision_bound(&current)),
            &requested,
        ),
        CheckpointAdvanceOutcome::AlreadyApplied
    );
}

#[test]
fn completed_fallback_audit_never_regresses_or_crosses_root_identity() {
    let mut requested = revision_bound_checkpoint(8);
    requested.cause = CheckpointCause::CompletedFallbackAudit;

    let mut newer = SourceWatcherCheckpoint::legacy("root-a".to_string(), 9);
    assert_eq!(
        decide(Some(&newer), &requested),
        CheckpointAdvanceOutcome::AuditRequired
    );

    newer = SourceWatcherCheckpoint::legacy("root-b".to_string(), 7);
    assert_eq!(
        decide(Some(&newer), &requested),
        CheckpointAdvanceOutcome::AuditRequired
    );
}

#[test]
fn stored_revision_bound_cursor_reads_back_unchanged() {
    let expected = revision_bound_checkpoint(7);
    let stored = SourceWatcherCheckpoint::from_revision_bound(&expected);
    assert_eq!(stored.format_version, Some(2));
    assert_eq!(stored.revision_bound(), Some(expected));
    assert_eq!(
        SourceWatcherCheckpoint::legacy("root-a".to_string(), 7).revision_bound(),
        None
    );
}

#[test]
fn revision_bound_reading_requires_the_current_format_version() {
    let mut stored = SourceWatcherCheckpoint::from_revision_bound(&revision_bound_checkpoint(7));
    stored.format_version = Some(1);
    assert_eq!(stored.revision_bound(), None);
    stored.format_version = None;
    assert_eq!(stored.revision_bound(), None);
    assert_eq!(
        decide(Some(&stored), &revision_bound_checkpoint(8)),
        CheckpointAdvanceOutcome::AuditRequired
    );
}

#[test]
fn applied_request_is_already_applied_once_stored() {
    let mut current = revision_bound_checkpoint(7);
    current.lifecycle_generation = 2;
    let requested = revision_bound_checkpoint(11);
    let stored = SourceWatcherCheckpoint::from_revision_bound(&current);
    assert_eq!(
        decide(Some(&stored), &requested),
        CheckpointAdvanceOutcome::Applied
    );
    let replaced = SourceWatcherCheckpoint::from_revision_bound(&requested);
    assert_eq!(
        decide(Some(&replaced), &requested),
        CheckpointAdvanceOutcome::AlreadyApplied
    );
}

#[test]
fn mismatched_lifecycle_generation_requires_an_audit() {
    let mut requested = revision_bound_checkpoint(8);
    requested.lifecycle_generation = 5;
    assert_eq!(decide(None, &requested), CheckpointAdvanceOutcome::AuditRequired);
}

#[test]
fn audit_barrier_becomes_a_completed_fallback_audit_cursor() {
    let barrier = AuditBarrier(SourceWatcherCheckpoint::legacy("root-a".to_string(), 12));
    let checkpoint = barrier.into_revision_bound("source-a".to_string(), 4, 9);
    assert_eq!(
        checkpoint,
        RevisionBoundCheckpoint {
            source_id: "source-a".to_string(),
            lifecycle_generation: 4,
            source_revision: 9,
            root_identity: "root-a".to_string(),
            event_id: 12,
            cause: CheckpointCause::CompletedFallbackAudit,
        }
    );
}
