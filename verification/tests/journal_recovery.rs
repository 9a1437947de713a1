use sempal::checkpoint::{
    CheckpointAdvanceOutcome, CheckpointCause, RevisionBoundCheckpoint, SourceWatcherCheckpoint,
};
use sempal::checkpoint_requests::{checkpoint_write_outcome, StoredCheckpointRead};
use sempal::journal_recovery::{
    advanced_cursor, classify_replayed_paths, journal_replay_start, JournalRecovery, StoredCheckpointLoad,
};

const ROOT: &str = "/volumes/samples/empty-replay";

#[test]
fn empty_replayed_paths_require_a_conservative_audit() {
    assert_eq!(
        classify_replayed_paths(&ROOT.to_string(), &Vec::new(), 11),
        JournalRecovery::FullAudit {
            reason: "journal_replay_empty_paths",
        }
    );
}

#[test]
fn nonempty_replayed_paths_remain_targeted_changes() {
    assert_eq!(
        classify_replayed_paths(&ROOT.to_string(), &vec![format!("{ROOT}/kick.wav")], 11),
        JournalRecovery::Changes {
            paths: vec!["kick.wav".to_string()],
            event_id: 11,
        }
    );
}

#[test]
fn replayed_paths_outside_the_root_or_naming_it_are_dropped() {
    let candidates = vec![
        ROOT.to_string(),
        "/volumes/samples/other/snare.wav".to_string(),
        format!("{ROOT}-sibling/hat.wav"),
        format!("{ROOT}/drums/kick.wav"),
        format!("{ROOT}/drums/kick.wav"),
    ];

    assert_eq!(
        classify_replayed_paths(&ROOT.to_string(), &candidates, 4),
        JournalRecovery::Changes {
            paths: vec!["drums/kick.wav".to_string(), "drums/kick.wav".to_string()],
            event_id: 4,
        }
    );
    assert_eq!(
        classify_replayed_paths(&ROOT.to_string(), &vec![ROOT.to_string()], 4),
        JournalRecovery::FullAudit {
            reason: "journal_replay_empty_paths",
        }
    );
}

#[test]
fn replay_starts_only_from_a_cursor_of_the_live_root() {
    let identity = "root-a".to_string();
    let cursor = StoredCheckpointLoad::Present(SourceWatcherCheckpoint::legacy("root-a".to_string(), 7));
    let foreign = StoredCheckpointLoad::Present(SourceWatcherCheckpoint::legacy("root-b".to_string(), 7));

    assert_eq!(journal_replay_start(true, Some(&identity), &cursor), Ok(7));
    assert_eq!(
        journal_replay_start(false, Some(&identity), &cursor),
        Err("watcher_backend_has_no_durable_journal")
    );
    assert_eq!(
        journal_replay_start(true, None, &cursor),
        Err("source_root_identity_unavailable")
    );
    assert_eq!(
        journal_replay_start(true, Some(&identity), &foreign),
        Err("source_root_identity_changed")
    );
    assert_eq!(
        journal_replay_start(true, Some(&identity), &StoredCheckpointLoad::Missing),
        Err("watcher_checkpoint_missing")
    );
    assert_eq!(
        journal_replay_start(true, Some(&identity), &StoredCheckpointLoad::Unavailable),
        Err("watcher_checkpoint_unavailable")
    );
}

fn request(event_id: u64, cause: CheckpointCause) -> RevisionBoundCheckpoint {
    RevisionBoundCheckpoint {
        source_id: "source-a".to_string(),
        lifecycle_generation: 4,
        source_revision: 9,
        root_identity: "root-a".to_string(),
        event_id,
        cause,
    }
}

fn write(stored: &StoredCheckpointRead, requested: &RevisionBoundCheckpoint) -> CheckpointAdvanceOutcome {
    checkpoint_write_outcome(stored, requested, "source-a", 4, 9, "root-a")
}

#[test]
fn checkpoint_writes_never_rewrite_unreadable_or_malformed_evidence() {
    let targeted = request(8, CheckpointCause::TargetedReplay);
    let audit = request(8, CheckpointCause::CompletedFallbackAudit);

    assert_eq!(
        write(&StoredCheckpointRead::Unreadable, &audit),
        CheckpointAdvanceOutcome::Retryable
    );
    assert_eq!(
        write(&StoredCheckpointRead::Malformed, &audit),
        CheckpointAdvanceOutcome::AuditRequired
    );
    assert_eq!(
        write(&StoredCheckpointRead::Missing, &targeted),
        CheckpointAdvanceOutcome::AuditRequired
    );
    assert_eq!(
        write(&StoredCheckpointRead::Missing, &audit),
        CheckpointAdvanceOutcome::Applied
    );
    let stored = SourceWatcherCheckpoint::from_revision_bound(&request(7, CheckpointCause::TargetedReplay));
    assert_eq!(
        write(&StoredCheckpointRead::Present(stored.clone()), &targeted),
        CheckpointAdvanceOutcome::Applied
    );
    let applied = SourceWatcherCheckpoint::from_revision_bound(&targeted);
    assert_eq!(
        write(&StoredCheckpointRead::Present(applied), &targeted),
        CheckpointAdvanceOutcome::AlreadyApplied
    );
}

#[test]
fn committed_reconciliation_advances_but_never_regresses_the_cursor() {
    let identity = "root-a".to_string();
    let stored = SourceWatcherCheckpoint::legacy(identity.clone(), 7);

    let advanced = advanced_cursor(&stored, &identity, 11).expect("advanced cursor");
    assert_eq!(advanced.event_id, 11);
    assert_eq!(advanced_cursor(&advanced, &identity, 9), None);
    assert_eq!(
        advanced_cursor(&stored, &"root-b".to_string(), 11),
        None
    );
    assert_eq!(advanced, SourceWatcherCheckpoint::legacy(identity, 11));
}
