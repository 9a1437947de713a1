use sempal::committed_scan::{committed_batch_announcement, sync_progress_due};
use sempal::filesystem_sync::{
    filesystem_sync_admission, filesystem_sync_completion, projection_handoff,
    FullReconciliationReason, SyncAdmission, SyncCheckpoint, SyncCompletionPlan,
    SyncCompletionSteps, SyncOutcomeModel, SyncSuccessModel,
};
use sempal::mutation::{
    committed_event_decision, rating_rekey_action, CommittedEventDecision,
    FileMutationSemantics, RekeyAction, SourceRelativePath,
};
use sempal::projection::{committed_projection, ProjectionDirectory, ProjectionFile};
use sempal::rating::{unlock_decision, Rating, RatingCandidate, RatingLocation, UnlockRefusal};
use sempal::scan_progress::{FileEntry, FolderEntry};

#[test]
fn committed_events_are_fenced_by_lifecycle_then_cursor() {
    assert_eq!(
        committed_event_decision(Some(2), 1, (0, 0), (5, 1), false, true, false),
        CommittedEventDecision::StaleLifecycle
    );
    assert_eq!(
        committed_event_decision(None, 1, (0, 0), (5, 1), false, true, false),
        CommittedEventDecision::StaleLifecycle
    );
    assert_eq!(
        committed_event_decision(Some(1), 1, (5, 1), (5, 1), false, true, false),
        CommittedEventDecision::StaleOrDuplicate
    );
    assert_eq!(
        committed_event_decision(Some(1), 1, (6, 0), (5, 9), false, true, false),
        CommittedEventDecision::StaleOrDuplicate
    );
}

#[test]
fn extraction_without_projection_recovers_and_applied_events_advance_the_cursor() {
    assert_eq!(
        committed_event_decision(Some(1), 1, (4, 9), (5, 1), true, false, false),
        CommittedEventDecision::ExtractRecovery
    );
    assert_eq!(
        committed_event_decision(Some(1), 1, (4, 9), (5, 1), true, true, false),
        CommittedEventDecision::Apply {
            accepted_revision: 5,
            accepted_operation_id: 1,
            default_refresh: false
        }
    );
    assert_eq!(
        committed_event_decision(Some(1), 1, (5, 1), (5, 2), false, false, false),
        CommittedEventDecision::Apply {
            accepted_revision: 5,
            accepted_operation_id: 2,
            default_refresh: true
        }
    );
    assert_eq!(
        committed_event_decision(Some(1), 1, (5, 1), (5, 2), false, false, true),
        CommittedEventDecision::Apply {
            accepted_revision: 5,
            accepted_operation_id: 2,
            default_refresh: false
        }
    );
}

fn located(relative: &str) -> Option<SourceRelativePath> {
    Some(SourceRelativePath {
        root: "/root-b".to_string(),
        database_root: "/root-b/.db".to_string(),
        relative: relative.to_string(),
    })
}

#[test]
fn rating_writes_follow_moves_within_and_across_sources() {
    let before = Some("old/kick.wav".to_string());
    assert_eq!(
        rating_rekey_action(
            FileMutationSemantics::PathOnlyMove,
            before.clone(),
            located("new/kick.wav"),
            true,
            Some("source-a".to_string()),
            "source-a"
        ),
        RekeyAction::RekeyPrefix {
            before: "old/kick.wav".to_string(),
            after: "new/kick.wav".to_string()
        }
    );
    assert_eq!(
        rating_rekey_action(
            FileMutationSemantics::PathOnlyMove,
            before.clone(),
            located("new/kick.wav"),
            true,
            Some("source-b".to_string()),
            "source-a"
        ),
        RekeyAction::RekeyCrossSource {
            before: "old/kick.wav".to_string(),
            after_source: "source-b".to_string(),
            after: "new/kick.wav".to_string(),
            root: "/root-b".to_string(),
            database_root: "/root-b/.db".to_string(),
        }
    );
    assert_eq!(
        rating_rekey_action(
            FileMutationSemantics::PathOnlyMove,
            before.clone(),
            located("new/kick.wav"),
            true,
            None,
            "source-a"
        ),
        RekeyAction::InvalidatePrefix {
            before: "old/kick.wav".to_string()
        }
    );
}

#[test]
fn rating_writes_follow_content_changes_and_deletions() {
    let before = Some("kick.wav".to_string());
    assert_eq!(
        rating_rekey_action(
            FileMutationSemantics::ContentChanged,
            before.clone(),
            located("kick.wav"),
            true,
            None,
            "source-a"
        ),
        RekeyAction::RekeyExact {
            before: "kick.wav".to_string(),
            after: "kick.wav".to_string()
        }
    );
    assert_eq!(
        rating_rekey_action(
            FileMutationSemantics::ContentChanged,
            before.clone(),
            located("other.wav"),
            true,
            None,
            "source-a"
        ),
        RekeyAction::Nothing
    );
    assert_eq!(
        rating_rekey_action(FileMutationSemantics::Delete, before.clone(), None, false, None, "source-a"),
        RekeyAction::InvalidatePrefix {
            before: "kick.wav".to_string()
        }
    );
    assert_eq!(
        rating_rekey_action(FileMutationSemantics::Delete, before, None, true, None, "source-a"),
        RekeyAction::Nothing
    );
    assert_eq!(
        rating_rekey_action(FileMutationSemantics::Create, None, located("new.wav"), true, None, "source-a"),
        RekeyAction::Nothing
    );
}

#[test]
fn targeted_syncs_are_admitted_replanned_or_refreshed() {
    assert_eq!(filesystem_sync_admission(0, true, true), SyncAdmission::Nothing);
    assert_eq!(
        filesystem_sync_admission(2, false, true),
        SyncAdmission::RefreshAfterFailedAdmission
    );
    assert_eq!(filesystem_sync_admission(2, true, false), SyncAdmission::Replan);
    assert_eq!(filesystem_sync_admission(2, true, true), SyncAdmission::Run);
    assert!(projection_handoff(false, false, true));
    assert!(!projection_handoff(true, false, true));
    assert!(!projection_handoff(false, true, true));
    assert!(!projection_handoff(false, false, false));
}

fn success() -> SyncSuccessModel {
    SyncSuccessModel {
        incomplete: false,
        projection_applied: true,
        ticket_accepted: true,
        root_identity_known: true,
        event_id_known: true,
        continuity_proof_known: false,
        delta_empty: false,
    }
}

#[test]
fn finished_sync_of_another_lifecycle_or_removed_source_is_ignored() {
    let outcome = SyncOutcomeModel::Succeeded(success());
    assert_eq!(
        filesystem_sync_completion(Some(3), 2, true, false, outcome),
        SyncCompletionPlan::IgnoreInactive
    );
    assert_eq!(
        filesystem_sync_completion(Some(2), 2, false, false, outcome),
        SyncCompletionPlan::IgnoreRemoved
    );
    assert_eq!(
        filesystem_sync_completion(Some(2), 2, true, false, SyncOutcomeModel::Failed),
        SyncCompletionPlan::Failed
    );
}

#[test]
fn exact_projection_submits_a_targeted_checkpoint() {
    assert_eq!(
        filesystem_sync_completion(Some(2), 2, true, false, SyncOutcomeModel::Succeeded(success())),
        SyncCompletionPlan::Completed(SyncCompletionSteps {
            reject_ticket: false,
            checkpoint: SyncCheckpoint::Submit { with_proof: false },
            queue_prep: true,
            reconcile: None,
        })
    );
}

#[test]
fn missing_root_identity_or_rejected_projection_reconciles_fully() {
    let no_identity = SyncSuccessModel {
        root_identity_known: false,
        ..success()
    };
    assert_eq!(
        filesystem_sync_completion(Some(2), 2, true, false, SyncOutcomeModel::Succeeded(no_identity)),
        SyncCompletionPlan::Completed(SyncCompletionSteps {
            reject_ticket: false,
            checkpoint: SyncCheckpoint::Skip,
            queue_prep: false,
            reconcile: Some(FullReconciliationReason::RootIdentityMissing),
        })
    );
    let rejected = SyncSuccessModel {
        projection_applied: false,
        ..success()
    };
    assert_eq!(
        filesystem_sync_completion(Some(2), 2, true, false, SyncOutcomeModel::Succeeded(rejected)),
        SyncCompletionPlan::Completed(SyncCompletionSteps {
            reject_ticket: true,
            checkpoint: SyncCheckpoint::Skip,
            queue_prep: false,
            reconcile: Some(FullReconciliationReason::IncompleteAfterCommit),
        })
    );
    assert_eq!(
        filesystem_sync_completion(Some(2), 2, true, true, SyncOutcomeModel::Succeeded(success())),
        SyncCompletionPlan::Completed(SyncCompletionSteps {
            reject_ticket: false,
            checkpoint: SyncCheckpoint::Skip,
            queue_prep: false,
            reconcile: Some(FullReconciliationReason::IncompleteAfterCommit),
        })
    );
    assert_eq!(
        FullReconciliationReason::RootIdentityMissing.as_str(),
        "targeted_sync_root_identity_missing"
    );
}

fn candidate(rating: Rating, locked: bool, location: bool) -> RatingCandidate {
    RatingCandidate {
        path: "/root/kick.wav".to_string(),
        rating,
        locked,
        location: location.then(|| RatingLocation {
            source_id: "source".to_string(),
            lifecycle_generation: Some(4),
            root: "/root".to_string(),
            database_root: "/root/.db".to_string(),
            relative_path: "kick.wav".to_string(),
        }),
    }
}

#[test]
fn only_a_locked_keep_three_sample_unlocks() {
    assert_eq!(unlock_decision(None), Err(UnlockRefusal::SampleUnavailable));
    assert_eq!(
        unlock_decision(Some(candidate(Rating::keep_2(), true, true))),
        Err(UnlockRefusal::NotLocked)
    );
    assert_eq!(
        unlock_decision(Some(candidate(Rating::keep_3(), false, true))),
        Err(UnlockRefusal::NotLocked)
    );
    assert_eq!(
        unlock_decision(Some(candidate(Rating::keep_3(), true, false))),
        Err(UnlockRefusal::SourceUnavailable)
    );
    let update = unlock_decision(Some(candidate(Rating::keep_3(), true, true))).expect("unlock");
    assert_eq!(update.rating, Rating::keep_3());
    assert_eq!(update.previous_rating, Rating::keep_3());
    assert!(update.previous_locked);
    assert!(!update.locked);
    assert_eq!(update.relative_path, "kick.wav");
    assert_eq!(update.lifecycle_generation, Some(4));
}

#[test]
fn indexing_reports_first_item_and_every_interval() {
    assert!(sync_progress_due(1));
    assert!(sync_progress_due(128));
    assert!(sync_progress_due(256));
    assert!(sync_progress_due(0));
    assert!(!sync_progress_due(2));
    assert!(!sync_progress_due(127));
}

#[test]
fn committed_batches_announce_folders_outermost_first_once() {
    let paths = vec![
        "drums/kicks/a.wav".to_string(),
        "drums/b.wav".to_string(),
        "c.wav".to_string(),
        "drums/kicks/d.wav".to_string(),
    ];
    let first = committed_batch_announcement(&paths, false, false);
    assert!(first.reset_root);
    assert_eq!(first.folders, vec!["drums", "drums/kicks"]);
    assert_eq!(first.files, paths);
    let later = committed_batch_announcement(&paths, true, false);
    assert!(!later.reset_root);
    let cancelled = committed_batch_announcement(&paths, false, true);
    assert!(!cancelled.reset_root && cancelled.folders.is_empty() && cancelled.files.is_empty());
}

fn directory(relative: &str, name: &str) -> ProjectionDirectory {
    ProjectionDirectory {
        relative: relative.to_string(),
        id: format!("id:{relative}"),
        name: name.to_string(),
    }
}

fn file(relative: &str, id: &str, sort_key: &str) -> ProjectionFile {
    ProjectionFile {
        relative: relative.to_string(),
        entry: FileEntry {
            id: id.to_string(),
            name: sort_key.to_string(),
        },
        sort_key: sort_key.to_string(),
    }
}

fn names(folder: &FolderEntry) -> (Vec<&str>, Vec<&str>) {
    (
        folder.children.iter().map(|child| child.name.as_str()).collect(),
        folder.files.iter().map(|file| file.id.as_str()).collect(),
    )
}

#[test]
fn committed_projection_builds_the_sorted_folder_tree() {
    let directories = vec![
        directory("", "Library"),
        directory("zeta", "zeta"),
        directory("Alpha", "Alpha"),
        directory("zeta/inner", "inner"),
    ];
    let files = vec![
        file("zeta/b.wav", "f-b", "b.wav"),
        file("top.wav", "f-top", "top.wav"),
        file("zeta/a.wav", "f-a", "a.wav"),
        file("zeta/inner/deep.wav", "f-deep", "deep.wav"),
    ];
    let others = vec![
        file("zeta/a.wav", "f-a", "a.wav"),
        file("zeta/readme.txt", "f-readme", "readme.txt"),
    ];
    let root = committed_projection(
        &"root-id".to_string(),
        &"Library".to_string(),
        &directories,
        &files,
        &others,
    );
    assert_eq!(root.id, "root-id");
    assert_eq!(names(&root), (vec!["Alpha", "zeta"], vec!["f-top"]));
    let zeta = &root.children[1];
    assert_eq!(zeta.id, "id:zeta");
    assert_eq!(names(zeta), (vec!["inner"], vec!["f-a", "f-b", "f-readme"]));
    assert_eq!(names(&zeta.children[0]), (vec![], vec!["f-deep"]));
    assert_eq!(names(&root.children[0]), (vec![], vec![]));
}
