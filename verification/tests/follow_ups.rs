use sempal::capture::{capture_relative_path, PathOutsideSourceRoot};
use sempal::committed_scan::{
    database_open_gate, failed_scan_resets_root, finished_scan_snapshot, indexing_detail,
};
use sempal::discovery::{offline_health, OfflineHealth};
use sempal::mutation::{
    committed_events, rating_rekey_action, selection_to_reload, trash_follow_up,
    FileMutationFailure, FileMutationOperation, FileMutationOutcome, FileMutationSemantics,
    RekeyAction, SourceRelativePath,
};
use sempal::filesystem_sync::FullReconciliationReason;
use sempal::operation_journal::{
    command_send_result, CommandSendOutcome, JournalOwnerQueueError, OperationJournalUnavailable,
    OwnerHandle, OwnerLifecycle, JOURNAL_COMMAND_CAPACITY,
};
use sempal::projection::{materialize_projection_folder, ProjectionDirectory, ProjectionFile};
use sempal::scan_progress::FileEntry;
use sempal::source_groups::{group_updates_by_source, CollectionOperation, CollectionUpdate};
use sempal::text::is_whitespace;

fn located(relative: &str) -> Option<SourceRelativePath> {
    Some(SourceRelativePath {
        root: "/library".to_string(),
        database_root: "/library".to_string(),
        relative: relative.to_string(),
    })
}

#[test]
fn unchanged_relative_paths_are_compared_by_components() {
    assert_eq!(
        rating_rekey_action(
            FileMutationSemantics::ContentChanged,
            Some("dir//f.wav".to_string()),
            located("dir/f.wav"),
            true,
            Some("source-a".to_string()),
            "source-a"
        ),
        RekeyAction::RekeyExact { before: "dir//f.wav".to_string(), after: "dir/f.wav".to_string() }
    );
    assert_eq!(
        rating_rekey_action(
            FileMutationSemantics::ContentChanged,
            Some("dir/./f.wav".to_string()),
            located("dir/f.wav/"),
            true,
            Some("source-a".to_string()),
            "source-a"
        ),
        RekeyAction::RekeyExact { before: "dir/./f.wav".to_string(), after: "dir/f.wav/".to_string() }
    );
    assert_eq!(
        rating_rekey_action(
            FileMutationSemantics::ContentChanged,
            Some("dir/f.wav".to_string()),
            located("dir/g.wav"),
            true,
            Some("source-a".to_string()),
            "source-a"
        ),
        RekeyAction::Nothing
    );
}

#[test]
fn a_changed_selection_is_reloaded() {
    let a = "a.wav".to_string();
    let b = "b.wav".to_string();
    assert_eq!(selection_to_reload(Some(&a), Some(&b)), Some("b.wav".to_string()));
    assert_eq!(selection_to_reload(None, Some(&b)), Some("b.wav".to_string()));
    assert_eq!(selection_to_reload(Some(&b), Some(&b)), None);
    assert_eq!(selection_to_reload(Some(&a), None), None);
}

#[test]
fn trashing_moves_focus_only_when_rows_were_discarded_and_the_selection_changed() {
    let a = "a.wav".to_string();
    let b = "b.wav".to_string();
    let kept = trash_follow_up(false, Some(&a), Some(&b));
    assert_eq!(kept.selected_after, None);
    assert!(!kept.focus_changed);
    let moved = trash_follow_up(true, Some(&a), Some(&b));
    assert_eq!(moved.selected_after, Some("b.wav".to_string()));
    assert!(moved.focus_changed);
    let same = trash_follow_up(true, Some(&a), Some(&a));
    assert_eq!(same.selected_after, Some("a.wav".to_string()));
    assert!(!same.focus_changed);
    let cleared = trash_follow_up(true, Some(&a), None);
    assert_eq!(cleared.selected_after, None);
    assert!(cleared.focus_changed);
    assert!(!trash_follow_up(true, None, None).focus_changed);
    assert!(trash_follow_up(true, None, Some(&b)).focus_changed);
}

#[test]
fn scan_database_decisions() {
    assert_eq!(
        database_open_gate(true),
        Some("source scan canceled before database open".to_string())
    );
    assert_eq!(database_open_gate(false), None);
    assert!(failed_scan_resets_root(false, true));
    assert!(!failed_scan_resets_root(true, true));
    assert!(!failed_scan_resets_root(false, false));
    assert_eq!(indexing_detail(&"kicks/a.wav".to_string()), "Indexing | kicks/a.wav");
    assert_eq!(finished_scan_snapshot(Ok(Some(7u32)), Some(1)), (None, Some(7)));
    assert_eq!(finished_scan_snapshot::<u32>(Ok(None), Some(1)), (None, None));
    assert_eq!(
        finished_scan_snapshot(Err("disk gone".to_string()), Some(1u32)),
        (Some("finish deferred rename hashing: disk gone".to_string()), Some(1))
    );
}

fn handle() -> OwnerHandle {
    OwnerHandle {
        stop_requested: false,
        sender_present: true,
        lifecycle: OwnerLifecycle::Available.as_u8(),
        recorded: None,
        receiver_present: true,
        queued_commands: 0,
    }
}

#[test]
fn only_the_first_shutdown_closes_the_owner() {
    let mut owner = handle();
    assert_eq!(owner.check_admission(), Ok(()));
    assert!(owner.shutdown());
    assert!(owner.stop_requested);
    assert!(!owner.sender_present);
    assert_eq!(owner.check_admission(), Err(JournalOwnerQueueError::Closed));
    owner.publish(OwnerLifecycle::Available);
    assert_eq!(owner.check_admission(), Err(JournalOwnerQueueError::Closed));
    owner.publish(OwnerLifecycle::Closed);
    assert!(!owner.shutdown());
    assert!(!owner.shutdown());
    assert_eq!(owner.check_admission(), Err(JournalOwnerQueueError::Closed));
}

#[test]
fn shutting_down_a_closed_owner_reports_false() {
    let mut owner = handle();
    owner.publish(OwnerLifecycle::Closed);
    assert!(!owner.shutdown());
}

#[test]
fn an_unavailable_owner_answers_with_its_reason() {
    let mut owner = handle();
    owner.recorded = Some(OperationJournalUnavailable::OpenFailed("locked".to_string()));
    owner.publish(OwnerLifecycle::Unavailable);
    assert_eq!(
        owner.check_admission(),
        Err(JournalOwnerQueueError::Unavailable(OperationJournalUnavailable::OpenFailed(
            "locked".to_string()
        )))
    );
    owner.recorded = None;
    assert_eq!(
        owner.check_admission(),
        Err(JournalOwnerQueueError::Unavailable(OperationJournalUnavailable::OpenFailed(
            "operation journal coordinator is unavailable".to_string()
        )))
    );
    owner.publish(OwnerLifecycle::Initializing);
    assert_eq!(owner.check_admission(), Err(JournalOwnerQueueError::Initializing));
}

#[test]
fn watched_paths_are_made_relative_to_the_source_root() {
    let root = "/library/one".to_string();
    assert_eq!(
        capture_relative_path(&root, "/library/two/a.wav".to_string()),
        Err(PathOutsideSourceRoot { path: "/library/two/a.wav".to_string() })
    );
    assert_eq!(
        capture_relative_path(&root, "/library/onex/a.wav".to_string()),
        Err(PathOutsideSourceRoot { path: "/library/onex/a.wav".to_string() })
    );
    assert_eq!(capture_relative_path(&root, "/library/one".to_string()), Ok(None));
    assert_eq!(capture_relative_path(&root, "/library/one/.".to_string()), Ok(None));
    assert_eq!(
        capture_relative_path(&root, "/library/one/kicks/a.wav".to_string()),
        Ok(Some("kicks/a.wav".to_string()))
    );
}

#[test]
fn a_missing_root_is_recorded_in_a_separate_existing_database() {
    let root = "/library/one".to_string();
    let separate = "/databases/one".to_string();
    assert_eq!(offline_health(&root, &separate, true), OfflineHealth::RecordInDatabase);
    assert_eq!(offline_health(&root, &separate, false), OfflineHealth::Offline);
    assert_eq!(offline_health(&root, &root, true), OfflineHealth::Offline);
    assert_eq!(
        offline_health(&root, &"/library/one/".to_string(), true),
        OfflineHealth::Offline
    );
}

#[test]
fn white_space_matches_the_standard_library() {
    for value in 0u32..=0x10ffff {
        if let Some(c) = char::from_u32(value) {
            assert_eq!(is_whitespace(c), c.is_whitespace(), "U+{value:04X}");
        }
    }
}

fn update(root: &str, database_root: &str, relative_path: &str) -> CollectionUpdate {
    CollectionUpdate {
        root: root.to_string(),
        database_root: database_root.to_string(),
        relative_path: relative_path.to_string(),
        absolute_path: format!("{root}/{relative_path}"),
        collection: 0,
        operation: CollectionOperation::Add,
    }
}

#[test]
fn sources_come_in_path_order_named_by_their_first_item() {
    let updates = vec![
        update("/b", "/db", "1.wav"),
        update("/a-b", "/db", "2.wav"),
        update("/a/", "/db", "3.wav"),
        update("/a/b", "/db", "4.wav"),
        update("/a", "/db", "5.wav"),
        update("/a", "/bd", "6.wav"),
    ];
    let grouped = group_updates_by_source(&updates);
    let summary: Vec<(String, String, Vec<String>)> = grouped
        .iter()
        .map(|group| {
            (
                group.root.clone(),
                group.database_root.clone(),
                group.items.iter().map(|update| update.relative_path.clone()).collect(),
            )
        })
        .collect();
    assert_eq!(
        summary,
        vec![
            ("/a".to_string(), "/bd".to_string(), vec!["6.wav".to_string()]),
            ("/a/".to_string(), "/db".to_string(), vec!["3.wav".to_string(), "5.wav".to_string()]),
            ("/a/b".to_string(), "/db".to_string(), vec!["4.wav".to_string()]),
            ("/a-b".to_string(), "/db".to_string(), vec!["2.wav".to_string()]),
            ("/b".to_string(), "/db".to_string(), vec!["1.wav".to_string()]),
        ]
    );
}

#[test]
fn a_folder_is_materialized_with_sorted_children() {
    let directory = |relative: &str, id: &str, name: &str| ProjectionDirectory {
        relative: relative.to_string(),
        id: id.to_string(),
        name: name.to_string(),
    };
    let file = |relative: &str, id: &str, name: &str, sort_key: &str| ProjectionFile {
        relative: relative.to_string(),
        sort_key: sort_key.to_string(),
        entry: FileEntry { id: id.to_string(), name: name.to_string() },
    };
    let dirs = vec![directory("kits/b", "d-b", "Beta"), directory("kits/a", "d-a", "alpha")];
    let files = vec![file("kits/z.wav", "f-z", "z.wav", "z"), file("kits/b/k.wav", "f-k", "k.wav", "k")];
    let others = vec![file("kits/m.wav", "f-m", "m.wav", "m")];
    let folder = materialize_projection_folder(
        &"kits".to_string(),
        &"d-kits".to_string(),
        &"kits".to_string(),
        &dirs,
        &files,
        &others,
        2,
    );
    assert_eq!(folder.id, "d-kits");
    assert_eq!(
        folder.files.iter().map(|entry| entry.id.as_str()).collect::<Vec<_>>(),
        vec!["f-m", "f-z"]
    );
    assert_eq!(
        folder.children.iter().map(|child| child.id.as_str()).collect::<Vec<_>>(),
        vec!["d-a", "d-b"]
    );
    assert_eq!(folder.children[1].files.len(), 1);
    assert_eq!(folder.children[1].files[0].id, "f-k");
}

#[test]
fn bounded_commands_use_try_send_and_fail_when_full() {
    let mut owner = OwnerHandle {
        stop_requested: true,
        sender_present: true,
        lifecycle: OwnerLifecycle::Available.as_u8(),
        recorded: None,
        receiver_present: true,
        queued_commands: 0,
    };
    for _ in 0..JOURNAL_COMMAND_CAPACITY {
        owner.enqueue_command().expect("bounded queue admission");
    }
    assert!(matches!(owner.enqueue_command(), Err(JournalOwnerQueueError::Full)));
}

#[test]
fn a_taken_command_frees_a_slot_and_refusals_queue_nothing() {
    let mut owner = handle();
    owner.queued_commands = JOURNAL_COMMAND_CAPACITY;
    assert_eq!(owner.enqueue_command(), Err(JournalOwnerQueueError::Full));
    assert_eq!(owner.queued_commands, JOURNAL_COMMAND_CAPACITY);
    assert!(owner.take_command());
    assert_eq!(owner.enqueue_command(), Ok(()));
    assert_eq!(owner.queued_commands, JOURNAL_COMMAND_CAPACITY);

    owner.receiver_present = false;
    owner.queued_commands = 0;
    assert_eq!(owner.enqueue_command(), Err(JournalOwnerQueueError::Closed));
    assert_eq!(owner.queued_commands, 0);
    assert!(!owner.take_command());

    let mut closed = handle();
    assert!(closed.shutdown());
    assert_eq!(closed.enqueue_command(), Err(JournalOwnerQueueError::Closed));
    assert_eq!(closed.queued_commands, 0);

    let mut starting = handle();
    starting.publish(OwnerLifecycle::Initializing);
    assert_eq!(starting.enqueue_command(), Err(JournalOwnerQueueError::Initializing));
}

#[test]
fn send_outcomes_map_to_queue_answers() {
    assert_eq!(command_send_result(CommandSendOutcome::Sent), Ok(()));
    assert_eq!(command_send_result(CommandSendOutcome::Full), Err(JournalOwnerQueueError::Full));
    assert_eq!(
        command_send_result(CommandSendOutcome::Disconnected),
        Err(JournalOwnerQueueError::Closed)
    );
}

#[test]
fn full_reconciliation_reasons_have_their_recorded_texts() {
    assert_eq!(
        FullReconciliationReason::IncompleteAfterCommit.as_str(),
        "filesystem_sync_incomplete_after_commit"
    );
    assert_eq!(
        FullReconciliationReason::RootIdentityMissing.as_str(),
        "targeted_sync_root_identity_missing"
    );
}

#[test]
fn failed_and_rolled_back_outcomes_are_explicit() {
    let failure = FileMutationFailure {
        source_id: Some(String::from("source-a")),
        operation_id: 9,
        operation: FileMutationOperation::Move,
        error: String::from("rolled back"),
    };
    assert!(matches!(
        FileMutationOutcome::<u32>::RolledBack(failure.clone()),
        FileMutationOutcome::RolledBack(_)
    ));
    assert!(matches!(
        FileMutationOutcome::<u32>::Failed {
            committed: Vec::new(),
            failures: vec![failure],
        },
        FileMutationOutcome::Failed { .. }
    ));
}

#[test]
fn only_committed_events_are_applied() {
    let failure = FileMutationFailure {
        source_id: None,
        operation_id: 3,
        operation: FileMutationOperation::Trash,
        error: String::from("disk full"),
    };
    assert_eq!(committed_events(FileMutationOutcome::Committed(vec![1, 2])), vec![1, 2]);
    assert_eq!(
        committed_events(FileMutationOutcome::Failed {
            committed: vec![7],
            failures: vec![failure.clone()],
        }),
        vec![7]
    );
    assert!(committed_events(FileMutationOutcome::<u32>::RolledBack(failure)).is_empty());
}
