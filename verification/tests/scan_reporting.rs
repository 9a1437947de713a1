use std::sync::atomic::AtomicBool;

use sempal::scan_progress::{
    publish_projection, reset_discovery, FileEntry, FolderEntry, FolderScanDiscovery, FolderScanItem, FolderScanLifecycle,
    FolderScanProgress, FolderScanRequest, ProvisionalDiscoveryState, ScanProgressContext,
    ScanProgressCounter,
};

fn request() -> FolderScanRequest {
    FolderScanRequest {
        task_id: 11,
        source_id: "source-a".to_string(),
        label: "Drums".to_string(),
        root: "/samples".to_string(),
        database_root: "/db".to_string(),
    }
}

fn context<'a>(
    request: &'a FolderScanRequest,
    cancel: &'a AtomicBool,
    publish_discoveries: bool,
) -> ScanProgressContext<'a> {
    ScanProgressContext {
        request,
        counter: ScanProgressCounter {
            completed: 0,
            files: 0,
            folders: 0,
        },
        progress: Vec::new(),
        discovered: Vec::new(),
        cancel,
        publish_discoveries,
        committed_revision: Some(5),
    }
}

fn progress(completed: usize, detail: &str) -> FolderScanProgress {
    FolderScanProgress::new(
        11,
        "source-a".to_string(),
        "Drums".to_string(),
        FolderScanLifecycle::Scanning,
        completed,
        0,
        detail.to_string(),
    )
}

#[test]
fn initial_report_names_the_source_root() {
    let request = request();
    let cancel = AtomicBool::new(false);
    let mut scan = context(&request, &cancel, false);

    scan.report_initial();

    assert_eq!(scan.progress, vec![progress(0, "/samples")]);
    assert!(scan.discovered.is_empty());
}

#[test]
fn progress_is_reported_for_the_first_and_every_sixty_fourth_item() {
    let request = request();
    let cancel = AtomicBool::new(false);
    let mut scan = context(&request, &cancel, false);
    let parent = "/samples".to_string();

    for index in 0..130 {
        let path = format!("/samples/{index}.wav");
        let file = FileEntry {
            id: path.clone(),
            name: format!("{index}.wav"),
        };
        scan.record_file(&path, &parent, file);
    }

    assert_eq!(
        scan.progress,
        vec![
            progress(1, "/samples/0.wav"),
            progress(64, "/samples/63.wav"),
            progress(128, "/samples/127.wav"),
        ]
    );
    assert_eq!(scan.counter.completed, 130);
    assert_eq!(scan.counter.files, 130);
    assert_eq!(scan.counter.folders, 0);
    assert!(scan.discovered.is_empty());
}

#[test]
fn published_discoveries_announce_folders_files_and_snapshot_starts() {
    let request = request();
    let cancel = AtomicBool::new(false);
    let mut scan = context(&request, &cancel, true);
    let root = "/samples".to_string();
    let kicks = "/samples/kicks".to_string();
    let kick = FileEntry {
        id: "/samples/kicks/kick.wav".to_string(),
        name: "kick.wav".to_string(),
    };

    scan.record_folder_snapshot_start(&root);
    scan.record_folder(&kicks, &root);
    scan.record_file(&kick.id.clone(), &kicks, kick.clone());

    let announce = |parent_id: &str, item: FolderScanItem| FolderScanDiscovery {
        task_id: 11,
        source_id: "source-a".to_string(),
        committed_revision: Some(5),
        parent_id: parent_id.to_string(),
        item,
    };
    assert_eq!(
        scan.discovered,
        vec![
            announce("/samples", FolderScanItem::ResetFolder),
            announce("/samples", FolderScanItem::Folder("/samples/kicks".to_string())),
            announce("/samples/kicks", FolderScanItem::File(kick)),
        ]
    );
    assert_eq!(scan.progress, vec![progress(1, "/samples/kicks")]);
    assert_eq!(scan.counter.completed, 2);
    assert_eq!(scan.counter.folders, 1);
    assert_eq!(scan.counter.files, 1);
}

#[test]
fn snapshot_starts_are_silent_without_published_discoveries_and_zero_counts_as_due() {
    let request = request();
    let cancel = AtomicBool::new(false);
    let mut scan = context(&request, &cancel, false);

    scan.record_folder_snapshot_start(&"/samples".to_string());
    scan.maybe_report_progress(&"/samples".to_string());

    assert!(scan.discovered.is_empty());
    assert_eq!(scan.progress, vec![progress(0, "/samples")]);
    assert_eq!(scan.counter.completed, 0);
}

#[test]
fn reset_discovery_restarts_the_root_listing() {
    let request = request();

    assert_eq!(
        reset_discovery(&request, Some(3)),
        FolderScanDiscovery {
            task_id: 11,
            source_id: "source-a".to_string(),
            committed_revision: Some(3),
            parent_id: "/samples".to_string(),
            item: FolderScanItem::ResetFolder,
        }
    );
    assert_eq!(reset_discovery(&request, None).committed_revision, None);
}

#[test]
fn clearing_provisional_state_forgets_the_emitted_root() {
    let mut state = ProvisionalDiscoveryState { emitted_root: true };
    state.clear();
    assert!(!state.emitted_root);
}

fn file(folder: &str, name: &str) -> FileEntry {
    FileEntry {
        id: format!("{folder}/{name}"),
        name: name.to_string(),
    }
}

fn projected_tree() -> FolderEntry {
    FolderEntry {
        id: "/samples".to_string(),
        name: "samples".to_string(),
        children: vec![FolderEntry {
            id: "/samples/kicks".to_string(),
            name: "kicks".to_string(),
            children: Vec::new(),
            files: vec![file("/samples/kicks", "kick.wav")],
        }],
        files: vec![file("/samples", "loop.wav")],
    }
}

#[test]
fn publishing_walks_child_folders_before_files_depth_first() {
    let request = request();
    let cancel = AtomicBool::new(false);
    let mut scan = context(&request, &cancel, true);

    publish_projection(&projected_tree(), &mut scan);

    let announce = |parent_id: &str, item: FolderScanItem| FolderScanDiscovery {
        task_id: 11,
        source_id: "source-a".to_string(),
        committed_revision: Some(5),
        parent_id: parent_id.to_string(),
        item,
    };
    assert_eq!(
        scan.discovered,
        vec![
            announce("/samples", FolderScanItem::ResetFolder),
            announce("/samples", FolderScanItem::Folder("/samples/kicks".to_string())),
            announce("/samples/kicks", FolderScanItem::ResetFolder),
            announce(
                "/samples/kicks",
                FolderScanItem::File(file("/samples/kicks", "kick.wav"))
            ),
            announce("/samples", FolderScanItem::File(file("/samples", "loop.wav"))),
        ]
    );
    assert_eq!(scan.progress, vec![progress(1, "/samples/kicks")]);
    assert_eq!(scan.counter.completed, 3);
    assert_eq!(scan.counter.folders, 1);
    assert_eq!(scan.counter.files, 2);
}

#[test]
fn published_file_paths_join_the_folder_and_the_file_name() {
    let request = request();
    let cancel = AtomicBool::new(false);
    let mut scan = context(&request, &cancel, false);
    let tree = FolderEntry {
        id: "/samples".to_string(),
        name: "samples".to_string(),
        children: Vec::new(),
        files: vec![file("/samples", "loop.wav")],
    };

    publish_projection(&tree, &mut scan);

    assert_eq!(scan.progress, vec![progress(1, "/samples/loop.wav")]);
    assert!(scan.discovered.is_empty());
}

#[test]
fn a_cancelled_scan_publishes_nothing() {
    let request = request();
    let cancel = AtomicBool::new(true);
    let mut scan = context(&request, &cancel, true);

    publish_projection(&projected_tree(), &mut scan);

    assert!(scan.discovered.is_empty());
    assert!(scan.progress.is_empty());
    assert_eq!(scan.counter.completed, 0);
}
