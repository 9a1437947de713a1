use sempal::capture::{
    capture_verdict, event_observation, fsevents_replay_observation, map_event_kind,
    marker_observation, observation_metadata_from_values, raw_metadata_bytes, CaptureVerdict, CreateKind, DataChange,
    EventAttributeSizes, EventKind, ModifyKind, RawEventKind, RawPathHint, RawPathRole,
    RawObservationMetadata, RemoveKind, RenameMode, ReplayAdmissionError, RAW_FLAG_RESCAN, MAX_CAPTURE_METADATA_BYTES,
    MAX_CAPTURE_PATHS, MAX_CAPTURE_PATH_BYTES,
};

fn no_attributes() -> EventAttributeSizes {
    EventAttributeSizes {
        rescan: false,
        tracker: false,
        process_id: false,
        info_bytes: None,
        source_bytes: None,
    }
}

fn verdict(path_lengths: Vec<usize>, attributes: EventAttributeSizes) -> CaptureVerdict {
    let metadata = raw_metadata_bytes(path_lengths.len(), attributes);
    capture_verdict(&path_lengths, metadata)
}

#[test]
fn path_count_overflow_is_captured_as_overflow() {
    let lengths = (0..=MAX_CAPTURE_PATHS)
        .map(|index| format!("{index}.wav").len())
        .collect();
    assert_eq!(verdict(lengths, no_attributes()), CaptureVerdict::Overflow);
}

#[test]
fn path_byte_overflow_is_captured_as_overflow() {
    assert_eq!(
        verdict(vec![MAX_CAPTURE_PATH_BYTES + 1], no_attributes()),
        CaptureVerdict::Overflow
    );
    assert_eq!(
        verdict(vec![MAX_CAPTURE_PATH_BYTES], no_attributes()),
        CaptureVerdict::Accepted
    );
}

#[test]
fn metadata_byte_overflow_is_captured_as_overflow() {
    let info = "é".repeat(MAX_CAPTURE_METADATA_BYTES / 2 + 1);
    let attributes = EventAttributeSizes {
        info_bytes: Some(info.len()),
        ..no_attributes()
    };
    assert_eq!(verdict(Vec::new(), attributes), CaptureVerdict::Overflow);
}

#[test]
fn metadata_bytes_count_kind_uncertainty_paths_and_attributes() {
    assert_eq!(raw_metadata_bytes(0, no_attributes()), Some(3));
    let attributes = EventAttributeSizes {
        rescan: true,
        tracker: true,
        process_id: true,
        info_bytes: Some(5),
        source_bytes: Some(7),
    };
    assert_eq!(raw_metadata_bytes(2, attributes), Some(3 + 4 + 8 + 8 + 4 + 5 + 7));
    assert_eq!(raw_metadata_bytes(usize::MAX, no_attributes()), None);

    let boundary = EventAttributeSizes {
        info_bytes: Some(MAX_CAPTURE_METADATA_BYTES - 3 - 2),
        ..no_attributes()
    };
    assert_eq!(verdict(vec![4], boundary), CaptureVerdict::Accepted);
    let past = EventAttributeSizes {
        info_bytes: Some(MAX_CAPTURE_METADATA_BYTES - 3 - 1),
        ..no_attributes()
    };
    assert_eq!(verdict(vec![4], past), CaptureVerdict::Overflow);
}

#[test]
fn fsevents_replay_is_one_conservative_modify_observation() {
    let observation = fsevents_replay_observation(&vec![
        "kick.wav".to_string(),
        String::new(),
        "drums/snare.wav".to_string(),
    ])
    .expect("bounded replay observation");
    assert_eq!(observation.kind, RawEventKind::Modify);
    assert_eq!(observation.paths.len(), 2);
    assert_eq!(observation.paths[0].role, RawPathRole::Subject);
    assert_eq!(observation.paths[1].path, "drums/snare.wav");
    assert!(!observation.uncertainty.path_coverage);
}

#[test]
fn oversized_fsevents_replay_is_rejected_before_owner_admission() {
    let paths = (0..=MAX_CAPTURE_PATHS).map(|index| format!("{index}.wav")).collect();
    assert_eq!(
        fsevents_replay_observation(&paths),
        Err(ReplayAdmissionError::PathCountExceeded {
            value: MAX_CAPTURE_PATHS + 1
        })
    );
    assert_eq!(
        fsevents_replay_observation(&vec![String::new()]),
        Err(ReplayAdmissionError::PathCountExceeded { value: 0 })
    );
    let half = "x".repeat(MAX_CAPTURE_PATH_BYTES / 2 + 1);
    assert_eq!(
        fsevents_replay_observation(&vec![half.clone(), half.clone(), half]),
        Err(ReplayAdmissionError::PathBytesExceeded {
            value: MAX_CAPTURE_PATH_BYTES + 2
        })
    );
}

fn relative(names: &[&str]) -> Vec<Option<String>> {
    names.iter().map(|name| Some(name.to_string())).collect()
}

#[test]
fn notify_kinds_map_to_conservative_raw_kinds_and_roles() {
    let created_folder = event_observation(
        map_event_kind(EventKind::Create(CreateKind::Folder), 1),
        &relative(&["folder"]),
        false,
    );
    assert_eq!(created_folder.kind, RawEventKind::Create);
    assert_eq!(created_folder.paths[0].role, RawPathRole::Subject);
    assert_eq!(created_folder.paths[0].hint, Some(RawPathHint::Directory));

    let modified = event_observation(
        map_event_kind(EventKind::Modify(ModifyKind::Data(DataChange::Content)), 1),
        &relative(&["sample.wav"]),
        false,
    );
    assert_eq!(modified.kind, RawEventKind::Modify);
    assert_eq!(modified.paths[0].role, RawPathRole::Subject);

    let removed_folder = event_observation(
        map_event_kind(EventKind::Remove(RemoveKind::Folder), 1),
        &relative(&["folder"]),
        false,
    );
    assert_eq!(removed_folder.kind, RawEventKind::Delete);
    assert_eq!(removed_folder.paths[0].hint, Some(RawPathHint::Directory));

    let renamed = event_observation(
        map_event_kind(EventKind::Modify(ModifyKind::Name(RenameMode::Both)), 2),
        &relative(&["old.wav", "new.wav"]),
        false,
    );
    assert_eq!(renamed.kind, RawEventKind::Rename);
    assert_eq!(
        renamed.paths.iter().map(|path| path.role).collect::<Vec<_>>(),
        vec![RawPathRole::RenameSource, RawPathRole::RenameDestination]
    );
    assert!(!renamed.uncertainty.path_coverage);

    let incomplete_rename = event_observation(
        map_event_kind(EventKind::Modify(ModifyKind::Name(RenameMode::From)), 1),
        &relative(&["old.wav"]),
        false,
    );
    assert_eq!(incomplete_rename.kind, RawEventKind::Rename);
    assert_eq!(incomplete_rename.paths[0].role, RawPathRole::RenameSource);
    assert!(incomplete_rename.uncertainty.path_coverage);

    let ambiguous_rename = event_observation(
        map_event_kind(EventKind::Modify(ModifyKind::Name(RenameMode::Any)), 2),
        &relative(&["one.wav", "two.wav"]),
        false,
    );
    assert_eq!(ambiguous_rename.kind, RawEventKind::Rename);
    assert!(ambiguous_rename.paths.iter().all(|path| path.role == RawPathRole::Subject));
    assert!(ambiguous_rename.uncertainty.path_coverage);

    let unsupported = event_observation(
        map_event_kind(EventKind::Access, 1),
        &relative(&["sample.wav"]),
        false,
    );
    assert_eq!(unsupported.kind, RawEventKind::Unsupported);
    assert!(unsupported.uncertainty.path_coverage);

    let unsupported_modify = event_observation(
        map_event_kind(EventKind::Modify(ModifyKind::Other), 1),
        &relative(&["sample.wav"]),
        false,
    );
    assert_eq!(unsupported_modify.kind, RawEventKind::Unsupported);
}

#[test]
fn root_observations_and_rescans_widen_coverage() {
    let mapping = map_event_kind(EventKind::Create(CreateKind::File), 2);
    let root_changed = event_observation(
        mapping,
        &vec![Some("kick.wav".to_string()), None],
        false,
    );
    assert_eq!(root_changed.kind, RawEventKind::RootChanged);
    assert_eq!(root_changed.paths.len(), 1);
    assert_eq!(root_changed.paths[0].path, "kick.wav");
    assert!(root_changed.uncertainty.path_coverage);

    let rescan = event_observation(mapping, &relative(&["kick.wav"]), true);
    assert_eq!(rescan.kind, RawEventKind::Create);
    assert!(rescan.uncertainty.path_coverage);

    let pathless = event_observation(mapping, &Vec::new(), false);
    assert!(pathless.uncertainty.path_coverage);

    let overflow = marker_observation(true);
    assert_eq!(overflow.kind, RawEventKind::Overflow);
    assert!(overflow.uncertainty.overflow);
    let error = marker_observation(false);
    assert_eq!(error.kind, RawEventKind::Error);
    assert!(error.uncertainty.backend_error);
}

#[test]
fn notify_metadata_is_retained_as_raw_metadata() {
    assert_eq!(
        observation_metadata_from_values(
            true,
            Some(42),
            Some("detail".to_string()),
            Some("fsevents".to_string()),
            Some(7)
        ),
        RawObservationMetadata {
            flags: RAW_FLAG_RESCAN,
            rename_cookie: Some(42),
            detail: Some("detail".to_string()),
            source: Some("fsevents".to_string()),
            process_id: Some(7),
        }
    );
    assert_eq!(
        observation_metadata_from_values(false, None, None, None, None),
        RawObservationMetadata {
            flags: 0,
            rename_cookie: None,
            detail: None,
            source: None,
            process_id: None,
        }
    );
}
