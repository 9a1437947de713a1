use sempal::file_drop::{file_name_or_path, paths_refer_to_same_file};
use sempal::playback_history::{
    persist_last_played_result, LastPlayedPersistRequest, LastPlayedPersistResult,
};

#[test]
fn dropped_files_are_named_by_their_file_name_or_whole_path() {
    assert_eq!(file_name_or_path(&"/samples/drums/kick.wav".to_string()), "kick.wav");
    assert_eq!(file_name_or_path(&"kick.wav".to_string()), "kick.wav");
    assert_eq!(file_name_or_path(&"/".to_string()), "/");
    assert_eq!(file_name_or_path(&"/samples/..".to_string()), "/samples/..");
}

#[test]
fn same_file_prefers_canonical_forms_and_compares_components() {
    let source = "/samples/kick.wav".to_string();
    let target = "/target/kick.wav".to_string();
    let canonical = "/real/kick.wav".to_string();

    assert!(paths_refer_to_same_file(&source, &target, Some(&canonical), Some(&canonical)));
    assert!(!paths_refer_to_same_file(
        &source,
        &source,
        Some(&canonical),
        Some(&"/real/other.wav".to_string())
    ));
    assert!(paths_refer_to_same_file(
        &"/samples//kick.wav".to_string(),
        &source,
        None,
        Some(&canonical)
    ));
    assert!(!paths_refer_to_same_file(&source, &target, None, None));
}

#[test]
fn last_played_reports_name_the_file_and_the_outcome() {
    let request = LastPlayedPersistRequest {
        file_id: "file-7".to_string(),
        source_root: "/samples".to_string(),
        source_database_root: "/samples".to_string(),
        relative_path: "kick.wav".to_string(),
        played_at: 1_700_000_000,
    };
    assert_eq!(
        persist_last_played_result(request, Err("busy".to_string())),
        LastPlayedPersistResult {
            file_id: "file-7".to_string(),
            result: Err("busy".to_string()),
        }
    );
}
