use sempal::mutation::{
    attach_prepared_move_completion_projection, mutation_completion_is_stale_or_duplicate,
    FileMutationChange, FileMutationOperation, FileMutationProjection, FileMutationSemantics,
};

#[test]
fn stale_and_duplicate_completions_are_fenced_by_revision_then_operation() {
    assert!(!mutation_completion_is_stale_or_duplicate((0, 0), (0, 1)));
    assert!(mutation_completion_is_stale_or_duplicate((7, 11), (7, 10)));
    assert!(mutation_completion_is_stale_or_duplicate((7, 11), (7, 11)));
    assert!(!mutation_completion_is_stale_or_duplicate((7, 11), (8, 2)));
}

#[test]
fn newer_revision_is_fenced_even_with_a_larger_operation_id() {
    assert!(mutation_completion_is_stale_or_duplicate((8, 2), (7, 11)));
}

#[test]
fn operation_names_are_stable() {
    let names = [
        (FileMutationOperation::Duplicate, "duplicate"),
        (FileMutationOperation::Extract, "extract"),
        (FileMutationOperation::ImportDrop, "import_drop"),
        (FileMutationOperation::Edit, "edit"),
        (FileMutationOperation::Normalize, "normalize"),
        (FileMutationOperation::Undo, "undo"),
        (FileMutationOperation::Redo, "redo"),
        (FileMutationOperation::Rename, "rename"),
        (FileMutationOperation::Move, "move"),
        (FileMutationOperation::Trash, "trash"),
    ];
    for (operation, name) in names {
        assert_eq!(operation.as_str(), name);
    }
}

#[test]
fn every_projection_names_its_target_and_only_completions_replace_refresh() {
    let select = FileMutationProjection::SelectAndLoad {
        path: "/lib/a.wav".to_string(),
    };
    assert_eq!(select.target_path().map(String::as_str), Some("/lib/a.wav"));
    assert!(!select.replaces_default_refresh());

    let changed = FileMutationProjection::LoadSelectedIfChanged {
        target_path: "/lib/b.wav".to_string(),
        previous_selected: None,
    };
    assert_eq!(changed.target_path().map(String::as_str), Some("/lib/b.wav"));
    assert!(!changed.replaces_default_refresh());

    let trash = FileMutationProjection::TrashFolder {
        path: "/lib/old".to_string(),
    };
    assert_eq!(trash.target_path().map(String::as_str), Some("/lib/old"));
    assert!(trash.replaces_default_refresh());

    let moved = FileMutationProjection::MoveTransaction {
        target_path: "/lib/new".to_string(),
        source_root: "/lib".to_string(),
        source_database_root: "/lib".to_string(),
        moves: vec![("/lib/a.wav".to_string(), "/lib/new/a.wav".to_string())],
    };
    assert_eq!(moved.target_path().map(String::as_str), Some("/lib/new"));
    assert!(moved.replaces_default_refresh());
}

#[test]
fn move_completion_projection_attaches_to_the_first_change_only() {
    let projection = FileMutationProjection::RenameCompletion {
        target_path: "/lib/b.wav".to_string(),
    };
    let mut changes = vec![
        FileMutationChange::path_only_move("/lib/a.wav".to_string(), "/lib/b.wav".to_string()),
        FileMutationChange::deleted("/lib/c.wav".to_string()),
    ];
    attach_prepared_move_completion_projection(&mut changes, projection.clone());
    assert_eq!(changes[0].projection, Some(projection.clone()));
    assert_eq!(changes[1].projection, None);

    let mut empty: Vec<FileMutationChange> = Vec::new();
    attach_prepared_move_completion_projection(&mut empty, projection);
    assert!(empty.is_empty());
}

#[test]
fn change_constructors_record_their_endpoints() {
    let created = FileMutationChange::created("/lib/new.wav".to_string());
    assert_eq!(created.before_path, None);
    assert_eq!(created.after_path.as_deref(), Some("/lib/new.wav"));
    assert_eq!(created.semantics, FileMutationSemantics::Create);

    let edited = FileMutationChange::content_changed("/lib/e.wav".to_string())
        .with_before_content_identity(Some("hash:old".to_string()));
    assert_eq!(edited.before_path.as_deref(), Some("/lib/e.wav"));
    assert_eq!(edited.after_path.as_deref(), Some("/lib/e.wav"));
    assert_eq!(edited.before_content_identity.as_deref(), Some("hash:old"));
    assert_eq!(edited.semantics, FileMutationSemantics::ContentChanged);
}

#[test]
fn projection_outside_the_source_root_is_dropped() {
    let mut inside = FileMutationChange::created("/lib/a.wav".to_string()).with_projection(
        FileMutationProjection::SelectAndLoad {
            path: "/lib/a.wav".to_string(),
        },
    );
    inside.retain_projection_for_source(&"/lib".to_string());
    assert!(inside.projection.is_some());

    let mut outside = FileMutationChange::created("/other/a.wav".to_string()).with_projection(
        FileMutationProjection::SelectAndLoad {
            path: "/other/a.wav".to_string(),
        },
    );
    outside.retain_projection_for_source(&"/lib".to_string());
    assert!(outside.projection.is_none());

    let mut sibling = FileMutationChange::created("/library/a.wav".to_string()).with_projection(
        FileMutationProjection::SelectAndLoad {
            path: "/library/a.wav".to_string(),
        },
    );
    sibling.retain_projection_for_source(&"/lib".to_string());
    assert!(sibling.projection.is_none());
}
