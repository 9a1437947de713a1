use sempal::rating::{
    group_updates_by_source, rating_adjustment_plan_for_rows,
    rating_adjustment_plan_for_selected_files, rating_request_groups, record_batch_result,
    unique_rating_paths, Rating, RatingCandidate, RatingLocation, RatingUpdate, RatingUpdateMode,
};

fn location(root: &str, relative_path: &str) -> RatingLocation {
    RatingLocation {
        source_id: format!("source{root}"),
        lifecycle_generation: Some(2),
        root: root.to_string(),
        database_root: root.to_string(),
        relative_path: relative_path.to_string(),
    }
}

fn candidate(name: &str, rating: Rating, locked: bool, known: bool) -> RatingCandidate {
    RatingCandidate {
        path: format!("/one/{name}"),
        rating,
        locked,
        location: if known { Some(location("/one", name)) } else { None },
    }
}

#[test]
fn selected_files_skip_locked_unknown_and_unchanged_and_trash_on_fourth_trash() {
    let candidates = vec![
        candidate("a.wav", Rating::neutral(), false, true),
        candidate("b.wav", Rating::keep_1(), true, true),
        candidate("c.wav", Rating::keep_1(), false, false),
        candidate("d.wav", Rating::trash_3(), false, true),
        candidate("e.wav", Rating::trash_1(), false, true),
    ];

    let plan = rating_adjustment_plan_for_selected_files(&candidates, -1);

    let paths: Vec<&str> = plan.updates.iter().map(|update| update.relative_path.as_str()).collect();
    assert_eq!(paths, vec!["a.wav", "d.wav", "e.wav"]);
    assert_eq!(plan.updates[0].rating, Rating::trash_1());
    assert_eq!(plan.updates[0].previous_rating, Rating::neutral());
    assert_eq!(plan.updates[1].rating, Rating::trash_3());
    assert!(!plan.updates[1].locked);
    assert_eq!(plan.updates[2].rating, Rating::trash_2());
    assert_eq!(plan.auto_trash_updates.len(), 1);
    assert_eq!(plan.auto_trash_updates[0], plan.updates[1]);
    assert_eq!(plan.updates[0].source_id, "source/one");
    assert_eq!(plan.updates[0].lifecycle_generation, Some(2));
    assert_eq!(plan.updates[0].absolute_path, "/one/a.wav");

    assert!(rating_adjustment_plan_for_selected_files(&candidates, 0).updates.is_empty());
}

#[test]
fn row_plans_never_send_files_to_the_trash() {
    let rows = vec![
        candidate("d.wav", Rating::trash_3(), false, true),
        candidate("k.wav", Rating::keep_3(), false, true),
    ];

    let down = rating_adjustment_plan_for_rows(&rows, -1);
    assert_eq!(down.updates.len(), 1);
    assert_eq!(down.updates[0].rating, Rating::keep_2());
    assert!(down.auto_trash_updates.is_empty());

    let up = rating_adjustment_plan_for_rows(&rows, 1);
    assert_eq!(up.updates.len(), 2);
    assert_eq!(up.updates[1].rating, Rating::keep_3());
    assert!(up.updates[1].locked);
}

#[test]
fn rating_paths_are_normalized_and_deduplicated() {
    let paths = vec![
        "/one//a.wav".to_string(),
        "/one/./b.wav".to_string(),
        "/one/a.wav".to_string(),
        "/one/b.wav/".to_string(),
    ];

    assert_eq!(
        unique_rating_paths(&paths),
        vec!["/one/a.wav".to_string(), "/one/b.wav".to_string()]
    );
}

fn update(root: &str, name: &str) -> RatingUpdate {
    RatingUpdate {
        source_id: format!("source{root}"),
        lifecycle_generation: None,
        root: root.to_string(),
        database_root: root.to_string(),
        relative_path: name.to_string(),
        absolute_path: format!("{root}/{name}"),
        previous_rating: Rating::neutral(),
        previous_locked: false,
        rating: Rating::keep_1(),
        locked: true,
    }
}

#[test]
fn undo_applies_the_previous_state_and_redo_the_new_one() {
    let change = update("/one", "a.wav");

    let before = change.clone().for_mode(RatingUpdateMode::Before);
    assert_eq!(before.rating, Rating::neutral());
    assert!(!before.locked);
    assert_eq!(change.clone().for_mode(RatingUpdateMode::After), change);

    let request = change.persist_request();
    assert_eq!(request.rating, Rating::keep_1());
    assert!(request.locked);
    assert_eq!(request.relative_path, "a.wav");
}

#[test]
fn rating_changes_and_writes_group_by_source() {
    let updates = vec![update("/one", "a.wav"), update("/two", "b.wav"), update("/one", "c.wav")];

    let grouped = group_updates_by_source(&updates);
    assert_eq!(grouped.len(), 2);
    assert_eq!(grouped[0].root, "/one");
    assert_eq!(grouped[0].items, vec![updates[0].clone(), updates[2].clone()]);
    assert_eq!(grouped[1].items, vec![updates[1].clone()]);

    let requests: Vec<_> = updates.iter().map(RatingUpdate::persist_request).collect();
    let groups = rating_request_groups(&requests);
    assert_eq!(groups.len(), 2);
    assert_eq!(groups[0].items, vec![0, 2]);
    assert_eq!(groups[1].items, vec![1]);

    let mut results = vec![None; 3];
    record_batch_result(&mut results, &groups[0].items, &Err("busy".to_string()));
    record_batch_result(&mut results, &groups[1].items, &Ok(()));
    assert_eq!(
        results,
        vec![Some(Err("busy".to_string())), Some(Ok(())), Some(Err("busy".to_string()))]
    );
}
