use sempal::source_groups::{
    group_missing_collection_files_by_source, group_positions_by_source, group_updates_by_source,
    CollectionOperation, CollectionUpdate, MissingCollectionFile, SourceGroup,
};

fn update(root: &str, relative_path: &str) -> CollectionUpdate {
    CollectionUpdate {
        root: root.to_string(),
        database_root: root.to_string(),
        relative_path: relative_path.to_string(),
        absolute_path: format!("{root}/{relative_path}"),
        collection: 0,
        operation: CollectionOperation::Add,
    }
}

fn group<'a, T>(groups: &'a [SourceGroup<T>], root: &str, database_root: &str) -> Option<&'a Vec<T>> {
    groups
        .iter()
        .find(|group| group.root == root && group.database_root == database_root)
        .map(|group| &group.items)
}

#[test]
fn group_updates_by_source_preserves_per_source_order() {
    let updates = vec![
        update("C:/one", "a.wav"),
        update("C:/two", "b.wav"),
        update("C:/one", "c.wav"),
    ];

    let grouped = group_updates_by_source(&updates);

    assert_eq!(
        group(&grouped, "C:/one", "C:/one")
            .expect("first source")
            .iter()
            .map(|update| update.relative_path.as_str())
            .collect::<Vec<_>>(),
        vec!["a.wav", "c.wav"]
    );
    assert_eq!(
        group(&grouped, "C:/two", "C:/two")
            .expect("second source")
            .iter()
            .map(|update| update.relative_path.as_str())
            .collect::<Vec<_>>(),
        vec!["b.wav"]
    );
}

#[test]
fn sources_differ_by_database_root_too_and_come_in_first_appearance_order() {
    let keys = vec![
        ("/b".to_string(), "/db".to_string()),
        ("/a".to_string(), "/db".to_string()),
        ("/b".to_string(), "/other-db".to_string()),
        ("/a".to_string(), "/db".to_string()),
        ("/b".to_string(), "/db".to_string()),
    ];

    let groups = group_positions_by_source(&keys);

    assert_eq!(
        groups,
        vec![
            SourceGroup {
                root: "/b".to_string(),
                database_root: "/db".to_string(),
                items: vec![0, 4],
            },
            SourceGroup {
                root: "/a".to_string(),
                database_root: "/db".to_string(),
                items: vec![1, 3],
            },
            SourceGroup {
                root: "/b".to_string(),
                database_root: "/other-db".to_string(),
                items: vec![2],
            },
        ]
    );
    assert!(group_positions_by_source(&Vec::new()).is_empty());
}

#[test]
fn missing_collection_files_group_by_source() {
    let file = |root: &str, relative_path: &str, collection: u8| MissingCollectionFile {
        root: root.to_string(),
        database_root: format!("{root}/.db"),
        relative_path: relative_path.to_string(),
        collection,
    };
    let files = vec![file("/one", "a.wav", 1), file("/two", "b.wav", 2), file("/one", "c.wav", 3)];

    let grouped = group_missing_collection_files_by_source(&files);

    assert_eq!(grouped.len(), 2);
    assert_eq!(
        group(&grouped, "/one", "/one/.db").expect("first source"),
        &vec![file("/one", "a.wav", 1), file("/one", "c.wav", 3)]
    );
    assert_eq!(
        group(&grouped, "/two", "/two/.db").expect("second source"),
        &vec![file("/two", "b.wav", 2)]
    );
}

#[test]
fn folders_that_differ_only_in_separators_form_one_source() {
    let updates = vec![
        update("/library/one", "a.wav"),
        update("/library/one/", "b.wav"),
        update("/library//one", "c.wav"),
        update("/library/two", "d.wav"),
    ];
    let grouped = group_updates_by_source(&updates);
    assert_eq!(grouped.len(), 2);
    assert_eq!(grouped[0].root, "/library/one");
    assert_eq!(
        grouped[0]
            .items
            .iter()
            .map(|update| update.relative_path.as_str())
            .collect::<Vec<_>>(),
        vec!["a.wav", "b.wav", "c.wav"]
    );
}
