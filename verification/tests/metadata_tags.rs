use sempal::metadata_tags::{
    assignment_result, assignments_result, deletions_result, unique_request_tags,
    MetadataTagPersistRequest, MetadataTagPersistResult,
};

fn request(path: &str, tags: &[&str], assigned: bool) -> MetadataTagPersistRequest {
    MetadataTagPersistRequest {
        absolute_path: format!("/root/{path}"),
        source_root: "/root".to_string(),
        source_database_root: "/root".to_string(),
        relative_path: path.to_string(),
        tags: tags.iter().map(|tag| tag.to_string()).collect(),
        assigned,
    }
}

fn texts(tags: &[&str]) -> Vec<String> {
    tags.iter().map(|tag| tag.to_string()).collect()
}

#[test]
fn unique_tags_keep_first_occurrence_order() {
    let requests = vec![
        request("a.wav", &["kick", "loop", "kick"], true),
        request("b.wav", &["snare", "loop"], true),
        request("c.wav", &[], true),
        request("d.wav", &["hat", "snare"], true),
    ];

    assert_eq!(
        unique_request_tags(&requests),
        texts(&["kick", "loop", "snare", "hat"])
    );
    assert!(unique_request_tags(&Vec::new()).is_empty());
}

#[test]
fn assignment_reports_carry_the_request_tags_and_result() {
    assert_eq!(
        assignment_result(request("a.wav", &["kick"], false), Err("busy".to_string())),
        MetadataTagPersistResult {
            tags: texts(&["kick"]),
            assigned: false,
            result: Err("busy".to_string()),
        }
    );
    let requests = vec![
        request("a.wav", &["kick", "loop"], false),
        request("b.wav", &["loop", "hat"], false),
    ];
    assert_eq!(
        assignments_result(&requests, Ok(())),
        MetadataTagPersistResult {
            tags: texts(&["kick", "loop", "hat"]),
            assigned: true,
            result: Ok(()),
        }
    );
}

#[test]
fn deletion_reports_name_the_first_request_tags() {
    let requests = vec![
        request("a.wav", &["kick", "loop"], false),
        request("b.wav", &["hat"], false),
    ];
    assert_eq!(
        deletions_result(&requests, Ok(())),
        MetadataTagPersistResult {
            tags: texts(&["kick", "loop"]),
            assigned: false,
            result: Ok(()),
        }
    );
    assert_eq!(
        deletions_result(&Vec::new(), Err("missing".to_string())),
        MetadataTagPersistResult {
            tags: Vec::new(),
            assigned: false,
            result: Err("missing".to_string()),
        }
    );
}
