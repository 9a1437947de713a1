use sempal::checkpoint::{CheckpointCause, RevisionBoundCheckpoint, SourceWatcherCheckpoint};
use sempal::checkpoint_record::{
    has_exact_checkpoint_fields, parse_checkpoint, CheckpointField, CheckpointJsonValue,
    CheckpointObject, CheckpointParseError,
};

fn text(value: &str) -> CheckpointJsonValue {
    CheckpointJsonValue {
        text: Some(value.to_string()),
        unsigned: None,
        cause: None,
    }
}

fn number(value: u64) -> CheckpointJsonValue {
    CheckpointJsonValue {
        text: None,
        unsigned: Some(value),
        cause: None,
    }
}

fn null() -> CheckpointJsonValue {
    CheckpointJsonValue {
        text: None,
        unsigned: None,
        cause: None,
    }
}

fn cause(name: &str, cause: CheckpointCause) -> CheckpointJsonValue {
    CheckpointJsonValue {
        text: Some(name.to_string()),
        unsigned: None,
        cause: Some(cause),
    }
}

fn object(members: Vec<(&str, CheckpointJsonValue)>) -> CheckpointObject {
    let mut object = CheckpointObject::new();
    for (name, value) in members {
        assert!(object.insert(name.to_string(), value));
    }
    object
}

fn revision_bound_members() -> Vec<(&'static str, CheckpointJsonValue)> {
    vec![
        ("root_identity", text("root-a")),
        ("event_id", number(7)),
        ("format_version", number(2)),
        ("source_id", text("source-a")),
        ("lifecycle_generation", number(4)),
        ("source_revision", number(9)),
        ("cause", cause("targeted_replay", CheckpointCause::TargetedReplay)),
    ]
}

#[test]
fn legacy_record_is_accepted_without_revision_bound_evidence() {
    let parsed = parse_checkpoint(&object(vec![
        ("root_identity", text("root-a")),
        ("event_id", number(7)),
    ]))
    .expect("legacy record");
    assert_eq!(parsed.root_identity, "root-a");
    assert_eq!(parsed.event_id, 7);
    assert_eq!(parsed.format_version, None);
    assert_eq!(parsed.revision_bound(), None);
    assert_eq!(parsed, SourceWatcherCheckpoint::legacy("root-a".to_string(), 7));
}

#[test]
fn complete_revision_bound_record_reads_back_the_cursor() {
    let parsed = parse_checkpoint(&object(revision_bound_members())).expect("v2 record");
    assert_eq!(
        parsed.revision_bound(),
        Some(RevisionBoundCheckpoint {
            source_id: "source-a".to_string(),
            lifecycle_generation: 4,
            source_revision: 9,
            root_identity: "root-a".to_string(),
            event_id: 7,
            cause: CheckpointCause::TargetedReplay,
        })
    );
}

#[test]
fn unknown_checkpoint_fields_fail_closed() {
    let mut members = revision_bound_members();
    members.push(("unexpected", text("evidence")));
    assert_eq!(
        parse_checkpoint(&object(members)),
        Err(CheckpointParseError::UnsupportedShape)
    );
}

#[test]
fn extension_record_without_format_version_is_refused() {
    let members = revision_bound_members()
        .into_iter()
        .filter(|(name, _)| *name != "format_version")
        .collect();
    assert_eq!(
        parse_checkpoint(&object(members)),
        Err(CheckpointParseError::UnsupportedShape)
    );
}

#[test]
fn null_format_version_is_refused() {
    let members = revision_bound_members()
        .into_iter()
        .map(|(name, value)| {
            if name == "format_version" {
                (name, null())
            } else {
                (name, value)
            }
        })
        .collect();
    assert_eq!(
        parse_checkpoint(&object(members)),
        Err(CheckpointParseError::NotUnsigned(CheckpointField::FormatVersion))
    );
}

#[test]
fn checkpoint_parser_rejects_null_v2_field_values() {
    for field in [
        "root_identity",
        "event_id",
        "format_version",
        "source_id",
        "lifecycle_generation",
        "source_revision",
        "cause",
    ] {
        let members = revision_bound_members()
            .into_iter()
            .map(|(name, value)| if name == field { (name, null()) } else { (name, value) })
            .collect();
        assert!(
            parse_checkpoint(&object(members)).is_err(),
            "accepted null field {field}"
        );
    }
}

#[test]
fn other_format_version_is_refused() {
    let members = revision_bound_members()
        .into_iter()
        .map(|(name, value)| {
            if name == "format_version" {
                (name, number(3))
            } else {
                (name, value)
            }
        })
        .collect();
    assert_eq!(
        parse_checkpoint(&object(members)),
        Err(CheckpointParseError::UnsupportedVersion)
    );
}

#[test]
fn unknown_cause_is_refused() {
    let members = revision_bound_members()
        .into_iter()
        .map(|(name, value)| if name == "cause" { (name, text("guess")) } else { (name, value) })
        .collect();
    assert_eq!(
        parse_checkpoint(&object(members)),
        Err(CheckpointParseError::InvalidCause)
    );
}

#[test]
fn missing_or_mistyped_legacy_fields_are_refused() {
    assert_eq!(
        parse_checkpoint(&CheckpointObject::new()),
        Err(CheckpointParseError::UnsupportedShape)
    );
    assert_eq!(
        parse_checkpoint(&object(vec![("root_identity", text("root-a"))])),
        Err(CheckpointParseError::UnsupportedShape)
    );
    assert_eq!(
        parse_checkpoint(&object(vec![("event_id", number(7))])),
        Err(CheckpointParseError::UnsupportedShape)
    );
    assert_eq!(
        parse_checkpoint(&object(vec![("root_identity", null()), ("event_id", number(7))])),
        Err(CheckpointParseError::NotText(CheckpointField::RootIdentity))
    );
    assert_eq!(
        parse_checkpoint(&object(vec![("root_identity", text("root-a")), ("event_id", null())])),
        Err(CheckpointParseError::NotUnsigned(CheckpointField::EventId))
    );
}

#[test]
fn duplicate_member_is_refused_and_leaves_the_object_unchanged() {
    let mut object = CheckpointObject::new();
    assert!(object.insert("root_identity".to_string(), text("root-a")));
    assert!(object.insert("event_id".to_string(), number(7)));
    assert!(!object.insert("event_id".to_string(), number(8)));
    assert_eq!(object.len(), 2);
    assert_eq!(object.get("event_id"), Some(&number(7)));
    assert_eq!(object.get("missing"), None);
}

#[test]
fn exact_field_shape_requires_every_name_and_no_other() {
    let legacy = object(vec![("root_identity", text("root-a")), ("event_id", number(7))]);
    assert!(has_exact_checkpoint_fields(&legacy, &["root_identity", "event_id"]));
    assert!(has_exact_checkpoint_fields(&legacy, &["event_id", "root_identity"]));
    assert!(!has_exact_checkpoint_fields(&legacy, &["root_identity", "cause"]));
    assert!(!has_exact_checkpoint_fields(&legacy, &["root_identity"]));
}
