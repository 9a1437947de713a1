use sempal::admission_lanes::{
    fence_all_reopens, fence_applies, lane_for_capture, lane_needs_stop, reconcile_plan, replay_binding,
    request_matches_current_capturing_lane, source_lane_action, ConfiguredLane, LaneSnapshot,
    LaneStep, ReplayBinding, SourceLaneAction,
};
use sempal::audit_queue::AuditRequestIdentity;
use sempal::text_order::{sorted_texts, text_at_most};

fn lane(capturing: bool, stopped: bool, root: &str, generation: u64) -> LaneSnapshot {
    LaneSnapshot {
        capturing,
        stopped,
        root_identity: root.to_string(),
        generation,
    }
}

fn configured(id: &str, root: Option<&str>) -> ConfiguredLane {
    ConfiguredLane {
        source_id: id.to_string(),
        root_identity: root.map(str::to_string),
    }
}

#[test]
fn repeated_same_root_keeps_a_capturing_lane() {
    let root = "identity-a".to_string();
    assert_eq!(source_lane_action(None, &root), SourceLaneAction::Begin);
    assert_eq!(
        source_lane_action(Some(&lane(true, false, "identity-a", 3)), &root),
        SourceLaneAction::Keep
    );
    assert_eq!(
        source_lane_action(Some(&lane(false, true, "identity-a", 3)), &root),
        SourceLaneAction::Begin
    );
    assert_eq!(
        source_lane_action(Some(&lane(true, false, "identity-b", 3)), &root),
        SourceLaneAction::RebindAndBegin
    );
}

#[test]
fn only_unstopped_lanes_need_a_stop() {
    assert!(!lane_needs_stop(None));
    assert!(!lane_needs_stop(Some(&lane(false, true, "root", 1))));
    assert!(lane_needs_stop(Some(&lane(true, false, "root", 1))));
    assert!(lane_needs_stop(Some(&lane(false, false, "root", 1))));
}

#[test]
fn stale_fence_context_leaves_a_newer_lane_alone() {
    let root = "root".to_string();
    assert!(fence_applies(Some(&lane(true, false, "root", 4)), &root, 4));
    assert!(!fence_applies(Some(&lane(true, false, "root", 5)), &root, 4));
    assert!(!fence_applies(Some(&lane(true, false, "other", 4)), &root, 4));
    assert!(!fence_applies(Some(&lane(false, true, "root", 4)), &root, 4));
    assert!(!fence_applies(None, &root, 4));
}

#[test]
fn audit_requests_match_only_the_current_capturing_root_and_generation() {
    let request = AuditRequestIdentity {
        source_id: "source".to_string(),
        root_identity: "root".to_string(),
        generation: 7,
    };
    let current = lane(true, false, "root", 7);
    assert!(request_matches_current_capturing_lane(false, Some(&current), &request));
    assert!(!request_matches_current_capturing_lane(true, Some(&current), &request));
    assert!(!request_matches_current_capturing_lane(
        false,
        Some(&lane(false, true, "root", 7)),
        &request
    ));
    assert!(!request_matches_current_capturing_lane(
        false,
        Some(&lane(true, false, "root", 8)),
        &request
    ));
    assert!(!request_matches_current_capturing_lane(
        false,
        Some(&lane(true, false, "replaced", 7)),
        &request
    ));
    assert!(!request_matches_current_capturing_lane(false, None, &request));
}

#[test]
fn replay_authority_needs_matching_nonzero_generations_and_coverage() {
    assert_eq!(
        replay_binding(17, 18, 42, 42, true),
        ReplayBinding {
            first_sequence: Some(18),
            authority_eligible: true
        }
    );
    assert!(!replay_binding(17, 18, 41, 42, true).authority_eligible);
    assert!(!replay_binding(17, 18, 0, 0, true).authority_eligible);
    assert!(!replay_binding(17, 18, 42, 42, false).authority_eligible);
    assert_eq!(
        replay_binding(18, 18, 42, 42, true),
        ReplayBinding {
            first_sequence: None,
            authority_eligible: false
        }
    );
    assert_eq!(replay_binding(u64::MAX, u64::MAX, 1, 1, true).first_sequence, None);
}

#[test]
fn plan_binds_only_identity_qualified_roots() {
    let steps = reconcile_plan(
        false,
        &Vec::new(),
        &vec![
            configured("with-identity", Some("identity-a")),
            configured("without-identity", None),
        ],
    );
    assert_eq!(
        steps,
        vec![
            LaneStep::Reconcile {
                source_id: "with-identity".to_string(),
                root_identity: "identity-a".to_string(),
            },
            LaneStep::Stop("without-identity".to_string()),
        ]
    );
}

#[test]
fn closed_admission_fences_then_removes_unconfigured_lanes_in_id_order() {
    let registered = vec![
        "zeta".to_string(),
        "kept".to_string(),
        "alpha".to_string(),
        "Beta".to_string(),
    ];
    let steps = reconcile_plan(true, &registered, &vec![configured("kept", Some("root"))]);
    assert_eq!(
        steps,
        vec![
            LaneStep::FenceAll,
            LaneStep::StopAndRemove("Beta".to_string()),
            LaneStep::StopAndRemove("alpha".to_string()),
            LaneStep::StopAndRemove("zeta".to_string()),
            LaneStep::Reconcile {
                source_id: "kept".to_string(),
                root_identity: "root".to_string(),
            },
        ]
    );
}

#[test]
fn texts_sort_by_code_point_like_str_ordering() {
    let texts: Vec<String> = ["b", "a", "ab", "", "é", "Z", "a"]
        .iter()
        .map(|text| text.to_string())
        .collect();
    let mut expected = texts.clone();
    expected.sort();
    assert_eq!(sorted_texts(&texts), expected);
    assert!(text_at_most(&"a".to_string(), &"ab".to_string()));
    assert!(!text_at_most(&"ab".to_string(), &"a".to_string()));
    assert!(text_at_most(&"same".to_string(), &"same".to_string()));
    assert!(text_at_most(&"Z".to_string(), &"a".to_string()));
}

#[test]
fn admission_reopens_only_after_every_lane_stopped() {
    assert!(fence_all_reopens(&Vec::new()));
    assert!(fence_all_reopens(&vec![true, true]));
    assert!(!fence_all_reopens(&vec![true, false, true]));
}

#[test]
fn closed_admission_binds_no_capture() {
    let current = lane(true, false, "root", 2);
    assert!(lane_for_capture(true, Some(current.clone())).is_none());
    let bound = lane_for_capture(false, Some(current)).expect("open admission binds the lane");
    assert_eq!(bound.generation, 2);
}
