use sempal::audit_queue::{
    displaced_audit_recovery, AuditRequestIdentity, AuditRequestQueueOutcome,
    PendingSourceAuditRequests,
};

fn identity(source: &str, root: &str, generation: u64) -> AuditRequestIdentity {
    AuditRequestIdentity {
        source_id: source.to_string(),
        root_identity: root.to_string(),
        generation,
    }
}

fn keep_latest(_held: &u32, incoming: &u32) -> u32 {
    *incoming
}

fn widest(held: &u32, incoming: &u32) -> u32 {
    if *held > *incoming {
        *held
    } else {
        *incoming
    }
}

fn queue_with_capacity(capacity: usize) -> PendingSourceAuditRequests<u32> {
    let mut queue = PendingSourceAuditRequests::default();
    queue.set_capacity(capacity);
    queue
}

#[test]
fn same_identity_is_covered_into_its_queued_entry() {
    let mut queue = queue_with_capacity(4);
    assert_eq!(
        queue.insert(identity("a", "root-a", 1), 10, false, widest),
        AuditRequestQueueOutcome::Queued
    );
    assert_eq!(
        queue.insert(identity("b", "root-b", 1), 20, false, widest),
        AuditRequestQueueOutcome::Queued
    );
    assert_eq!(
        queue.insert(identity("a", "root-a", 1), 30, true, widest),
        AuditRequestQueueOutcome::Coalesced
    );
    assert_eq!(queue.len(), 2);
    let first = queue.front().expect("front entry");
    assert_eq!(first.identity.source_id, "a");
    assert_eq!(first.request, 30);
    assert!(first.marker_backed);
    assert!(!queue.conservative_recovery_latched());
}

#[test]
fn a_new_generation_is_a_separate_identity() {
    let mut queue = queue_with_capacity(4);
    queue.insert(identity("a", "root-a", 1), 10, false, keep_latest);
    assert_eq!(
        queue.insert(identity("a", "root-a", 2), 11, false, keep_latest),
        AuditRequestQueueOutcome::Queued
    );
    assert_eq!(
        queue.insert(identity("a", "root-b", 2), 12, false, keep_latest),
        AuditRequestQueueOutcome::Queued
    );
    assert_eq!(queue.len(), 3);
}

#[test]
fn full_queue_refuses_a_fallback_request_and_latches() {
    let mut queue = queue_with_capacity(1);
    queue.insert(identity("a", "root", 1), 1, false, keep_latest);
    assert_eq!(
        queue.insert(identity("b", "root", 1), 2, false, keep_latest),
        AuditRequestQueueOutcome::FallbackCouldNotFit
    );
    assert_eq!(queue.len(), 1);
    assert_eq!(queue.front().expect("front").identity.source_id, "a");
    assert!(queue.conservative_recovery_latched());
    queue.clear_conservative_recovery_latch();
    assert!(!queue.conservative_recovery_latched());
}

#[test]
fn marker_backed_request_displaces_the_oldest_fallback() {
    let mut queue = queue_with_capacity(3);
    queue.insert(identity("marker", "root", 1), 1, true, keep_latest);
    queue.insert(identity("old-fallback", "root", 1), 2, false, keep_latest);
    queue.insert(identity("new-fallback", "root", 1), 3, false, keep_latest);
    assert_eq!(
        queue.insert(identity("incoming", "root", 1), 4, true, keep_latest),
        AuditRequestQueueOutcome::QueuedAfterDroppingFallback
    );
    assert!(queue.conservative_recovery_latched());
    let order: Vec<String> = std::iter::from_fn(|| queue.pop_front())
        .map(|entry| entry.identity.source_id)
        .collect();
    assert_eq!(order, vec!["marker", "new-fallback", "incoming"]);
}

#[test]
fn marker_backed_request_cannot_fit_among_markers() {
    let mut queue = queue_with_capacity(1);
    queue.insert(identity("marker", "root", 1), 1, true, keep_latest);
    assert_eq!(
        queue.insert(identity("other", "root", 1), 2, true, keep_latest),
        AuditRequestQueueOutcome::MarkerCouldNotFit
    );
    assert_eq!(queue.len(), 1);
    assert!(queue.front().expect("front").marker_backed);
    assert!(queue.conservative_recovery_latched());
}

#[test]
fn zero_capacity_refuses_everything() {
    let mut queue: PendingSourceAuditRequests<u32> = PendingSourceAuditRequests::new();
    assert!(queue.is_empty());
    assert_eq!(
        queue.insert(identity("a", "root", 1), 1, false, keep_latest),
        AuditRequestQueueOutcome::FallbackCouldNotFit
    );
    assert_eq!(
        queue.insert(identity("a", "root", 1), 1, true, keep_latest),
        AuditRequestQueueOutcome::MarkerCouldNotFit
    );
    assert!(queue.is_empty());
}

#[test]
fn purge_keeps_matching_entries_in_order_and_returns_the_rest() {
    let mut queue = queue_with_capacity(4);
    queue.insert(identity("a", "root", 1), 1, false, keep_latest);
    queue.insert(identity("b", "root", 2), 2, true, keep_latest);
    queue.insert(identity("c", "root", 1), 3, false, keep_latest);
    queue.insert(identity("d", "root", 3), 4, false, keep_latest);
    let displaced = queue.purge_non_matching(|entry| entry.identity.generation == 1);
    let displaced_ids: Vec<&str> = displaced
        .iter()
        .map(|entry| entry.identity.source_id.as_str())
        .collect();
    assert_eq!(displaced_ids, vec!["b", "d"]);
    assert_eq!(queue.len(), 2);
    assert_eq!(queue.pop_front().expect("first").identity.source_id, "a");
    assert_eq!(queue.pop_front().expect("second").identity.source_id, "c");
    assert!(queue.pop_front().is_none());
}

#[test]
fn clear_drops_entries_and_the_latch() {
    let mut queue = queue_with_capacity(1);
    queue.insert(identity("a", "root", 1), 1, false, keep_latest);
    queue.insert(identity("b", "root", 1), 2, false, keep_latest);
    assert!(queue.conservative_recovery_latched());
    queue.clear();
    assert!(queue.is_empty());
    assert!(!queue.conservative_recovery_latched());
    assert_eq!(
        queue.insert(identity("b", "root", 1), 2, false, keep_latest),
        AuditRequestQueueOutcome::Queued
    );
}

#[test]
fn marker_backed_entries_survive_every_later_insert() {
    let mut queue = queue_with_capacity(2);
    queue.insert(identity("marker", "root", 1), 1, true, keep_latest);
    queue.insert(identity("fallback", "root", 1), 2, false, keep_latest);
    for generation in 2..6 {
        queue.insert(identity("marker", "root", generation), 3, true, keep_latest);
        queue.insert(identity("fallback", "root", generation), 4, false, keep_latest);
    }
    let first = queue.front().expect("front");
    assert_eq!(first.identity.source_id, "marker");
    assert_eq!(first.identity.generation, 1);
    assert!(first.marker_backed);
}

#[test]
fn displaced_requests_widen_configured_sources_or_recover_all() {
    let mut queue = queue_with_capacity(3);
    queue.insert(identity("kept", "root", 1), 1, false, keep_latest);
    queue.insert(identity("configured", "root", 1), 2, false, keep_latest);
    queue.insert(identity("configured", "root", 2), 3, false, keep_latest);
    let displaced = queue.purge_non_matching(|entry| entry.identity.source_id == "kept");
    let configured = vec!["kept".to_string(), "configured".to_string()];
    let recovery = displaced_audit_recovery(&configured, &displaced);
    assert_eq!(recovery.widen, vec!["configured", "configured"]);
    assert!(!recovery.recover_all);

    let mut queue = queue_with_capacity(2);
    queue.insert(identity("removed", "root", 1), 1, false, keep_latest);
    queue.insert(identity("configured", "root", 1), 2, false, keep_latest);
    let displaced = queue.purge_non_matching(|_| false);
    let recovery = displaced_audit_recovery(&configured, &displaced);
    assert_eq!(recovery.widen, vec!["configured"]);
    assert!(recovery.recover_all);
}
