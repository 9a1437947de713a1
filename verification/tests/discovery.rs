use sempal::discovery::{
    discovery_error_is_retryable, discovery_failure_health, manifest_revision_to_accept,
    safety_probe_stats, scheduler_candidate_indices, DiscoveryRound, SafetyProbe,
    SourceDiscoveryStats, SourceHealthPublicationOutcome, SourceProcessingHealthState,
    SourceProcessingTelemetry,
};

#[test]
fn discovery_error_classification_is_conservative() {
    assert!(discovery_error_is_retryable(
        "Database is busy, please retry"
    ));
    assert!(discovery_error_is_retryable(
        "Database query failed: database is locked"
    ));
    assert!(discovery_error_is_retryable(
        "Could not read source: Input/output error (os error 5)"
    ));
    assert!(discovery_error_is_retryable(
        "Could not inspect source database path /tmp/source: Operation timed out (os error 60)"
    ));
    assert!(!discovery_error_is_retryable(
        "Database query failed: no such table: metadata"
    ));
    assert!(!discovery_error_is_retryable(
        "SQLite returned an unexpected result"
    ));
    assert!(!discovery_error_is_retryable(
        "Database query failed: database disk image is malformed"
    ));
    assert!(!discovery_error_is_retryable(
        "Database query failed: malformed schema timeout while validating"
    ));
    assert!(!discovery_error_is_retryable(
        "Database query failed: no such table: metadata (database is locked)"
    ));
    assert!(!discovery_error_is_retryable(
        "SQLite returned an unexpected result: input/output error recorded in metadata"
    ));
    assert!(!discovery_error_is_retryable("operation timed out"));
    assert!(!discovery_error_is_retryable("input/output error"));
    assert!(!discovery_error_is_retryable("i/o error"));
    assert!(!discovery_error_is_retryable(
        "schema validation: database is locked"
    ));
}

#[test]
fn ambiguous_discovery_errors_stay_repair_needed_without_retry_deadline() {
    for error in [
        "Database query failed: malformed schema timeout while validating",
        "operation timed out",
        "input/output error",
        "i/o error",
        "schema validation: database is locked",
    ] {
        let health = discovery_failure_health(error, 123);
        assert_eq!(
            health.state_for_test(),
            SourceProcessingHealthState::ReconciliationFailed,
            "error: {error}"
        );
        assert_eq!(health.retry_at_for_test(), None, "error: {error}");
        assert_eq!(
            health.failure_codes_for_test(),
            ["reconciliation_failed"],
            "error: {error}"
        );
    }
}

#[test]
fn transient_discovery_errors_wait_for_their_retry_deadline() {
    let health = discovery_failure_health("  Database is locked (5)\n", 987);
    assert_eq!(
        health.state_for_test(),
        SourceProcessingHealthState::WaitingForRetry
    );
    assert_eq!(health.retry_at_for_test(), Some(987));
    assert_eq!(health.failure_codes_for_test(), ["discovery_retry_pending"]);
}

#[test]
fn locked_database_codes_and_os_error_codes_must_be_numeric() {
    assert!(discovery_error_is_retryable("database is locked (517)"));
    assert!(!discovery_error_is_retryable("database is locked ()"));
    assert!(!discovery_error_is_retryable("database is locked (busy)"));
    assert!(discovery_error_is_retryable(
        "walk: Stale file handle (os error 116)"
    ));
    assert!(discovery_error_is_retryable(
        "read: Interrupted system call (os error 4)"
    ));
    assert!(discovery_error_is_retryable(
        "open: Resource temporarily unavailable (os error 11)"
    ));
    assert!(discovery_error_is_retryable("read: I/O error (os error 5)"));
    assert!(!discovery_error_is_retryable("read: I/O error (os error x)"));
    assert!(!discovery_error_is_retryable("read: I/O error (os error )"));
}

#[test]
fn accepted_manifest_revision_follows_the_reconciled_delta() {
    let delta = SourceDiscoveryStats {
        delta_reconciled: true,
        reconciled_manifest_revision: Some(4),
        ..SourceDiscoveryStats::default()
    };
    assert_eq!(manifest_revision_to_accept(&delta, Some(9)), Some(9));
    assert_eq!(manifest_revision_to_accept(&delta, None), None);
    let audit = SourceDiscoveryStats {
        reconciled_manifest_revision: Some(4),
        ..SourceDiscoveryStats::default()
    };
    assert_eq!(manifest_revision_to_accept(&audit, Some(9)), Some(4));
}

#[test]
fn scheduler_considers_every_candidate_unless_an_external_scan_is_admitted() {
    let candidates = ["a", "b", "c"];
    assert_eq!(scheduler_candidate_indices(&candidates, false), vec![0, 1, 2]);
    assert!(scheduler_candidate_indices(&candidates, true).is_empty());
}

fn stats(cheap_noop_sweep: bool) -> SourceDiscoveryStats {
    SourceDiscoveryStats {
        cheap_noop_sweep,
        delta_reconciled: false,
        reconciled_manifest_revision: Some(3),
        earliest_retry_at: None,
    }
}

#[test]
fn a_discovery_round_gathers_candidates_stats_and_consumed_deltas() {
    let mut round: DiscoveryRound<&str> = DiscoveryRound::new();

    round.record_completed("a", vec!["a1", "a2"], stats(false), true, None);
    round.record_completed("b", vec!["b1"], stats(true), true, Some(SourceHealthPublicationOutcome::Superseded));
    round.record_completed("c", Vec::new(), stats(false), false, Some(SourceHealthPublicationOutcome::NoSink));
    round.defer("d");
    round.record_failed("e", 99);
    round.note_progress(false);
    assert!(!round.progress_published);
    round.note_progress(true);
    round.note_progress(false);

    assert_eq!(round.candidates, vec!["a1", "a2", "b1"]);
    assert_eq!(round.source_stats.get("a"), Some(&stats(false)));
    assert_eq!(round.source_stats.get("b"), None);
    assert_eq!(
        round.source_stats.get("e"),
        Some(&SourceDiscoveryStats {
            earliest_retry_at: Some(99),
            ..SourceDiscoveryStats::default()
        })
    );
    assert!(round.consumed_readiness_deltas.contains("a"));
    assert!(!round.consumed_readiness_deltas.contains("b"));
    assert!(round.consumed_readiness_deltas.contains("c"));
    assert!(round.deferred.contains("d"));
    assert_eq!(round.deferred.len(), 1);
    assert!(round.progress_published);
}

#[test]
fn safety_probes_settle_only_current_sources() {
    assert_eq!(
        safety_probe_stats(SafetyProbe {
            current: true,
            earliest_deadline: None
        }),
        Some(SourceDiscoveryStats {
            cheap_noop_sweep: true,
            ..SourceDiscoveryStats::default()
        })
    );
    assert_eq!(
        safety_probe_stats(SafetyProbe {
            current: true,
            earliest_deadline: Some(40)
        }),
        Some(SourceDiscoveryStats {
            earliest_retry_at: Some(40),
            ..SourceDiscoveryStats::default()
        })
    );
    assert_eq!(
        safety_probe_stats(SafetyProbe {
            current: false,
            earliest_deadline: Some(40)
        }),
        None
    );
}

#[test]
fn telemetry_counts_discoveries_sweeps_reconciliations_and_failures() {
    let mut telemetry = SourceProcessingTelemetry::default();
    telemetry.note_discovery_started();
    telemetry.note_discovery_completed(&SourceDiscoveryStats {
        cheap_noop_sweep: true,
        ..SourceDiscoveryStats::default()
    });
    telemetry.note_discovery_completed(&SourceDiscoveryStats {
        delta_reconciled: true,
        ..SourceDiscoveryStats::default()
    });
    telemetry.record_discovery_error();
    assert_eq!(
        telemetry,
        SourceProcessingTelemetry {
            source_discoveries: 1,
            cheap_noop_sweeps: 1,
            delta_reconciliations: 1,
            failed: 1,
        }
    );

    telemetry.failed = u64::MAX;
    telemetry.record_discovery_error();
    assert_eq!(telemetry.failed, u64::MAX);
}
