//! Classification of source-discovery failures and small discovery decisions.
//!
//! Transient outages (a busy or locked SQLite database, a timed-out or interrupted OS call)
//! wait for a retry; every other failure, including any message that is only ambiguously
//! transient, is a durable reconciliation failure.
use vstd::prelude::*;
use crate::text::{
    all_ascii_digits, all_digits, ascii_lower, ascii_lower_chars, chars_of, rsplit_once,
    rsplit_once_chars, same_chars, strip_prefix, strip_prefix_chars, strip_suffix,
    strip_suffix_chars, trim, trim_chars,
};
use crate::keyed::{TextMap, TextSet};
use crate::file_drop::{paths_equal, same_components};

verus! {

/// Failure code published while a transient discovery failure waits for its retry.
pub open spec fn retry_pending_code() -> Seq<char> {
    "discovery_retry_pending"@
}

/// Failure code published for a durable discovery failure.
pub open spec fn reconciliation_failed_code() -> Seq<char> {
    "reconciliation_failed"@
}

/// The part of a lower-cased message after its right-most `": "`, or the whole message.
pub open spec fn error_leaf(error: Seq<char>) -> Seq<char> {
    match rsplit_once(error, ": "@) {
        Some(parts) => parts.1,
        None => error,
    }
}

/// The message is the leaf itself, or the leaf wrapped once as a failed database query.
pub open spec fn known_sqlite_wrapper(error: Seq<char>, leaf: Seq<char>) -> bool {
    error == leaf || strip_prefix(error, "database query failed: "@) == Some(leaf)
}

/// `text` is `prefix`, a non-empty run of ASCII digits, then `)`.
pub open spec fn digits_in_parentheses_after(text: Seq<char>, prefix: Seq<char>) -> bool {
    match strip_prefix(text, prefix) {
        Some(rest) => match strip_suffix(rest, ")"@) {
            Some(code) => all_ascii_digits(code),
            None => false,
        },
        None => false,
    }
}

/// A busy or locked SQLite database.
pub open spec fn database_busy_leaf(leaf: Seq<char>) -> bool {
    ||| leaf == "database is busy, please retry"@
    ||| leaf == "database is locked"@
    ||| digits_in_parentheses_after(leaf, "database is locked ("@)
}

/// `leaf` is `marker` followed by ` (os error N)` with a numeric `N`.
pub open spec fn os_error_leaf(leaf: Seq<char>, marker: Seq<char>) -> bool {
    match strip_prefix(leaf, marker) {
        Some(rest) => digits_in_parentheses_after(rest, " (os error "@),
        None => false,
    }
}

/// The transient operating-system failures.
pub open spec fn transient_os_markers() -> Seq<Seq<char>> {
    seq![
        "operation timed out"@,
        "resource temporarily unavailable"@,
        "stale file handle"@,
        "input/output error"@,
        "i/o error"@,
        "interrupted system call"@,
    ]
}

/// The whole classification: after trimming and lower-casing, the leaf is a busy or locked
/// database (directly or as a failed database query), or a transient OS error with its code.
pub open spec fn error_is_retryable(error: Seq<char>) -> bool {
    let normalized = ascii_lower(trim(error));
    let leaf = error_leaf(normalized);
    ||| known_sqlite_wrapper(normalized, leaf) && database_busy_leaf(leaf)
    ||| exists|i: int|
        0 <= i < transient_os_markers().len() && os_error_leaf(
            leaf,
            #[trigger] transient_os_markers()[i],
        )
}

fn digits_in_parentheses(text: &Vec<char>, prefix: &str) -> (found: bool)
    ensures
        found == digits_in_parentheses_after(text@, prefix@),
{
    let prefix = chars_of(prefix);
    let close = chars_of(")");
    match strip_prefix_chars(text, &prefix) {
        Some(rest) => match strip_suffix_chars(&rest, &close) {
            Some(code) => all_digits(&code),
            None => false,
        },
        None => false,
    }
}

/// `leaf` is `marker` followed by ` (os error N)` with a numeric `N`.
pub fn os_error_leaf_matches(leaf: &Vec<char>, marker: &str) -> (matches: bool)
    ensures
        matches == os_error_leaf(leaf@, marker@),
{
    let marker = chars_of(marker);
    match strip_prefix_chars(leaf, &marker) {
        Some(rest) => digits_in_parentheses(&rest, " (os error "),
        None => false,
    }
}

fn equals_literal(text: &Vec<char>, literal: &str) -> (same: bool)
    ensures
        same == (text@ == literal@),
{
    let literal = chars_of(literal);
    same_chars(text, &literal)
}

/// Whether a discovery failure message names a transient outage.
pub fn discovery_error_is_retryable(error: &str) -> (retryable: bool)
    ensures
        retryable == error_is_retryable(error@),
{
    let raw = chars_of(error);
    let trimmed = trim_chars(&raw);
    let normalized = ascii_lower_chars(&trimmed);
    let separator = chars_of(": ");
    let leaf = match rsplit_once_chars(&normalized, &separator) {
        Some((_, leaf)) => leaf,
        None => same_copy(&normalized),
    };
    assert(normalized@ == ascii_lower(trim(error@)));
    assert(leaf@ == error_leaf(normalized@));
    let wrapper = chars_of("database query failed: ");
    let known_sqlite_wrapper = same_chars(&normalized, &leaf) || match strip_prefix_chars(
        &normalized,
        &wrapper,
    ) {
        Some(cause) => same_chars(&cause, &leaf),
        None => false,
    };
    if known_sqlite_wrapper && (equals_literal(&leaf, "database is busy, please retry")
        || equals_literal(&leaf, "database is locked") || digits_in_parentheses(
        &leaf,
        "database is locked (",
    )) {
        return true;
    }
    let markers = [
        "operation timed out",
        "resource temporarily unavailable",
        "stale file handle",
        "input/output error",
        "i/o error",
        "interrupted system call",
    ];
    assert(markers@.map_values(|m: &str| m@) =~= transient_os_markers());
    let mut k: usize = 0;
    while k < markers.len()
        invariant
            k <= markers@.len(),
            markers@.map_values(|m: &str| m@) == transient_os_markers(),
            leaf@ == error_leaf(ascii_lower(trim(error@))),
            forall|m: int| 0 <= m < k ==> !os_error_leaf(leaf@, #[trigger] transient_os_markers()[m]),
        decreases markers@.len() - k,
    {
        if os_error_leaf_matches(&leaf, markers[k]) {
            assert(transient_os_markers()[k as int] == markers@[k as int]@);
            assert(os_error_leaf(leaf@, transient_os_markers()[k as int]));
            return true;
        }
        assert(transient_os_markers()[k as int] == markers@[k as int]@);
        k = k + 1;
    }
    false
}

fn same_copy(text: &Vec<char>) -> (copy: Vec<char>)
    ensures
        copy@ == text@,
{
    let mut copy: Vec<char> = Vec::new();
    let mut k: usize = 0;
    while k < text.len()
        invariant
            k <= text@.len(),
            copy@ == text@.subrange(0, k as int),
        decreases text@.len() - k,
    {
        copy.push(text[k]);
        k = k + 1;
        assert(copy@ =~= text@.subrange(0, k as int));
    }
    assert(text@.subrange(0, text@.len() as int) =~= text@);
    copy
}

/// Source processing health as published for a source.
#[derive(Clone, Copy, Debug, PartialEq, Eq, Structural)]
pub enum SourceProcessingHealthState {
    WaitingForRetry,
    ReconciliationFailed,
}

/// The health a failed discovery publishes: its state, when a retry is due, and its codes.
#[derive(Clone, Debug, PartialEq, Eq)]
pub struct SourceHealthSummary {
    state: SourceProcessingHealthState,
    retry_at: Option<i64>,
    failure_codes: Vec<String>,
}

/// Mathematical value of a [`SourceHealthSummary`].
pub struct HealthModel {
    pub state: SourceProcessingHealthState,
    pub retry_at: Option<i64>,
    pub failure_codes: Seq<Seq<char>>,
}

impl View for SourceHealthSummary {
    type V = HealthModel;

    closed spec fn view(&self) -> HealthModel {
        HealthModel {
            state: self.state,
            retry_at: self.retry_at,
            failure_codes: self.failure_codes@.map_values(|code: String| code@),
        }
    }
}

pub open spec fn waiting_for_retry_model(code: Seq<char>, retry_at: i64) -> HealthModel {
    HealthModel {
        state: SourceProcessingHealthState::WaitingForRetry,
        retry_at: Some(retry_at),
        failure_codes: seq![code],
    }
}

pub open spec fn reconciliation_failed_model(code: Seq<char>) -> HealthModel {
    HealthModel {
        state: SourceProcessingHealthState::ReconciliationFailed,
        retry_at: None,
        failure_codes: seq![code],
    }
}

impl SourceHealthSummary {
    /// A failure that is retried at `retry_at`.
    pub fn waiting_for_retry(code: &str, retry_at: i64) -> (health: Self)
        ensures
            health@ == waiting_for_retry_model(code@, retry_at),
    {
        let mut failure_codes: Vec<String> = Vec::new();
        failure_codes.push(code.to_owned());
        let health = SourceHealthSummary {
            state: SourceProcessingHealthState::WaitingForRetry,
            retry_at: Some(retry_at),
            failure_codes,
        };
        assert(health@.failure_codes =~= seq![code@]);
        health
    }

    /// A durable failure that needs repair.
    pub fn reconciliation_failed(code: &str) -> (health: Self)
        ensures
            health@ == reconciliation_failed_model(code@),
    {
        let mut failure_codes: Vec<String> = Vec::new();
        failure_codes.push(code.to_owned());
        let health = SourceHealthSummary {
            state: SourceProcessingHealthState::ReconciliationFailed,
            retry_at: None,
            failure_codes,
        };
        assert(health@.failure_codes =~= seq![code@]);
        health
    }

    pub fn state_for_test(&self) -> (state: SourceProcessingHealthState)
        ensures
            state == self@.state,
    {
        self.state
    }

    pub fn retry_at_for_test(&self) -> (retry_at: Option<i64>)
        ensures
            retry_at == self@.retry_at,
    {
        self.retry_at
    }

    pub fn failure_codes_for_test(&self) -> (codes: Vec<String>)
        ensures
            codes@.map_values(|code: String| code@) == self@.failure_codes,
    {
        let mut codes: Vec<String> = Vec::new();
        let mut k: usize = 0;
        while k < self.failure_codes.len()
            invariant
                k <= self.failure_codes@.len(),
                codes@.len() == k,
                forall|i: int| 0 <= i < k ==> #[trigger] codes@[i]@ == self.failure_codes@[i]@,
            decreases self.failure_codes@.len() - k,
        {
            let code = self.failure_codes[k].clone();
            codes.push(code);
            k = k + 1;
        }
        assert(codes@.map_values(|code: String| code@) =~= self.failure_codes@.map_values(
            |code: String| code@,
        ));
        codes
    }
}

/// The health published for a failed discovery: transient failures wait for `retry_at`,
/// everything else is a reconciliation failure without a retry deadline.
pub fn discovery_failure_health(error: &str, retry_at: i64) -> (health: SourceHealthSummary)
    ensures
        error_is_retryable(error@) ==> health@ == waiting_for_retry_model(
            retry_pending_code(),
            retry_at,
        ),
        !error_is_retryable(error@) ==> health@ == reconciliation_failed_model(
            reconciliation_failed_code(),
        ),
{
    if discovery_error_is_retryable(error) {
        SourceHealthSummary::waiting_for_retry("discovery_retry_pending", retry_at)
    } else {
        SourceHealthSummary::reconciliation_failed("reconciliation_failed")
    }
}

/// What one source discovery reported.
#[derive(Clone, Copy, Debug, PartialEq, Eq, Default)]
pub struct SourceDiscoveryStats {
    pub cheap_noop_sweep: bool,
    pub delta_reconciled: bool,
    pub reconciled_manifest_revision: Option<u64>,
    pub earliest_retry_at: Option<i64>,
}

/// The manifest revision a completed discovery lets the source accept: the pending delta's
/// revision when the discovery reconciled that delta, otherwise the revision it reconciled.
pub fn manifest_revision_to_accept(stats: &SourceDiscoveryStats, pending_revision: Option<u64>) -> (revision: Option<u64>)
    ensures
        revision == if stats.delta_reconciled {
            pending_revision
        } else {
            stats.reconciled_manifest_revision
        },
{
    if stats.delta_reconciled {
        pending_revision
    } else {
        stats.reconciled_manifest_revision
    }
}

/// The candidates a scheduling pass may consider: all of them, unless an external scan has
/// been admitted, in which case none.
pub fn scheduler_candidate_indices<T>(candidates: &[T], external_scan_admitted: bool) -> (indices:
    Vec<usize>)
    ensures
        external_scan_admitted ==> indices@.len() == 0,
        !external_scan_admitted ==> indices@.len() == candidates@.len() && forall|i: int|
            0 <= i < indices@.len() ==> indices@[i] == i,
{
    let mut indices: Vec<usize> = Vec::new();
    let mut k: usize = 0;
    while k < candidates.len()
        invariant
            k <= candidates@.len(),
            external_scan_admitted ==> indices@.len() == 0,
            !external_scan_admitted ==> indices@.len() == k && forall|i: int|
                0 <= i < indices@.len() ==> indices@[i] == i,
        decreases candidates@.len() - k,
    {
        if !external_scan_admitted {
            indices.push(k);
        }
        k = k + 1;
    }
    indices
}

/// What publishing a source's health summary came to.
#[derive(Clone, Copy, Debug, PartialEq, Eq, Structural)]
pub enum SourceHealthPublicationOutcome {
    Published,
    AlreadyPublished,
    NoSink,
    Superseded,
}

/// Whether a completed discovery consumes the source's pending readiness delta: when it
/// published a health summary, exactly when that summary reached its sink, is already there or
/// has no sink to reach; otherwise whenever a delta was pending.
pub open spec fn consumes_readiness_delta(
    had_pending_delta: bool,
    health_publication: Option<SourceHealthPublicationOutcome>,
) -> bool {
    match health_publication {
        None => had_pending_delta,
        Some(outcome) => outcome == SourceHealthPublicationOutcome::Published || outcome
            == SourceHealthPublicationOutcome::AlreadyPublished || outcome
            == SourceHealthPublicationOutcome::NoSink,
    }
}

/// What one discovery pass over the sources has gathered so far.
pub struct DiscoveryRound<C> {
    pub candidates: Vec<C>,
    pub source_stats: TextMap<SourceDiscoveryStats>,
    pub deferred: TextSet,
    pub consumed_readiness_deltas: TextSet,
    pub progress_published: bool,
}

impl<C> DiscoveryRound<C> {
    pub fn new() -> (round: Self)
        ensures
            round.candidates@.len() == 0,
            round.source_stats@ == Map::<Seq<char>, SourceDiscoveryStats>::empty(),
            round.deferred@ == Set::<Seq<char>>::empty(),
            round.consumed_readiness_deltas@ == Set::<Seq<char>>::empty(),
            !round.progress_published,
    {
        DiscoveryRound {
            candidates: Vec::new(),
            source_stats: TextMap::new(),
            deferred: TextSet::new(),
            consumed_readiness_deltas: TextSet::new(),
            progress_published: false,
        }
    }

    /// The source could not be discovered now (no budget, or its discovery was cancelled): it
    /// is deferred to a later pass.
    pub fn defer(&mut self, source_id: &str)
        ensures
            final(self).deferred@ == old(self).deferred@.insert(source_id@),
            final(self).candidates@ == old(self).candidates@,
            final(self).source_stats@ == old(self).source_stats@,
            final(self).consumed_readiness_deltas@ == old(self).consumed_readiness_deltas@,
            final(self).progress_published == old(self).progress_published,
    {
        self.deferred.insert(source_id.to_owned());
    }

    /// A discovery of the source completed: its candidates join the pass, its statistics are
    /// kept unless it was a cheap no-op sweep, and its pending readiness delta is consumed as
    /// [`consumes_readiness_delta`] says.
    pub fn record_completed(
        &mut self,
        source_id: &str,
        candidates: Vec<C>,
        stats: SourceDiscoveryStats,
        had_pending_delta: bool,
        health_publication: Option<SourceHealthPublicationOutcome>,
    )
        ensures
            final(self).candidates@ == old(self).candidates@ + candidates@,
            final(self).source_stats@ == if stats.cheap_noop_sweep {
                old(self).source_stats@
            } else {
                old(self).source_stats@.insert(source_id@, stats)
            },
            final(self).consumed_readiness_deltas@ == if consumes_readiness_delta(
                had_pending_delta,
                health_publication,
            ) {
                old(self).consumed_readiness_deltas@.insert(source_id@)
            } else {
                old(self).consumed_readiness_deltas@
            },
            final(self).deferred@ == old(self).deferred@,
            final(self).progress_published == old(self).progress_published,
    {
        let mut candidates = candidates;
        self.candidates.append(&mut candidates);
        if !stats.cheap_noop_sweep {
            self.source_stats.insert(source_id.to_owned(), stats);
        }
        let consume = match health_publication {
            None => had_pending_delta,
            Some(outcome) => match outcome {
                SourceHealthPublicationOutcome::Published => true,
                SourceHealthPublicationOutcome::AlreadyPublished => true,
                SourceHealthPublicationOutcome::NoSink => true,
                SourceHealthPublicationOutcome::Superseded => false,
            },
        };
        if consume {
            self.consumed_readiness_deltas.insert(source_id.to_owned());
        }
    }

    /// A discovery of the source failed: the source is retried no earlier than `retry_at`.
    pub fn record_failed(&mut self, source_id: &str, retry_at: i64)
        ensures
            final(self).source_stats@ == old(self).source_stats@.insert(
                source_id@,
                SourceDiscoveryStats {
                    cheap_noop_sweep: false,
                    delta_reconciled: false,
                    reconciled_manifest_revision: None,
                    earliest_retry_at: Some(retry_at),
                },
            ),
            final(self).candidates@ == old(self).candidates@,
            final(self).deferred@ == old(self).deferred@,
            final(self).consumed_readiness_deltas@ == old(self).consumed_readiness_deltas@,
            final(self).progress_published == old(self).progress_published,
    {
        self.source_stats.insert(
            source_id.to_owned(),
            SourceDiscoveryStats {
                cheap_noop_sweep: false,
                delta_reconciled: false,
                reconciled_manifest_revision: None,
                earliest_retry_at: Some(retry_at),
            },
        );
    }

    /// Note whether a source's discovery published a progress event.
    pub fn note_progress(&mut self, published: bool)
        ensures
            final(self).progress_published == (old(self).progress_published || published),
            final(self).candidates@ == old(self).candidates@,
            final(self).source_stats@ == old(self).source_stats@,
            final(self).deferred@ == old(self).deferred@,
            final(self).consumed_readiness_deltas@ == old(self).consumed_readiness_deltas@,
    {
        self.progress_published = self.progress_published || published;
    }
}

/// What a read-only safety probe of a source found.
#[derive(Clone, Copy, Debug, PartialEq, Eq)]
pub struct SafetyProbe {
    /// The durable readiness state is current.
    pub current: bool,
    /// The earliest pending deadline, if any.
    pub earliest_deadline: Option<i64>,
}

/// The statistics a safety probe settles a discovery with: a current state without deadline
/// is a cheap no-op sweep, a current state with one waits for it, and a state that is not
/// current needs the full discovery (`None`).
pub fn safety_probe_stats(probe: SafetyProbe) -> (stats: Option<SourceDiscoveryStats>)
    ensures
        !probe.current ==> stats is None,
        probe.current && probe.earliest_deadline is None ==> stats == Some(
            SourceDiscoveryStats {
                cheap_noop_sweep: true,
                delta_reconciled: false,
                reconciled_manifest_revision: None,
                earliest_retry_at: None,
            },
        ),
        probe.current && probe.earliest_deadline is Some ==> stats == Some(
            SourceDiscoveryStats {
                cheap_noop_sweep: false,
                delta_reconciled: false,
                reconciled_manifest_revision: None,
                earliest_retry_at: probe.earliest_deadline,
            },
        ),
{
    if !probe.current {
        return None;
    }
    match probe.earliest_deadline {
        None => Some(
            SourceDiscoveryStats {
                cheap_noop_sweep: true,
                delta_reconciled: false,
                reconciled_manifest_revision: None,
                earliest_retry_at: None,
            },
        ),
        Some(deadline) => Some(
            SourceDiscoveryStats {
                cheap_noop_sweep: false,
                delta_reconciled: false,
                reconciled_manifest_revision: None,
                earliest_retry_at: Some(deadline),
            },
        ),
    }
}

/// One more, stopping at the largest value.
pub open spec fn saturating_increment(value: u64) -> u64 {
    if value == u64::MAX {
        value
    } else {
        (value + 1) as u64
    }
}

/// Counters of the source-processing supervisor's discovery work.
#[derive(Clone, Copy, Debug, PartialEq, Eq, Default)]
pub struct SourceProcessingTelemetry {
    pub source_discoveries: u64,
    pub cheap_noop_sweeps: u64,
    pub delta_reconciliations: u64,
    pub failed: u64,
}

impl SourceProcessingTelemetry {
    /// A source discovery started.
    pub fn note_discovery_started(&mut self)
        ensures
            final(self).source_discoveries == saturating_increment(old(self).source_discoveries),
            final(self).cheap_noop_sweeps == old(self).cheap_noop_sweeps,
            final(self).delta_reconciliations == old(self).delta_reconciliations,
            final(self).failed == old(self).failed,
    {
        self.source_discoveries = self.source_discoveries.saturating_add(1);
    }

    /// A source discovery completed with `stats`: a cheap no-op sweep and a reconciled delta
    /// are each counted.
    pub fn note_discovery_completed(&mut self, stats: &SourceDiscoveryStats)
        ensures
            final(self).source_discoveries == old(self).source_discoveries,
            final(self).cheap_noop_sweeps == if stats.cheap_noop_sweep {
                saturating_increment(old(self).cheap_noop_sweeps)
            } else {
                old(self).cheap_noop_sweeps
            },
            final(self).delta_reconciliations == if stats.delta_reconciled {
                saturating_increment(old(self).delta_reconciliations)
            } else {
                old(self).delta_reconciliations
            },
            final(self).failed == old(self).failed,
    {
        if stats.cheap_noop_sweep {
            self.cheap_noop_sweeps = self.cheap_noop_sweeps.saturating_add(1);
        }
        if stats.delta_reconciled {
            self.delta_reconciliations = self.delta_reconciliations.saturating_add(1);
        }
    }

    /// A source discovery failed.
    pub fn record_discovery_error(&mut self)
        ensures
            final(self).failed == saturating_increment(old(self).failed),
            final(self).source_discoveries == old(self).source_discoveries,
            final(self).cheap_noop_sweeps == old(self).cheap_noop_sweeps,
            final(self).delta_reconciliations == old(self).delta_reconciliations,
    {
        self.failed = self.failed.saturating_add(1);
    }
}


/// How the health of a source whose root folder is missing is reported.
#[derive(Clone, Copy, Debug, PartialEq, Eq, Structural)]
pub enum OfflineHealth {
    /// The database lives in its own folder, which exists: mark the source temporarily
    /// unavailable there and report the health it reconciles to (offline when the schema or
    /// the reconciliation is unavailable).
    RecordInDatabase,
    /// Report the source offline.
    Offline,
}

/// Decide how a source with a missing root is reported: through its database only when the
/// database folder is not the root (compared by components) and exists.
pub fn offline_health(root: &String, database_root: &String, database_folder_exists: bool) -> (health:
    OfflineHealth)
    ensures
        health == if !same_components(database_root@, root@) && database_folder_exists {
            OfflineHealth::RecordInDatabase
        } else {
            OfflineHealth::Offline
        },
{
    if !paths_equal(database_root, root) && database_folder_exists {
        OfflineHealth::RecordInDatabase
    } else {
        OfflineHealth::Offline
    }
}

} // verus!
