//! Durable source-watcher cursors and the rule that decides when a cursor may advance.
//!
//! A cursor records how far the FSEvents history of a source root has been applied. The
//! revision-bound format ties the cursor to the source id, the source lifecycle generation and
//! the manifest revision it was established against; the legacy format only names the root
//! identity and the event id. Malformed, unknown, stale and superseded evidence is never
//! rewritten: every doubtful case answers `AuditRequired`.
use vstd::prelude::*;

verus! {

/// Version stamped into every revision-bound cursor.
pub const CHECKPOINT_FORMAT_VERSION: u32 = 2;

/// Why a revision-bound cursor was produced.
#[derive(Clone, Copy, Debug, PartialEq, Eq, Structural)]
pub enum CheckpointCause {
    TargetedReplay,
    CompletedFallbackAudit,
}

/// A cursor request bound to one source lifecycle and manifest revision.
#[derive(Clone, Debug, PartialEq, Eq)]
pub struct RevisionBoundCheckpoint {
    pub source_id: String,
    pub lifecycle_generation: u64,
    pub source_revision: u64,
    pub root_identity: String,
    pub event_id: u64,
    pub cause: CheckpointCause,
}

/// Mathematical value of a [`RevisionBoundCheckpoint`].
pub struct RevisionBoundModel {
    pub source_id: Seq<char>,
    pub lifecycle_generation: u64,
    pub source_revision: u64,
    pub root_identity: Seq<char>,
    pub event_id: u64,
    pub cause: CheckpointCause,
}

impl View for RevisionBoundCheckpoint {
    type V = RevisionBoundModel;

    open spec fn view(&self) -> RevisionBoundModel {
        RevisionBoundModel {
            source_id: self.source_id@,
            lifecycle_generation: self.lifecycle_generation,
            source_revision: self.source_revision,
            root_identity: self.root_identity@,
            event_id: self.event_id,
            cause: self.cause,
        }
    }
}

/// Result of asking whether a cursor may advance.
#[derive(Clone, Copy, Debug, PartialEq, Eq, Structural)]
pub enum CheckpointAdvanceOutcome {
    Applied,
    AlreadyApplied,
    Superseded,
    Retryable,
    AuditRequired,
}

/// The cursor as stored in the source database: either the legacy two-field shape or the
/// complete revision-bound shape.
#[derive(Clone, Debug, PartialEq, Eq)]
pub struct SourceWatcherCheckpoint {
    pub root_identity: String,
    pub event_id: u64,
    pub format_version: Option<u32>,
    pub source_id: Option<String>,
    pub lifecycle_generation: Option<u64>,
    pub source_revision: Option<u64>,
    pub cause: Option<CheckpointCause>,
}

/// Mathematical value of a [`SourceWatcherCheckpoint`].
pub struct WatcherCheckpointModel {
    pub root_identity: Seq<char>,
    pub event_id: u64,
    pub format_version: Option<u32>,
    pub source_id: Option<Seq<char>>,
    pub lifecycle_generation: Option<u64>,
    pub source_revision: Option<u64>,
    pub cause: Option<CheckpointCause>,
}

pub open spec fn opt_string_view(value: Option<String>) -> Option<Seq<char>> {
    match value {
        Some(text) => Some(text@),
        None => None,
    }
}

impl View for SourceWatcherCheckpoint {
    type V = WatcherCheckpointModel;

    open spec fn view(&self) -> WatcherCheckpointModel {
        WatcherCheckpointModel {
            root_identity: self.root_identity@,
            event_id: self.event_id,
            format_version: self.format_version,
            source_id: opt_string_view(self.source_id),
            lifecycle_generation: self.lifecycle_generation,
            source_revision: self.source_revision,
            cause: self.cause,
        }
    }
}

/// The legacy cursor: a root identity and an event id, nothing else.
pub open spec fn legacy_model(root_identity: Seq<char>, event_id: u64) -> WatcherCheckpointModel {
    WatcherCheckpointModel {
        root_identity,
        event_id,
        format_version: None,
        source_id: None,
        lifecycle_generation: None,
        source_revision: None,
        cause: None,
    }
}

/// The stored form of a revision-bound cursor.
pub open spec fn stored_model(checkpoint: RevisionBoundModel) -> WatcherCheckpointModel {
    WatcherCheckpointModel {
        root_identity: checkpoint.root_identity,
        event_id: checkpoint.event_id,
        format_version: Some(CHECKPOINT_FORMAT_VERSION),
        source_id: Some(checkpoint.source_id),
        lifecycle_generation: Some(checkpoint.lifecycle_generation),
        source_revision: Some(checkpoint.source_revision),
        cause: Some(checkpoint.cause),
    }
}

/// The revision-bound reading of a stored cursor: present exactly when the format version is
/// the current one and every revision-bound field is present.
pub open spec fn revision_bound_model(stored: WatcherCheckpointModel) -> Option<RevisionBoundModel> {
    if stored.format_version == Some(CHECKPOINT_FORMAT_VERSION) && stored.source_id is Some
        && stored.lifecycle_generation is Some && stored.source_revision is Some
        && stored.cause is Some {
        Some(
            RevisionBoundModel {
                source_id: stored.source_id->0,
                lifecycle_generation: stored.lifecycle_generation->0,
                source_revision: stored.source_revision->0,
                root_identity: stored.root_identity,
                event_id: stored.event_id,
                cause: stored.cause->0,
            },
        )
    } else {
        None
    }
}

/// The request names the configured source, its current lifecycle generation, its current
/// manifest revision and its live root identity.
pub open spec fn request_matches_truth(
    requested: RevisionBoundModel,
    expected_source_id: Seq<char>,
    lifecycle_generation: u64,
    source_revision: u64,
    root_identity: Seq<char>,
) -> bool {
    &&& requested.source_id == expected_source_id
    &&& requested.lifecycle_generation == lifecycle_generation
    &&& requested.source_revision == source_revision
    &&& requested.root_identity == root_identity
}

/// Decision over a stored revision-bound cursor `current` for a request that matches the
/// current truth.
pub open spec fn advance_over_bound(
    current: RevisionBoundModel,
    requested: RevisionBoundModel,
    source_revision: u64,
) -> CheckpointAdvanceOutcome {
    if current.source_id != requested.source_id || current.source_revision > source_revision
        || current.root_identity != requested.root_identity {
        CheckpointAdvanceOutcome::AuditRequired
    } else if current == requested {
        CheckpointAdvanceOutcome::AlreadyApplied
    } else if requested.event_id < current.event_id {
        CheckpointAdvanceOutcome::AuditRequired
    } else if requested.event_id > current.event_id {
        CheckpointAdvanceOutcome::Applied
    } else {
        CheckpointAdvanceOutcome::Superseded
    }
}

/// The whole advance rule.
///
/// * A request that does not match the current truth needs an audit.
/// * A completed fallback audit establishes the first cursor when none is stored, and upgrades
///   a legacy cursor of the same root that is not ahead of it.
/// * Otherwise a revision-bound cursor must be stored; it may only move forward, within the
///   same source and root, and never from a revision ahead of the current one.
pub open spec fn advance_outcome(
    current: Option<WatcherCheckpointModel>,
    requested: RevisionBoundModel,
    expected_source_id: Seq<char>,
    lifecycle_generation: u64,
    source_revision: u64,
    root_identity: Seq<char>,
) -> CheckpointAdvanceOutcome {
    if !request_matches_truth(
        requested,
        expected_source_id,
        lifecycle_generation,
        source_revision,
        root_identity,
    ) {
        CheckpointAdvanceOutcome::AuditRequired
    } else {
        match current {
            None => if requested.cause == CheckpointCause::CompletedFallbackAudit {
                CheckpointAdvanceOutcome::Applied
            } else {
                CheckpointAdvanceOutcome::AuditRequired
            },
            Some(stored) => match revision_bound_model(stored) {
                None => if requested.cause == CheckpointCause::CompletedFallbackAudit
                    && stored.root_identity == requested.root_identity && stored.event_id
                    <= requested.event_id {
                    CheckpointAdvanceOutcome::Applied
                } else {
                    CheckpointAdvanceOutcome::AuditRequired
                },
                Some(bound) => advance_over_bound(bound, requested, source_revision),
            },
        }
    }
}

pub open spec fn opt_checkpoint_view(current: Option<&SourceWatcherCheckpoint>) -> Option<
    WatcherCheckpointModel,
> {
    match current {
        Some(stored) => Some(stored@),
        None => None,
    }
}

fn clone_string(text: &String) -> (copy: String)
    ensures
        copy@ == text@,
{
    text.clone()
}

fn same_text(left: &String, right: &String) -> (same: bool)
    ensures
        same == (left@ == right@),
{
    *left == *right
}

impl SourceWatcherCheckpoint {
    /// A copy of the cursor.
    pub fn clone_cursor(&self) -> (copy: Self)
        ensures
            copy@ == self@,
    {
        SourceWatcherCheckpoint {
            root_identity: clone_string(&self.root_identity),
            event_id: self.event_id,
            format_version: self.format_version,
            source_id: match &self.source_id {
                Some(id) => Some(clone_string(id)),
                None => None,
            },
            lifecycle_generation: self.lifecycle_generation,
            source_revision: self.source_revision,
            cause: self.cause,
        }
    }

    /// A legacy cursor.
    pub fn legacy(root_identity: String, event_id: u64) -> (checkpoint: Self)
        ensures
            checkpoint@ == legacy_model(root_identity@, event_id),
    {
        SourceWatcherCheckpoint {
            root_identity,
            event_id,
            format_version: None,
            source_id: None,
            lifecycle_generation: None,
            source_revision: None,
            cause: None,
        }
    }

    /// The stored form of a revision-bound cursor.
    pub fn from_revision_bound(checkpoint: &RevisionBoundCheckpoint) -> (stored: Self)
        ensures
            stored@ == stored_model(checkpoint@),
    {
        SourceWatcherCheckpoint {
            root_identity: clone_string(&checkpoint.root_identity),
            event_id: checkpoint.event_id,
            format_version: Some(CHECKPOINT_FORMAT_VERSION),
            source_id: Some(clone_string(&checkpoint.source_id)),
            lifecycle_generation: Some(checkpoint.lifecycle_generation),
            source_revision: Some(checkpoint.source_revision),
            cause: Some(checkpoint.cause),
        }
    }

    /// The revision-bound reading of this cursor, if it has the complete current format.
    pub fn revision_bound(&self) -> (bound: Option<RevisionBoundCheckpoint>)
        ensures
            match bound {
                Some(b) => revision_bound_model(self@) == Some(b@),
                None => revision_bound_model(self@) is None,
            },
    {
        match (
            self.format_version,
            &self.source_id,
            self.lifecycle_generation,
            self.source_revision,
            self.cause,
        ) {
            (Some(version), Some(source_id), Some(lifecycle_generation), Some(source_revision), Some(cause)) => {
                if version != CHECKPOINT_FORMAT_VERSION {
                    return None;
                }
                Some(
                    RevisionBoundCheckpoint {
                        source_id: clone_string(source_id),
                        lifecycle_generation,
                        source_revision,
                        root_identity: clone_string(&self.root_identity),
                        event_id: self.event_id,
                        cause,
                    },
                )
            },
            _ => None,
        }
    }
}

/// Field-wise equality of two revision-bound cursors.
pub fn same_revision_bound(left: &RevisionBoundCheckpoint, right: &RevisionBoundCheckpoint) -> (same: bool)
    ensures
        same == (left@ == right@),
{
    same_text(&left.source_id, &right.source_id) && left.lifecycle_generation
        == right.lifecycle_generation && left.source_revision == right.source_revision
        && same_text(&left.root_identity, &right.root_identity) && left.event_id
        == right.event_id && left.cause == right.cause
}

/// Decide whether `requested` may replace the stored cursor `current`.
pub fn decide_checkpoint_advance(
    current: Option<&SourceWatcherCheckpoint>,
    requested: &RevisionBoundCheckpoint,
    expected_source_id: &str,
    current_lifecycle_generation: u64,
    current_source_revision: u64,
    current_root_identity: &str,
) -> (outcome: CheckpointAdvanceOutcome)
    ensures
        outcome == advance_outcome(
            opt_checkpoint_view(current),
            requested@,
            expected_source_id@,
            current_lifecycle_generation,
            current_source_revision,
            current_root_identity@,
        ),
{
    let expected_source_id = expected_source_id.to_owned();
    let current_root_identity = current_root_identity.to_owned();
    if !same_text(&requested.source_id, &expected_source_id) || requested.lifecycle_generation
        != current_lifecycle_generation || requested.source_revision != current_source_revision
        || !same_text(&requested.root_identity, &current_root_identity) {
        return CheckpointAdvanceOutcome::AuditRequired;
    }
    if requested.cause == CheckpointCause::CompletedFallbackAudit {
        match current {
            None => {
                return CheckpointAdvanceOutcome::Applied;
            },
            Some(stored) => {
                if stored.revision_bound().is_none() {
                    if !same_text(&stored.root_identity, &requested.root_identity)
                        || stored.event_id > requested.event_id {
                        return CheckpointAdvanceOutcome::AuditRequired;
                    }
                    return CheckpointAdvanceOutcome::Applied;
                }
            },
        }
    }
    let stored = match current {
        Some(stored) => stored,
        None => {
            return CheckpointAdvanceOutcome::AuditRequired;
        },
    };
    let bound = match stored.revision_bound() {
        Some(bound) => bound,
        None => {
            return CheckpointAdvanceOutcome::AuditRequired;
        },
    };
    if !same_text(&bound.source_id, &requested.source_id) || bound.source_revision
        > current_source_revision || !same_text(&bound.root_identity, &requested.root_identity) {
        return CheckpointAdvanceOutcome::AuditRequired;
    }
    if same_revision_bound(&bound, requested) {
        return CheckpointAdvanceOutcome::AlreadyApplied;
    }
    if requested.event_id < bound.event_id {
        return CheckpointAdvanceOutcome::AuditRequired;
    }
    if requested.event_id > bound.event_id {
        return CheckpointAdvanceOutcome::Applied;
    }
    CheckpointAdvanceOutcome::Superseded
}

/// A journal barrier captured before a fallback audit starts.
#[derive(Clone, Debug)]
pub struct AuditBarrier(pub SourceWatcherCheckpoint);

impl AuditBarrier {
    /// The cursor a completed fallback audit commits for this barrier.
    pub fn into_revision_bound(
        self,
        source_id: String,
        lifecycle_generation: u64,
        source_revision: u64,
    ) -> (checkpoint: RevisionBoundCheckpoint)
        ensures
            checkpoint@ == (RevisionBoundModel {
                source_id: source_id@,
                lifecycle_generation,
                source_revision,
                root_identity: self.0.root_identity@,
                event_id: self.0.event_id,
                cause: CheckpointCause::CompletedFallbackAudit,
            }),
    {
        RevisionBoundCheckpoint {
            source_id,
            lifecycle_generation,
            source_revision,
            root_identity: self.0.root_identity,
            event_id: self.0.event_id,
            cause: CheckpointCause::CompletedFallbackAudit,
        }
    }
}

/// Storing a revision-bound cursor and reading it back yields the same cursor.
pub proof fn lemma_stored_cursor_round_trips(checkpoint: RevisionBoundModel)
    ensures
        revision_bound_model(stored_model(checkpoint)) == Some(checkpoint),
{
}

/// A legacy cursor never carries revision-bound evidence.
pub proof fn lemma_legacy_cursor_is_not_revision_bound(root_identity: Seq<char>, event_id: u64)
    ensures
        revision_bound_model(legacy_model(root_identity, event_id)) is None,
{
}

/// Every outcome other than `AuditRequired` is given only to a request that names the
/// configured source, its current lifecycle generation, its current manifest revision and its
/// live root; and the pure rule never answers `Retryable`.
pub proof fn lemma_advance_requires_current_truth(
    current: Option<WatcherCheckpointModel>,
    requested: RevisionBoundModel,
    expected_source_id: Seq<char>,
    lifecycle_generation: u64,
    source_revision: u64,
    root_identity: Seq<char>,
)
    ensures
        ({
            let outcome = advance_outcome(
                current,
                requested,
                expected_source_id,
                lifecycle_generation,
                source_revision,
                root_identity,
            );
            &&& outcome != CheckpointAdvanceOutcome::Retryable
            &&& outcome != CheckpointAdvanceOutcome::AuditRequired ==> request_matches_truth(
                requested,
                expected_source_id,
                lifecycle_generation,
                source_revision,
                root_identity,
            )
        }),
{
}

/// Re-submitting the cursor that is already stored is recognised as already applied.
pub proof fn lemma_advance_is_idempotent(
    requested: RevisionBoundModel,
    expected_source_id: Seq<char>,
    lifecycle_generation: u64,
    source_revision: u64,
    root_identity: Seq<char>,
)
    requires
        request_matches_truth(
            requested,
            expected_source_id,
            lifecycle_generation,
            source_revision,
            root_identity,
        ),
    ensures
        advance_outcome(
            Some(stored_model(requested)),
            requested,
            expected_source_id,
            lifecycle_generation,
            source_revision,
            root_identity,
        ) == CheckpointAdvanceOutcome::AlreadyApplied,
{
}

/// An applied cursor never moves backwards and never crosses to another root: a stored
/// revision-bound cursor is strictly behind the request, a stored legacy cursor is not ahead.
pub proof fn lemma_applied_cursor_never_regresses(
    stored: WatcherCheckpointModel,
    requested: RevisionBoundModel,
    expected_source_id: Seq<char>,
    lifecycle_generation: u64,
    source_revision: u64,
    root_identity: Seq<char>,
)
    requires
        advance_outcome(
            Some(stored),
            requested,
            expected_source_id,
            lifecycle_generation,
            source_revision,
            root_identity,
        ) == CheckpointAdvanceOutcome::Applied,
    ensures
        stored.root_identity == requested.root_identity,
        stored.event_id <= requested.event_id,
        revision_bound_model(stored) is Some ==> stored.event_id < requested.event_id,
        revision_bound_model(stored) is None ==> requested.cause
            == CheckpointCause::CompletedFallbackAudit,
{
}

/// Without a stored cursor only a completed fallback audit that matches the current truth may
/// establish one; everything else needs an audit.
pub proof fn lemma_missing_cursor_needs_completed_audit(
    requested: RevisionBoundModel,
    expected_source_id: Seq<char>,
    lifecycle_generation: u64,
    source_revision: u64,
    root_identity: Seq<char>,
)
    ensures
        ({
            let outcome = advance_outcome(
                None,
                requested,
                expected_source_id,
                lifecycle_generation,
                source_revision,
                root_identity,
            );
            &&& outcome == CheckpointAdvanceOutcome::Applied || outcome
                == CheckpointAdvanceOutcome::AuditRequired
            &&& outcome == CheckpointAdvanceOutcome::Applied <==> (request_matches_truth(
                requested,
                expected_source_id,
                lifecycle_generation,
                source_revision,
                root_identity,
            ) && requested.cause == CheckpointCause::CompletedFallbackAudit)
        }),
{
}

/// Once a request has been applied and stored, submitting it again is already applied.
pub proof fn lemma_applied_then_already_applied(
    current: Option<WatcherCheckpointModel>,
    requested: RevisionBoundModel,
    expected_source_id: Seq<char>,
    lifecycle_generation: u64,
    source_revision: u64,
    root_identity: Seq<char>,
)
    requires
        advance_outcome(
            current,
            requested,
            expected_source_id,
            lifecycle_generation,
            source_revision,
            root_identity,
        ) == CheckpointAdvanceOutcome::Applied,
    ensures
        advance_outcome(
            Some(stored_model(requested)),
            requested,
            expected_source_id,
            lifecycle_generation,
            source_revision,
            root_identity,
        ) == CheckpointAdvanceOutcome::AlreadyApplied,
{
}

} // verus!
