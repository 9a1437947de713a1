//! Wavecrate-owned file mutations: operation names, browser projections attached to a
//! committed change, and the fence that drops stale or duplicate completions.
//!
//! Paths are held as their UTF-8 text.
use vstd::prelude::*;
use crate::rating::{normalized_rating_path, path_normal_form};

verus! {

/// User-visible mutation family that owns one operation id across all affected sources.
#[derive(Clone, Copy, Debug, PartialEq, Eq, Structural)]
pub enum FileMutationOperation {
    Duplicate,
    Extract,
    ImportDrop,
    Edit,
    Normalize,
    Undo,
    Redo,
    Rename,
    Move,
    Trash,
}

/// The stable log name of an operation.
pub open spec fn operation_name(operation: FileMutationOperation) -> Seq<char> {
    match operation {
        FileMutationOperation::Duplicate => "duplicate"@,
        FileMutationOperation::Extract => "extract"@,
        FileMutationOperation::ImportDrop => "import_drop"@,
        FileMutationOperation::Edit => "edit"@,
        FileMutationOperation::Normalize => "normalize"@,
        FileMutationOperation::Undo => "undo"@,
        FileMutationOperation::Redo => "redo"@,
        FileMutationOperation::Rename => "rename"@,
        FileMutationOperation::Move => "move"@,
        FileMutationOperation::Trash => "trash"@,
    }
}

impl FileMutationOperation {
    /// The stable log name of this operation.
    pub fn as_str(self) -> (name: &'static str)
        ensures
            name@ == operation_name(self),
    {
        match self {
            FileMutationOperation::Duplicate => "duplicate",
            FileMutationOperation::Extract => "extract",
            FileMutationOperation::ImportDrop => "import_drop",
            FileMutationOperation::Edit => "edit",
            FileMutationOperation::Normalize => "normalize",
            FileMutationOperation::Undo => "undo",
            FileMutationOperation::Redo => "redo",
            FileMutationOperation::Rename => "rename",
            FileMutationOperation::Move => "move",
            FileMutationOperation::Trash => "trash",
        }
    }
}

/// Readiness-relevant meaning of one committed path transition.
#[derive(Clone, Copy, Debug, PartialEq, Eq, Structural)]
pub enum FileMutationSemantics {
    Create,
    ContentChanged,
    PathOnlyMove,
    Delete,
}

/// The browser follow-up a committed change asks for, with the plain values it carries.
#[derive(Clone, Debug, PartialEq, Eq)]
pub enum FileMutationProjection {
    SelectAndFollow { path: String },
    SelectAndLoad { path: String },
    FocusAndLoad { path: String },
    LoadSelectedIfChanged { target_path: String, previous_selected: Option<String> },
    RenameCompletion { target_path: String },
    MoveCompletion { target_path: String, cut_paste: bool, previous_selected: Option<String> },
    MoveConflictCompletion { target_path: String, previous_selected: Option<String> },
    MoveTransaction {
        target_path: String,
        source_root: String,
        source_database_root: String,
        moves: Vec<(String, String)>,
    },
    TrashFolder { path: String },
    TrashFiles {
        target_path: String,
        reconciled_paths: Vec<String>,
        failed_paths: Vec<String>,
        previous_selected: Option<String>,
        loaded_removed: bool,
        status: String,
    },
}

/// The path a projection is about.
pub open spec fn projection_target(projection: FileMutationProjection) -> String {
    match projection {
        FileMutationProjection::SelectAndFollow { path } => path,
        FileMutationProjection::SelectAndLoad { path } => path,
        FileMutationProjection::FocusAndLoad { path } => path,
        FileMutationProjection::LoadSelectedIfChanged { target_path, .. } => target_path,
        FileMutationProjection::RenameCompletion { target_path } => target_path,
        FileMutationProjection::MoveCompletion { target_path, .. } => target_path,
        FileMutationProjection::MoveConflictCompletion { target_path, .. } => target_path,
        FileMutationProjection::MoveTransaction { target_path, .. } => target_path,
        FileMutationProjection::TrashFolder { path } => path,
        FileMutationProjection::TrashFiles { target_path, .. } => target_path,
    }
}

/// Projections that take over the default browser refresh: renames, moves and trashing.
pub open spec fn projection_replaces_refresh(projection: FileMutationProjection) -> bool {
    match projection {
        FileMutationProjection::RenameCompletion { .. } => true,
        FileMutationProjection::MoveCompletion { .. } => true,
        FileMutationProjection::MoveConflictCompletion { .. } => true,
        FileMutationProjection::MoveTransaction { .. } => true,
        FileMutationProjection::TrashFolder { .. } => true,
        FileMutationProjection::TrashFiles { .. } => true,
        _ => false,
    }
}

impl FileMutationProjection {
    /// The path this projection is about; every projection names one.
    pub fn target_path(&self) -> (target: Option<&String>)
        ensures
            target == Some(&projection_target(*self)),
    {
        match self {
            FileMutationProjection::SelectAndFollow { path } => Some(path),
            FileMutationProjection::SelectAndLoad { path } => Some(path),
            FileMutationProjection::FocusAndLoad { path } => Some(path),
            FileMutationProjection::LoadSelectedIfChanged { target_path, .. } => Some(target_path),
            FileMutationProjection::RenameCompletion { target_path } => Some(target_path),
            FileMutationProjection::MoveCompletion { target_path, .. } => Some(target_path),
            FileMutationProjection::MoveConflictCompletion { target_path, .. } => Some(target_path),
            FileMutationProjection::MoveTransaction { target_path, .. } => Some(target_path),
            FileMutationProjection::TrashFolder { path } => Some(path),
            FileMutationProjection::TrashFiles { target_path, .. } => Some(target_path),
        }
    }

    /// Whether this projection takes over the default browser refresh.
    pub fn replaces_default_refresh(&self) -> (replaces: bool)
        ensures
            replaces == projection_replaces_refresh(*self),
    {
        match self {
            FileMutationProjection::RenameCompletion { .. } => true,
            FileMutationProjection::MoveCompletion { .. } => true,
            FileMutationProjection::MoveConflictCompletion { .. } => true,
            FileMutationProjection::MoveTransaction { .. } => true,
            FileMutationProjection::TrashFolder { .. } => true,
            FileMutationProjection::TrashFiles { .. } => true,
            _ => false,
        }
    }
}

/// Whether `path` lies at or below `base`, comparing whole path components.
pub uninterp spec fn path_within(path: Seq<char>, base: Seq<char>) -> bool;

/// `Path::starts_with`: whole-component prefix test; the contract names the result and says
/// nothing more of it.
#[verifier::external_body]
fn path_starts_with(path: &String, base: &String) -> (within: bool)
    ensures
        within == path_within(path@, base@),
{
    std::path::Path::new(path).starts_with(std::path::Path::new(base))
}

/// One logical file or folder transition. Paths are absolute so cross-source moves retain both
/// endpoints in every source-scoped outcome.
#[derive(Clone, Debug, PartialEq, Eq)]
pub struct FileMutationChange {
    pub before_path: Option<String>,
    pub after_path: Option<String>,
    pub before_content_identity: Option<String>,
    pub after_content_identity: Option<String>,
    pub semantics: FileMutationSemantics,
    pub projection: Option<FileMutationProjection>,
}

impl FileMutationChange {
    /// A file that did not exist before.
    pub fn created(path: String) -> (change: Self)
        ensures
            change == (FileMutationChange {
                before_path: None,
                after_path: Some(path),
                before_content_identity: None,
                after_content_identity: None,
                semantics: FileMutationSemantics::Create,
                projection: None,
            }),
    {
        FileMutationChange {
            before_path: None,
            after_path: Some(path),
            before_content_identity: None,
            after_content_identity: None,
            semantics: FileMutationSemantics::Create,
            projection: None,
        }
    }

    /// A file whose content changed in place.
    pub fn content_changed(path: String) -> (change: Self)
        ensures
            change.before_path == Some(path),
            change.after_path == Some(path),
            change.before_content_identity is None,
            change.after_content_identity is None,
            change.semantics == FileMutationSemantics::ContentChanged,
            change.projection is None,
    {
        FileMutationChange {
            before_path: Some(path.clone()),
            after_path: Some(path),
            before_content_identity: None,
            after_content_identity: None,
            semantics: FileMutationSemantics::ContentChanged,
            projection: None,
        }
    }

    /// A file that moved without a content change.
    pub fn path_only_move(before: String, after: String) -> (change: Self)
        ensures
            change == (FileMutationChange {
                before_path: Some(before),
                after_path: Some(after),
                before_content_identity: None,
                after_content_identity: None,
                semantics: FileMutationSemantics::PathOnlyMove,
                projection: None,
            }),
    {
        FileMutationChange {
            before_path: Some(before),
            after_path: Some(after),
            before_content_identity: None,
            after_content_identity: None,
            semantics: FileMutationSemantics::PathOnlyMove,
            projection: None,
        }
    }

    /// A file that no longer exists.
    pub fn deleted(path: String) -> (change: Self)
        ensures
            change == (FileMutationChange {
                before_path: Some(path),
                after_path: None,
                before_content_identity: None,
                after_content_identity: None,
                semantics: FileMutationSemantics::Delete,
                projection: None,
            }),
    {
        FileMutationChange {
            before_path: Some(path),
            after_path: None,
            before_content_identity: None,
            after_content_identity: None,
            semantics: FileMutationSemantics::Delete,
            projection: None,
        }
    }

    /// The same change, with the content identity it had before.
    pub fn with_before_content_identity(self, identity: Option<String>) -> (change: Self)
        ensures
            change == (FileMutationChange { before_content_identity: identity, ..self }),
    {
        FileMutationChange { before_content_identity: identity, ..self }
    }

    /// The same change, carrying a browser projection.
    pub fn with_projection(self, projection: FileMutationProjection) -> (change: Self)
        ensures
            change == (FileMutationChange { projection: Some(projection), ..self }),
    {
        FileMutationChange { projection: Some(projection), ..self }
    }

    /// Drop a projection whose target lies outside `source_root`.
    pub fn retain_projection_for_source(&mut self, source_root: &String)
        ensures
            ({
                let outside = match old(self).projection {
                    Some(projection) => !path_within(projection_target(projection)@, source_root@),
                    None => false,
                };
                &&& outside ==> *final(self) == FileMutationChange { projection: None, ..*old(self) }
                &&& !outside ==> *final(self) == *old(self)
            }),
    {
        let outside = match &self.projection {
            Some(projection) => match projection.target_path() {
                Some(path) => !path_starts_with(path, source_root),
                None => false,
            },
            None => false,
        };
        if outside {
            self.projection = None;
        }
    }
}

/// Attach a move-completion projection to the first prepared change, if there is one.
pub fn attach_prepared_move_completion_projection(
    changes: &mut Vec<FileMutationChange>,
    projection: FileMutationProjection,
)
    ensures
        old(changes)@.len() == 0 ==> final(changes)@ == old(changes)@,
        old(changes)@.len() > 0 ==> final(changes)@ == old(changes)@.update(
            0,
            FileMutationChange { projection: Some(projection), ..old(changes)@[0] },
        ),
{
    if changes.len() == 0 {
        return;
    }
    let first = changes.remove(0);
    let first = first.with_projection(projection);
    changes.insert(0, first);
    assert(changes@ =~= old(changes)@.update(
        0,
        FileMutationChange { projection: Some(projection), ..old(changes)@[0] },
    ));
}

/// A completion is stale or a duplicate when the accepted (revision, operation id) cursor is at
/// or beyond it: revisions decide first, operation ids break ties.
pub open spec fn completion_fenced(accepted: (u64, u64), current: (u64, u64)) -> bool {
    accepted.0 > current.0 || (accepted.0 == current.0 && accepted.1 >= current.1)
}

/// Whether a committed completion is stale or a duplicate of the accepted one.
pub fn mutation_completion_is_stale_or_duplicate(accepted: (u64, u64), current: (u64, u64)) -> (fenced:
    bool)
    ensures
        fenced == completion_fenced(accepted, current),
{
    accepted.0 > current.0 || (accepted.0 == current.0 && accepted.1 >= current.1)
}

/// The fence admits each completion at most once: a completion that is admitted and then
/// becomes the accepted cursor fences itself and every earlier completion.
pub proof fn lemma_admitted_completion_fences_itself_and_older(
    accepted: (u64, u64),
    current: (u64, u64),
    older: (u64, u64),
)
    requires
        !completion_fenced(accepted, current),
        !completion_fenced(older, current),
    ensures
        completion_fenced(current, current),
        completion_fenced(current, older),
        completion_fenced(current, accepted),
{
}


/// The later of two (revision, operation id) cursors: revisions decide first, operation ids
/// break ties.
pub open spec fn later_commit(accepted: (u64, u64), current: (u64, u64)) -> (u64, u64) {
    if completion_fenced(accepted, current) {
        accepted
    } else {
        current
    }
}

/// What finishing one committed mutation event does.
#[derive(Clone, Copy, Debug, PartialEq, Eq, Structural)]
pub enum CommittedEventDecision {
    /// The event belongs to another lifecycle of its source: ignore it.
    StaleLifecycle,
    /// The accepted cursor is at or beyond the event: ignore it.
    StaleOrDuplicate,
    /// An extraction whose committed projection did not apply: refresh the affected paths,
    /// finish the extraction visuals and queue a full reconciliation of the source, leaving the
    /// accepted cursor, the watcher and readiness alone.
    ExtractRecovery,
    /// Apply the event: (`accepted_revision`, `accepted_operation_id`) is the new accepted
    /// cursor, and `default_refresh` says whether the affected paths get the default browser
    /// refresh.
    Apply { accepted_revision: u64, accepted_operation_id: u64, default_refresh: bool },
}

/// The decision for one committed event. `projection_applied` is whether the event's browser
/// projection delta applied (it is only asked for an event past both fences), and
/// `projection_replaces_refresh` whether one of its changes carries a projection that replaces
/// the default refresh.
pub open spec fn committed_event_spec(
    current_lifecycle: Option<u64>,
    event_lifecycle: u64,
    accepted: (u64, u64),
    current: (u64, u64),
    is_extract: bool,
    projection_applied: bool,
    projection_replaces_refresh: bool,
) -> CommittedEventDecision {
    if current_lifecycle != Some(event_lifecycle) {
        CommittedEventDecision::StaleLifecycle
    } else if completion_fenced(accepted, current) {
        CommittedEventDecision::StaleOrDuplicate
    } else if is_extract && !projection_applied {
        CommittedEventDecision::ExtractRecovery
    } else {
        CommittedEventDecision::Apply {
            accepted_revision: later_commit(accepted, current).0,
            accepted_operation_id: later_commit(accepted, current).1,
            default_refresh: !projection_applied && !projection_replaces_refresh,
        }
    }
}

/// Decide one committed event: the lifecycle fence, then the stale-or-duplicate fence, then the
/// recovery of an extraction whose projection did not apply; an applied event advances the
/// accepted cursor to the later of the old and the new one.
pub fn committed_event_decision(
    current_lifecycle: Option<u64>,
    event_lifecycle: u64,
    accepted: (u64, u64),
    current: (u64, u64),
    is_extract: bool,
    projection_applied: bool,
    projection_replaces_refresh: bool,
) -> (decision: CommittedEventDecision)
    ensures
        decision == committed_event_spec(
            current_lifecycle,
            event_lifecycle,
            accepted,
            current,
            is_extract,
            projection_applied,
            projection_replaces_refresh,
        ),
{
    let same_lifecycle = match current_lifecycle {
        Some(generation) => generation == event_lifecycle,
        None => false,
    };
    if !same_lifecycle {
        CommittedEventDecision::StaleLifecycle
    } else if mutation_completion_is_stale_or_duplicate(accepted, current) {
        CommittedEventDecision::StaleOrDuplicate
    } else if is_extract && !projection_applied {
        CommittedEventDecision::ExtractRecovery
    } else {
        CommittedEventDecision::Apply {
            accepted_revision: current.0,
            accepted_operation_id: current.1,
            default_refresh: !projection_applied && !projection_replaces_refresh,
        }
    }
}

/// An applied event's accepted cursor is the larger of the old and the new one, and it fences
/// the event itself afterwards.
pub proof fn lemma_applied_cursor_is_the_larger(
    current_lifecycle: Option<u64>,
    event_lifecycle: u64,
    accepted: (u64, u64),
    current: (u64, u64),
    is_extract: bool,
    projection_applied: bool,
    projection_replaces_refresh: bool,
)
    ensures
        committed_event_spec(
            current_lifecycle,
            event_lifecycle,
            accepted,
            current,
            is_extract,
            projection_applied,
            projection_replaces_refresh,
        ) matches CommittedEventDecision::Apply {
            accepted_revision,
            accepted_operation_id,
            ..
        } ==> {
            let next = (accepted_revision, accepted_operation_id);
            &&& completion_fenced(next, accepted)
            &&& completion_fenced(next, current)
            &&& (next == accepted || next == current)
        },
{
}

/// Where a changed path lies in the source databases: the source root, its database folder and
/// the path relative to it.
#[derive(Clone, Debug, PartialEq, Eq)]
pub struct SourceRelativePath {
    pub root: String,
    pub database_root: String,
    pub relative: String,
}

/// What a committed change does to the pending rating writes.
#[derive(Clone, Debug, PartialEq, Eq)]
pub enum RekeyAction {
    /// Move pending writes under `before` to `after` within the event's source.
    RekeyPrefix { before: String, after: String },
    /// Move pending writes under `before` to `after` in another source.
    RekeyCrossSource {
        before: String,
        after_source: String,
        after: String,
        root: String,
        database_root: String,
    },
    /// Move the pending write for exactly `before` to `after`.
    RekeyExact { before: String, after: String },
    /// Drop pending writes under `before`.
    InvalidatePrefix { before: String },
    /// Leave pending writes alone.
    Nothing,
}

/// Mathematical value of a [`RekeyAction`].
pub enum RekeyModel {
    RekeyPrefix(Seq<char>, Seq<char>),
    RekeyCrossSource(Seq<char>, Seq<char>, Seq<char>, Seq<char>, Seq<char>),
    RekeyExact(Seq<char>, Seq<char>),
    InvalidatePrefix(Seq<char>),
    Nothing,
}

impl View for RekeyAction {
    type V = RekeyModel;

    open spec fn view(&self) -> RekeyModel {
        match self {
            RekeyAction::RekeyPrefix { before, after } => RekeyModel::RekeyPrefix(before@, after@),
            RekeyAction::RekeyCrossSource { before, after_source, after, root, database_root } =>
                RekeyModel::RekeyCrossSource(
                before@,
                after_source@,
                after@,
                root@,
                database_root@,
            ),
            RekeyAction::RekeyExact { before, after } => RekeyModel::RekeyExact(before@, after@),
            RekeyAction::InvalidatePrefix { before } => RekeyModel::InvalidatePrefix(before@),
            RekeyAction::Nothing => RekeyModel::Nothing,
        }
    }
}

/// The rating re-key for one change of an event of `event_source`: `before` is the relative
/// path of the change's old path (if it has one that a source database holds), `after` where
/// its new path lies, `has_after_path` whether the change has a new path at all, and
/// `after_source` the source that holds the new path. Relative paths are compared by their
/// components, through their normal forms.
pub open spec fn rekey_spec(
    semantics: FileMutationSemantics,
    before: Option<Seq<char>>,
    after: Option<SourceRelativePath>,
    has_after_path: bool,
    after_source: Option<Seq<char>>,
    event_source: Seq<char>,
) -> RekeyModel {
    match (before, after) {
        (Some(before), Some(after)) => if semantics == FileMutationSemantics::PathOnlyMove {
            match after_source {
                Some(source) => if source == event_source {
                    RekeyModel::RekeyPrefix(before, after.relative@)
                } else {
                    RekeyModel::RekeyCrossSource(
                        before,
                        source,
                        after.relative@,
                        after.root@,
                        after.database_root@,
                    )
                },
                None => RekeyModel::InvalidatePrefix(before),
            }
        } else if path_normal_form(before) == path_normal_form(after.relative@) {
            RekeyModel::RekeyExact(before, after.relative@)
        } else {
            RekeyModel::Nothing
        },
        (Some(before), None) => if has_after_path {
            RekeyModel::Nothing
        } else {
            RekeyModel::InvalidatePrefix(before)
        },
        _ => RekeyModel::Nothing,
    }
}

fn text_is(text: &String, other: &str) -> (same: bool)
    ensures
        same == (text@ == other@),
{
    let owned = String::from_str(other);
    *text == owned
}

/// Decide the rating re-key for one committed change: a path-only move re-keys within the
/// source, across sources, or drops the pending writes when the new path belongs to no source;
/// a relative path that is unchanged (compared by its components) re-keys exactly; a removed
/// path drops its pending writes.
pub fn rating_rekey_action(
    semantics: FileMutationSemantics,
    before: Option<String>,
    after: Option<SourceRelativePath>,
    has_after_path: bool,
    after_source: Option<String>,
    event_source: &str,
) -> (action: RekeyAction)
    ensures
        action@ == rekey_spec(
            semantics,
            match before {
                Some(text) => Some(text@),
                None => None,
            },
            after,
            has_after_path,
            match after_source {
                Some(text) => Some(text@),
                None => None,
            },
            event_source@,
        ),
{
    match (before, after) {
        (Some(before), Some(after)) => {
            if semantics == FileMutationSemantics::PathOnlyMove {
                match after_source {
                    Some(source) => {
                        if text_is(&source, event_source) {
                            RekeyAction::RekeyPrefix { before, after: after.relative }
                        } else {
                            RekeyAction::RekeyCrossSource {
                                before,
                                after_source: source,
                                after: after.relative,
                                root: after.root,
                                database_root: after.database_root,
                            }
                        }
                    },
                    None => RekeyAction::InvalidatePrefix { before },
                }
            } else if normalized_rating_path(&before) == normalized_rating_path(&after.relative) {
                RekeyAction::RekeyExact { before, after: after.relative }
            } else {
                RekeyAction::Nothing
            }
        },
        (Some(before), None) => {
            if has_after_path {
                RekeyAction::Nothing
            } else {
                RekeyAction::InvalidatePrefix { before }
            }
        },
        _ => RekeyAction::Nothing,
    }
}


/// The views of an optional text.
pub open spec fn opt_view(text: Option<String>) -> Option<Seq<char>> {
    match text {
        Some(text) => Some(text@),
        None => None,
    }
}

fn copy_opt(text: Option<&String>) -> (copy: Option<String>)
    ensures
        opt_view(copy) == match text {
            Some(text) => Some(text@),
            None => None,
        },
{
    match text {
        Some(text) => Some(text.clone()),
        None => None,
    }
}

/// After a change that loads the selection when it changed: the selected file to load, or
/// `None` when nothing is selected or the selection is the one from before the change.
pub fn selection_to_reload(previous_selected: Option<&String>, selected: Option<&String>) -> (reload:
    Option<String>)
    ensures
        opt_view(reload) == match selected {
            None => None,
            Some(selected) => match previous_selected {
                Some(previous) => if previous@ == selected@ {
                    None
                } else {
                    Some(selected@)
                },
                None => Some(selected@),
            },
        },
{
    match selected {
        None => None,
        Some(selected) => match previous_selected {
            Some(previous) => {
                if *previous == *selected {
                    None
                } else {
                    Some(selected.clone())
                }
            },
            None => Some(selected.clone()),
        },
    }
}

/// What follows trashing files: the selection after the trash (read only when the browser
/// discarded the trashed rows), and whether focus moved away from the previous selection.
pub struct TrashFollowUp {
    pub selected_after: Option<String>,
    pub focus_changed: bool,
}

/// Decide the follow-up of trashing files: without discarded rows there is no selection to
/// follow and focus stays; otherwise focus changed when the selection differs from before.
pub fn trash_follow_up(
    discarded: bool,
    previous_selected: Option<&String>,
    selected: Option<&String>,
) -> (follow: TrashFollowUp)
    ensures
        opt_view(follow.selected_after) == if discarded {
            match selected {
                Some(text) => Some(text@),
                None => None,
            }
        } else {
            None
        },
        follow.focus_changed == (discarded && match (previous_selected, selected) {
            (Some(previous), Some(after)) => previous@ != after@,
            (None, None) => false,
            _ => true,
        }),
{
    if !discarded {
        return TrashFollowUp { selected_after: None, focus_changed: false };
    }
    let selected_after = copy_opt(selected);
    let focus_changed = match (previous_selected, selected) {
        (Some(previous), Some(after)) => *previous != *after,
        (None, None) => false,
        _ => true,
    };
    TrashFollowUp { selected_after, focus_changed }
}

/// A mutation that did not reach authoritative publication for a source.
#[derive(Clone, Debug, PartialEq, Eq)]
pub struct FileMutationFailure {
    pub source_id: Option<String>,
    pub operation_id: u64,
    pub operation: FileMutationOperation,
    pub error: String,
}

/// The terminal outcome of a mutation: every source committed, some committed and some failed,
/// or the whole operation rolled back. `E` is a committed source's event.
#[derive(Clone, Debug, PartialEq, Eq)]
pub enum FileMutationOutcome<E> {
    Committed(Vec<E>),
    Failed { committed: Vec<E>, failures: Vec<FileMutationFailure> },
    RolledBack(FileMutationFailure),
}

/// The committed events whose effects are applied: all of them, the committed part of a
/// partial failure, and none of a rolled-back mutation.
pub fn committed_events<E>(outcome: FileMutationOutcome<E>) -> (events: Vec<E>)
    ensures
        events@ == match outcome {
            FileMutationOutcome::Committed(committed) => committed@,
            FileMutationOutcome::Failed { committed, .. } => committed@,
            FileMutationOutcome::RolledBack(_) => Seq::<E>::empty(),
        },
{
    match outcome {
        FileMutationOutcome::Committed(committed) => committed,
        FileMutationOutcome::Failed { committed, .. } => committed,
        FileMutationOutcome::RolledBack(_) => Vec::new(),
    }
}

} // verus!
