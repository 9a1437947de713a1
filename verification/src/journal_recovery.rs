//! Recovery of the changes made to a source root while the process was not watching it.
//!
//! A source whose watcher keeps a durable journal replays that journal from its stored cursor;
//! every doubt (no journal, no readable root identity, a cursor of another root, no cursor or
//! an unreadable one, an empty replay) falls back to a full audit of that source alone.
use vstd::prelude::*;
use crate::checkpoint::{SourceWatcherCheckpoint, WatcherCheckpointModel};
use crate::mutation::path_within;

verus! {

/// What the recovery of one source asks for.
#[derive(Clone, Debug, PartialEq, Eq)]
pub enum JournalRecovery {
    /// Reconcile these paths, relative to the source root; the journal reached `event_id`.
    Changes { paths: Vec<String>, event_id: u64 },
    /// Audit the whole source.
    FullAudit { reason: &'static str },
}

/// What loading the stored cursor of a source found.
#[derive(Clone, Debug, PartialEq, Eq)]
pub enum StoredCheckpointLoad {
    /// The database or the cursor could not be read.
    Unavailable,
    Missing,
    Present(SourceWatcherCheckpoint),
}

/// Where a journal replay starts: the stored cursor's event id, or the reason for a full
/// audit.
pub open spec fn replay_start(
    native_watcher: bool,
    live_root_identity: Option<Seq<char>>,
    stored: StoredCheckpointLoad,
) -> Result<u64, Seq<char>> {
    if !native_watcher {
        Err("watcher_backend_has_no_durable_journal"@)
    } else {
        match live_root_identity {
            None => Err("source_root_identity_unavailable"@),
            Some(identity) => match stored {
                StoredCheckpointLoad::Present(checkpoint) => if checkpoint.root_identity@
                    == identity {
                    Ok(checkpoint.event_id)
                } else {
                    Err("source_root_identity_changed"@)
                },
                StoredCheckpointLoad::Missing => Err("watcher_checkpoint_missing"@),
                StoredCheckpointLoad::Unavailable => Err("watcher_checkpoint_unavailable"@),
            },
        }
    }
}

pub open spec fn opt_text(value: Option<&String>) -> Option<Seq<char>> {
    match value {
        Some(text) => Some(text@),
        None => None,
    }
}

/// Decide where the journal of a source is replayed from. A missing cursor is not written
/// here: the caller captures a barrier before the fallback audit and commits that barrier once
/// the audit completes.
pub fn journal_replay_start(
    native_watcher: bool,
    live_root_identity: Option<&String>,
    stored: &StoredCheckpointLoad,
) -> (start: Result<u64, &'static str>)
    ensures
        match (start, replay_start(native_watcher, opt_text(live_root_identity), *stored)) {
            (Ok(event_id), Ok(expected)) => event_id == expected,
            (Err(reason), Err(expected)) => reason@ == expected,
            _ => false,
        },
{
    if !native_watcher {
        return Err("watcher_backend_has_no_durable_journal");
    }
    let identity = match live_root_identity {
        Some(identity) => identity,
        None => {
            return Err("source_root_identity_unavailable");
        },
    };
    match stored {
        StoredCheckpointLoad::Present(checkpoint) => {
            if checkpoint.root_identity == *identity {
                Ok(checkpoint.event_id)
            } else {
                Err("source_root_identity_changed")
            }
        },
        StoredCheckpointLoad::Missing => Err("watcher_checkpoint_missing"),
        StoredCheckpointLoad::Unavailable => Err("watcher_checkpoint_unavailable"),
    }
}

/// `Path::strip_prefix`: the part of `path` below `base`.
pub uninterp spec fn path_below(path: Seq<char>, base: Seq<char>) -> Seq<char>;

/// `Path::strip_prefix`, displayed. Its documentation gives a result exactly when `base` is a
/// whole-component prefix of `path` (when `Path::starts_with` holds); the contract names the
/// relative part and says nothing more of it.
#[verifier::external_body]
pub(crate) fn strip_path_prefix(path: &String, base: &String) -> (relative: Option<String>)
    ensures
        relative is Some <==> path_within(path@, base@),
        relative is Some ==> relative->0@ == path_below(path@, base@),
{
    match std::path::Path::new(path).strip_prefix(std::path::Path::new(base)) {
        Ok(rest) => Some(rest.display().to_string()),
        Err(_) => None,
    }
}

/// The replayed paths that lie below `root`, relative to it, without the root itself.
pub open spec fn relative_replayed(root: Seq<char>, paths: Seq<String>) -> Seq<Seq<char>>
    decreases paths.len(),
{
    if paths.len() == 0 {
        Seq::empty()
    } else {
        let earlier = relative_replayed(root, paths.drop_last());
        let path = paths.last()@;
        if path_within(path, root) && path_below(path, root).len() > 0 {
            earlier.push(path_below(path, root))
        } else {
            earlier
        }
    }
}

/// Turn the replayed paths that are refresh candidates into the recovery of the source: the
/// paths below the root, relative to it and in replay order (duplicates kept), or a full audit
/// when none is left.
pub fn classify_replayed_paths(root: &String, candidates: &Vec<String>, event_id: u64) -> (recovery:
    JournalRecovery)
    ensures
        match recovery {
            JournalRecovery::Changes { paths, event_id: reached } => {
                &&& paths@.map_values(|path: String| path@) == relative_replayed(root@, candidates@)
                &&& paths@.len() > 0
                &&& reached == event_id
            },
            JournalRecovery::FullAudit { reason } => {
                &&& relative_replayed(root@, candidates@).len() == 0
                &&& reason@ == "journal_replay_empty_paths"@
            },
        },
{
    let mut paths: Vec<String> = Vec::new();
    let mut i: usize = 0;
    while i < candidates.len()
        invariant
            i <= candidates@.len(),
            paths@.map_values(|path: String| path@) == relative_replayed(
                root@,
                candidates@.subrange(0, i as int),
            ),
        decreases candidates@.len() - i,
    {
        let ghost before = paths@;
        proof {
            assert(candidates@.subrange(0, i + 1).drop_last() =~= candidates@.subrange(0, i as int));
        }
        match strip_path_prefix(&candidates[i], root) {
            Some(relative) => {
                if !relative.as_str().is_empty() {
                    paths.push(relative);
                    assert(paths@.map_values(|path: String| path@) =~= before.map_values(
                        |path: String| path@,
                    ).push(paths@.last()@));
                }
            },
            None => {},
        }
        i = i + 1;
    }
    proof {
        assert(candidates@.subrange(0, candidates@.len() as int) =~= candidates@);
    }
    if paths.len() == 0 {
        JournalRecovery::FullAudit { reason: "journal_replay_empty_paths" }
    } else {
        JournalRecovery::Changes { paths, event_id }
    }
}

/// The cursor after a reconciliation reached `event_id`: the stored cursor moved to
/// `event_id` when it belongs to the live root and is not ahead of it; nothing is written
/// otherwise.
pub open spec fn cursor_after(
    stored: WatcherCheckpointModel,
    live_root_identity: Seq<char>,
    event_id: u64,
) -> Option<WatcherCheckpointModel> {
    if stored.root_identity != live_root_identity || stored.event_id > event_id {
        None
    } else {
        Some(WatcherCheckpointModel { event_id, ..stored })
    }
}

pub fn advanced_cursor(
    stored: &SourceWatcherCheckpoint,
    live_root_identity: &String,
    event_id: u64,
) -> (advanced: Option<SourceWatcherCheckpoint>)
    ensures
        match advanced {
            Some(cursor) => cursor_after(stored@, live_root_identity@, event_id) == Some(cursor@),
            None => cursor_after(stored@, live_root_identity@, event_id) is None,
        },
{
    if stored.root_identity != *live_root_identity || stored.event_id > event_id {
        return None;
    }
    let mut cursor = stored.clone_cursor();
    cursor.event_id = event_id;
    Some(cursor)
}

/// A committed reconciliation moves the cursor forward and never back: an advanced cursor is
/// at least where it was, and a later reconciliation that reached an earlier event leaves it
/// alone.
pub proof fn lemma_advancing_never_regresses(
    stored: WatcherCheckpointModel,
    live_root_identity: Seq<char>,
    first: u64,
    second: u64,
)
    requires
        cursor_after(stored, live_root_identity, first) is Some,
        second < first,
    ensures
        cursor_after(stored, live_root_identity, first)->0.event_id >= stored.event_id,
        cursor_after(cursor_after(stored, live_root_identity, first)->0, live_root_identity, second)
            is None,
{
}

} // verus!
