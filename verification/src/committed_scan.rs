//! What a source scan publishes while it commits the source database: progress while indexing,
//! and for each committed batch the folders and files the browser learns of.
use vstd::prelude::*;
use crate::audit_queue::{is_configured, text_views};

verus! {

/// Items indexed between two progress reports.
pub const INDEX_PROGRESS_REPORT_INTERVAL: usize = 128;

/// Whether indexing reports progress after `completed` items: after the first item and after
/// every multiple of the report interval.
pub fn sync_progress_due(completed: usize) -> (due: bool)
    ensures
        due == (completed == 1 || completed % INDEX_PROGRESS_REPORT_INTERVAL == 0),
{
    completed == 1 || completed % INDEX_PROGRESS_REPORT_INTERVAL == 0
}

/// `Path::parent`: the path without its final component, if it has one.
pub uninterp spec fn path_parent(path: Seq<char>) -> Option<Seq<char>>;

/// `Path::parent`, displayed. The contract names the result, and says that a parent, being the
/// path without its final component, is shorter than the path.
#[verifier::external_body]
pub(crate) fn parent_path(path: &String) -> (parent: Option<String>)
    ensures
        match parent {
            Some(text) => path_parent(path@) == Some(text@) && text@.len() < path@.len(),
            None => path_parent(path@) is None,
        },
{
    match std::path::Path::new(path).parent() {
        Some(parent) => Some(parent.display().to_string()),
        None => None,
    }
}

/// The non-empty folders above a relative path, outermost first.
pub open spec fn ancestors(path: Seq<char>) -> Seq<Seq<char>>
    decreases path.len(),
{
    match path_parent(path) {
        Some(parent) => if 0 < parent.len() < path.len() {
            ancestors(parent).push(parent)
        } else {
            Seq::empty()
        },
        None => Seq::empty(),
    }
}

/// `seen` followed by the items of `items` it does not hold yet, each once, in order.
pub open spec fn add_new(seen: Seq<Seq<char>>, items: Seq<Seq<char>>) -> Seq<Seq<char>>
    decreases items.len(),
{
    if items.len() == 0 {
        seen
    } else {
        let earlier = add_new(seen, items.drop_last());
        if earlier.contains(items.last()) {
            earlier
        } else {
            earlier.push(items.last())
        }
    }
}

/// The folders a batch announces: the folders above each path, each once, in the order they
/// are first met, a path's outer folders before its inner ones.
pub open spec fn batch_folders(paths: Seq<Seq<char>>) -> Seq<Seq<char>>
    decreases paths.len(),
{
    if paths.len() == 0 {
        Seq::empty()
    } else {
        add_new(batch_folders(paths.drop_last()), ancestors(paths.last()))
    }
}

/// What the browser learns of one committed batch.
pub struct BatchAnnouncement {
    /// Reset the source's root folder first (the first batch of the scan).
    pub reset_root: bool,
    /// Folders to announce as placeholders, as relative paths.
    pub folders: Vec<String>,
    /// Files to announce, as relative paths.
    pub files: Vec<String>,
}

fn folders_above(path: &String) -> (found: Vec<String>)
    ensures
        text_views(found@) == ancestors(path@),
{
    let mut chain: Vec<String> = Vec::new();
    let mut current = path.clone();
    loop
        invariant
            ancestors(path@) == ancestors(current@) + text_views(chain@).reverse(),
        ensures
            ancestors(path@) == text_views(chain@).reverse(),
        decreases current@.len(),
    {
        let ghost before = current@;
        let ghost old_chain = text_views(chain@);
        match parent_path(&current) {
            Some(parent) => {
                let parent_len = parent.as_str().unicode_len();
                if parent_len == 0 {
                    assert(ancestors(before) =~= Seq::<Seq<char>>::empty());
                    assert(ancestors(path@) =~= text_views(chain@).reverse());
                    break;
                }
                assert(ancestors(before) == ancestors(parent@).push(parent@));
                chain.push(parent.clone());
                current = parent;
                assert(text_views(chain@) =~= old_chain.push(current@));
                assert(text_views(chain@).reverse() =~= seq![current@] + old_chain.reverse());
                assert(ancestors(path@) =~= ancestors(current@) + text_views(chain@).reverse());
            },
            None => {
                assert(ancestors(before) =~= Seq::<Seq<char>>::empty());
                assert(ancestors(path@) =~= text_views(chain@).reverse());
                break;
            },
        }
    }
    let mut found: Vec<String> = Vec::new();
    let mut k: usize = chain.len();
    while k > 0
        invariant
            k <= chain@.len(),
            ancestors(path@) == text_views(chain@).reverse(),
            text_views(found@) == text_views(chain@).reverse().subrange(
                0,
                (chain@.len() - k) as int,
            ),
        decreases k,
    {
        k = k - 1;
        let ghost before = text_views(found@);
        found.push(chain[k].clone());
        assert(text_views(chain@).reverse()[(chain@.len() - 1 - k) as int] == chain@[k as int]@);
        assert(text_views(found@) =~= before.push(chain@[k as int]@));
        assert(text_views(found@) =~= text_views(chain@).reverse().subrange(
            0,
            (chain@.len() - k) as int,
        ));
    }
    assert(text_views(chain@).reverse().subrange(0, chain@.len() as int) =~= text_views(
        chain@,
    ).reverse());
    found
}

/// What to announce for a committed batch of `paths`, unless the scan was cancelled: the root
/// reset when none was announced yet, then the folders above the paths, then the paths as files.
pub fn committed_batch_announcement(paths: &Vec<String>, emitted_root: bool, cancelled: bool) -> (announcement:
    BatchAnnouncement)
    ensures
        cancelled ==> !announcement.reset_root && announcement.folders@.len() == 0
            && announcement.files@.len() == 0,
        !cancelled ==> {
            &&& announcement.reset_root == !emitted_root
            &&& text_views(announcement.folders@) == batch_folders(text_views(paths@))
            &&& text_views(announcement.files@) == text_views(paths@)
        },
{
    if cancelled {
        return BatchAnnouncement { reset_root: false, folders: Vec::new(), files: Vec::new() };
    }
    let ghost all = text_views(paths@);
    let mut folders: Vec<String> = Vec::new();
    let mut files: Vec<String> = Vec::new();
    let mut i: usize = 0;
    while i < paths.len()
        invariant
            i <= paths@.len(),
            all == text_views(paths@),
            text_views(folders@) == batch_folders(all.subrange(0, i as int)),
            text_views(files@) == all.subrange(0, i as int),
        decreases paths@.len() - i,
    {
        let above = folders_above(&paths[i]);
        let ghost start = text_views(folders@);
        let mut k: usize = 0;
        while k < above.len()
            invariant
                k <= above@.len(),
                text_views(folders@) == add_new(start, text_views(above@).subrange(0, k as int)),
            decreases above@.len() - k,
        {
            let ghost earlier = text_views(folders@);
            assert(text_views(above@).subrange(0, k as int + 1).drop_last() =~= text_views(
                above@,
            ).subrange(0, k as int));
            if !is_configured(&folders, &above[k]) {
                folders.push(above[k].clone());
                assert(text_views(folders@) =~= earlier.push(above@[k as int]@));
            }
            k = k + 1;
        }
        proof {
            assert(text_views(above@).subrange(0, above@.len() as int) =~= text_views(above@));
            let prefix = all.subrange(0, i as int + 1);
            assert(prefix.drop_last() =~= all.subrange(0, i as int));
            assert(prefix.last() == paths@[i as int]@);
        }
        let ghost before_files = files@;
        files.push(paths[i].clone());
        assert(text_views(files@) =~= text_views(before_files).push(paths@[i as int]@));
        assert(all.subrange(0, i as int + 1) =~= all.subrange(0, i as int).push(paths@[i as int]@));
        i = i + 1;
    }
    assert(all.subrange(0, paths@.len() as int) =~= all);
    BatchAnnouncement { reset_root: !emitted_root, folders, files }
}


/// The error a scan reports when it is cancelled before the source database opens.
pub open spec fn canceled_before_open_message() -> Seq<char> {
    "source scan canceled before database open"@
}

/// Whether the scan may open the source database: a cancelled scan stops with its error.
pub fn database_open_gate(cancelled: bool) -> (refusal: Option<String>)
    ensures
        cancelled <==> refusal is Some,
        refusal matches Some(message) ==> message@ == canceled_before_open_message(),
{
    if cancelled {
        proof {
            reveal_strlit("source scan canceled before database open");
        }
        Some(String::from_str("source scan canceled before database open"))
    } else {
        None
    }
}

/// Whether a failed scan resets the root it announced: only when the scan was not cancelled
/// and a root reset was already announced (the provisional state is then cleared too).
pub fn failed_scan_resets_root(cancelled: bool, emitted_root: bool) -> (reset: bool)
    ensures
        reset == (!cancelled && emitted_root),
{
    !cancelled && emitted_root
}

/// The progress detail while indexing a path.
pub fn indexing_detail(path: &String) -> (detail: String)
    ensures
        detail@ == "Indexing | "@ + path@,
{
    proof {
        reveal_strlit("Indexing | ");
    }
    let mut detail = String::from_str("Indexing | ");
    detail.append(path.as_str());
    detail
}

/// The outcome of a scan after completing its deferred renames: the snapshot they produced, or,
/// when completing them failed, the error (prefixed) together with the snapshot the scan had
/// before.
pub fn finished_scan_snapshot<S>(finished: Result<Option<S>, String>, fallback: Option<S>) -> (outcome: (
    Option<String>,
    Option<S>,
))
    ensures
        match finished {
            Ok(snapshot) => outcome.0 is None && outcome.1 == snapshot,
            Err(error) => outcome.0 matches Some(message) && message@
                == "finish deferred rename hashing: "@ + error@ && outcome.1 == fallback,
        },
{
    match finished {
        Ok(snapshot) => (None, snapshot),
        Err(error) => {
            proof {
                reveal_strlit("finish deferred rename hashing: ");
            }
            let mut message = String::from_str("finish deferred rename hashing: ");
            message.append(error.as_str());
            (Some(message), fallback)
        },
    }
}

} // verus!
