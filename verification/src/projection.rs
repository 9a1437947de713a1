//! The browser's folder tree of a committed source snapshot: every directory under the folder
//! above it, every file in the folder above it, other (unindexed) files added once per id, and
//! in each folder the subfolders ordered by their lower-cased names and the files by their sort
//! keys, equal keys keeping their order.
//!
//! A folder's id and display name, and a file's entry and sort key, are given with the
//! snapshot; the tree is built from them.
use vstd::prelude::*;
use crate::committed_scan::{path_parent, parent_path};
use crate::scan_progress::{FileEntry, FileModel, FolderEntry};
use crate::text::{ascii_lower, ascii_lower_chars, chars_of};
use crate::text_order::text_leq;

verus! {

/// A directory of the snapshot, relative to the source root, with its id and display name.
pub struct ProjectionDirectory {
    pub relative: String,
    pub id: String,
    pub name: String,
}

/// A file of the snapshot, relative to the source root, with its entry and sort key.
pub struct ProjectionFile {
    pub relative: String,
    pub entry: FileEntry,
    pub sort_key: String,
}

/// The folder above a relative path; the root (the empty path) for a path without one.
pub open spec fn parent_of(relative: Seq<char>) -> Seq<char> {
    match path_parent(relative) {
        Some(parent) => parent,
        None => Seq::empty(),
    }
}

/// `items` sorted by `key` with `text_leq`, equal keys keeping their order: each item is
/// inserted after the last one whose key is at most its own.
pub open spec fn insert_by_key(sorted: Seq<int>, x: int, keys: Seq<Seq<char>>) -> Seq<int>
    decreases sorted.len(),
{
    if sorted.len() == 0 {
        seq![x]
    } else if text_leq(keys[sorted.last()], keys[x]) {
        sorted.push(x)
    } else {
        insert_by_key(sorted.drop_last(), x, keys).push(sorted.last())
    }
}

/// The positions `items`, stably sorted by their keys.
pub open spec fn sort_by_keys(items: Seq<int>, keys: Seq<Seq<char>>) -> Seq<int>
    decreases items.len(),
{
    if items.len() == 0 {
        Seq::empty()
    } else {
        insert_by_key(sort_by_keys(items.drop_last(), keys), items.last(), keys)
    }
}

/// The positions of the directories directly under `folder`, in snapshot order.
pub open spec fn child_positions(dirs: Seq<ProjectionDirectory>, folder: Seq<char>) -> Seq<int>
    decreases dirs.len(),
{
    if dirs.len() == 0 {
        Seq::empty()
    } else {
        let earlier = child_positions(dirs.drop_last(), folder);
        let d = dirs.last();
        if d.relative@.len() > 0 && parent_of(d.relative@) == folder {
            earlier.push(dirs.len() - 1)
        } else {
            earlier
        }
    }
}

/// The sort keys of the directories: their lower-cased names.
pub open spec fn folder_keys(dirs: Seq<ProjectionDirectory>) -> Seq<Seq<char>> {
    dirs.map_values(|d: ProjectionDirectory| ascii_lower(d.name@))
}

/// The sort keys of the files.
pub open spec fn file_keys(pool: Seq<ProjectionFile>) -> Seq<Seq<char>> {
    pool.map_values(|f: ProjectionFile| f.sort_key@)
}

/// Whether one of the positions holds a file entry with id `id`.
pub open spec fn holds_id(pool: Seq<ProjectionFile>, chosen: Seq<int>, id: Seq<char>) -> bool {
    exists|k: int| 0 <= k < chosen.len() && #[trigger] pool[chosen[k]].entry.id@ == id
}

/// The positions (in `pool`, the files followed by the other files) of the files in `folder`,
/// scanning the first `n` positions: every file of the folder, and each other file of the
/// folder whose id is not there yet.
pub open spec fn file_positions(
    pool: Seq<ProjectionFile>,
    file_count: int,
    folder: Seq<char>,
    n: int,
) -> Seq<int>
    decreases n,
{
    if n <= 0 {
        Seq::empty()
    } else {
        let earlier = file_positions(pool, file_count, folder, n - 1);
        let f = pool[n - 1];
        if parent_of(f.relative@) != folder {
            earlier
        } else if n - 1 < file_count || !holds_id(pool, earlier, f.entry.id@) {
            earlier.push(n - 1)
        } else {
            earlier
        }
    }
}

/// `folder` is the projected tree of the folder at `relative` with `id` and `name`, unfolded
/// `fuel` levels deep: its subfolders are the directories under it sorted by lower-cased name,
/// each projected in turn, and its files are its files sorted by key.
pub open spec fn projected(
    folder: FolderEntry,
    dirs: Seq<ProjectionDirectory>,
    pool: Seq<ProjectionFile>,
    file_count: int,
    relative: Seq<char>,
    id: Seq<char>,
    name: Seq<char>,
    fuel: nat,
) -> bool
    decreases fuel,
{
    let kids = if fuel == 0 {
        Seq::empty()
    } else {
        sort_by_keys(child_positions(dirs, relative), folder_keys(dirs))
    };
    let files = sort_by_keys(file_positions(pool, file_count, relative, pool.len() as int), file_keys(pool));
    &&& folder.id@ == id
    &&& folder.name@ == name
    &&& folder.files@.len() == files.len()
    &&& forall|k: int| 0 <= k < files.len() ==> (#[trigger] folder.files@[k])@ == pool[files[k]].entry@
    &&& folder.children@.len() == kids.len()
    &&& forall|k: int|
        0 <= k < kids.len() ==> fuel > 0 && projected(
            #[trigger] folder.children@[k],
            dirs,
            pool,
            file_count,
            dirs[kids[k]].relative@,
            dirs[kids[k]].id@,
            dirs[kids[k]].name@,
            (fuel - 1) as nat,
        )
}

/// The depth the tree is unfolded to: one more than the longest directory path, which bounds
/// the depth of any folder because a folder's path is longer than its parent's.
pub open spec fn projection_fuel(dirs: Seq<ProjectionDirectory>) -> nat
    decreases dirs.len(),
{
    if dirs.len() == 0 {
        1
    } else {
        let rest = projection_fuel(dirs.drop_last());
        let here = (dirs.last().relative@.len() + 1) as nat;
        if here > rest {
            here
        } else {
            rest
        }
    }
}

fn chars_at_most(a: &Vec<char>, b: &Vec<char>) -> (le: bool)
    ensures
        le == text_leq(a@, b@),
{
    let mut i: usize = 0;
    assert(a@.skip(0) =~= a@ && b@.skip(0) =~= b@);
    while i < a.len() && i < b.len()
        invariant
            i <= a@.len(),
            i <= b@.len(),
            text_leq(a@, b@) == text_leq(a@.skip(i as int), b@.skip(i as int)),
        decreases a@.len() - i,
    {
        let x = a[i];
        let y = b[i];
        assert(a@.skip(i as int)[0] == x && b@.skip(i as int)[0] == y);
        if x != y {
            assert(a@.skip(i as int).len() > 0 && b@.skip(i as int).len() > 0);
            assert(text_leq(a@.skip(i as int), b@.skip(i as int)) == ((x as int) < (y as int)));
            return x < y;
        }
        assert(a@.skip(i as int).drop_first() =~= a@.skip(i as int + 1));
        assert(b@.skip(i as int).drop_first() =~= b@.skip(i as int + 1));
        i = i + 1;
    }
    i == a.len()
}

proof fn lemma_insert_at(sorted: Seq<int>, x: int, keys: Seq<Seq<char>>, j: int)
    requires
        0 <= j <= sorted.len(),
        forall|i: int| j <= i < sorted.len() ==> !text_leq(keys[#[trigger] sorted[i]], keys[x]),
        j > 0 ==> text_leq(keys[sorted[j - 1]], keys[x]),
    ensures
        insert_by_key(sorted, x, keys) == sorted.insert(j, x),
    decreases sorted.len(),
{
    if sorted.len() == 0 {
        assert(sorted.insert(j, x) =~= seq![x]);
    } else if j == sorted.len() {
        assert(sorted.insert(j, x) =~= sorted.push(x));
    } else {
        assert(!text_leq(keys[sorted[sorted.len() - 1]], keys[x]));
        let rest = sorted.drop_last();
        assert forall|i: int| j <= i < rest.len() implies !text_leq(keys[#[trigger] rest[i]], keys[x]) by {
            assert(rest[i] == sorted[i]);
        }
        if j > 0 {
            assert(rest[j - 1] == sorted[j - 1]);
        }
        lemma_insert_at(rest, x, keys, j);
        assert(rest.insert(j, x).push(sorted.last()) =~= sorted.insert(j, x));
    }
}

/// Sort the positions `items` by `keys[item]`, equal keys keeping their order.
fn sort_positions(items: &Vec<usize>, keys: &Vec<Vec<char>>) -> (sorted: Vec<usize>)
    requires
        forall|k: int| 0 <= k < items@.len() ==> #[trigger] items@[k] < keys@.len(),
    ensures
        sorted@.map_values(|p: usize| p as int) == sort_by_keys(
            items@.map_values(|p: usize| p as int),
            keys@.map_values(|key: Vec<char>| key@),
        ),
        forall|k: int| 0 <= k < sorted@.len() ==> #[trigger] sorted@[k] < keys@.len(),
{
    let ghost ks = keys@.map_values(|key: Vec<char>| key@);
    let ghost all = items@.map_values(|p: usize| p as int);
    let mut sorted: Vec<usize> = Vec::new();
    let mut i: usize = 0;
    while i < items.len()
        invariant
            i <= items@.len(),
            ks == keys@.map_values(|key: Vec<char>| key@),
            all == items@.map_values(|p: usize| p as int),
            forall|k: int| 0 <= k < items@.len() ==> #[trigger] items@[k] < keys@.len(),
            forall|k: int| 0 <= k < sorted@.len() ==> #[trigger] sorted@[k] < keys@.len(),
            sorted@.map_values(|p: usize| p as int) == sort_by_keys(all.subrange(0, i as int), ks),
        decreases items@.len() - i,
    {
        let x = items[i];
        let mut j: usize = sorted.len();
        while j > 0 && !chars_at_most(&keys[sorted[j - 1]], &keys[x])
            invariant
                j <= sorted@.len(),
                x < keys@.len(),
                ks == keys@.map_values(|key: Vec<char>| key@),
                forall|k: int| 0 <= k < sorted@.len() ==> #[trigger] sorted@[k] < keys@.len(),
                forall|k: int|
                    j <= k < sorted@.len() ==> !text_leq(ks[#[trigger] sorted@[k] as int], ks[x as int]),
            decreases j,
        {
            j = j - 1;
        }
        let ghost before = sorted@.map_values(|p: usize| p as int);
        proof {
            assert forall|k: int| j <= k < before.len() implies !text_leq(
                ks[#[trigger] before[k]],
                ks[x as int],
            ) by {
                assert(before[k] == sorted@[k] as int);
            }
            if j > 0 {
                assert(before[j - 1] == sorted@[j - 1] as int);
            }
            lemma_insert_at(before, x as int, ks, j as int);
        }
        sorted.insert(j, x);
        proof {
            assert(sorted@.map_values(|p: usize| p as int) =~= before.insert(j as int, x as int));
            let prefix = all.subrange(0, i as int + 1);
            assert(prefix.drop_last() =~= all.subrange(0, i as int));
            assert(prefix.last() == x as int);
        }
        i = i + 1;
    }
    assert(all.subrange(0, items@.len() as int) =~= all);
    sorted
}

fn same_text(a: &String, b: &String) -> (same: bool)
    ensures
        same == (a@ == b@),
{
    *a == *b
}

fn text_len(text: &String) -> (len: usize)
    ensures
        len == text@.len(),
{
    text.as_str().unicode_len()
}

/// The folder above `relative`, as text.
fn folder_above(relative: &String) -> (parent: String)
    ensures
        parent@ == parent_of(relative@),
{
    match parent_path(relative) {
        Some(parent) => parent,
        None => String::new(),
    }
}

/// The positions of the directories directly under `folder`.
fn children_of(dirs: &Vec<ProjectionDirectory>, folder: &String) -> (kids: Vec<usize>)
    ensures
        kids@.map_values(|p: usize| p as int) == child_positions(dirs@, folder@),
        forall|k: int| 0 <= k < kids@.len() ==> #[trigger] kids@[k] < dirs@.len(),
{
    let mut kids: Vec<usize> = Vec::new();
    let mut i: usize = 0;
    while i < dirs.len()
        invariant
            i <= dirs@.len(),
            forall|k: int| 0 <= k < kids@.len() ==> #[trigger] kids@[k] < i,
            kids@.map_values(|p: usize| p as int) == child_positions(dirs@.subrange(0, i as int), folder@),
        decreases dirs@.len() - i,
    {
        let ghost before = kids@.map_values(|p: usize| p as int);
        let prefix = Ghost(dirs@.subrange(0, i as int + 1));
        assert(prefix@.drop_last() =~= dirs@.subrange(0, i as int));
        assert(prefix@.last() == dirs@[i as int]);
        if text_len(&dirs[i].relative) > 0 && same_text(&folder_above(&dirs[i].relative), folder) {
            kids.push(i);
            assert(kids@.map_values(|p: usize| p as int) =~= before.push(i as int));
        }
        i = i + 1;
    }
    assert(dirs@.subrange(0, dirs@.len() as int) =~= dirs@);
    kids
}

/// The positions in the pool of the files in `folder`.
fn files_of(files: &Vec<ProjectionFile>, others: &Vec<ProjectionFile>, folder: &String) -> (chosen:
    Vec<usize>)
    requires
        files@.len() + others@.len() <= usize::MAX,
    ensures
        chosen@.map_values(|p: usize| p as int) == file_positions(
            files@ + others@,
            files@.len() as int,
            folder@,
            (files@.len() + others@.len()) as int,
        ),
        forall|k: int| 0 <= k < chosen@.len() ==> #[trigger] chosen@[k] < files@.len() + others@.len(),
{
    let ghost pool = files@ + others@;
    let total = files.len() + others.len();
    let mut chosen: Vec<usize> = Vec::new();
    let mut n: usize = 0;
    while n < total
        invariant
            pool == files@ + others@,
            total == pool.len(),
            n <= total,
            forall|k: int| 0 <= k < chosen@.len() ==> #[trigger] chosen@[k] < n,
            chosen@.map_values(|p: usize| p as int) == file_positions(
                pool,
                files@.len() as int,
                folder@,
                n as int,
            ),
        decreases total - n,
    {
        let ghost earlier = chosen@.map_values(|p: usize| p as int);
        let item = if n < files.len() {
            &files[n]
        } else {
            &others[n - files.len()]
        };
        assert(*item == pool[n as int]);
        if same_text(&folder_above(&item.relative), folder) {
            let take = if n < files.len() {
                true
            } else {
                let mut seen = false;
                let mut k: usize = 0;
                while k < chosen.len()
                    invariant
                        pool == files@ + others@,
                        k <= chosen@.len(),
                        forall|m: int| 0 <= m < chosen@.len() ==> #[trigger] chosen@[m] < n,
                        n < total,
                        total == pool.len(),
                        *item == pool[n as int],
                        earlier == chosen@.map_values(|p: usize| p as int),
                        seen == exists|m: int|
                            0 <= m < k && #[trigger] pool[earlier[m]].entry.id@ == item.entry.id@,
                    decreases chosen@.len() - k,
                {
                    let p = chosen[k];
                    let held = if p < files.len() {
                        &files[p]
                    } else {
                        &others[p - files.len()]
                    };
                    assert(*held == pool[earlier[k as int]]);
                    if same_text(&held.entry.id, &item.entry.id) {
                        seen = true;
                    }
                    proof {
                        if !seen {
                            assert forall|m: int| 0 <= m < k + 1 implies #[trigger] pool[earlier[m]].entry.id@
                                != item.entry.id@ by {}
                        }
                    }
                    k = k + 1;
                }
                !seen
            };
            if take {
                chosen.push(n);
                assert(chosen@.map_values(|p: usize| p as int) =~= earlier.push(n as int));
            }
        }
        n = n + 1;
    }
    chosen
}

fn copy_entry(entry: &FileEntry) -> (copy: FileEntry)
    ensures
        copy@ == entry@,
{
    FileEntry { id: entry.id.clone(), name: entry.name.clone() }
}

/// Build the folder at `relative`, with `id` and `name`, and everything under it, `fuel`
/// levels deep, with the sort keys of the directories and of the files already computed.
fn materialize_with_keys(
    relative: &String,
    id: &String,
    name: &String,
    dirs: &Vec<ProjectionDirectory>,
    files: &Vec<ProjectionFile>,
    others: &Vec<ProjectionFile>,
    folder_sort_keys: &Vec<Vec<char>>,
    file_sort_keys: &Vec<Vec<char>>,
    fuel: u64,
) -> (folder: FolderEntry)
    requires
        files@.len() + others@.len() <= usize::MAX,
        folder_sort_keys@.map_values(|key: Vec<char>| key@) == folder_keys(dirs@),
        file_sort_keys@.map_values(|key: Vec<char>| key@) == file_keys(files@ + others@),
    ensures
        projected(
            folder,
            dirs@,
            files@ + others@,
            files@.len() as int,
            relative@,
            id@,
            name@,
            fuel as nat,
        ),
    decreases fuel,
{
    let ghost pool = files@ + others@;
    let chosen = files_of(files, others, relative);
    assert(file_sort_keys@.map_values(|key: Vec<char>| key@).len() == file_sort_keys@.len());
    assert(file_sort_keys@.len() == pool.len());
    let sorted_files = sort_positions(&chosen, file_sort_keys);
    let mut entries: Vec<FileEntry> = Vec::new();
    let mut k: usize = 0;
    let ghost order = sort_by_keys(
        file_positions(pool, files@.len() as int, relative@, pool.len() as int),
        file_keys(pool),
    );
    assert(sorted_files@.map_values(|p: usize| p as int) == order);
    while k < sorted_files.len()
        invariant
            pool == files@ + others@,
            k <= sorted_files@.len(),
            sorted_files@.map_values(|p: usize| p as int) == order,
            forall|m: int| 0 <= m < sorted_files@.len() ==> #[trigger] sorted_files@[m] < pool.len(),
            file_sort_keys@.len() == pool.len(),
            entries@.len() == k,
            forall|m: int| 0 <= m < k ==> (#[trigger] entries@[m])@ == pool[order[m]].entry@,
        decreases sorted_files@.len() - k,
    {
        let p = sorted_files[k];
        let item = if p < files.len() {
            &files[p]
        } else {
            &others[p - files.len()]
        };
        assert(*item == pool[order[k as int]]);
        entries.push(copy_entry(&item.entry));
        k = k + 1;
    }
    let mut children: Vec<FolderEntry> = Vec::new();
    if fuel > 0 {
        let kids = children_of(dirs, relative);
        assert(folder_sort_keys@.map_values(|key: Vec<char>| key@).len() == folder_sort_keys@.len());
        assert(folder_sort_keys@.len() == dirs@.len());
        let sorted_kids = sort_positions(&kids, folder_sort_keys);
        let ghost kid_order = sort_by_keys(child_positions(dirs@, relative@), folder_keys(dirs@));
        assert(sorted_kids@.map_values(|p: usize| p as int) == kid_order);
        let mut c: usize = 0;
        while c < sorted_kids.len()
            invariant
                fuel > 0,
                files@.len() + others@.len() <= usize::MAX,
                folder_sort_keys@.map_values(|key: Vec<char>| key@) == folder_keys(dirs@),
                file_sort_keys@.map_values(|key: Vec<char>| key@) == file_keys(files@ + others@),
                c <= sorted_kids@.len(),
                sorted_kids@.map_values(|p: usize| p as int) == kid_order,
                forall|m: int| 0 <= m < sorted_kids@.len() ==> #[trigger] sorted_kids@[m] < dirs@.len(),
                children@.len() == c,
                forall|m: int|
                    0 <= m < c ==> projected(
                        #[trigger] children@[m],
                        dirs@,
                        files@ + others@,
                        files@.len() as int,
                        dirs@[kid_order[m]].relative@,
                        dirs@[kid_order[m]].id@,
                        dirs@[kid_order[m]].name@,
                        (fuel - 1) as nat,
                    ),
            decreases sorted_kids@.len() - c,
        {
            let d = &dirs[sorted_kids[c]];
            assert(kid_order[c as int] == sorted_kids@[c as int] as int);
            let child = materialize_with_keys(
                &d.relative,
                &d.id,
                &d.name,
                dirs,
                files,
                others,
                folder_sort_keys,
                file_sort_keys,
                fuel - 1,
            );
            children.push(child);
            c = c + 1;
        }
    }
    FolderEntry { id: id.clone(), name: name.clone(), children, files: entries }
}

/// The sort key of each directory (its name in ASCII lower case) and of each file, in order.
fn sort_keys_of(
    directories: &Vec<ProjectionDirectory>,
    files: &Vec<ProjectionFile>,
    other_files: &Vec<ProjectionFile>,
) -> (keys: (Vec<Vec<char>>, Vec<Vec<char>>))
    requires
        files@.len() + other_files@.len() <= usize::MAX,
    ensures
        keys.0@.map_values(|key: Vec<char>| key@) == folder_keys(directories@),
        keys.1@.map_values(|key: Vec<char>| key@) == file_keys(files@ + other_files@),
{
    let mut folder_sort_keys: Vec<Vec<char>> = Vec::new();
    let mut i: usize = 0;
    while i < directories.len()
        invariant
            i <= directories@.len(),
            folder_sort_keys@.map_values(|key: Vec<char>| key@) == folder_keys(directories@).subrange(
                0,
                i as int,
            ),
        decreases directories@.len() - i,
    {
        let key = ascii_lower_chars(&chars_of(directories[i].name.as_str()));
        assert(key@ == ascii_lower(directories@[i as int].name@));
        let ghost before = folder_sort_keys@;
        folder_sort_keys.push(key);
        assert(folder_sort_keys@ =~= before.push(key));
        assert(folder_keys(directories@)[i as int] == ascii_lower(directories@[i as int].name@));
        assert(folder_sort_keys@.map_values(|key: Vec<char>| key@) =~= before.map_values(
            |key: Vec<char>| key@,
        ).push(key@));
        assert(folder_sort_keys@.map_values(|key: Vec<char>| key@) =~= folder_keys(
            directories@,
        ).subrange(0, i as int + 1));
        i = i + 1;
    }
    assert(folder_keys(directories@).subrange(0, directories@.len() as int) =~= folder_keys(
        directories@,
    ));
    let ghost pool = files@ + other_files@;
    let total = files.len() + other_files.len();
    let mut file_sort_keys: Vec<Vec<char>> = Vec::new();
    let mut n: usize = 0;
    while n < total
        invariant
            pool == files@ + other_files@,
            total == pool.len(),
            n <= total,
            file_sort_keys@.map_values(|key: Vec<char>| key@) == file_keys(pool).subrange(0, n as int),
        decreases total - n,
    {
        let item = if n < files.len() {
            &files[n]
        } else {
            &other_files[n - files.len()]
        };
        assert(*item == pool[n as int]);
        let key = chars_of(item.sort_key.as_str());
        assert(key@ == pool[n as int].sort_key@);
        let ghost before = file_sort_keys@;
        file_sort_keys.push(key);
        assert(file_sort_keys@ =~= before.push(key));
        assert(file_keys(pool)[n as int] == pool[n as int].sort_key@);
        assert(file_sort_keys@.map_values(|key: Vec<char>| key@) =~= before.map_values(
            |key: Vec<char>| key@,
        ).push(key@));
        assert(file_sort_keys@.map_values(|key: Vec<char>| key@) =~= file_keys(pool).subrange(
            0,
            n as int + 1,
        ));
        n = n + 1;
    }
    assert(file_keys(pool).subrange(0, total as int) =~= file_keys(pool));
    (folder_sort_keys, file_sort_keys)
}

/// Build the folder at `relative`, with `id` and `name`, and everything under it, `fuel`
/// levels deep: directories in the order of their names' ASCII lower case, files in the order
/// of their sort keys.
pub fn materialize_projection_folder(
    relative: &String,
    id: &String,
    name: &String,
    dirs: &Vec<ProjectionDirectory>,
    files: &Vec<ProjectionFile>,
    others: &Vec<ProjectionFile>,
    fuel: u64,
) -> (folder: FolderEntry)
    requires
        files@.len() + others@.len() <= usize::MAX,
    ensures
        projected(
            folder,
            dirs@,
            files@ + others@,
            files@.len() as int,
            relative@,
            id@,
            name@,
            fuel as nat,
        ),
{
    let (folder_sort_keys, file_sort_keys) = sort_keys_of(dirs, files, others);
    materialize_with_keys(relative, id, name, dirs, files, others, &folder_sort_keys, &file_sort_keys, fuel)
}

/// The fuel for a snapshot's directories, computed.
fn fuel_for(dirs: &Vec<ProjectionDirectory>) -> (fuel: u64)
    requires
        forall|k: int| 0 <= k < dirs@.len() ==> (#[trigger] dirs@[k]).relative@.len() < u64::MAX,
    ensures
        fuel == projection_fuel(dirs@),
{
    let mut fuel: u64 = 1;
    let mut i: usize = 0;
    while i < dirs.len()
        invariant
            i <= dirs@.len(),
            forall|k: int| 0 <= k < dirs@.len() ==> (#[trigger] dirs@[k]).relative@.len() < u64::MAX,
            fuel == projection_fuel(dirs@.subrange(0, i as int)),
        decreases dirs@.len() - i,
    {
        let prefix = Ghost(dirs@.subrange(0, i as int + 1));
        assert(prefix@.drop_last() =~= dirs@.subrange(0, i as int));
        assert(prefix@.last() == dirs@[i as int]);
        let here = text_len(&dirs[i].relative) as u64 + 1;
        if here > fuel {
            fuel = here;
        }
        i = i + 1;
    }
    assert(dirs@.subrange(0, dirs@.len() as int) =~= dirs@);
    fuel
}

/// Build the folder tree of a committed snapshot from its root's id and name, its directories,
/// its indexed files and its other files.
pub fn committed_projection(
    root_id: &String,
    root_name: &String,
    directories: &Vec<ProjectionDirectory>,
    files: &Vec<ProjectionFile>,
    other_files: &Vec<ProjectionFile>,
) -> (folder: FolderEntry)
    requires
        files@.len() + other_files@.len() <= usize::MAX,
        forall|k: int|
            0 <= k < directories@.len() ==> (#[trigger] directories@[k]).relative@.len() < u64::MAX,
    ensures
        projected(
            folder,
            directories@,
            files@ + other_files@,
            files@.len() as int,
            Seq::empty(),
            root_id@,
            root_name@,
            projection_fuel(directories@),
        ),
{
    let fuel = fuel_for(directories);
    let root = String::new();
    materialize_projection_folder(&root, root_id, root_name, directories, files, other_files, fuel)
}

} // verus!
