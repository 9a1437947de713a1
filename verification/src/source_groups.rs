//! Grouping of per-file work by the source it belongs to, a source being named by its root
//! folder and its database folder, each compared by its path components (the path rebuilt from
//! its components). Each source's work keeps the order given; a group is named by the folders
//! of its first item, as given, and groups come in the order of their sources' paths.
use vstd::prelude::*;
use crate::file_drop::{paths_equal, same_components};
use crate::rating::{normalized_rating_path, path_normal_form};

verus! {

/// The work of one source.
#[derive(Clone, Debug, PartialEq, Eq)]
pub struct SourceGroup<T> {
    pub root: String,
    pub database_root: String,
    pub items: Vec<T>,
}

/// The sources named by `keys`, as text.
pub open spec fn key_views(keys: Seq<(String, String)>) -> Seq<(Seq<char>, Seq<char>)> {
    keys.map_values(|key: (String, String)| (key.0@, key.1@))
}

/// Items `i` and `j` belong to the same source.
pub open spec fn same_source(keys: Seq<(Seq<char>, Seq<char>)>, i: int, j: int) -> bool {
    keys[i] == keys[j]
}

/// Position `i` is in one of the groups.
pub open spec fn position_grouped(groups: Seq<SourceGroup<usize>>, i: int) -> bool {
    exists|g: int, k: int|
        0 <= g < groups.len() && 0 <= k < groups[g].items@.len() && #[trigger] groups[g].items@[k] == i
}

/// `groups` holds, for each source of `keys`, the positions of its items in increasing
/// order; sources are distinct and come in the order of their first item.
pub open spec fn groups_positions(keys: Seq<(Seq<char>, Seq<char>)>, groups: Seq<SourceGroup<usize>>) -> bool {
    &&& forall|g: int| 0 <= g < groups.len() ==> #[trigger] groups[g].items@.len() > 0
    &&& forall|g: int, k: int|
        0 <= g < groups.len() && 0 <= k < groups[g].items@.len() ==> {
            let i = #[trigger] groups[g].items@[k];
            &&& i < keys.len()
            &&& keys[i as int].0 == groups[g].root@
            &&& keys[i as int].1 == groups[g].database_root@
        }
    &&& forall|g: int, k: int, l: int|
        0 <= g < groups.len() && 0 <= k < l < groups[g].items@.len() ==> #[trigger] groups[g].items@[k]
            < #[trigger] groups[g].items@[l]
    &&& forall|g: int, h: int|
        0 <= g < h < groups.len() ==> (#[trigger] groups[g].root@ != #[trigger] groups[h].root@
            || groups[g].database_root@ != groups[h].database_root@)
    &&& forall|i: int| 0 <= i < keys.len() ==> #[trigger] position_grouped(groups, i)
    &&& forall|g: int, h: int|
        0 <= g < h < groups.len() ==> #[trigger] groups[g].items@[0] < #[trigger] groups[h].items@[0]
}

fn same_key(keys: &Vec<(String, String)>, i: usize, j: usize) -> (same: bool)
    requires
        i < keys@.len(),
        j < keys@.len(),
    ensures
        same == same_source(key_views(keys@), i as int, j as int),
{
    keys[i].0 == keys[j].0 && keys[i].1 == keys[j].1
}

/// The first position of each source, in increasing order, and for each position the source
/// (an index into the first positions) it belongs to.
fn first_positions(keys: &Vec<(String, String)>) -> (result: (Vec<usize>, Ghost<Seq<int>>))
    ensures
        forall|g: int| 0 <= g < result.0@.len() ==> #[trigger] result.0@[g] < keys@.len(),
        forall|g: int, h: int|
            0 <= g < h < result.0@.len() ==> #[trigger] result.0@[g] < #[trigger] result.0@[h],
        forall|g: int, j: int|
            0 <= g < result.0@.len() && 0 <= j < result.0@[g] ==> !#[trigger] same_source(
                key_views(keys@),
                j,
                result.0@[g] as int,
            ),
        result.1@.len() == keys@.len(),
        forall|j: int|
            0 <= j < keys@.len() ==> 0 <= #[trigger] result.1@[j] < result.0@.len() && same_source(
                key_views(keys@),
                j,
                result.0@[result.1@[j]] as int,
            ),
{
    let mut firsts: Vec<usize> = Vec::new();
    let ghost mut owner: Seq<int> = Seq::empty();
    let mut i: usize = 0;
    while i < keys.len()
        invariant
            i <= keys@.len(),
            forall|g: int| 0 <= g < firsts@.len() ==> #[trigger] firsts@[g] < i,
            forall|g: int, h: int| 0 <= g < h < firsts@.len() ==> #[trigger] firsts@[g] < #[trigger] firsts@[h],
            forall|g: int, j: int|
                0 <= g < firsts@.len() && 0 <= j < firsts@[g] ==> !#[trigger] same_source(
                    key_views(keys@),
                    j,
                    firsts@[g] as int,
                ),
            owner.len() == i,
            forall|j: int|
                0 <= j < i ==> 0 <= #[trigger] owner[j] < firsts@.len() && same_source(
                    key_views(keys@),
                    j,
                    firsts@[owner[j]] as int,
                ),
        decreases keys@.len() - i,
    {
        let mut g: usize = 0;
        let mut found: Option<usize> = None;
        while g < firsts.len()
            invariant
                i < keys@.len(),
                g <= firsts@.len(),
                forall|h: int| 0 <= h < firsts@.len() ==> #[trigger] firsts@[h] < i,
                match found {
                    Some(h) => h < firsts@.len() && same_source(key_views(keys@), i as int, firsts@[h as int] as int),
                    None => forall|h: int| 0 <= h < g ==> !#[trigger] same_source(key_views(keys@), i as int, firsts@[h] as int),
                },
            decreases firsts@.len() - g,
        {
            if same_key(keys, i, firsts[g]) {
                found = Some(g);
            }
            g = g + 1;
        }
        let ghost before = firsts@;
        match found {
            Some(h) => {
                proof {
                    owner = owner.push(h as int);
                }
            },
            None => {
                firsts.push(i);
                proof {
                    owner = owner.push(before.len() as int);
                }
                assert forall|h: int, j: int|
                    0 <= h < firsts@.len() && 0 <= j < firsts@[h] implies !#[trigger] same_source(
                        key_views(keys@),
                        j,
                        firsts@[h] as int,
                    ) by {
                    if h == firsts@.len() - 1 {
                        if same_source(key_views(keys@), j, i as int) {
                            let w = owner[j];
                            assert(same_source(key_views(keys@), j, before[w] as int));
                            assert(same_source(key_views(keys@), i as int, before[w] as int));
                        }
                    } else {
                        assert(firsts@[h] == before[h]);
                    }
                }
            },
        }
        assert forall|j: int|
            0 <= j < i + 1 implies 0 <= #[trigger] owner[j] < firsts@.len() && same_source(
                key_views(keys@),
                j,
                firsts@[owner[j]] as int,
            ) by {
            if j < i {
                assert(firsts@[owner[j]] == before[owner[j]]);
            }
        }
        i = i + 1;
    }
    (firsts, Ghost(owner))
}

/// Group positions `0..keys.len()` by their source, groups in the order in which their sources
/// first appear (the first step of `source_positions`, which then orders them by path).
pub fn group_positions_by_source(keys: &Vec<(String, String)>) -> (groups: Vec<SourceGroup<usize>>)
    ensures
        groups_positions(key_views(keys@), groups@),
{
    let (firsts, owner) = first_positions(keys);
    let mut groups: Vec<SourceGroup<usize>> = Vec::new();
    let mut g: usize = 0;
    while g < firsts.len()
        invariant
            g <= firsts@.len(),
            groups@.len() == g,
            forall|f: int| 0 <= f < firsts@.len() ==> #[trigger] firsts@[f] < keys@.len(),
            forall|f: int, h: int| 0 <= f < h < firsts@.len() ==> #[trigger] firsts@[f] < #[trigger] firsts@[h],
            forall|f: int, j: int|
                0 <= f < firsts@.len() && 0 <= j < firsts@[f] ==> !#[trigger] same_source(key_views(keys@), j, firsts@[f] as int),
            owner@.len() == keys@.len(),
            forall|j: int|
                0 <= j < keys@.len() ==> 0 <= #[trigger] owner@[j] < firsts@.len() && same_source(
                    key_views(keys@),
                    j,
                    firsts@[owner@[j]] as int,
                ),
            forall|f: int| 0 <= f < g ==> {
                &&& #[trigger] groups@[f].items@.len() > 0
                &&& groups@[f].items@[0] == firsts@[f]
                &&& groups@[f].root@ == keys@[firsts@[f] as int].0@
                &&& groups@[f].database_root@ == keys@[firsts@[f] as int].1@
                &&& forall|k: int| 0 <= k < groups@[f].items@.len() ==> {
                    &&& #[trigger] groups@[f].items@[k] < keys@.len()
                    &&& same_source(key_views(keys@), groups@[f].items@[k] as int, firsts@[f] as int)
                }
                &&& forall|k: int, l: int|
                    0 <= k < l < groups@[f].items@.len() ==> #[trigger] groups@[f].items@[k]
                        < #[trigger] groups@[f].items@[l]
                &&& forall|j: int|
                    0 <= j < keys@.len() && same_source(key_views(keys@), j, firsts@[f] as int) ==> exists|k: int|
                        0 <= k < groups@[f].items@.len() && #[trigger] groups@[f].items@[k] == j
            },
        decreases firsts@.len() - g,
    {
        let first = firsts[g];
        let mut items: Vec<usize> = Vec::new();
        let mut j: usize = first;
        while j < keys.len()
            invariant
                first < keys@.len(),
                first <= j <= keys@.len(),
                forall|x: int| 0 <= x < first ==> !same_source(key_views(keys@), x, first as int),
                j > first ==> items@.len() > 0 && items@[0] == first,
                forall|k: int| 0 <= k < items@.len() ==> {
                    &&& first <= #[trigger] items@[k] < j
                    &&& same_source(key_views(keys@), items@[k] as int, first as int)
                },
                forall|k: int, l: int| 0 <= k < l < items@.len() ==> #[trigger] items@[k] < #[trigger] items@[l],
                forall|x: int|
                    0 <= x < j && same_source(key_views(keys@), x, first as int) ==> exists|k: int|
                        0 <= k < items@.len() && #[trigger] items@[k] == x,
            decreases keys@.len() - j,
        {
            let ghost before = items@;
            if same_key(keys, j, first) {
                items.push(j);
                assert forall|x: int|
                    0 <= x < j + 1 && same_source(key_views(keys@), x, first as int) implies exists|k: int|
                        0 <= k < items@.len() && #[trigger] items@[k] == x by {
                    if x < j {
                        let w = choose|w: int| 0 <= w < before.len() && #[trigger] before[w] == x;
                        assert(items@[w] == before[w]);
                    } else {
                        assert(items@[items@.len() - 1] == x);
                    }
                }
            }
            j = j + 1;
        }
        let group = SourceGroup {
            root: keys[first].0.clone(),
            database_root: keys[first].1.clone(),
            items,
        };
        let ghost new_group = group;
        let ghost before_groups = groups@;
        groups.push(group);
        proof {
            assert(groups@[g as int] == new_group);
            assert forall|f: int| 0 <= f < g implies groups@[f] == before_groups[f] by {}
            assert(new_group.items@.len() > 0);
            assert forall|k: int| 0 <= k < new_group.items@.len() implies {
                &&& #[trigger] new_group.items@[k] < keys@.len()
                &&& same_source(key_views(keys@), new_group.items@[k] as int, firsts@[g as int] as int)
            } by {}
            assert forall|x: int|
                0 <= x < keys@.len() && same_source(key_views(keys@), x, firsts@[g as int] as int) implies exists|k: int|
                    0 <= k < new_group.items@.len() && #[trigger] new_group.items@[k] == x by {}
        }
        g = g + 1;
    }
    proof {
        assert forall|i: int| 0 <= i < keys@.len() implies #[trigger] position_grouped(groups@, i) by {
            let f = owner@[i];
            assert(same_source(key_views(keys@), i, firsts@[f] as int));
            assert(groups@[f].items@.len() > 0);
            let k = choose|k: int| 0 <= k < groups@[f].items@.len() && #[trigger] groups@[f].items@[k] == i;
        }
        assert forall|f: int, h: int|
            0 <= f < h < groups@.len() implies (#[trigger] groups@[f].root@ != #[trigger] groups@[h].root@
                || groups@[f].database_root@ != groups@[h].database_root@) by {
            assert(firsts@[f] < firsts@[h]);
            assert(groups@[f].items@.len() > 0);
            assert(groups@[h].items@.len() > 0);
            if groups@[f].root@ == groups@[h].root@ && groups@[f].database_root@ == groups@[h].database_root@ {
                assert(same_source(key_views(keys@), firsts@[f] as int, firsts@[h] as int));
            }
        }
        assert forall|f: int, k: int|
            0 <= f < groups@.len() && 0 <= k < groups@[f].items@.len() implies {
                let i = #[trigger] groups@[f].items@[k];
                &&& i < keys@.len()
                &&& key_views(keys@)[i as int].0 == groups@[f].root@
                &&& key_views(keys@)[i as int].1 == groups@[f].database_root@
            } by {
            assert(groups@[f].items@.len() > 0);
        }
        assert forall|f: int| 0 <= f < groups@.len() implies #[trigger] groups@[f].items@.len() > 0 by {
            assert(groups@[f].items@.len() > 0);
        }
        assert forall|f: int, h: int|
            0 <= f < h < groups@.len() implies #[trigger] groups@[f].items@[0] < #[trigger] groups@[h].items@[0] by {
            assert(groups@[f].items@.len() > 0);
            assert(groups@[h].items@.len() > 0);
            assert(firsts@[f] < firsts@[h]);
        }
        assert forall|f: int, k: int, l: int|
            0 <= f < groups@.len() && 0 <= k < l < groups@[f].items@.len() implies #[trigger] groups@[f].items@[k]
                < #[trigger] groups@[f].items@[l] by {
            assert(groups@[f].items@.len() > 0);
        }
    }
    groups
}

/// Work that belongs to one source.
pub trait SourceBound: Sized {
    spec fn source_key(&self) -> (Seq<char>, Seq<char>);

    /// The source's root folder.
    fn root(&self) -> (root: &String)
        ensures
            root@ == self.source_key().0,
    ;

    /// The source's database folder.
    fn database_root(&self) -> (database_root: &String)
        ensures
            database_root@ == self.source_key().1,
    ;

    /// A copy of this work.
    fn duplicate(&self) -> (copy: Self)
        ensures
            copy == *self,
    ;
}

/// The sources of `items`, in order, each folder rebuilt from its path components.
pub open spec fn source_keys<T: SourceBound>(items: Seq<T>) -> Seq<(Seq<char>, Seq<char>)> {
    items.map_values(
        |item: T| (path_normal_form(item.source_key().0), path_normal_form(item.source_key().1)),
    )
}

/// `groups` holds the items at the positions of `positions`, group by group.
pub open spec fn groups_hold<T>(
    items: Seq<T>,
    positions: Seq<SourceGroup<usize>>,
    groups: Seq<SourceGroup<T>>,
) -> bool {
    &&& groups.len() == positions.len()
    &&& forall|g: int|
        0 <= g < groups.len() ==> {
            &&& #[trigger] groups[g].root == positions[g].root
            &&& groups[g].database_root == positions[g].database_root
            &&& groups[g].items@.len() == positions[g].items@.len()
            &&& forall|k: int|
                0 <= k < groups[g].items@.len() ==> #[trigger] groups[g].items@[k]
                    == items[positions[g].items@[k] as int]
        }
}

/// The positions of the work, grouped by source, sources in the order they first appear.
fn first_appearance_positions<T: SourceBound>(items: &Vec<T>) -> (positions: Vec<SourceGroup<usize>>)
    ensures
        groups_positions(source_keys(items@), positions@),
{
    let mut keys: Vec<(String, String)> = Vec::new();
    let mut i: usize = 0;
    while i < items.len()
        invariant
            i <= items@.len(),
            key_views(keys@) =~= source_keys(items@).subrange(0, i as int),
        decreases items@.len() - i,
    {
        let key = (
            normalized_rating_path(items[i].root()),
            normalized_rating_path(items[i].database_root()),
        );
        let ghost before = keys@;
        keys.push(key);
        proof {
            assert(key_views(keys@) =~= key_views(before).push((key.0@, key.1@)));
            assert(source_keys(items@).subrange(0, i + 1) =~= source_keys(items@).subrange(
                0,
                i as int,
            ).push(
                (
                    path_normal_form(items@[i as int].source_key().0),
                    path_normal_form(items@[i as int].source_key().1),
                ),
            ));
        }
        i = i + 1;
    }
    proof {
        assert(source_keys(items@).subrange(0, items@.len() as int) =~= source_keys(items@));
    }
    group_positions_by_source(&keys)
}


/// `Path < Path`: `left` comes before `right` in the order of their components.
pub uninterp spec fn path_precedes(left: Seq<char>, right: Seq<char>) -> bool;

/// `Path`'s `<`, which compares components; the contract names the result and says nothing
/// more of it.
#[verifier::external_body]
fn path_less(left: &String, right: &String) -> (less: bool)
    ensures
        less == path_precedes(left@, right@),
{
    std::path::Path::new(left) < std::path::Path::new(right)
}

/// A source comes before another when its root folder does, or when the roots are the same
/// path and its database folder comes first: the order of `(PathBuf, PathBuf)` pairs.
pub open spec fn source_before(left: (Seq<char>, Seq<char>), right: (Seq<char>, Seq<char>)) -> bool {
    path_precedes(left.0, right.0) || (same_components(left.0, right.0) && path_precedes(
        left.1,
        right.1,
    ))
}

fn source_less(left_root: &String, left_db: &String, right_root: &String, right_db: &String) -> (less:
    bool)
    ensures
        less == source_before((left_root@, left_db@), (right_root@, right_db@)),
{
    path_less(left_root, right_root) || (paths_equal(left_root, right_root) && path_less(
        left_db,
        right_db,
    ))
}

/// The folders of each item, as given.
pub open spec fn raw_keys<T: SourceBound>(items: Seq<T>) -> Seq<(Seq<char>, Seq<char>)> {
    items.map_values(|item: T| item.source_key())
}

/// The position lists of groups.
pub open spec fn group_lists(groups: Seq<SourceGroup<usize>>) -> Seq<Seq<usize>> {
    groups.map_values(|group: SourceGroup<usize>| group.items@)
}

/// `sorted` with the group `x` inserted after the last group whose source does not come after
/// `x`'s; a group's source is that of its first item.
pub open spec fn insert_group(
    sorted: Seq<Seq<usize>>,
    x: Seq<usize>,
    keys: Seq<(Seq<char>, Seq<char>)>,
) -> Seq<Seq<usize>>
    decreases sorted.len(),
{
    if sorted.len() == 0 {
        seq![x]
    } else if !source_before(keys[x[0] as int], keys[sorted.last()[0] as int]) {
        sorted.push(x)
    } else {
        insert_group(sorted.drop_last(), x, keys).push(sorted.last())
    }
}

/// The groups ordered by their sources, inserting one group after another.
pub open spec fn sort_groups(lists: Seq<Seq<usize>>, keys: Seq<(Seq<char>, Seq<char>)>) -> Seq<
    Seq<usize>,
>
    decreases lists.len(),
{
    if lists.len() == 0 {
        Seq::empty()
    } else {
        insert_group(sort_groups(lists.drop_last(), keys), lists.last(), keys)
    }
}

/// `sorted` holds the groups of `first` ordered by their sources, each group named by the
/// folders of its first item, as given.
pub open spec fn ordered_groups<T: SourceBound>(
    items: Seq<T>,
    first: Seq<SourceGroup<usize>>,
    sorted: Seq<SourceGroup<usize>>,
) -> bool {
    &&& group_lists(sorted) == sort_groups(group_lists(first), raw_keys(items))
    &&& forall|g: int|
        0 <= g < sorted.len() ==> {
            &&& #[trigger] sorted[g].items@.len() > 0
            &&& sorted[g].root@ == items[sorted[g].items@[0] as int].source_key().0
            &&& sorted[g].database_root@ == items[sorted[g].items@[0] as int].source_key().1
        }
    &&& forall|g: int, k: int|
        0 <= g < sorted.len() && 0 <= k < sorted[g].items@.len() ==> #[trigger] sorted[g].items@[k]
            < items.len()
}

proof fn lemma_insert_group_at(
    sorted: Seq<Seq<usize>>,
    x: Seq<usize>,
    keys: Seq<(Seq<char>, Seq<char>)>,
    j: int,
)
    requires
        0 <= j <= sorted.len(),
        forall|i: int|
            j <= i < sorted.len() ==> source_before(keys[x[0] as int], keys[#[trigger] sorted[i][0] as int]),
        j > 0 ==> !source_before(keys[x[0] as int], keys[sorted[j - 1][0] as int]),
    ensures
        insert_group(sorted, x, keys) == sorted.insert(j, x),
    decreases sorted.len(),
{
    if sorted.len() == 0 {
        assert(sorted.insert(j, x) =~= seq![x]);
    } else if j == sorted.len() {
        assert(sorted.insert(j, x) =~= sorted.push(x));
    } else {
        assert(source_before(keys[x[0] as int], keys[sorted[sorted.len() - 1][0] as int]));
        let rest = sorted.drop_last();
        assert forall|i: int| j <= i < rest.len() implies source_before(
            keys[x[0] as int],
            keys[#[trigger] rest[i][0] as int],
        ) by {
            assert(rest[i] == sorted[i]);
        }
        if j > 0 {
            assert(rest[j - 1] == sorted[j - 1]);
        }
        lemma_insert_group_at(rest, x, keys, j);
        assert(rest.insert(j, x).push(sorted.last()) =~= sorted.insert(j, x));
    }
}

fn copy_positions(positions: &Vec<usize>) -> (copy: Vec<usize>)
    ensures
        copy@ == positions@,
{
    let mut copy: Vec<usize> = Vec::new();
    let mut k: usize = 0;
    while k < positions.len()
        invariant
            k <= positions@.len(),
            copy@ == positions@.subrange(0, k as int),
        decreases positions@.len() - k,
    {
        copy.push(positions[k]);
        assert(copy@ =~= positions@.subrange(0, k as int + 1));
        k = k + 1;
    }
    assert(positions@.subrange(0, positions@.len() as int) =~= positions@);
    copy
}

/// The positions of the work, grouped by source: each group holds its source's positions in
/// increasing order and is named by the folders of its first item, as given; groups come in
/// the order of their sources' paths.
pub fn source_positions<T: SourceBound>(items: &Vec<T>) -> (positions: Vec<SourceGroup<usize>>)
    ensures
        exists|first: Seq<SourceGroup<usize>>|
            groups_positions(source_keys(items@), first) && #[trigger] ordered_groups(
                items@,
                first,
                positions@,
            ),
{
    let first = first_appearance_positions(items);
    let ghost keys = raw_keys(items@);
    let mut sorted: Vec<SourceGroup<usize>> = Vec::new();
    let mut g: usize = 0;
    while g < first.len()
        invariant
            g <= first@.len(),
            keys == raw_keys(items@),
            groups_positions(source_keys(items@), first@),
            group_lists(sorted@) == sort_groups(group_lists(first@).subrange(0, g as int), keys),
            forall|h: int|
                0 <= h < sorted@.len() ==> {
                    &&& #[trigger] sorted@[h].items@.len() > 0
                    &&& sorted@[h].root@ == items@[sorted@[h].items@[0] as int].source_key().0
                    &&& sorted@[h].database_root@ == items@[sorted@[h].items@[0] as int].source_key().1
                },
            forall|h: int, k: int|
                0 <= h < sorted@.len() && 0 <= k < sorted@[h].items@.len() ==> #[trigger] sorted@[h].items@[k]
                    < items@.len(),
        decreases first@.len() - g,
    {
        assert(first@[g as int].items@.len() > 0);
        assert(first@[g as int].items@[0] < items@.len());
        let lead = first[g].items[0];
        let group = SourceGroup {
            root: items[lead].root().clone(),
            database_root: items[lead].database_root().clone(),
            items: copy_positions(&first[g].items),
        };
        assert(keys[lead as int] == items@[lead as int].source_key());
        let mut j: usize = sorted.len();
        while j > 0 && source_less(
            &group.root,
            &group.database_root,
            &sorted[j - 1].root,
            &sorted[j - 1].database_root,
        )
            invariant
                j <= sorted@.len(),
                keys == raw_keys(items@),
                group.items@.len() > 0,
                group.items@[0] == lead,
                lead < items@.len(),
                group.root@ == keys[lead as int].0,
                group.database_root@ == keys[lead as int].1,
                forall|h: int|
                    0 <= h < sorted@.len() ==> {
                        &&& #[trigger] sorted@[h].items@.len() > 0
                        &&& sorted@[h].root@ == items@[sorted@[h].items@[0] as int].source_key().0
                        &&& sorted@[h].database_root@ == items@[sorted@[h].items@[0] as int].source_key().1
                    },
                forall|h: int, k: int|
                    0 <= h < sorted@.len() && 0 <= k < sorted@[h].items@.len() ==> #[trigger] sorted@[h].items@[k]
                        < items@.len(),
                forall|h: int|
                    j <= h < sorted@.len() ==> source_before(
                        keys[lead as int],
                        keys[(#[trigger] sorted@[h]).items@[0] as int],
                    ),
            decreases j,
        {
            proof {
                let h = j - 1;
                assert(sorted@[h as int].items@.len() > 0);
                assert(keys[sorted@[h as int].items@[0] as int] == items@[sorted@[h as int].items@[0] as int].source_key());
            }
            j = j - 1;
        }
        let ghost before = group_lists(sorted@);
        let ghost before_groups = sorted@;
        proof {
            let x = group.items@;
            assert forall|i: int| j <= i < before.len() implies source_before(
                keys[x[0] as int],
                keys[#[trigger] before[i][0] as int],
            ) by {
                assert(before[i] == before_groups[i].items@);
                assert(source_before(keys[lead as int], keys[before_groups[i].items@[0] as int]));
            }
            if j > 0 {
                let h = j - 1;
                assert(before[h as int] == before_groups[h as int].items@);
                assert(before_groups[h as int].items@.len() > 0);
                assert(keys[before_groups[h as int].items@[0] as int]
                    == items@[before_groups[h as int].items@[0] as int].source_key());
            }
            lemma_insert_group_at(before, x, keys, j as int);
            let prefix = group_lists(first@).subrange(0, g as int + 1);
            assert(prefix.drop_last() =~= group_lists(first@).subrange(0, g as int));
            assert(prefix.last() == x);
        }
        sorted.insert(j, group);
        proof {
            assert(group_lists(sorted@) =~= before.insert(j as int, group.items@));
            assert forall|h: int| 0 <= h < sorted@.len() implies {
                &&& #[trigger] sorted@[h].items@.len() > 0
                &&& sorted@[h].root@ == items@[sorted@[h].items@[0] as int].source_key().0
                &&& sorted@[h].database_root@ == items@[sorted@[h].items@[0] as int].source_key().1
            } by {
                if h < j {
                    assert(sorted@[h] == before_groups[h]);
                } else if h > j {
                    assert(sorted@[h] == before_groups[h - 1]);
                }
            }
            assert forall|h: int, k: int|
                0 <= h < sorted@.len() && 0 <= k < sorted@[h].items@.len() implies #[trigger] sorted@[h].items@[k]
                    < items@.len() by {
                if h < j {
                    assert(sorted@[h] == before_groups[h]);
                } else if h > j {
                    assert(sorted@[h] == before_groups[h - 1]);
                } else {
                    assert(sorted@[h].items@ == first@[g as int].items@);
                    assert(first@[g as int].items@[k] < source_keys(items@).len());
                }
            }
        }
        g = g + 1;
    }
    assert(group_lists(first@).subrange(0, first@.len() as int) =~= group_lists(first@));
    assert(ordered_groups(items@, first@, sorted@));
    sorted
}

/// Group the work by source: one group per source, holding that source's work in the order
/// given and named by the folders of its first item; groups come in the order of their
/// sources' paths.
pub fn group_by_source<T: SourceBound>(items: &Vec<T>) -> (groups: Vec<SourceGroup<T>>)
    ensures
        exists|first: Seq<SourceGroup<usize>>, positions: Seq<SourceGroup<usize>>|
            groups_positions(source_keys(items@), first) && #[trigger] ordered_groups(items@, first, positions)
                && #[trigger] groups_hold(items@, positions, groups@),
{
    let positions = source_positions(items);
    let mut groups: Vec<SourceGroup<T>> = Vec::new();
    let mut g: usize = 0;
    while g < positions.len()
        invariant
            forall|h: int, k: int|
                0 <= h < positions@.len() && 0 <= k < positions@[h].items@.len() ==> #[trigger] positions@[h].items@[k]
                    < items@.len(),
            g <= positions@.len(),
            groups@.len() == g,
            forall|f: int|
                0 <= f < g ==> {
                    &&& #[trigger] groups@[f].root == positions@[f].root
                    &&& groups@[f].database_root == positions@[f].database_root
                    &&& groups@[f].items@.len() == positions@[f].items@.len()
                    &&& forall|k: int|
                        0 <= k < groups@[f].items@.len() ==> #[trigger] groups@[f].items@[k]
                            == items@[positions@[f].items@[k] as int]
                },
        decreases positions@.len() - g,
    {
        let mut members: Vec<T> = Vec::new();
        let mut k: usize = 0;
        while k < positions[g].items.len()
            invariant
                g < positions@.len(),
                k <= positions@[g as int].items@.len(),
                forall|h: int, m: int|
                    0 <= h < positions@.len() && 0 <= m < positions@[h].items@.len() ==> #[trigger] positions@[h].items@[m]
                        < items@.len(),
                members@.len() == k,
                forall|m: int|
                    0 <= m < k ==> #[trigger] members@[m] == items@[positions@[g as int].items@[m] as int],
            decreases positions@[g as int].items@.len() - k,
        {
            let position = positions[g].items[k];
            members.push(items[position].duplicate());
            k = k + 1;
        }
        let group = SourceGroup {
            root: positions[g].root.clone(),
            database_root: positions[g].database_root.clone(),
            items: members,
        };
        let ghost new_group = group;
        let ghost before = groups@;
        groups.push(group);
        proof {
            assert(groups@[g as int] == new_group);
            assert forall|f: int| 0 <= f < g implies groups@[f] == before[f] by {}
        }
        g = g + 1;
    }
    proof {
        assert(groups@.len() == positions@.len());
        assert forall|f: int| 0 <= f < groups@.len() implies {
            &&& #[trigger] groups@[f].root == positions@[f].root
            &&& groups@[f].database_root == positions@[f].database_root
            &&& groups@[f].items@.len() == positions@[f].items@.len()
            &&& forall|k: int|
                0 <= k < groups@[f].items@.len() ==> #[trigger] groups@[f].items@[k]
                    == items@[positions@[f].items@[k] as int]
        } by {}
        assert(groups_hold(items@, positions@, groups@));
        let first = choose|first: Seq<SourceGroup<usize>>|
            groups_positions(source_keys(items@), first) && #[trigger] ordered_groups(
                items@,
                first,
                positions@,
            );
        assert(groups_positions(source_keys(items@), first) && ordered_groups(items@, first, positions@)
            && groups_hold(items@, positions@, groups@));
    }
    groups
}

/// Whether a collection membership is added or removed.
#[derive(Clone, Copy, Debug, PartialEq, Eq, Structural)]
pub enum CollectionOperation {
    Add,
    Remove,
}

/// A collection membership change of one file.
#[derive(Clone, Debug, PartialEq, Eq)]
pub struct CollectionUpdate {
    pub root: String,
    pub database_root: String,
    pub relative_path: String,
    pub absolute_path: String,
    /// The collection's slot.
    pub collection: u8,
    pub operation: CollectionOperation,
}

impl SourceBound for CollectionUpdate {
    open spec fn source_key(&self) -> (Seq<char>, Seq<char>) {
        (self.root@, self.database_root@)
    }

    fn root(&self) -> (root: &String) {
        &self.root
    }

    fn database_root(&self) -> (database_root: &String) {
        &self.database_root
    }

    fn duplicate(&self) -> (copy: Self) {
        CollectionUpdate {
            root: self.root.clone(),
            database_root: self.database_root.clone(),
            relative_path: self.relative_path.clone(),
            absolute_path: self.absolute_path.clone(),
            collection: self.collection,
            operation: self.operation,
        }
    }
}

/// A collection member whose file is missing.
#[derive(Clone, Debug, PartialEq, Eq)]
pub struct MissingCollectionFile {
    pub root: String,
    pub database_root: String,
    pub relative_path: String,
    /// The collection's slot.
    pub collection: u8,
}

impl SourceBound for MissingCollectionFile {
    open spec fn source_key(&self) -> (Seq<char>, Seq<char>) {
        (self.root@, self.database_root@)
    }

    fn root(&self) -> (root: &String) {
        &self.root
    }

    fn database_root(&self) -> (database_root: &String) {
        &self.database_root
    }

    fn duplicate(&self) -> (copy: Self) {
        MissingCollectionFile {
            root: self.root.clone(),
            database_root: self.database_root.clone(),
            relative_path: self.relative_path.clone(),
            collection: self.collection,
        }
    }
}

/// Collection updates grouped by source.
pub fn group_updates_by_source(updates: &Vec<CollectionUpdate>) -> (groups: Vec<
    SourceGroup<CollectionUpdate>,
>)
    ensures
        exists|first: Seq<SourceGroup<usize>>, positions: Seq<SourceGroup<usize>>|
            groups_positions(source_keys(updates@), first) && #[trigger] ordered_groups(updates@, first, positions)
                && #[trigger] groups_hold(updates@, positions, groups@),
{
    group_by_source(updates)
}

/// Missing collection members grouped by source.
pub fn group_missing_collection_files_by_source(files: &Vec<MissingCollectionFile>) -> (groups: Vec<
    SourceGroup<MissingCollectionFile>,
>)
    ensures
        exists|first: Seq<SourceGroup<usize>>, positions: Seq<SourceGroup<usize>>|
            groups_positions(source_keys(files@), first) && #[trigger] ordered_groups(files@, first, positions)
                && #[trigger] groups_hold(files@, positions, groups@),
{
    group_by_source(files)
}

} // verus!
