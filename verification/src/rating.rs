//! Sample ratings and the step rule of the rating keys.
//!
//! A rating is an integer from -3 (trash 3) to 3 (keep 3); 0 is neutral. One key press moves
//! the rating one step in the pressed direction, skipping neutral when the direction changes;
//! a fourth keep locks keep 3, and a fourth trash leaves trash 3 unchanged and triggers the
//! automatic move to the trash.
use vstd::prelude::*;
use crate::source_groups::{
    SourceBound, SourceGroup, group_by_source, groups_hold, groups_positions, ordered_groups,
    source_keys, source_positions,
};

verus! {

/// A rating between trash 3 (-3) and keep 3 (3).
#[derive(Clone, Copy, Debug, PartialEq, Eq, Structural)]
pub struct Rating {
    value: i8,
}

impl Rating {
    pub fn trash_3() -> (rating: Rating)
        ensures
            rating.spec_val() == -3,
    {
        Rating { value: -3 }
    }

    pub fn trash_2() -> (rating: Rating)
        ensures
            rating.spec_val() == -2,
    {
        Rating { value: -2 }
    }

    pub fn trash_1() -> (rating: Rating)
        ensures
            rating.spec_val() == -1,
    {
        Rating { value: -1 }
    }

    pub fn neutral() -> (rating: Rating)
        ensures
            rating.spec_val() == 0,
    {
        Rating { value: 0 }
    }

    pub fn keep_1() -> (rating: Rating)
        ensures
            rating.spec_val() == 1,
    {
        Rating { value: 1 }
    }

    pub fn keep_2() -> (rating: Rating)
        ensures
            rating.spec_val() == 2,
    {
        Rating { value: 2 }
    }

    pub fn keep_3() -> (rating: Rating)
        ensures
            rating.spec_val() == 3,
    {
        Rating { value: 3 }
    }

    /// The rating's value.
    pub closed spec fn spec_val(self) -> i8 {
        self.value
    }

    #[verifier::type_invariant]
    closed spec fn in_range(self) -> bool {
        -3 <= self.value <= 3
    }

    /// The rating with the given value.
    pub fn new(value: i8) -> (rating: Rating)
        requires
            -3 <= value <= 3,
        ensures
            rating.spec_val() == value,
    {
        Rating { value }
    }

    /// The rating's value.
    #[verifier::when_used_as_spec(spec_val)]
    pub fn val(self) -> (value: i8)
        ensures
            value == self.spec_val(),
            -3 <= value <= 3,
    {
        proof {
            use_type_invariant(self);
        }
        self.value
    }
}

/// The sign of a key press.
pub open spec fn step_sign(delta: i8) -> int {
    if delta > 0 {
        1
    } else if delta < 0 {
        -1
    } else {
        0
    }
}

pub open spec fn clamp_rating(value: int) -> int {
    if value < -3 {
        -3
    } else if value > 3 {
        3
    } else {
        value
    }
}

/// The value one key press moves `current` to: one step in the pressed direction, and one more
/// step when that would land on neutral from a non-neutral rating; never beyond -3 or 3.
pub open spec fn stepped_value(current: int, delta: i8) -> int {
    let first = current + step_sign(delta);
    let second = if current != 0 && first == 0 {
        first + step_sign(delta)
    } else {
        first
    };
    clamp_rating(second)
}

/// The step rule: `Some((rating, locked))` is the new rating and whether keep 3 gets locked;
/// `None` means the press changes nothing.
pub open spec fn next_rating_model(current: int, delta: i8) -> Option<(int, bool)> {
    if current == 3 && delta > 0 {
        Some((3, true))
    } else if current == -3 && delta < 0 {
        None
    } else if stepped_value(current, delta) == current {
        None
    } else {
        Some((stepped_value(current, delta), false))
    }
}

/// A key press moves a rating by exactly one step in the pressed direction, and by one more
/// only where that step would land on neutral from a non-neutral rating. A keep press on keep 3
/// keeps it and locks it; a trash press on trash 3 changes nothing; every other press changes
/// the rating, to a rating in range, without locking.
pub proof fn lemma_press_moves_one_step(current: int, delta: i8)
    requires
        -3 <= current <= 3,
        delta != 0,
    ensures
        next_rating_model(current, delta) is None <==> (current == -3 && delta < 0),
        current == 3 && delta > 0 ==> next_rating_model(current, delta) == Some((3int, true)),
        next_rating_model(current, delta) is Some && !(current == 3 && delta > 0) ==> {
            let (value, locked) = next_rating_model(current, delta)->0;
            &&& !locked
            &&& -3 <= value <= 3
            &&& value != 0 || current == 0
            &&& if current != 0 && current + step_sign(delta) == 0 {
                value - current == 2 * step_sign(delta)
            } else {
                value - current == step_sign(delta)
            }
        },
{
}

/// The rating one key press of `delta` leads to, and whether keep 3 gets locked.
pub fn next_rating_state(current: Rating, delta: i8) -> (next: Option<(Rating, bool)>)
    ensures
        match next {
            Some((rating, locked)) => next_rating_model(current.spec_val() as int, delta) == Some(
                (rating.spec_val() as int, locked),
            ),
            None => next_rating_model(current.spec_val() as int, delta) is None,
        },
{
    let value = current.val();
    if value == 3 && delta > 0 {
        return Some((Rating::keep_3(), true));
    }
    if value == -3 && delta < 0 {
        return None;
    }
    let sign: i8 = if delta > 0 {
        1
    } else if delta < 0 {
        -1
    } else {
        0
    };
    let mut new_value: i8 = value + sign;
    if value != 0 && new_value == 0 {
        new_value = new_value + sign;
    }
    let clamped: i8 = if new_value < -3 {
        -3
    } else if new_value > 3 {
        3
    } else {
        new_value
    };
    let rating = Rating::new(clamped);
    if rating.val() != value {
        Some((rating, false))
    } else {
        None
    }
}

/// A fourth trash press on trash 3 sends the sample to the trash.
pub fn should_auto_trash_on_rating(current: Rating, delta: i8) -> (trash: bool)
    ensures
        trash == (current.spec_val() == -3 && delta < 0),
{
    current.val() == -3 && delta < 0
}

/// Direction word used in rating status messages.
pub fn direction_label(delta: i8) -> (label: &'static str)
    ensures
        delta < 0 ==> label@ == "down"@,
        delta >= 0 ==> label@ == "up"@,
{
    if delta < 0 {
        "down"
    } else {
        "up"
    }
}

/// A press never leaves the rating range, never lands on neutral from a rated sample, and
/// moves in the pressed direction.
pub proof fn lemma_rating_step_is_monotone(current: int, delta: i8)
    requires
        -3 <= current <= 3,
    ensures
        match next_rating_model(current, delta) {
            Some((value, locked)) => {
                &&& -3 <= value <= 3
                &&& (current != 0 ==> value != 0)
                &&& (delta > 0 ==> value >= current)
                &&& (delta < 0 ==> value < current)
                &&& (locked <==> (current == 3 && delta > 0))
            },
            None => delta == 0 || (current == -3 && delta < 0),
        },
{
}

/// Where a rated file lives: its source, the source's lifecycle generation when known, and
/// the folders and path the source database knows the file by.
#[derive(Clone, Debug, PartialEq, Eq)]
pub struct RatingLocation {
    pub source_id: String,
    pub lifecycle_generation: Option<u64>,
    pub root: String,
    pub database_root: String,
    pub relative_path: String,
}

/// A file the rating keys apply to, with its current rating and lock; `location` is `None`
/// when the file belongs to no known source.
#[derive(Clone, Debug, PartialEq, Eq)]
pub struct RatingCandidate {
    pub path: String,
    pub rating: Rating,
    pub locked: bool,
    pub location: Option<RatingLocation>,
}

/// One rating change, with the state it replaces.
#[derive(Clone, Debug, PartialEq, Eq)]
pub struct RatingUpdate {
    pub source_id: String,
    pub lifecycle_generation: Option<u64>,
    pub root: String,
    pub database_root: String,
    pub relative_path: String,
    pub absolute_path: String,
    pub previous_rating: Rating,
    pub previous_locked: bool,
    pub rating: Rating,
    pub locked: bool,
}

pub struct RatingUpdateModel {
    pub source_id: Seq<char>,
    pub lifecycle_generation: Option<u64>,
    pub root: Seq<char>,
    pub database_root: Seq<char>,
    pub relative_path: Seq<char>,
    pub absolute_path: Seq<char>,
    pub previous_rating: int,
    pub previous_locked: bool,
    pub rating: int,
    pub locked: bool,
}

impl View for RatingUpdate {
    type V = RatingUpdateModel;

    open spec fn view(&self) -> RatingUpdateModel {
        RatingUpdateModel {
            source_id: self.source_id@,
            lifecycle_generation: self.lifecycle_generation,
            root: self.root@,
            database_root: self.database_root@,
            relative_path: self.relative_path@,
            absolute_path: self.absolute_path@,
            previous_rating: self.previous_rating.spec_val() as int,
            previous_locked: self.previous_locked,
            rating: self.rating.spec_val() as int,
            locked: self.locked,
        }
    }
}

/// The changes a press plans, and those of them that also send the file to the trash.
pub struct RatingAdjustmentPlan {
    pub updates: Vec<RatingUpdate>,
    pub auto_trash_updates: Vec<RatingUpdate>,
}

pub open spec fn update_views(updates: Seq<RatingUpdate>) -> Seq<RatingUpdateModel> {
    updates.map_values(|update: RatingUpdate| update@)
}

/// The press sends the candidate to the trash (when that rule applies to the press).
pub open spec fn sends_to_trash(candidate: RatingCandidate, delta: i8, trash_rule: bool) -> bool {
    trash_rule && candidate.rating.spec_val() == -3 && delta < 0
}

/// The change a press of `delta` plans for one candidate: none for a locked file, a file of no
/// known source, or a press that changes nothing. Under the trash rule a trash press on
/// trash 3 plans the unchanged rating (the file goes to the trash instead).
pub open spec fn planned_update(candidate: RatingCandidate, delta: i8, trash_rule: bool) -> Option<
    RatingUpdateModel,
> {
    if candidate.locked || candidate.location is None {
        None
    } else {
        let location = candidate.location->0;
        let current = candidate.rating.spec_val() as int;
        let next = if sends_to_trash(candidate, delta, trash_rule) {
            Some((current, candidate.locked))
        } else {
            next_rating_model(current, delta)
        };
        match next {
            None => None,
            Some((rating, locked)) => Some(
                RatingUpdateModel {
                    source_id: location.source_id@,
                    lifecycle_generation: location.lifecycle_generation,
                    root: location.root@,
                    database_root: location.database_root@,
                    relative_path: location.relative_path@,
                    absolute_path: candidate.path@,
                    previous_rating: current,
                    previous_locked: candidate.locked,
                    rating,
                    locked,
                },
            ),
        }
    }
}

/// The planned changes of all candidates, in order (none for a press of 0), and those among
/// them that send their file to the trash.
pub open spec fn planned_updates(candidates: Seq<RatingCandidate>, delta: i8, trash_rule: bool) -> (
    Seq<RatingUpdateModel>,
    Seq<RatingUpdateModel>,
)
    decreases candidates.len(),
{
    if delta == 0 || candidates.len() == 0 {
        (Seq::empty(), Seq::empty())
    } else {
        let earlier = planned_updates(candidates.drop_last(), delta, trash_rule);
        let candidate = candidates.last();
        match planned_update(candidate, delta, trash_rule) {
            None => earlier,
            Some(update) => (
                earlier.0.push(update),
                if sends_to_trash(candidate, delta, trash_rule) {
                    earlier.1.push(update)
                } else {
                    earlier.1
                },
            ),
        }
    }
}

fn copy_update(update: &RatingUpdate) -> (copy: RatingUpdate)
    ensures
        copy@ == update@,
{
    RatingUpdate {
        source_id: update.source_id.clone(),
        lifecycle_generation: update.lifecycle_generation,
        root: update.root.clone(),
        database_root: update.database_root.clone(),
        relative_path: update.relative_path.clone(),
        absolute_path: update.absolute_path.clone(),
        previous_rating: update.previous_rating,
        previous_locked: update.previous_locked,
        rating: update.rating,
        locked: update.locked,
    }
}

fn plan_updates(candidates: &Vec<RatingCandidate>, delta: i8, trash_rule: bool) -> (plan:
    RatingAdjustmentPlan)
    ensures
        (update_views(plan.updates@), update_views(plan.auto_trash_updates@)) == planned_updates(
            candidates@,
            delta,
            trash_rule,
        ),
{
    let mut plan = RatingAdjustmentPlan { updates: Vec::new(), auto_trash_updates: Vec::new() };
    if delta == 0 {
        return plan;
    }
    let mut i: usize = 0;
    while i < candidates.len()
        invariant
            delta != 0,
            i <= candidates@.len(),
            (update_views(plan.updates@), update_views(plan.auto_trash_updates@)) == planned_updates(
                candidates@.subrange(0, i as int),
                delta,
                trash_rule,
            ),
        decreases candidates@.len() - i,
    {
        let candidate = &candidates[i];
        proof {
            let upto = candidates@.subrange(0, i + 1);
            assert(upto.drop_last() =~= candidates@.subrange(0, i as int));
            assert(upto.last() == candidates@[i as int]);
        }
        let ghost before = (plan.updates@, plan.auto_trash_updates@);
        if !candidate.locked {
            if let Some(location) = &candidate.location {
                let trash = trash_rule && should_auto_trash_on_rating(candidate.rating, delta);
                let next = if trash {
                    Some((candidate.rating, candidate.locked))
                } else {
                    next_rating_state(candidate.rating, delta)
                };
                if let Some((rating, locked)) = next {
                    let update = RatingUpdate {
                        source_id: location.source_id.clone(),
                        lifecycle_generation: location.lifecycle_generation,
                        root: location.root.clone(),
                        database_root: location.database_root.clone(),
                        relative_path: location.relative_path.clone(),
                        absolute_path: candidate.path.clone(),
                        previous_rating: candidate.rating,
                        previous_locked: candidate.locked,
                        rating,
                        locked,
                    };
                    if trash {
                        plan.auto_trash_updates.push(copy_update(&update));
                        assert(update_views(plan.auto_trash_updates@) =~= update_views(before.1).push(
                            update@,
                        ));
                    }
                    plan.updates.push(update);
                    assert(update_views(plan.updates@) =~= update_views(before.0).push(update@));
                }
            }
        }
        i = i + 1;
    }
    proof {
        assert(candidates@.subrange(0, candidates@.len() as int) =~= candidates@);
    }
    plan
}

/// The changes a press of `delta` plans for the selected files: locked files and files of no
/// known source are left alone, a trash press on trash 3 keeps the rating and also sends the
/// file to the trash, and every other press follows [`next_rating_model`].
pub fn rating_adjustment_plan_for_selected_files(candidates: &Vec<RatingCandidate>, delta: i8) -> (plan:
    RatingAdjustmentPlan)
    ensures
        (update_views(plan.updates@), update_views(plan.auto_trash_updates@)) == planned_updates(
            candidates@,
            delta,
            true,
        ),
{
    plan_updates(candidates, delta, true)
}

/// The changes a press of `delta` plans for the files at the given rows (looked up from
/// [`unique_rating_paths`]): locked files and files of no known source are left alone and
/// every other press follows [`next_rating_model`]; nothing goes to the trash.
pub fn rating_adjustment_plan_for_rows(rows: &Vec<RatingCandidate>, delta: i8) -> (plan:
    RatingAdjustmentPlan)
    ensures
        (update_views(plan.updates@), update_views(plan.auto_trash_updates@)) == planned_updates(
            rows@,
            delta,
            false,
        ),
        plan.auto_trash_updates@.len() == 0,
{
    let plan = plan_updates(rows, delta, false);
    proof {
        lemma_no_trash_without_rule(rows@, delta);
    }
    plan
}

proof fn lemma_no_trash_without_rule(candidates: Seq<RatingCandidate>, delta: i8)
    ensures
        planned_updates(candidates, delta, false).1.len() == 0,
    decreases candidates.len(),
{
    if candidates.len() > 0 {
        lemma_no_trash_without_rule(candidates.drop_last(), delta);
    }
}

/// `Path::components` collected back into a path: the path with repeated separators and `.`
/// components removed.
pub uninterp spec fn path_normal_form(path: Seq<char>) -> Seq<char>;

/// `Path::components().collect::<PathBuf>()`, displayed; the contract names the result and
/// says nothing more of it.
#[verifier::external_body]
pub(crate) fn normalized_rating_path(path: &String) -> (normalized: String)
    ensures
        normalized@ == path_normal_form(path@),
{
    std::path::Path::new(path).components().collect::<std::path::PathBuf>().display().to_string()
}

pub open spec fn normal_forms(paths: Seq<String>) -> Seq<Seq<char>> {
    paths.map_values(|path: String| path_normal_form(path@))
}

/// `paths` without repeats, each where it first occurs.
pub open spec fn first_paths(paths: Seq<Seq<char>>) -> Seq<Seq<char>>
    decreases paths.len(),
{
    if paths.len() == 0 {
        Seq::empty()
    } else {
        let earlier = first_paths(paths.drop_last());
        if earlier.contains(paths.last()) {
            earlier
        } else {
            earlier.push(paths.last())
        }
    }
}

fn contains_path(paths: &Vec<String>, path: &String) -> (found: bool)
    ensures
        found == paths@.map_values(|p: String| p@).contains(path@),
{
    let mut i: usize = 0;
    while i < paths.len()
        invariant
            i <= paths@.len(),
            forall|k: int| 0 <= k < i ==> paths@[k]@ != path@,
        decreases paths@.len() - i,
    {
        if paths[i] == *path {
            assert(paths@.map_values(|p: String| p@)[i as int] == path@);
            return true;
        }
        i = i + 1;
    }
    proof {
        let texts = paths@.map_values(|p: String| p@);
        if texts.contains(path@) {
            let k = texts.index_of(path@);
            assert(paths@[k]@ == path@);
        }
    }
    false
}

/// The paths a press on the given rows applies to: each path in its normal form, once, where
/// it first occurs.
pub fn unique_rating_paths(paths: &Vec<String>) -> (unique: Vec<String>)
    ensures
        unique@.map_values(|p: String| p@) == first_paths(normal_forms(paths@)),
{
    let mut unique: Vec<String> = Vec::new();
    let mut i: usize = 0;
    while i < paths.len()
        invariant
            i <= paths@.len(),
            unique@.map_values(|p: String| p@) == first_paths(normal_forms(paths@.subrange(0, i as int))),
        decreases paths@.len() - i,
    {
        let normalized = normalized_rating_path(&paths[i]);
        proof {
            let upto = normal_forms(paths@.subrange(0, i + 1));
            assert(upto.drop_last() =~= normal_forms(paths@.subrange(0, i as int)));
            assert(upto.last() == normalized@);
        }
        if !contains_path(&unique, &normalized) {
            let ghost before = unique@;
            unique.push(normalized);
            assert(unique@.map_values(|p: String| p@) =~= before.map_values(|p: String| p@).push(
                unique@.last()@,
            ));
        }
        i = i + 1;
    }
    proof {
        assert(paths@.subrange(0, paths@.len() as int) =~= paths@);
    }
    unique
}

/// Which side of a rating change to apply: the state before it (undo) or after it.
#[derive(Clone, Copy, Debug, PartialEq, Eq, Structural)]
pub enum RatingUpdateMode {
    Before,
    After,
}

/// A rating to write to a source database.
#[derive(Clone, Debug, PartialEq, Eq)]
pub struct RatingPersistRequest {
    pub source_id: String,
    pub lifecycle_generation: Option<u64>,
    pub root: String,
    pub database_root: String,
    pub relative_path: String,
    pub absolute_path: String,
    pub rating: Rating,
    pub locked: bool,
}

impl RatingUpdate {
    /// The change as applied in `mode`: before a change its rating and lock are the previous
    /// ones.
    pub fn for_mode(self, mode: RatingUpdateMode) -> (update: Self)
        ensures
            mode == RatingUpdateMode::After ==> update@ == self@,
            mode == RatingUpdateMode::Before ==> update@ == (RatingUpdateModel {
                rating: self@.previous_rating,
                locked: self@.previous_locked,
                ..self@
            }),
    {
        let mut update = self;
        if mode == RatingUpdateMode::Before {
            update.rating = update.previous_rating;
            update.locked = update.previous_locked;
        }
        update
    }

    /// The write this change asks for.
    pub fn persist_request(&self) -> (request: RatingPersistRequest)
        ensures
            request.source_id@ == self.source_id@,
            request.lifecycle_generation == self.lifecycle_generation,
            request.root@ == self.root@,
            request.database_root@ == self.database_root@,
            request.relative_path@ == self.relative_path@,
            request.absolute_path@ == self.absolute_path@,
            request.rating == self.rating,
            request.locked == self.locked,
    {
        RatingPersistRequest {
            source_id: self.source_id.clone(),
            lifecycle_generation: self.lifecycle_generation,
            root: self.root.clone(),
            database_root: self.database_root.clone(),
            relative_path: self.relative_path.clone(),
            absolute_path: self.absolute_path.clone(),
            rating: self.rating,
            locked: self.locked,
        }
    }
}

impl SourceBound for RatingUpdate {
    open spec fn source_key(&self) -> (Seq<char>, Seq<char>) {
        (self.root@, self.database_root@)
    }

    fn root(&self) -> (root: &String) {
        &self.root
    }

    fn database_root(&self) -> (database_root: &String) {
        &self.database_root
    }

    fn duplicate(&self) -> (copy: Self) {
        RatingUpdate {
            source_id: self.source_id.clone(),
            lifecycle_generation: self.lifecycle_generation,
            root: self.root.clone(),
            database_root: self.database_root.clone(),
            relative_path: self.relative_path.clone(),
            absolute_path: self.absolute_path.clone(),
            previous_rating: self.previous_rating,
            previous_locked: self.previous_locked,
            rating: self.rating,
            locked: self.locked,
        }
    }
}

impl SourceBound for RatingPersistRequest {
    open spec fn source_key(&self) -> (Seq<char>, Seq<char>) {
        (self.root@, self.database_root@)
    }

    fn root(&self) -> (root: &String) {
        &self.root
    }

    fn database_root(&self) -> (database_root: &String) {
        &self.database_root
    }

    fn duplicate(&self) -> (copy: Self) {
        RatingPersistRequest {
            source_id: self.source_id.clone(),
            lifecycle_generation: self.lifecycle_generation,
            root: self.root.clone(),
            database_root: self.database_root.clone(),
            relative_path: self.relative_path.clone(),
            absolute_path: self.absolute_path.clone(),
            rating: self.rating,
            locked: self.locked,
        }
    }
}

/// Rating changes grouped by source, each source's changes in the order given.
pub fn group_updates_by_source(updates: &Vec<RatingUpdate>) -> (groups: Vec<SourceGroup<RatingUpdate>>)
    ensures
        exists|first: Seq<SourceGroup<usize>>, positions: Seq<SourceGroup<usize>>|
            groups_positions(source_keys(updates@), first) && #[trigger] ordered_groups(updates@, first, positions)
                && #[trigger] groups_hold(updates@, positions, groups@),
{
    group_by_source(updates)
}

/// The positions of rating writes grouped by source database: each group is written in one
/// batch.
pub fn rating_request_groups(requests: &Vec<RatingPersistRequest>) -> (groups: Vec<SourceGroup<usize>>)
    ensures
        exists|first: Seq<SourceGroup<usize>>|
            groups_positions(source_keys(requests@), first) && #[trigger] ordered_groups(
                requests@,
                first,
                groups@,
            ),
{
    source_positions(requests)
}

/// Some entry of `written` is `position`.
pub open spec fn writes_position(written: Seq<usize>, position: int) -> bool {
    exists|k: int| 0 <= k < written.len() && written[k] == position
}

/// Record the outcome of one source's batch for every request it wrote.
pub fn record_batch_result(
    results: &mut Vec<Option<Result<(), String>>>,
    written: &Vec<usize>,
    result: &Result<(), String>,
)
    requires
        forall|k: int| 0 <= k < written@.len() ==> #[trigger] written@[k] < old(results)@.len(),
    ensures
        final(results)@.len() == old(results)@.len(),
        forall|i: int|
            0 <= i < old(results)@.len() ==> #[trigger] final(results)@[i] == if writes_position(
                written@,
                i,
            ) {
                Some(*result)
            } else {
                old(results)@[i]
            },
{
    let mut k: usize = 0;
    while k < written.len()
        invariant
            k <= written@.len(),
            forall|m: int| 0 <= m < written@.len() ==> #[trigger] written@[m] < old(results)@.len(),
            results@.len() == old(results)@.len(),
            forall|i: int|
                0 <= i < old(results)@.len() ==> #[trigger] results@[i] == if writes_position(
                    written@.subrange(0, k as int),
                    i,
                ) {
                    Some(*result)
                } else {
                    old(results)@[i]
                },
        decreases written@.len() - k,
    {
        let index = written[k];
        let copy: Result<(), String> = match result {
            Ok(unit) => {
                let copied: Result<(), String> = Ok(*unit);
                assert(copied == *result);
                copied
            },
            Err(message) => {
                let text = message.clone();
                Err(text)
            },
        };
        assert(copy == *result);
        let ghost before_results = results@;
        results.set(index, Some(copy));
        proof {
            let before = written@.subrange(0, k as int);
            let after = written@.subrange(0, k + 1);
            assert(after =~= before.push(index));
            assert forall|i: int| 0 <= i < old(results)@.len() implies #[trigger] results@[i]
                == if writes_position(after, i) {
                Some(*result)
            } else {
                old(results)@[i]
            } by {
                if writes_position(before, i) {
                    let j = choose|j: int| 0 <= j < before.len() && before[j] == i;
                    assert(after[j] == i);
                }
                if i == index {
                    assert(after[k as int] == i);
                } else {
                    assert(results@[i] == before_results[i]);
                    if writes_position(after, i) {
                        let j = choose|j: int| 0 <= j < after.len() && after[j] == i;
                        assert(before[j] == i);
                    }
                }
            }
        }
        k = k + 1;
    }
    proof {
        assert(written@.subrange(0, written@.len() as int) =~= written@);
    }
}


/// Why a sample cannot be unlocked.
#[derive(Clone, Copy, Debug, PartialEq, Eq, Structural)]
pub enum UnlockRefusal {
    /// No loaded row holds the sample.
    SampleUnavailable,
    /// The sample is not locked at the top keep rating.
    NotLocked,
    /// The sample's source database or source is unknown.
    SourceUnavailable,
}

/// The unlock of the sample whose loaded row is `row`: only a sample locked at keep 3 may be
/// unlocked, and the update keeps its rating and only drops the lock.
pub open spec fn unlock_spec(row: Option<RatingCandidate>) -> Result<RatingUpdateModel, UnlockRefusal> {
    match row {
        None => Err(UnlockRefusal::SampleUnavailable),
        Some(row) => if row.rating.spec_val() != 3 || !row.locked {
            Err(UnlockRefusal::NotLocked)
        } else {
            match row.location {
                None => Err(UnlockRefusal::SourceUnavailable),
                Some(location) => Ok(
                    RatingUpdateModel {
                        source_id: location.source_id@,
                        lifecycle_generation: location.lifecycle_generation,
                        root: location.root@,
                        database_root: location.database_root@,
                        relative_path: location.relative_path@,
                        absolute_path: row.path@,
                        previous_rating: 3,
                        previous_locked: true,
                        rating: 3,
                        locked: false,
                    },
                ),
            }
        },
    }
}

/// Decide the unlock of a sample from its loaded row (with the row's path as loaded, and its
/// location when both its source database path and its source are known).
pub fn unlock_decision(row: Option<RatingCandidate>) -> (decision: Result<RatingUpdate, UnlockRefusal>)
    ensures
        match (decision, unlock_spec(row)) {
            (Ok(update), Ok(model)) => update@ == model,
            (Err(refusal), Err(expected)) => refusal == expected,
            _ => false,
        },
{
    match row {
        None => Err(UnlockRefusal::SampleUnavailable),
        Some(row) => {
            if row.rating.val() != 3 || !row.locked {
                return Err(UnlockRefusal::NotLocked);
            }
            match row.location {
                None => Err(UnlockRefusal::SourceUnavailable),
                Some(location) => Ok(
                    RatingUpdate {
                        source_id: location.source_id,
                        lifecycle_generation: location.lifecycle_generation,
                        root: location.root,
                        database_root: location.database_root,
                        relative_path: location.relative_path,
                        absolute_path: row.path,
                        previous_rating: row.rating,
                        previous_locked: row.locked,
                        rating: row.rating,
                        locked: false,
                    },
                ),
            }
        },
    }
}

} // verus!
