//! Decisions about the watcher's admission lanes, one per source, taken over what the
//! admission owner reports of a lane: whether it is capturing or stopped, the root identity it
//! is bound to, and its owner generation.
use vstd::prelude::*;
use crate::audit_queue::{is_configured, text_views, AuditRequestIdentity};
use crate::text_order::{sorted_texts, text_order};

verus! {

/// What the admission owner reports of one source's lane.
#[derive(Clone, Debug)]
pub struct LaneSnapshot {
    pub capturing: bool,
    pub stopped: bool,
    pub root_identity: String,
    pub generation: u64,
}

/// What reconciling a configured source with a watched root does to its lane.
#[derive(Clone, Copy, Debug, PartialEq, Eq, Structural)]
pub enum SourceLaneAction {
    /// Begin a lane bound to the root.
    Begin,
    /// Rebind the lane to the new root, then begin it.
    RebindAndBegin,
    /// The lane already captures this root.
    Keep,
}

/// The action for a source whose watched root has `root_identity`.
pub open spec fn source_lane_action_spec(lane: Option<LaneSnapshot>, root_identity: Seq<char>) -> SourceLaneAction {
    match lane {
        None => SourceLaneAction::Begin,
        Some(lane) => if lane.root_identity@ != root_identity {
            SourceLaneAction::RebindAndBegin
        } else if lane.capturing {
            SourceLaneAction::Keep
        } else {
            SourceLaneAction::Begin
        },
    }
}

/// A lane bound to a root other than the watched one is always rebound before it begins,
/// whether it was capturing or stopped; a lane on the watched root is kept exactly when it is
/// capturing and begun again otherwise; a source without a lane begins one.
pub proof fn lemma_lane_follows_the_watched_root(lane: LaneSnapshot, root_identity: Seq<char>)
    ensures
        source_lane_action_spec(None, root_identity) == SourceLaneAction::Begin,
        lane.root_identity@ != root_identity ==> source_lane_action_spec(Some(lane), root_identity)
            == SourceLaneAction::RebindAndBegin,
        source_lane_action_spec(Some(lane), root_identity) == SourceLaneAction::RebindAndBegin
            ==> lane.root_identity@ != root_identity,
        lane.root_identity@ == root_identity ==> (source_lane_action_spec(Some(lane), root_identity)
            == SourceLaneAction::Keep <==> lane.capturing),
{
}

/// Decide how to reconcile a source's lane with the identity of its watched root: a source with
/// no lane begins one, a lane bound to another root is rebound and begun, a capturing lane on
/// the same root is kept, and any other lane on the same root begins again.
pub fn source_lane_action(lane: Option<&LaneSnapshot>, root_identity: &String) -> (action:
    SourceLaneAction)
    ensures
        action == source_lane_action_spec(
            match lane {
                Some(lane) => Some(*lane),
                None => None,
            },
            root_identity@,
        ),
{
    match lane {
        None => SourceLaneAction::Begin,
        Some(lane) => {
            if lane.root_identity != *root_identity {
                SourceLaneAction::RebindAndBegin
            } else if lane.capturing {
                SourceLaneAction::Keep
            } else {
                SourceLaneAction::Begin
            }
        },
    }
}

/// Whether a source's lane has to be stopped: it exists and is not stopped yet.
pub fn lane_needs_stop(lane: Option<&LaneSnapshot>) -> (stop: bool)
    ensures
        stop == (lane is Some && !lane->0.stopped),
{
    match lane {
        None => false,
        Some(lane) => !lane.stopped,
    }
}

/// Whether a source-local fence applies: the lane still captures the root and generation that
/// requested it. A stale request leaves a newer lane of the same source alone.
pub fn fence_applies(lane: Option<&LaneSnapshot>, root_identity: &String, generation: u64) -> (applies:
    bool)
    ensures
        applies == (lane is Some && lane->0.capturing && lane->0.root_identity@ == root_identity@
            && lane->0.generation == generation),
{
    match lane {
        None => false,
        Some(lane) => lane.capturing && lane.root_identity == *root_identity && lane.generation
            == generation,
    }
}

/// Whether a queued audit request may still be transported: admission is open and the source's
/// lane captures exactly the request's root and generation.
pub fn request_matches_current_capturing_lane(
    admission_closed: bool,
    lane: Option<&LaneSnapshot>,
    request: &AuditRequestIdentity,
) -> (matches: bool)
    ensures
        matches == (!admission_closed && lane is Some && lane->0.capturing
            && lane->0.root_identity@ == request.root_identity@ && lane->0.generation
            == request.generation),
{
    if admission_closed {
        return false;
    }
    match lane {
        None => false,
        Some(lane) => lane.capturing && lane.root_identity == request.root_identity
            && lane.generation == request.generation,
    }
}

/// Whether admission reopens after fencing every registered lane, given whether each stop (in
/// ascending order of source id, every lane attempted even after a failure) succeeded: only when
/// every registered lane was proven stopped. Otherwise admission stays closed and a later
/// lifecycle boundary fences again.
pub fn fence_all_reopens(stopped: &Vec<bool>) -> (reopened: bool)
    ensures
        reopened == (forall|i: int| 0 <= i < stopped@.len() ==> #[trigger] stopped@[i]),
{
    let mut i: usize = 0;
    while i < stopped.len()
        invariant
            i <= stopped@.len(),
            forall|k: int| 0 <= k < i ==> #[trigger] stopped@[k],
        decreases stopped@.len() - i,
    {
        if !stopped[i] {
            return false;
        }
        i = i + 1;
    }
    true
}

/// The lane a live capture binds to: none while admission is closed.
pub fn lane_for_capture(admission_closed: bool, lane: Option<LaneSnapshot>) -> (bound: Option<
    LaneSnapshot,
>)
    ensures
        bound == (if admission_closed {
            None
        } else {
            lane
        }),
{
    if admission_closed {
        None
    } else {
        lane
    }
}

/// The first event a replay covers: the one after its start, when that is not past its end.
pub open spec fn replay_first_sequence(start_event_id: u64, end_event_id: u64) -> Option<u64> {
    if start_event_id < u64::MAX && start_event_id + 1 <= end_event_id {
        Some((start_event_id + 1) as u64)
    } else {
        None
    }
}

/// How a replay of the event history is bound to its capture.
#[derive(Clone, Copy, Debug, PartialEq, Eq, Structural)]
pub struct ReplayBinding {
    /// The first event the replay covers, if it covers any.
    pub first_sequence: Option<u64>,
    /// Whether the replay may use the durable checkpoint as its continuity prior.
    pub authority_eligible: bool,
}

/// Bind a replay: it covers the events after its start up to its end, and it may use durable
/// authority only when both the replay worker's and the active stream generation are set and
/// equal, the backend stream is known, and the replay covers at least one event.
pub fn replay_binding(
    start_event_id: u64,
    end_event_id: u64,
    replay_stream_generation: u64,
    active_replay_stream_generation: u64,
    stream_identity_known: bool,
) -> (binding: ReplayBinding)
    ensures
        binding.first_sequence == replay_first_sequence(start_event_id, end_event_id),
        binding.authority_eligible == (active_replay_stream_generation != 0
            && replay_stream_generation != 0 && replay_stream_generation
            == active_replay_stream_generation && stream_identity_known
            && replay_first_sequence(start_event_id, end_event_id) is Some),
{
    let first_sequence = match start_event_id.checked_add(1) {
        Some(first) => if first <= end_event_id {
            Some(first)
        } else {
            None
        },
        None => None,
    };
    let authority_eligible = active_replay_stream_generation != 0 && replay_stream_generation != 0
        && replay_stream_generation == active_replay_stream_generation && stream_identity_known
        && first_sequence.is_some();
    ReplayBinding { first_sequence, authority_eligible }
}

/// A configured source and the identity of its watched root, when the watcher registered one.
#[derive(Clone, Debug)]
pub struct ConfiguredLane {
    pub source_id: String,
    pub root_identity: Option<String>,
}

/// One step of reconciling the lanes with the configured sources.
#[derive(Clone, Debug, PartialEq, Eq)]
pub enum LaneStep {
    /// Fence every registered lane first: admission was left closed.
    FenceAll,
    /// The source is no longer configured: stop its lane if needed, then remove it.
    StopAndRemove(String),
    /// The source's root has no registered identity: stop its lane if needed.
    Stop(String),
    /// Reconcile the source's lane with the identity of its watched root.
    Reconcile { source_id: String, root_identity: String },
}

/// Mathematical value of a [`LaneStep`].
pub enum LaneStepModel {
    FenceAll,
    StopAndRemove(Seq<char>),
    Stop(Seq<char>),
    Reconcile(Seq<char>, Seq<char>),
}

impl View for LaneStep {
    type V = LaneStepModel;

    open spec fn view(&self) -> LaneStepModel {
        match self {
            LaneStep::FenceAll => LaneStepModel::FenceAll,
            LaneStep::StopAndRemove(id) => LaneStepModel::StopAndRemove(id@),
            LaneStep::Stop(id) => LaneStepModel::Stop(id@),
            LaneStep::Reconcile { source_id, root_identity } => LaneStepModel::Reconcile(
                source_id@,
                root_identity@,
            ),
        }
    }
}

/// The models of a list of steps.
pub open spec fn step_views(steps: Seq<LaneStep>) -> Seq<LaneStepModel> {
    steps.map_values(|step: LaneStep| step@)
}

/// The source ids of configured lanes.
pub open spec fn lane_ids(lanes: Seq<ConfiguredLane>) -> Seq<Seq<char>> {
    lanes.map_values(|lane: ConfiguredLane| lane.source_id@)
}

/// The step for one configured source.
pub open spec fn source_step(lane: ConfiguredLane) -> LaneStepModel {
    match lane.root_identity {
        None => LaneStepModel::Stop(lane.source_id@),
        Some(root_identity) => LaneStepModel::Reconcile(lane.source_id@, root_identity@),
    }
}

/// Removal steps for the registered ids, taken in order, that no configured source has.
pub open spec fn removal_steps(registered: Seq<Seq<char>>, configured: Seq<Seq<char>>) -> Seq<
    LaneStepModel,
>
    decreases registered.len(),
{
    if registered.len() == 0 {
        Seq::empty()
    } else {
        let rest = removal_steps(registered.drop_last(), configured);
        if configured.contains(registered.last()) {
            rest
        } else {
            rest.push(LaneStepModel::StopAndRemove(registered.last()))
        }
    }
}

/// The plan: fence first when admission is closed, then remove the registered lanes of sources
/// that are no longer configured in ascending order of their ids, then reconcile (or stop) each
/// configured source in its order.
pub open spec fn reconcile_plan_spec(
    admission_closed: bool,
    registered: Seq<Seq<char>>,
    lanes: Seq<ConfiguredLane>,
) -> Seq<LaneStepModel> {
    let fence = if admission_closed {
        seq![LaneStepModel::FenceAll]
    } else {
        Seq::empty()
    };
    fence + removal_steps(registered.sort_by(text_order()), lane_ids(lanes)) + lanes.map_values(
        |lane: ConfiguredLane| source_step(lane),
    )
}

/// The step removes a registered lane whose source is not configured.
pub open spec fn removes_unconfigured(
    step: LaneStepModel,
    registered: Seq<Seq<char>>,
    configured: Seq<Seq<char>>,
) -> bool {
    match step {
        LaneStepModel::StopAndRemove(id) => !configured.contains(id) && registered.contains(id),
        _ => false,
    }
}

/// The lane is the configured source `id` with a watched root of identity `root`.
pub open spec fn lane_binds(lane: ConfiguredLane, id: Seq<char>, root: Seq<char>) -> bool {
    lane.source_id@ == id && match lane.root_identity {
        Some(identity) => identity@ == root,
        None => false,
    }
}

/// A reconcile step names a configured source and the registered identity of its root.
pub open spec fn reconcile_is_qualified(step: LaneStepModel, lanes: Seq<ConfiguredLane>) -> bool {
    match step {
        LaneStepModel::Reconcile(id, root) => exists|n: int|
            0 <= n < lanes.len() && #[trigger] lane_binds(lanes[n], id, root),
        _ => true,
    }
}

/// A removal step names a source that is not configured.
pub open spec fn removal_is_unconfigured(step: LaneStepModel, configured: Seq<Seq<char>>) -> bool {
    match step {
        LaneStepModel::StopAndRemove(id) => !configured.contains(id),
        _ => true,
    }
}

proof fn lemma_removal_steps_remove_only_unconfigured(
    registered: Seq<Seq<char>>,
    configured: Seq<Seq<char>>,
)
    ensures
        forall|k: int|
            0 <= k < removal_steps(registered, configured).len() ==> removes_unconfigured(
                #[trigger] removal_steps(registered, configured)[k],
                registered,
                configured,
            ),
    decreases registered.len(),
{
    if registered.len() > 0 {
        let rest = registered.drop_last();
        lemma_removal_steps_remove_only_unconfigured(rest, configured);
        let steps = removal_steps(registered, configured);
        assert forall|k: int| 0 <= k < steps.len() implies removes_unconfigured(
            #[trigger] steps[k],
            registered,
            configured,
        ) by {
            let earlier = removal_steps(rest, configured);
            if k < earlier.len() {
                assert(steps[k] == earlier[k]);
                assert(removes_unconfigured(earlier[k], rest, configured));
                if let LaneStepModel::StopAndRemove(id) = earlier[k] {
                    let b = choose|b: int| 0 <= b < rest.len() && rest[b] == id;
                    assert(registered[b] == rest[b]);
                }
            } else {
                assert(registered[registered.len() - 1] == registered.last());
            }
        }
    }
}

/// A reconciliation plan only binds a lane to a source whose watched root has a registered
/// identity, binding it to exactly that identity; it stops every configured source whose root
/// has none; and it removes only lanes of sources that are no longer configured.
pub proof fn lemma_plan_binds_only_identity_qualified_roots(
    admission_closed: bool,
    registered: Seq<Seq<char>>,
    lanes: Seq<ConfiguredLane>,
)
    ensures
        ({
            let plan = reconcile_plan_spec(admission_closed, registered, lanes);
            &&& forall|k: int| 0 <= k < plan.len() ==> reconcile_is_qualified(#[trigger] plan[k], lanes)
            &&& forall|k: int|
                0 <= k < plan.len() ==> removal_is_unconfigured(#[trigger] plan[k], lane_ids(lanes))
            &&& forall|n: int|
                0 <= n < lanes.len() && lanes[n].root_identity is None ==> plan.contains(
                    LaneStepModel::Stop(#[trigger] lanes[n].source_id@),
                )
        }),
{
    let plan = reconcile_plan_spec(admission_closed, registered, lanes);
    let fence: Seq<LaneStepModel> = if admission_closed {
        seq![LaneStepModel::FenceAll]
    } else {
        Seq::empty()
    };
    let ordered = registered.sort_by(text_order());
    let removals = removal_steps(ordered, lane_ids(lanes));
    let sources = lanes.map_values(|lane: ConfiguredLane| source_step(lane));
    assert(plan == fence + removals + sources);
    lemma_removal_steps_remove_only_unconfigured(ordered, lane_ids(lanes));
    let head = fence.len() + removals.len();
    assert forall|k: int| 0 <= k < plan.len() implies reconcile_is_qualified(#[trigger] plan[k], lanes)
        && removal_is_unconfigured(plan[k], lane_ids(lanes)) by {
        if k >= head {
            assert(plan[k] == sources[k - head]);
            assert(sources[k - head] == source_step(lanes[k - head]));
            assert(lane_ids(lanes)[k - head] == lanes[k - head].source_id@);
            if let LaneStepModel::Reconcile(id, root) = plan[k] {
                assert(lane_binds(lanes[k - head], id, root));
            }
        } else if k >= fence.len() {
            assert(plan[k] == removals[k - fence.len()]);
            assert(removes_unconfigured(removals[k - fence.len()], ordered, lane_ids(lanes)));
        }
    }
    assert forall|n: int| 0 <= n < lanes.len() && lanes[n].root_identity is None implies plan.contains(
        LaneStepModel::Stop(#[trigger] lanes[n].source_id@),
    ) by {
        assert(sources[n] == source_step(lanes[n]));
        assert(plan[head + n] == sources[n]);
    }
}

/// Plan how to reconcile the lanes registered with the admission owner with the configured
/// sources. The steps are carried out in order, and the first failing step ends the
/// reconciliation.
pub fn reconcile_plan(
    admission_closed: bool,
    registered: &Vec<String>,
    lanes: &Vec<ConfiguredLane>,
) -> (steps: Vec<LaneStep>)
    ensures
        step_views(steps@) == reconcile_plan_spec(admission_closed, text_views(registered@), lanes@),
{
    let mut steps: Vec<LaneStep> = Vec::new();
    if admission_closed {
        steps.push(LaneStep::FenceAll);
    }
    let ghost fence = step_views(steps@);
    let mut configured: Vec<String> = Vec::new();
    let mut k: usize = 0;
    while k < lanes.len()
        invariant
            k <= lanes@.len(),
            text_views(configured@) == lane_ids(lanes@.take(k as int)),
        decreases lanes@.len() - k,
    {
        let ghost prev = configured@;
        let id = lanes[k].source_id.clone();
        configured.push(id);
        assert(configured@ =~= prev.push(id));
        assert(text_views(configured@) =~= text_views(prev).push(lanes@[k as int].source_id@));
        assert(lanes@.take(k as int + 1) =~= lanes@.take(k as int).push(lanes@[k as int]));
        assert(lane_ids(lanes@.take(k as int + 1)) =~= lane_ids(lanes@.take(k as int)).push(
            lanes@[k as int].source_id@,
        ));
        k = k + 1;
    }
    assert(lanes@.take(lanes@.len() as int) =~= lanes@);
    let ordered = sorted_texts(registered);
    let ghost order = text_views(ordered@);
    let mut i: usize = 0;
    while i < ordered.len()
        invariant
            i <= ordered@.len(),
            order == text_views(ordered@),
            text_views(configured@) == lane_ids(lanes@),
            step_views(steps@) == fence + removal_steps(order.take(i as int), lane_ids(lanes@)),
        decreases ordered@.len() - i,
    {
        let ghost before = step_views(steps@);
        let id = &ordered[i];
        proof {
            assert(order.take(i as int + 1).drop_last() =~= order.take(i as int));
            assert(order.take(i as int + 1).last() == id@);
        }
        if !is_configured(&configured, id) {
            steps.push(LaneStep::StopAndRemove(id.clone()));
            assert(step_views(steps@) =~= before.push(LaneStepModel::StopAndRemove(id@)));
        }
        i = i + 1;
    }
    assert(order.take(order.len() as int) =~= order);
    let ghost removals = step_views(steps@);
    let mut j: usize = 0;
    while j < lanes.len()
        invariant
            j <= lanes@.len(),
            step_views(steps@) == removals + lanes@.take(j as int).map_values(
                |lane: ConfiguredLane| source_step(lane),
            ),
        decreases lanes@.len() - j,
    {
        let ghost before = step_views(steps@);
        let lane = &lanes[j];
        let step = match &lane.root_identity {
            None => LaneStep::Stop(lane.source_id.clone()),
            Some(root_identity) => LaneStep::Reconcile {
                source_id: lane.source_id.clone(),
                root_identity: root_identity.clone(),
            },
        };
        assert(step@ == source_step(lanes@[j as int]));
        let ghost prev_steps = steps@;
        steps.push(step);
        assert(steps@ =~= prev_steps.push(step));
        assert(step_views(steps@) =~= before.push(step@));
        assert(lanes@.take(j as int + 1) =~= lanes@.take(j as int).push(lanes@[j as int]));
        assert(lanes@.take(j as int + 1).map_values(|lane: ConfiguredLane| source_step(lane))
            =~= lanes@.take(j as int).map_values(|lane: ConfiguredLane| source_step(lane)).push(
            source_step(lanes@[j as int]),
        ));
        assert(step_views(steps@) =~= removals + lanes@.take(j as int + 1).map_values(
            |lane: ConfiguredLane| source_step(lane),
        ));
        j = j + 1;
    }
    assert(lanes@.take(lanes@.len() as int) =~= lanes@);
    steps
}

} // verus!
