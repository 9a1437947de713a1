//! Control state of the source-processing supervisor: which sources are configured and active,
//! which need work, the lifecycle generations they run under, and the manifest-revision fence
//! that keeps reconciliation from moving backwards.
use vstd::prelude::*;
use std::sync::Arc;
use std::sync::atomic::{AtomicBool, Ordering};
use crate::keyed::{TextMap, TextSet};
use crate::checkpoint::RevisionBoundCheckpoint;

verus! {

/// A configured sample source: its id, its root folder and the folder of its database.
#[derive(Clone, Debug, PartialEq, Eq)]
pub struct SampleSource {
    pub id: String,
    pub root: String,
    pub database_root: String,
}

/// Two sources use the same storage when their root and database folders are the same.
pub open spec fn same_storage(left: SampleSource, right: SampleSource) -> bool {
    left.root@ == right.root@ && left.database_root@ == right.database_root@
}

fn copy_source(source: &SampleSource) -> (copy: SampleSource)
    ensures
        copy == *source,
{
    SampleSource {
        id: source.id.clone(),
        root: source.root.clone(),
        database_root: source.database_root.clone(),
    }
}

fn sources_share_storage(left: &SampleSource, right: &SampleSource) -> (same: bool)
    ensures
        same == same_storage(*left, *right),
{
    left.root == right.root && left.database_root == right.database_root
}

/// A source whose storage is being retired.
#[derive(Clone, Debug, PartialEq, Eq)]
pub struct PendingSourceRetirement {
    pub source: SampleSource,
}

/// The manifest revision a source lifecycle has accepted, and the floor a recovery must reach.
#[derive(Clone, Copy, Debug, PartialEq, Eq, Default, Structural)]
pub struct AcceptedManifestRevision {
    pub lifecycle_generation: u64,
    pub revision: u64,
    pub recovery_floor: Option<u64>,
}

pub open spec fn wrapping_next(value: u64) -> u64 {
    if value == u64::MAX {
        0
    } else {
        (value + 1) as u64
    }
}

pub open spec fn max_u64(left: u64, right: u64) -> u64 {
    if left >= right {
        left
    } else {
        right
    }
}

/// The fence after accepting `revision` for `lifecycle_generation`: a fence of another lifecycle
/// starts over at `revision`; otherwise the accepted revision only grows and a recovery floor
/// survives only while it is still ahead of it.
pub open spec fn accepted_fence(
    current: Option<AcceptedManifestRevision>,
    lifecycle_generation: u64,
    revision: u64,
) -> AcceptedManifestRevision {
    let fence = match current {
        Some(fence) => fence,
        None => AcceptedManifestRevision { lifecycle_generation, revision: 0, recovery_floor: None },
    };
    if fence.lifecycle_generation != lifecycle_generation {
        AcceptedManifestRevision { lifecycle_generation, revision, recovery_floor: None }
    } else {
        let accepted = max_u64(fence.revision, revision);
        AcceptedManifestRevision {
            lifecycle_generation,
            revision: accepted,
            recovery_floor: match fence.recovery_floor {
                Some(floor) => if floor > accepted {
                    Some(floor)
                } else {
                    None
                },
                None => None,
            },
        }
    }
}

/// Within one lifecycle the accepted manifest revision never moves back: accepting a revision
/// keeps the larger of the old and the new one, and a recovery floor survives only while it is
/// still ahead of it.
pub proof fn lemma_accepted_fence_never_regresses(
    current: AcceptedManifestRevision,
    lifecycle_generation: u64,
    revision: u64,
)
    requires
        current.lifecycle_generation == lifecycle_generation,
    ensures
        ({
            let fence = accepted_fence(Some(current), lifecycle_generation, revision);
            &&& fence.lifecycle_generation == lifecycle_generation
            &&& fence.revision >= current.revision
            &&& fence.revision >= revision
            &&& (fence.revision == current.revision || fence.revision == revision)
            &&& match fence.recovery_floor {
                Some(floor) => floor > fence.revision && current.recovery_floor == Some(floor),
                None => true,
            }
        }),
{
}

/// Accepting the same revision twice is accepting it once.
pub proof fn lemma_accepting_twice_is_accepting_once(
    current: Option<AcceptedManifestRevision>,
    lifecycle_generation: u64,
    revision: u64,
)
    ensures
        accepted_fence(
            Some(accepted_fence(current, lifecycle_generation, revision)),
            lifecycle_generation,
            revision,
        ) == accepted_fence(current, lifecycle_generation, revision),
{
}

/// A source's work token: the cancellation flag shared with the work started for the source,
/// and the serial under which the control state issued it.
pub struct WorkToken {
    pub flag: Arc<AtomicBool>,
    pub serial: Ghost<nat>,
}

/// The supervisor's control state. Work tokens are issued under increasing serials, counted by
/// `issued_work_tokens`; `signalled_work_tokens` holds the serials of the tokens whose flag the
/// state has set (a flag, once set, is never cleared).
pub struct ControlState<D> {
    pub sources: TextMap<SampleSource>,
    pub source_work_cancels: TextMap<WorkToken>,
    pub issued_work_tokens: Ghost<nat>,
    pub signalled_work_tokens: Ghost<Set<nat>>,
    pub source_lifecycle_generations: TextMap<u64>,
    pub next_lifecycle_generation: u64,
    pub dirty_sources: TextSet,
    pub safety_probe_sources: TextSet,
    pub pending_readiness_deltas: TextMap<D>,
    pub accepted_manifest_revisions: TextMap<AcceptedManifestRevision>,
    pub force_manifest_audit_sources: TextSet,
    pub force_reanalysis_sources: TextSet,
    pub quarantined_sources: TextSet,
    pub pending_retirements: Vec<PendingSourceRetirement>,
    pub pending_watcher_checkpoints: Vec<RevisionBoundCheckpoint>,
    pub wake_generation: u64,
    pub wake_reason: &'static str,
}

/// The work tokens, their count and the signalled ones are unchanged.
pub open spec fn tokens_unchanged<D>(after: &ControlState<D>, before: &ControlState<D>) -> bool {
    &&& after.source_work_cancels@ == before.source_work_cancels@
    &&& after.issued_work_tokens@ == before.issued_work_tokens@
    &&& after.signalled_work_tokens@ == before.signalled_work_tokens@
}

/// The serials of the tokens held for the sources in `ids`.
pub open spec fn serials_of(tokens: Map<Seq<char>, WorkToken>, ids: Set<Seq<char>>) -> Set<nat> {
    Set::new(
        |serial: nat|
            exists|id: Seq<char>|
                ids.contains(id) && tokens.contains_key(id) && #[trigger] tokens[id].serial@ == serial,
    )
}

/// Every field but the work tokens, the queued work and the wake state is unchanged.
pub open spec fn same_except_work<D>(after: &ControlState<D>, before: &ControlState<D>) -> bool {
    &&& after.sources@ == before.sources@
    &&& after.source_lifecycle_generations@ == before.source_lifecycle_generations@
    &&& after.next_lifecycle_generation == before.next_lifecycle_generation
    &&& after.pending_readiness_deltas@ == before.pending_readiness_deltas@
    &&& after.accepted_manifest_revisions@ == before.accepted_manifest_revisions@
    &&& after.force_manifest_audit_sources@ == before.force_manifest_audit_sources@
    &&& after.force_reanalysis_sources@ == before.force_reanalysis_sources@
    &&& after.quarantined_sources@ == before.quarantined_sources@
    &&& after.pending_retirements@ == before.pending_retirements@
    &&& after.pending_watcher_checkpoints@ == before.pending_watcher_checkpoints@
}

/// What resetting the work tokens builds from the listed sources: one token for each, under
/// consecutive serials from `first`, signalled for the quarantined ones.
proof fn lemma_reset_tokens(
    keys: Seq<String>,
    stored: Seq<Seq<char>>,
    ids: Set<Seq<char>>,
    tokens: Map<Seq<char>, WorkToken>,
    first: nat,
    quarantined: Set<Seq<char>>,
    before: Set<nat>,
    signalled: Set<nat>,
)
    requires
        keys.map_values(|key: String| key@) == stored,
        stored.no_duplicates(),
        stored.to_set() == ids,
        forall|id: Seq<char>| #[trigger]
            tokens.contains_key(id) <==> exists|k: int| 0 <= k < keys.len() && keys[k]@ == id,
        forall|k: int|
            0 <= k < keys.len() ==> tokens.contains_key(#[trigger] keys[k]@) && tokens[keys[k]@].serial@
                == first + k,
        signalled == before.union(
            Set::new(
                |serial: nat|
                    exists|k: int|
                        0 <= k < keys.len() && quarantined.contains(#[trigger] keys[k]@) && serial == first + k,
            ),
        ),
    ensures
        tokens.dom() == ids,
        forall|id: Seq<char>| #[trigger]
            tokens.contains_key(id) ==> first <= tokens[id].serial@ < first + keys.len(),
        forall|a: Seq<char>, b: Seq<char>|
            #[trigger] tokens.contains_key(a) && #[trigger] tokens.contains_key(b) && a != b
                ==> tokens[a].serial@ != tokens[b].serial@,
        signalled == before.union(serials_of(tokens, quarantined)),
        forall|serial: nat| #[trigger]
            signalled.contains(serial) && !before.contains(serial) ==> first <= serial < first + keys.len(),
        (forall|serial: nat| #[trigger] before.contains(serial) ==> serial < first) ==> forall|id: Seq<char>|
            #[trigger] tokens.contains_key(id) ==> (signalled.contains(tokens[id].serial@) == quarantined.contains(id)),
{
    assert forall|k: int| 0 <= k < keys.len() implies #[trigger] stored[k] == keys[k]@ by {
        assert(keys.map_values(|key: String| key@)[k] == keys[k]@);
    }
    assert forall|id: Seq<char>| tokens.contains_key(id) <==> ids.contains(id) by {
        if ids.contains(id) {
            assert(stored.to_set().contains(id));
            let k = stored.index_of(id);
            assert(keys[k]@ == id);
        }
        if tokens.contains_key(id) {
            let k = choose|k: int| 0 <= k < keys.len() && keys[k]@ == id;
            assert(stored[k] == id);
        }
    }
    assert(tokens.dom() =~= ids);
    assert forall|id: Seq<char>| #[trigger] tokens.contains_key(id) implies first <= tokens[id].serial@ < first
        + keys.len() by {
        let k = choose|k: int| 0 <= k < keys.len() && keys[k]@ == id;
        assert(tokens.contains_key(keys[k]@));
    }
    assert forall|a: Seq<char>, b: Seq<char>|
        #[trigger] tokens.contains_key(a) && #[trigger] tokens.contains_key(b) && a != b implies tokens[a].serial@
        != tokens[b].serial@ by {
        let j = choose|k: int| 0 <= k < keys.len() && keys[k]@ == a;
        let k = choose|k: int| 0 <= k < keys.len() && keys[k]@ == b;
        assert(tokens.contains_key(keys[j]@));
        assert(tokens.contains_key(keys[k]@));
    }
    let listed = Set::new(
        |serial: nat|
            exists|k: int|
                0 <= k < keys.len() && quarantined.contains(#[trigger] keys[k]@) && serial == first + k,
    );
    assert forall|serial: nat| listed.contains(serial) <==> serials_of(tokens, quarantined).contains(serial) by {
        if listed.contains(serial) {
            let k = choose|k: int|
                0 <= k < keys.len() && quarantined.contains(#[trigger] keys[k]@) && serial == first + k;
            assert(tokens.contains_key(keys[k]@));
            assert(tokens[keys[k]@].serial@ == serial);
        }
        if serials_of(tokens, quarantined).contains(serial) {
            let id = choose|id: Seq<char>|
                quarantined.contains(id) && tokens.contains_key(id) && #[trigger] tokens[id].serial@ == serial;
            let k = choose|k: int| 0 <= k < keys.len() && keys[k]@ == id;
            assert(tokens.contains_key(keys[k]@));
            assert(quarantined.contains(keys[k]@));
        }
    }
    assert(listed =~= serials_of(tokens, quarantined));
    assert forall|serial: nat| #[trigger]
        signalled.contains(serial) && !before.contains(serial) implies first <= serial < first + keys.len() by {
        assert(listed.contains(serial));
    }
    if forall|serial: nat| #[trigger] before.contains(serial) ==> serial < first {
        assert forall|id: Seq<char>| #[trigger] tokens.contains_key(id) implies (signalled.contains(
            tokens[id].serial@,
        ) == quarantined.contains(id)) by {
            let k = choose|k: int| 0 <= k < keys.len() && keys[k]@ == id;
            assert(tokens.contains_key(keys[k]@));
            if quarantined.contains(id) {
                assert(listed.contains(tokens[id].serial@));
            }
            if signalled.contains(tokens[id].serial@) {
                assert(listed.contains(tokens[id].serial@));
                let j = choose|j: int|
                    0 <= j < keys.len() && quarantined.contains(#[trigger] keys[j]@) && tokens[id].serial@
                        == first + j;
                assert(j == k);
            }
        }
    }
}

/// Set a work token's cancellation flag, for the work that holds it to see.
fn raise_flag(flag: &AtomicBool) {
    flag.store(true, Ordering::Release);
}

/// The control state with every field but the wake counter and reason unchanged.
pub open spec fn same_except_wake<D>(after: &ControlState<D>, before: &ControlState<D>) -> bool {
    &&& same_except_work(after, before)
    &&& tokens_unchanged(after, before)
}

/// The sources named by the first `count` of `keys`.
pub open spec fn listed_keys(keys: Seq<String>, count: int) -> Set<Seq<char>> {
    Set::new(|id: Seq<char>| exists|k: int| 0 <= k < count && #[trigger] keys[k]@ == id)
}

proof fn lemma_serials_of_insert(tokens: Map<Seq<char>, WorkToken>, ids: Set<Seq<char>>, id: Seq<char>)
    requires
        tokens.contains_key(id),
    ensures
        serials_of(tokens, ids.insert(id)) == serials_of(tokens, ids).insert(tokens[id].serial@),
{
    assert forall|serial: nat| #[trigger] serials_of(tokens, ids.insert(id)).contains(serial) implies serials_of(
        tokens,
        ids,
    ).insert(tokens[id].serial@).contains(serial) by {
        let other = choose|other: Seq<char>|
            ids.insert(id).contains(other) && tokens.contains_key(other) && #[trigger] tokens[other].serial@
                == serial;
        if other != id {
            assert(serials_of(tokens, ids).contains(serial));
        }
    }
    assert forall|serial: nat| #[trigger] serials_of(tokens, ids).insert(tokens[id].serial@).contains(serial)
        implies serials_of(tokens, ids.insert(id)).contains(serial) by {
        if serial == tokens[id].serial@ {
            assert(ids.insert(id).contains(id));
        } else {
            let other = choose|other: Seq<char>|
                ids.contains(other) && tokens.contains_key(other) && #[trigger] tokens[other].serial@ == serial;
            assert(ids.insert(id).contains(other));
        }
    }
    assert(serials_of(tokens, ids.insert(id)) =~= serials_of(tokens, ids).insert(tokens[id].serial@));
}

impl<D> ControlState<D> {
    /// Configured and not quarantined.
    pub open spec fn configured(&self, source_id: Seq<char>) -> bool {
        self.sources@.contains_key(source_id) && !self.quarantined_sources@.contains(source_id)
    }

    /// Configured, not quarantined, and no retirement of the same storage is pending.
    pub open spec fn active(&self, source_id: Seq<char>) -> bool {
        &&& self.configured(source_id)
        &&& !exists|i: int|
            0 <= i < self.pending_retirements@.len() && same_storage(
                self.sources@[source_id],
                #[trigger] self.pending_retirements@[i].source,
            )
    }

    /// A control state with no sources, no work and no work tokens issued, whose next lifecycle
    /// generation and wake reason are given.
    pub fn new(next_lifecycle_generation: u64, wake_reason: &'static str) -> (control: Self)
        ensures
            control.sources@ == Map::<Seq<char>, SampleSource>::empty(),
            control.source_work_cancels@ == Map::<Seq<char>, WorkToken>::empty(),
            control.issued_work_tokens@ == 0,
            control.signalled_work_tokens@ == Set::<nat>::empty(),
            control.source_lifecycle_generations@ == Map::<Seq<char>, u64>::empty(),
            control.next_lifecycle_generation == next_lifecycle_generation,
            control.dirty_sources@ == Set::<Seq<char>>::empty(),
            control.safety_probe_sources@ == Set::<Seq<char>>::empty(),
            control.pending_readiness_deltas@ == Map::<Seq<char>, D>::empty(),
            control.accepted_manifest_revisions@ == Map::<Seq<char>, AcceptedManifestRevision>::empty(),
            control.force_manifest_audit_sources@ == Set::<Seq<char>>::empty(),
            control.force_reanalysis_sources@ == Set::<Seq<char>>::empty(),
            control.quarantined_sources@ == Set::<Seq<char>>::empty(),
            control.pending_retirements@ == Seq::<PendingSourceRetirement>::empty(),
            control.pending_watcher_checkpoints@ == Seq::<RevisionBoundCheckpoint>::empty(),
            control.wake_generation == 0,
            control.wake_reason == wake_reason,
            control.work_tokens_wf(),
    {
        ControlState {
            sources: TextMap::new(),
            source_work_cancels: TextMap::new(),
            issued_work_tokens: Ghost(0),
            signalled_work_tokens: Ghost(Set::empty()),
            source_lifecycle_generations: TextMap::new(),
            next_lifecycle_generation,
            dirty_sources: TextSet::new(),
            safety_probe_sources: TextSet::new(),
            pending_readiness_deltas: TextMap::new(),
            accepted_manifest_revisions: TextMap::new(),
            force_manifest_audit_sources: TextSet::new(),
            force_reanalysis_sources: TextSet::new(),
            quarantined_sources: TextSet::new(),
            pending_retirements: Vec::new(),
            pending_watcher_checkpoints: Vec::new(),
            wake_generation: 0,
            wake_reason,
        }
    }

    /// Every token held was issued, under a serial of its own, and so was every signalled one.
    pub open spec fn work_tokens_wf(&self) -> bool {
        let tokens = self.source_work_cancels@;
        &&& forall|id: Seq<char>| #[trigger]
            tokens.contains_key(id) ==> tokens[id].serial@ < self.issued_work_tokens@
        &&& forall|a: Seq<char>, b: Seq<char>|
            #[trigger] tokens.contains_key(a) && #[trigger] tokens.contains_key(b) && a != b
                ==> tokens[a].serial@ != tokens[b].serial@
        &&& forall|serial: nat| #[trigger]
            self.signalled_work_tokens@.contains(serial) ==> serial < self.issued_work_tokens@
    }

    /// The configured sources that are not quarantined.
    pub open spec fn unquarantined(&self) -> Set<Seq<char>> {
        self.sources@.dom().filter(|id: Seq<char>| !self.quarantined_sources@.contains(id))
    }

    pub fn source_is_configured(&self, source_id: &str) -> (configured: bool)
        ensures
            configured == self.configured(source_id@),
    {
        self.sources.contains_key(source_id) && !self.quarantined_sources.contains(source_id)
    }

    pub fn source_is_active(&self, source_id: &str) -> (active: bool)
        ensures
            active == self.active(source_id@),
    {
        let source = match self.sources.get(source_id) {
            Some(source) => source,
            None => {
                return false;
            },
        };
        if self.quarantined_sources.contains(source_id) {
            return false;
        }
        let mut i: usize = 0;
        while i < self.pending_retirements.len()
            invariant
                i <= self.pending_retirements@.len(),
                *source == self.sources@[source_id@],
                forall|k: int|
                    0 <= k < i ==> !same_storage(*source, #[trigger] self.pending_retirements@[k].source),
            decreases self.pending_retirements@.len() - i,
        {
            if sources_share_storage(source, &self.pending_retirements[i].source) {
                return false;
            }
            i = i + 1;
        }
        true
    }

    /// Wake the coordinator for `reason`.
    pub fn notify(&mut self, reason: &'static str)
        ensures
            same_except_wake(final(self), old(self)),
            final(self).dirty_sources@ == old(self).dirty_sources@,
            final(self).safety_probe_sources@ == old(self).safety_probe_sources@,
            final(self).wake_generation == wrapping_next(old(self).wake_generation),
            final(self).wake_reason == reason,
    {
        self.wake_generation = self.wake_generation.wrapping_add(1);
        self.wake_reason = reason;
    }

    /// Hand out the next lifecycle generation; generation 0 is never handed out again after
    /// the counter wraps.
    pub fn allocate_lifecycle_generation(&mut self) -> (generation: u64)
        ensures
            generation == old(self).next_lifecycle_generation,
            final(self).next_lifecycle_generation == if old(self).next_lifecycle_generation
                == u64::MAX {
                1
            } else {
                (old(self).next_lifecycle_generation + 1) as u64
            },
            final(self).next_lifecycle_generation >= 1,
            final(self).sources@ == old(self).sources@,
            tokens_unchanged(final(self), old(self)),
            final(self).source_lifecycle_generations@ == old(self).source_lifecycle_generations@,
            final(self).dirty_sources@ == old(self).dirty_sources@,
            final(self).safety_probe_sources@ == old(self).safety_probe_sources@,
            final(self).pending_readiness_deltas@ == old(self).pending_readiness_deltas@,
            final(self).accepted_manifest_revisions@ == old(self).accepted_manifest_revisions@,
            final(self).force_manifest_audit_sources@ == old(self).force_manifest_audit_sources@,
            final(self).force_reanalysis_sources@ == old(self).force_reanalysis_sources@,
            final(self).quarantined_sources@ == old(self).quarantined_sources@,
            final(self).pending_retirements@ == old(self).pending_retirements@,
            final(self).pending_watcher_checkpoints@ == old(self).pending_watcher_checkpoints@,
            final(self).wake_generation == old(self).wake_generation,
            final(self).wake_reason == old(self).wake_reason,
    {
        let generation = self.next_lifecycle_generation;
        let next = self.next_lifecycle_generation.wrapping_add(1);
        self.next_lifecycle_generation = if next >= 1 {
            next
        } else {
            1
        };
        generation
    }

    /// Queue an active source for work.
    pub fn mark_source_dirty(&mut self, source_id: &str, reason: &'static str)
        ensures
            same_except_wake(final(self), old(self)),
            old(self).active(source_id@) ==> {
                &&& final(self).dirty_sources@ == old(self).dirty_sources@.insert(source_id@)
                &&& final(self).safety_probe_sources@ == old(self).safety_probe_sources@.remove(
                    source_id@,
                )
                &&& final(self).wake_generation == wrapping_next(old(self).wake_generation)
                &&& final(self).wake_reason == reason
            },
            !old(self).active(source_id@) ==> {
                &&& final(self).dirty_sources@ == old(self).dirty_sources@
                &&& final(self).safety_probe_sources@ == old(self).safety_probe_sources@
                &&& final(self).wake_generation == old(self).wake_generation
                &&& final(self).wake_reason == old(self).wake_reason
            },
    {
        if self.source_is_active(source_id) {
            self.safety_probe_sources.remove(source_id);
            self.dirty_sources.insert(source_id.to_owned());
            self.notify(reason);
        }
    }

    /// Accept the manifest revision a completed reconciliation reached.
    pub fn accept_reconciled_manifest_revision(
        &mut self,
        source_id: &str,
        lifecycle_generation: u64,
        revision: u64,
    )
        ensures
            tokens_unchanged(final(self), old(self)),
            final(self).next_lifecycle_generation == old(self).next_lifecycle_generation,
            final(self).force_manifest_audit_sources@ == old(self).force_manifest_audit_sources@,
            final(self).force_reanalysis_sources@ == old(self).force_reanalysis_sources@,
            final(self).dirty_sources@ == old(self).dirty_sources@,
            final(self).safety_probe_sources@ == old(self).safety_probe_sources@,
            final(self).wake_generation == old(self).wake_generation,
            final(self).wake_reason == old(self).wake_reason,
            final(self).sources@ == old(self).sources@,
            final(self).source_lifecycle_generations@ == old(self).source_lifecycle_generations@,
            final(self).quarantined_sources@ == old(self).quarantined_sources@,
            final(self).pending_retirements@ == old(self).pending_retirements@,
            final(self).pending_watcher_checkpoints@ == old(self).pending_watcher_checkpoints@,
            final(self).pending_readiness_deltas@ == old(self).pending_readiness_deltas@,
            ({
                let current = old(self).active(source_id@)
                    && old(self).source_lifecycle_generations@.contains_key(source_id@)
                    && old(self).source_lifecycle_generations@[source_id@] == lifecycle_generation;
                let previous = if old(self).accepted_manifest_revisions@.contains_key(source_id@) {
                    Some(old(self).accepted_manifest_revisions@[source_id@])
                } else {
                    None
                };
                &&& current ==> final(self).accepted_manifest_revisions@ == old(
                    self,
                ).accepted_manifest_revisions@.insert(
                    source_id@,
                    accepted_fence(previous, lifecycle_generation, revision),
                )
                &&& !current ==> final(self).accepted_manifest_revisions@ == old(
                    self,
                ).accepted_manifest_revisions@
            }),
    {
        if !self.source_is_active(source_id) {
            return;
        }
        match self.source_lifecycle_generations.get(source_id) {
            Some(generation) => {
                if *generation != lifecycle_generation {
                    return;
                }
            },
            None => {
                return;
            },
        }
        let fence = match self.accepted_manifest_revisions.get(source_id) {
            Some(fence) => *fence,
            None => AcceptedManifestRevision {
                lifecycle_generation,
                revision: 0,
                recovery_floor: None,
            },
        };
        let updated = if fence.lifecycle_generation != lifecycle_generation {
            AcceptedManifestRevision { lifecycle_generation, revision, recovery_floor: None }
        } else {
            let accepted = if fence.revision >= revision {
                fence.revision
            } else {
                revision
            };
            let recovery_floor = match fence.recovery_floor {
                Some(floor) => if floor > accepted {
                    Some(floor)
                } else {
                    None
                },
                None => None,
            };
            AcceptedManifestRevision { lifecycle_generation, revision: accepted, recovery_floor }
        };
        self.accepted_manifest_revisions.insert(source_id.to_owned(), updated);
    }

    fn unquarantined_ids(&self) -> (ids: Vec<String>)
        ensures
            forall|i: int| 0 <= i < ids@.len() ==> self.unquarantined().contains(#[trigger] ids@[i]@),
            forall|id: Seq<char>| #[trigger]
                self.unquarantined().contains(id) ==> exists|i: int|
                    0 <= i < ids@.len() && ids@[i]@ == id,
    {
        let keys = self.sources.keys();
        let mut ids: Vec<String> = Vec::new();
        let mut i: usize = 0;
        while i < keys.len()
            invariant
                i <= keys@.len(),
                keys@.map_values(|key: String| key@) == self.sources.stored_keys(),
                self.sources.stored_keys().to_set() == self.sources@.dom(),
                forall|k: int| 0 <= k < ids@.len() ==> self.unquarantined().contains(#[trigger] ids@[k]@),
                forall|k: int|
                    0 <= k < i ==> (!self.quarantined_sources@.contains(#[trigger] keys@[k]@)
                        ==> exists|m: int| 0 <= m < ids@.len() && ids@[m]@ == keys@[k]@),
            decreases keys@.len() - i,
        {
            assert(keys@[i as int]@ == self.sources.stored_keys()[i as int]);
            assert(self.sources.stored_keys().to_set().contains(keys@[i as int]@));
            let ghost old_ids = ids@;
            let quarantined = self.quarantined_sources.contains(&keys[i]);
            if !quarantined {
                ids.push(keys[i].clone());
                assert(ids@[ids@.len() - 1]@ == keys@[i as int]@);
            }
            assert forall|k: int|
                0 <= k < i + 1 && !self.quarantined_sources@.contains(#[trigger] keys@[k]@)
                    implies exists|m: int| 0 <= m < ids@.len() && ids@[m]@ == keys@[k]@ by {
                if k < i {
                    let m = choose|m: int| 0 <= m < old_ids.len() && old_ids[m]@ == keys@[k]@;
                    assert(ids@[m] == old_ids[m]);
                } else {
                    assert(ids@[ids@.len() - 1]@ == keys@[k]@);
                }
            }
            i = i + 1;
        }
        assert forall|id: Seq<char>| #[trigger] self.unquarantined().contains(id) implies exists|i: int|
            0 <= i < ids@.len() && ids@[i]@ == id by {
            assert(self.sources.stored_keys().to_set().contains(id));
            let k = self.sources.stored_keys().index_of(id);
            assert(keys@[k]@ == id);
        }
        ids
    }

    /// Queue every unquarantined source for work.
    pub fn mark_all_sources_dirty(&mut self, reason: &'static str)
        ensures
            same_except_wake(final(self), old(self)),
            final(self).safety_probe_sources@ == Set::<Seq<char>>::empty(),
            final(self).dirty_sources@ == old(self).dirty_sources@.union(old(self).unquarantined()),
            final(self).wake_generation == wrapping_next(old(self).wake_generation),
            final(self).wake_reason == reason,
    {
        self.safety_probe_sources.clear();
        let ids = self.unquarantined_ids();
        let ghost target = self.dirty_sources@.union(self.unquarantined());
        let mut i: usize = 0;
        while i < ids.len()
            invariant
                same_except_wake(self, old(self)),
                self.safety_probe_sources@ == Set::<Seq<char>>::empty(),
                self.wake_generation == old(self).wake_generation,
                target == old(self).dirty_sources@.union(old(self).unquarantined()),
                i <= ids@.len(),
                forall|k: int| 0 <= k < ids@.len() ==> old(self).unquarantined().contains(#[trigger] ids@[k]@),
                forall|id: Seq<char>| #[trigger]
                    old(self).unquarantined().contains(id) ==> exists|k: int|
                        0 <= k < ids@.len() && ids@[k]@ == id,
                self.dirty_sources@.subset_of(target),
                old(self).dirty_sources@.subset_of(self.dirty_sources@),
                forall|k: int| 0 <= k < i ==> self.dirty_sources@.contains(#[trigger] ids@[k]@),
            decreases ids@.len() - i,
        {
            self.dirty_sources.insert(ids[i].clone());
            i = i + 1;
        }
        assert(self.dirty_sources@ =~= target);
        self.notify(reason);
    }

    /// Queue every unquarantined source for a periodic safety probe.
    pub fn mark_all_sources_for_safety_probe(&mut self)
        ensures
            same_except_wake(final(self), old(self)),
            final(self).safety_probe_sources@ == old(self).safety_probe_sources@.union(
                old(self).unquarantined(),
            ),
            final(self).dirty_sources@ == old(self).dirty_sources@.union(old(self).unquarantined()),
            final(self).wake_generation == wrapping_next(old(self).wake_generation),
            final(self).wake_reason@ == "periodic_safety_sweep"@,
    {
        let ids = self.unquarantined_ids();
        let ghost dirty_target = self.dirty_sources@.union(self.unquarantined());
        let ghost probe_target = self.safety_probe_sources@.union(self.unquarantined());
        let mut i: usize = 0;
        while i < ids.len()
            invariant
                same_except_wake(self, old(self)),
                self.wake_generation == old(self).wake_generation,
                dirty_target == old(self).dirty_sources@.union(old(self).unquarantined()),
                probe_target == old(self).safety_probe_sources@.union(old(self).unquarantined()),
                i <= ids@.len(),
                forall|k: int| 0 <= k < ids@.len() ==> old(self).unquarantined().contains(#[trigger] ids@[k]@),
                forall|id: Seq<char>| #[trigger]
                    old(self).unquarantined().contains(id) ==> exists|k: int|
                        0 <= k < ids@.len() && ids@[k]@ == id,
                self.dirty_sources@.subset_of(dirty_target),
                old(self).dirty_sources@.subset_of(self.dirty_sources@),
                self.safety_probe_sources@.subset_of(probe_target),
                old(self).safety_probe_sources@.subset_of(self.safety_probe_sources@),
                forall|k: int| 0 <= k < i ==> self.dirty_sources@.contains(#[trigger] ids@[k]@),
                forall|k: int| 0 <= k < i ==> self.safety_probe_sources@.contains(#[trigger] ids@[k]@),
            decreases ids@.len() - i,
        {
            self.safety_probe_sources.insert(ids[i].clone());
            self.dirty_sources.insert(ids[i].clone());
            i = i + 1;
        }
        assert(self.dirty_sources@ =~= dirty_target);
        assert(self.safety_probe_sources@ =~= probe_target);
        self.notify("periodic_safety_sweep");
    }

    /// Signal the source's current work token; an unquarantined source then gets a fresh,
    /// unsignalled token so that later work is not cancelled, while a quarantined source keeps
    /// the signalled one.
    pub fn cancel_source_work(&mut self, source_id: &str)
        ensures
            work_cancelled(final(self), old(self), source_id@),
            old(self).work_tokens_wf() ==> final(self).work_tokens_wf(),
            old(self).work_tokens_wf() && old(self).source_work_cancels@.contains_key(source_id@)
                && !old(self).quarantined_sources@.contains(source_id@) ==> !final(self).signalled_work_tokens@.contains(final(self).source_work_cancels@[source_id@].serial@),
            same_except_work(final(self), old(self)),
            final(self).dirty_sources@ == old(self).dirty_sources@,
            final(self).safety_probe_sources@ == old(self).safety_probe_sources@,
            final(self).wake_generation == old(self).wake_generation,
            final(self).wake_reason == old(self).wake_reason,
    {
        let found = match self.source_work_cancels.get(source_id) {
            Some(token) => {
                raise_flag(&token.flag);
                true
            },
            None => false,
        };
        if found {
            self.signalled_work_tokens = Ghost(
                self.signalled_work_tokens@.insert(self.source_work_cancels@[source_id@].serial@),
            );
            if !self.quarantined_sources.contains(source_id) {
                let fresh = WorkToken {
                    flag: Arc::new(AtomicBool::new(false)),
                    serial: Ghost(self.issued_work_tokens@),
                };
                self.source_work_cancels.insert(source_id.to_owned(), fresh);
                self.issued_work_tokens = Ghost(self.issued_work_tokens@ + 1);
                assert(self.source_work_cancels@.dom() =~= old(self).source_work_cancels@.dom());
            }
        }
    }

    /// Signal every source's work token.
    pub fn cancel_all_source_work(&mut self)
        ensures
            final(self).signalled_work_tokens@ == old(self).signalled_work_tokens@.union(
                serials_of(old(self).source_work_cancels@, old(self).source_work_cancels@.dom()),
            ),
            final(self).source_work_cancels@ == old(self).source_work_cancels@,
            final(self).issued_work_tokens@ == old(self).issued_work_tokens@,
            old(self).work_tokens_wf() ==> final(self).work_tokens_wf(),
            same_except_work(final(self), old(self)),
            final(self).dirty_sources@ == old(self).dirty_sources@,
            final(self).safety_probe_sources@ == old(self).safety_probe_sources@,
            final(self).wake_generation == old(self).wake_generation,
            final(self).wake_reason == old(self).wake_reason,
    {
        let keys = self.source_work_cancels.keys();
        let ghost tokens = self.source_work_cancels@;
        let ghost mut signalled = self.signalled_work_tokens@;
        let mut i: usize = 0;
        while i < keys.len()
            invariant
                i <= keys@.len(),
                tokens == self.source_work_cancels@,
                keys@.map_values(|key: String| key@) == self.source_work_cancels.stored_keys(),
                self.source_work_cancels.stored_keys().to_set() == tokens.dom(),
                signalled == old(self).signalled_work_tokens@.union(
                    serials_of(tokens, listed_keys(keys@, i as int)),
                ),
            decreases keys@.len() - i,
        {
            let ghost id = keys@[i as int]@;
            assert(self.source_work_cancels.stored_keys()[i as int] == id);
            assert(tokens.contains_key(id));
            match self.source_work_cancels.get(&keys[i]) {
                Some(token) => {
                    raise_flag(&token.flag);
                },
                None => {},
            }
            proof {
                assert(listed_keys(keys@, i as int + 1) =~= listed_keys(keys@, i as int).insert(id));
                lemma_serials_of_insert(tokens, listed_keys(keys@, i as int), id);
                signalled = signalled.insert(tokens[id].serial@);
                assert(signalled =~= old(self).signalled_work_tokens@.union(
                    serials_of(tokens, listed_keys(keys@, i as int + 1)),
                ));
            }
            i = i + 1;
        }
        proof {
            assert forall|id: Seq<char>| listed_keys(keys@, keys@.len() as int).contains(id) <==> tokens.dom().contains(id) by {
                if tokens.dom().contains(id) {
                    assert(self.source_work_cancels.stored_keys().to_set().contains(id));
                    let k = self.source_work_cancels.stored_keys().index_of(id);
                    assert(keys@[k]@ == id);
                }
                if listed_keys(keys@, keys@.len() as int).contains(id) {
                    let k = choose|k: int| 0 <= k < keys@.len() && #[trigger] keys@[k]@ == id;
                    assert(self.source_work_cancels.stored_keys()[k] == id);
                }
            }
            assert(listed_keys(keys@, keys@.len() as int) =~= tokens.dom());
        }
        self.signalled_work_tokens = Ghost(signalled);
        proof {
            if old(self).work_tokens_wf() {
                assert forall|serial: nat| #[trigger] self.signalled_work_tokens@.contains(serial) implies serial
                    < self.issued_work_tokens@ by {
                    if !old(self).signalled_work_tokens@.contains(serial) {
                        let id = choose|id: Seq<char>|
                            tokens.dom().contains(id) && tokens.contains_key(id) && #[trigger] tokens[id].serial@
                                == serial;
                    }
                }
            }
        }
    }

    /// Give every configured source a new work token, signalled exactly for quarantined
    /// sources; the tokens handed out before are left as they are.
    pub fn reset_source_work_tokens(&mut self)
        ensures
            final(self).source_work_cancels@.dom() == old(self).sources@.dom(),
            final(self).issued_work_tokens@ == old(self).issued_work_tokens@ + old(
                self,
            ).sources@.dom().len(),
            forall|id: Seq<char>| #[trigger]
                final(self).source_work_cancels@.contains_key(id) ==> old(self).issued_work_tokens@
                    <= final(self).source_work_cancels@[id].serial@ < final(self).issued_work_tokens@,
            forall|a: Seq<char>, b: Seq<char>|
                #[trigger] final(self).source_work_cancels@.contains_key(a) && #[trigger] final(self).source_work_cancels@.contains_key(b) && a != b
                    ==> final(self).source_work_cancels@[a].serial@ != final(self).source_work_cancels@[b].serial@,
            final(self).signalled_work_tokens@ == old(self).signalled_work_tokens@.union(
                serials_of(final(self).source_work_cancels@, old(self).quarantined_sources@),
            ),
            old(self).work_tokens_wf() ==> final(self).work_tokens_wf(),
            old(self).work_tokens_wf() ==> forall|id: Seq<char>| #[trigger]
                final(self).source_work_cancels@.contains_key(id) ==> (final(self).signalled_work_tokens@.contains(final(self).source_work_cancels@[id].serial@)
                    == old(self).quarantined_sources@.contains(id)),
            same_except_work(final(self), old(self)),
            final(self).dirty_sources@ == old(self).dirty_sources@,
            final(self).safety_probe_sources@ == old(self).safety_probe_sources@,
            final(self).wake_generation == old(self).wake_generation,
            final(self).wake_reason == old(self).wake_reason,
    {
        let keys = self.sources.keys();
        let ghost first = self.issued_work_tokens@;
        let ghost quarantined = self.quarantined_sources@;
        let ghost mut signalled = self.signalled_work_tokens@;
        let mut tokens: TextMap<WorkToken> = TextMap::new();
        let mut i: usize = 0;
        while i < keys.len()
            invariant
                i <= keys@.len(),
                keys@.map_values(|key: String| key@) == self.sources.stored_keys(),
                self.sources.stored_keys().no_duplicates(),
                quarantined == self.quarantined_sources@,
                forall|id: Seq<char>| #[trigger]
                    tokens@.contains_key(id) <==> exists|k: int| 0 <= k < i && keys@[k]@ == id,
                forall|k: int|
                    0 <= k < i ==> tokens@.contains_key(#[trigger] keys@[k]@) && tokens@[keys@[k]@].serial@
                        == first + k,
                signalled == old(self).signalled_work_tokens@.union(
                    Set::new(
                        |serial: nat|
                            exists|k: int|
                                0 <= k < i && quarantined.contains(#[trigger] keys@[k]@) && serial == first
                                    + k,
                    ),
                ),
            decreases keys@.len() - i,
        {
            let cancelled = self.quarantined_sources.contains(&keys[i]);
            let ghost before = tokens@;
            let ghost before_signalled = signalled;
            let token = WorkToken {
                flag: Arc::new(AtomicBool::new(cancelled)),
                serial: Ghost((first + i) as nat),
            };
            tokens.insert(keys[i].clone(), token);
            proof {
                if cancelled {
                    signalled = signalled.insert((first + i) as nat);
                }
                assert forall|k: int| 0 <= k < i + 1 implies tokens@.contains_key(#[trigger] keys@[k]@)
                    && tokens@[keys@[k]@].serial@ == first + k by {
                    if k < i {
                        assert(keys@.map_values(|key: String| key@)[k] == keys@[k]@);
                        assert(keys@.map_values(|key: String| key@)[i as int] == keys@[i as int]@);
                        assert(keys@[k]@ != keys@[i as int]@);
                    }
                }
                assert forall|id: Seq<char>| #[trigger]
                    tokens@.contains_key(id) <==> exists|k: int| 0 <= k < i + 1 && keys@[k]@ == id by {
                    if id == keys@[i as int]@ {
                    } else if before.contains_key(id) {
                    }
                }
                assert(signalled =~= old(self).signalled_work_tokens@.union(
                    Set::new(
                        |serial: nat|
                            exists|k: int|
                                0 <= k < i + 1 && quarantined.contains(#[trigger] keys@[k]@) && serial
                                    == first + k,
                    ),
                )) by {
                    assert forall|serial: nat| signalled.contains(serial) implies old(self).signalled_work_tokens@.union(
                        Set::new(
                            |serial: nat|
                                exists|k: int|
                                    0 <= k < i + 1 && quarantined.contains(#[trigger] keys@[k]@)
                                        && serial == first + k,
                        ),
                    ).contains(serial) by {
                        if !before_signalled.contains(serial) {
                            assert(quarantined.contains(keys@[i as int]@));
                        }
                    }
                }
            }
            i = i + 1;
        }
        proof {
            lemma_reset_tokens(
                keys@,
                self.sources.stored_keys(),
                self.sources@.dom(),
                tokens@,
                first,
                quarantined,
                old(self).signalled_work_tokens@,
                signalled,
            );
        }
        self.source_work_cancels = tokens;
        self.issued_work_tokens = Ghost((first + keys.len()) as nat);
        self.signalled_work_tokens = Ghost(signalled);
    }
}

impl<D> ControlState<D> {
    /// Force the source's next reconciliation to audit its manifest, and queue the source for
    /// work with `reason`.
    pub fn request_source_manifest_audit(&mut self, source_id: &str, reason: &'static str)
        ensures
            final(self).force_manifest_audit_sources@ == old(
                self,
            ).force_manifest_audit_sources@.insert(source_id@),
            final(self).sources@ == old(self).sources@,
            tokens_unchanged(final(self), old(self)),
            final(self).source_lifecycle_generations@ == old(self).source_lifecycle_generations@,
            final(self).next_lifecycle_generation == old(self).next_lifecycle_generation,
            final(self).pending_readiness_deltas@ == old(self).pending_readiness_deltas@,
            final(self).accepted_manifest_revisions@ == old(self).accepted_manifest_revisions@,
            final(self).force_reanalysis_sources@ == old(self).force_reanalysis_sources@,
            final(self).quarantined_sources@ == old(self).quarantined_sources@,
            final(self).pending_retirements@ == old(self).pending_retirements@,
            final(self).pending_watcher_checkpoints@ == old(self).pending_watcher_checkpoints@,
            old(self).active(source_id@) ==> marked_dirty(final(self), old(self), source_id@, reason),
            !old(self).active(source_id@) ==> {
                &&& final(self).dirty_sources@ == old(self).dirty_sources@
                &&& final(self).safety_probe_sources@ == old(self).safety_probe_sources@
                &&& final(self).wake_generation == old(self).wake_generation
                &&& final(self).wake_reason == old(self).wake_reason
            },
    {
        self.force_manifest_audit_sources.insert(source_id.to_owned());
        self.mark_source_dirty(source_id, reason);
    }

    /// Hand over the checkpoint requests waiting for the coordinator, in the order they were
    /// submitted, leaving none behind.
    pub fn take_pending_watcher_checkpoints(&mut self) -> (requests: Vec<RevisionBoundCheckpoint>)
        ensures
            requests@ == old(self).pending_watcher_checkpoints@,
            final(self).pending_watcher_checkpoints@ == Seq::<RevisionBoundCheckpoint>::empty(),
            final(self).sources@ == old(self).sources@,
            tokens_unchanged(final(self), old(self)),
            final(self).source_lifecycle_generations@ == old(self).source_lifecycle_generations@,
            final(self).next_lifecycle_generation == old(self).next_lifecycle_generation,
            final(self).dirty_sources@ == old(self).dirty_sources@,
            final(self).safety_probe_sources@ == old(self).safety_probe_sources@,
            final(self).pending_readiness_deltas@ == old(self).pending_readiness_deltas@,
            final(self).accepted_manifest_revisions@ == old(self).accepted_manifest_revisions@,
            final(self).force_manifest_audit_sources@ == old(self).force_manifest_audit_sources@,
            final(self).force_reanalysis_sources@ == old(self).force_reanalysis_sources@,
            final(self).quarantined_sources@ == old(self).quarantined_sources@,
            final(self).pending_retirements@ == old(self).pending_retirements@,
            final(self).wake_generation == old(self).wake_generation,
            final(self).wake_reason == old(self).wake_reason,
    {
        let mut requests: Vec<RevisionBoundCheckpoint> = Vec::new();
        std::mem::swap(&mut requests, &mut self.pending_watcher_checkpoints);
        requests
    }
}

/// The configured source a checkpoint request belongs to, while its lifecycle is current.
pub fn configured_source_for_request<D>(control: &ControlState<D>, request: &RevisionBoundCheckpoint) -> (source:
    Option<SampleSource>)
    ensures
        match source {
            Some(s) => {
                &&& control.active(request.source_id@)
                &&& control.source_lifecycle_generations@.contains_key(request.source_id@)
                &&& control.source_lifecycle_generations@[request.source_id@]
                    == request.lifecycle_generation
                &&& s == control.sources@[request.source_id@]
            },
            None => !(control.active(request.source_id@)
                && control.source_lifecycle_generations@.contains_key(request.source_id@)
                && control.source_lifecycle_generations@[request.source_id@]
                == request.lifecycle_generation),
        },
{
    let source = match control.sources.get(request.source_id.as_str()) {
        Some(source) => source,
        None => {
            return None;
        },
    };
    if !control.source_is_active(request.source_id.as_str()) {
        return None;
    }
    match control.source_lifecycle_generations.get(request.source_id.as_str()) {
        Some(generation) => {
            if *generation != request.lifecycle_generation {
                return None;
            }
        },
        None => {
            return None;
        },
    }
    Some(copy_source(source))
}

/// A manifest delta committed by a source scan.
#[derive(Clone, Copy, Debug, PartialEq, Eq, Default)]
pub struct CommittedSourceDelta {
    pub revision: u64,
}

/// How a committed delta joined the readiness work already pending for its source.
#[derive(Clone, Copy, Debug, PartialEq, Eq, Structural)]
pub enum PendingReadinessDeltaMerge {
    Merged,
    Stale,
    RevisionGap,
}

/// Readiness work pending for one source. The supervisor only needs to start an empty
/// accumulation and to merge a committed delta into it; how a delta is merged is the
/// accumulator's own business, and the supervisor's decisions hold whatever it reports.
pub trait PendingReadinessDelta: Sized {
    fn empty() -> Self;

    fn merge(&mut self, delta: &CommittedSourceDelta, reason: &'static str) -> PendingReadinessDeltaMerge;
}

/// What became of a committed delta offered to the supervisor.
#[derive(Clone, Copy, Debug, PartialEq, Eq, Structural)]
pub enum SourceDeltaQueueResult {
    Queued,
    Ignored,
    Fallback,
    Rejected,
}

pub open spec fn saturating_next_u64(value: u64) -> u64 {
    if value == u64::MAX {
        value
    } else {
        (value + 1) as u64
    }
}

pub open spec fn floor_or_zero(floor: Option<u64>) -> u64 {
    match floor {
        Some(value) => value,
        None => 0,
    }
}

/// Nothing but the dirty/safety-probe sets, the wake state and the pieces named by a step
/// changed.
pub open spec fn core_unchanged<D>(after: &ControlState<D>, before: &ControlState<D>) -> bool {
    &&& after.sources@ == before.sources@
    &&& after.source_lifecycle_generations@ == before.source_lifecycle_generations@
    &&& after.next_lifecycle_generation == before.next_lifecycle_generation
    &&& after.force_manifest_audit_sources@ == before.force_manifest_audit_sources@
    &&& after.force_reanalysis_sources@ == before.force_reanalysis_sources@
    &&& after.quarantined_sources@ == before.quarantined_sources@
    &&& after.pending_retirements@ == before.pending_retirements@
    &&& after.pending_watcher_checkpoints@ == before.pending_watcher_checkpoints@
}

/// The source was queued for work with `reason`.
pub open spec fn marked_dirty<D>(
    after: &ControlState<D>,
    before: &ControlState<D>,
    source_id: Seq<char>,
    reason: &'static str,
) -> bool {
    &&& after.dirty_sources@ == before.dirty_sources@.insert(source_id)
    &&& after.safety_probe_sources@ == before.safety_probe_sources@.remove(source_id)
    &&& after.wake_generation == wrapping_next(before.wake_generation)
    &&& after.wake_reason == reason
}

/// The source's work token, if it holds one, was signalled. An unquarantined source then holds
/// a fresh token issued under the next serial; a quarantined one keeps its signalled token.
/// Every other token is unchanged.
pub open spec fn work_cancelled<D>(after: &ControlState<D>, before: &ControlState<D>, source_id: Seq<char>) -> bool {
    let tokens = before.source_work_cancels@;
    if !tokens.contains_key(source_id) {
        tokens_unchanged(after, before)
    } else {
        &&& after.signalled_work_tokens@ == before.signalled_work_tokens@.insert(
            tokens[source_id].serial@,
        )
        &&& if before.quarantined_sources@.contains(source_id) {
            &&& after.source_work_cancels@ == tokens
            &&& after.issued_work_tokens@ == before.issued_work_tokens@
        } else {
            &&& after.source_work_cancels@.dom() == tokens.dom()
            &&& after.source_work_cancels@[source_id].serial@ == before.issued_work_tokens@
            &&& after.issued_work_tokens@ == before.issued_work_tokens@ + 1
            &&& forall|other: Seq<char>| #[trigger]
                after.source_work_cancels@.contains_key(other) && other != source_id
                    ==> after.source_work_cancels@[other] == tokens[other]
        }
    }
}

/// Neither the queued work nor the wake state changed.
pub open spec fn work_unchanged<D>(after: &ControlState<D>, before: &ControlState<D>) -> bool {
    &&& after.dirty_sources@ == before.dirty_sources@
    &&& after.safety_probe_sources@ == before.safety_probe_sources@
    &&& after.wake_generation == before.wake_generation
    &&& after.wake_reason == before.wake_reason
    &&& tokens_unchanged(after, before)
}

impl<D: PendingReadinessDelta> ControlState<D> {
    /// Whether the delta belongs to the source's current, active lifecycle.
    pub open spec fn delta_lifecycle_current(&self, source_id: Seq<char>, lifecycle_generation: u64) -> bool {
        &&& self.active(source_id)
        &&& self.source_lifecycle_generations@.contains_key(source_id)
        &&& self.source_lifecycle_generations@[source_id] == lifecycle_generation
    }

    /// Offer a committed delta to the supervisor.
    ///
    /// A delta of a stale or inactive lifecycle is rejected. Against the accepted fence of the
    /// same lifecycle, a delta at or below the accepted revision or the recovery floor is
    /// ignored; a delta that skips a revision, or any delta while a recovery is pending, drops
    /// the pending readiness work, raises the recovery floor, cancels the source's work and
    /// queues a full reconciliation. Otherwise the delta is merged into the pending readiness
    /// work: a revision gap falls back the same way, a stale delta is ignored, and a merged
    /// delta queues the source.
    pub fn queue_source_delta(
        &mut self,
        source_id: &str,
        lifecycle_generation: u64,
        delta: &CommittedSourceDelta,
        reason: &'static str,
    ) -> (result: SourceDeltaQueueResult)
        ensures
            core_unchanged(final(self), old(self)),
            old(self).work_tokens_wf() ==> final(self).work_tokens_wf(),
            ({
                let id = source_id@;
                let revision = delta.revision;
                let accepted = old(self).accepted_manifest_revisions@;
                let fenced = accepted.contains_key(id) && accepted[id].lifecycle_generation
                    == lifecycle_generation;
                let fence = accepted[id];
                if !old(self).delta_lifecycle_current(id, lifecycle_generation) {
                    &&& result == SourceDeltaQueueResult::Rejected
                    &&& same_except_wake(final(self), old(self))
                    &&& work_unchanged(final(self), old(self))
                } else if fenced && (revision <= fence.revision || (fence.recovery_floor is Some
                    && revision <= fence.recovery_floor->0)) {
                    &&& result == SourceDeltaQueueResult::Ignored
                    &&& same_except_wake(final(self), old(self))
                    &&& work_unchanged(final(self), old(self))
                } else if fenced && fence.recovery_floor is None && revision > saturating_next_u64(
                    fence.revision,
                ) {
                    &&& result == SourceDeltaQueueResult::Fallback
                    &&& final(self).pending_readiness_deltas@ == old(
                        self,
                    ).pending_readiness_deltas@.remove(id)
                    &&& final(self).accepted_manifest_revisions@ == accepted.insert(
                        id,
                        AcceptedManifestRevision { recovery_floor: Some(revision), ..fence },
                    )
                    &&& work_cancelled(final(self), old(self), id)
                    &&& marked_dirty(final(self), old(self), id, "source_delta_revision_gap")
                } else if fenced && fence.recovery_floor is Some {
                    &&& result == SourceDeltaQueueResult::Fallback
                    &&& final(self).pending_readiness_deltas@ == old(
                        self,
                    ).pending_readiness_deltas@.remove(id)
                    &&& final(self).accepted_manifest_revisions@ == accepted.insert(
                        id,
                        AcceptedManifestRevision {
                            recovery_floor: Some(max_u64(fence.recovery_floor->0, revision)),
                            ..fence
                        },
                    )
                    &&& work_cancelled(final(self), old(self), id)
                    &&& marked_dirty(final(self), old(self), id, "source_delta_recovery_pending")
                } else {
                    let previous = if accepted.contains_key(id) {
                        accepted[id]
                    } else {
                        AcceptedManifestRevision {
                            lifecycle_generation,
                            revision: 0,
                            recovery_floor: None,
                        }
                    };
                    &&& result != SourceDeltaQueueResult::Rejected
                    &&& result == SourceDeltaQueueResult::Fallback ==> {
                        &&& final(self).pending_readiness_deltas@ == old(
                            self,
                        ).pending_readiness_deltas@.remove(id)
                        &&& final(self).accepted_manifest_revisions@ == accepted.insert(
                            id,
                            AcceptedManifestRevision {
                                lifecycle_generation,
                                revision: previous.revision,
                                recovery_floor: Some(
                                    max_u64(floor_or_zero(previous.recovery_floor), revision),
                                ),
                            },
                        )
                        &&& work_cancelled(final(self), old(self), id)
                        &&& marked_dirty(final(self), old(self), id, "source_delta_revision_gap")
                    }
                    &&& result == SourceDeltaQueueResult::Ignored ==> {
                        &&& final(self).pending_readiness_deltas@.dom() == old(
                            self,
                        ).pending_readiness_deltas@.dom().insert(id)
                        &&& final(self).accepted_manifest_revisions@ == accepted
                        &&& work_unchanged(final(self), old(self))
                    }
                    &&& result == SourceDeltaQueueResult::Queued ==> {
                        &&& final(self).pending_readiness_deltas@.dom() == old(
                            self,
                        ).pending_readiness_deltas@.dom().insert(id)
                        &&& final(self).accepted_manifest_revisions@ == accepted
                        &&& tokens_unchanged(final(self), old(self))
                        &&& marked_dirty(final(self), old(self), id, reason)
                    }
                }
            }),
    {
        let ghost start = *self;
        if !self.source_is_active(source_id) {
            return SourceDeltaQueueResult::Rejected;
        }
        match self.source_lifecycle_generations.get(source_id) {
            Some(generation) => {
                if *generation != lifecycle_generation {
                    return SourceDeltaQueueResult::Rejected;
                }
            },
            None => {
                return SourceDeltaQueueResult::Rejected;
            },
        }
        let existing = match self.accepted_manifest_revisions.get(source_id) {
            Some(fence) => Some(*fence),
            None => None,
        };
        if let Some(fence) = existing {
            if fence.lifecycle_generation == lifecycle_generation {
                let below_floor = match fence.recovery_floor {
                    Some(floor) => delta.revision <= floor,
                    None => false,
                };
                if delta.revision <= fence.revision || below_floor {
                    return SourceDeltaQueueResult::Ignored;
                }
                if fence.recovery_floor.is_none() && delta.revision > fence.revision.saturating_add(
                    1,
                ) {
                    self.pending_readiness_deltas.remove(source_id);
                    self.accepted_manifest_revisions.insert(
                        source_id.to_owned(),
                        AcceptedManifestRevision { recovery_floor: Some(delta.revision), ..fence },
                    );
                    self.cancel_source_work(source_id);
                    self.mark_source_dirty(source_id, "source_delta_revision_gap");
                    return SourceDeltaQueueResult::Fallback;
                }
                if let Some(floor) = fence.recovery_floor {
                    self.pending_readiness_deltas.remove(source_id);
                    let raised = if floor >= delta.revision {
                        floor
                    } else {
                        delta.revision
                    };
                    self.accepted_manifest_revisions.insert(
                        source_id.to_owned(),
                        AcceptedManifestRevision { recovery_floor: Some(raised), ..fence },
                    );
                    self.cancel_source_work(source_id);
                    self.mark_source_dirty(source_id, "source_delta_recovery_pending");
                    return SourceDeltaQueueResult::Fallback;
                }
            }
        }
        let mut pending = match self.pending_readiness_deltas.take(source_id) {
            Some(pending) => pending,
            None => D::empty(),
        };
        let merge = pending.merge(delta, reason);
        self.pending_readiness_deltas.insert(source_id.to_owned(), pending);
        if merge == PendingReadinessDeltaMerge::RevisionGap {
            self.pending_readiness_deltas.remove(source_id);
            self.cancel_source_work(source_id);
            let previous = match existing {
                Some(fence) => fence,
                None => AcceptedManifestRevision {
                    lifecycle_generation,
                    revision: 0,
                    recovery_floor: None,
                },
            };
            let floor = match previous.recovery_floor {
                Some(floor) => floor,
                None => 0,
            };
            let raised = if floor >= delta.revision {
                floor
            } else {
                delta.revision
            };
            self.accepted_manifest_revisions.insert(
                source_id.to_owned(),
                AcceptedManifestRevision {
                    lifecycle_generation,
                    revision: previous.revision,
                    recovery_floor: Some(raised),
                },
            );
            self.mark_source_dirty(source_id, "source_delta_revision_gap");
            return SourceDeltaQueueResult::Fallback;
        }
        if merge == PendingReadinessDeltaMerge::Stale {
            return SourceDeltaQueueResult::Ignored;
        }
        self.mark_source_dirty(source_id, reason);
        SourceDeltaQueueResult::Queued
    }
}

} // verus!
