//! Watcher-owned first-in first-out transport for exact source-audit requests.
//!
//! Requests with one source / root / watcher-generation identity are covered into the entry
//! already queued for it, so the queue never holds two entries of one identity. The capacity is
//! supplied by the admission owner. When the queue is full, a request backed by a retained
//! uncertainty marker may displace the oldest fallback request; every request that cannot be
//! kept latches the conservative recovery flag, which only an explicit clear resets.
use vstd::prelude::*;

verus! {

/// Where [`PendingSourceAuditRequests::insert`] put a request.
#[derive(Clone, Copy, Debug, PartialEq, Eq, Structural)]
pub enum AuditRequestQueueOutcome {
    Queued,
    Coalesced,
    QueuedAfterDroppingFallback,
    FallbackCouldNotFit,
    MarkerCouldNotFit,
}

/// The identity under which audit requests coalesce.
#[derive(Clone, Debug)]
pub struct AuditRequestIdentity {
    pub source_id: String,
    pub root_identity: String,
    pub generation: u64,
}

/// Mathematical value of an [`AuditRequestIdentity`].
pub type IdentityModel = (Seq<char>, Seq<char>, u64);

impl View for AuditRequestIdentity {
    type V = IdentityModel;

    open spec fn view(&self) -> IdentityModel {
        (self.source_id@, self.root_identity@, self.generation)
    }
}

/// Whether two identities are the same.
pub fn same_audit_identity(left: &AuditRequestIdentity, right: &AuditRequestIdentity) -> (same:
    bool)
    ensures
        same == (left@ == right@),
{
    left.generation == right.generation && left.source_id == right.source_id
        && left.root_identity == right.root_identity
}

/// One queued request with its identity and whether a retained uncertainty marker backs it.
pub struct PendingSourceAuditRequest<R> {
    pub identity: AuditRequestIdentity,
    pub request: R,
    pub marker_backed: bool,
}

/// Mathematical value of a [`PendingSourceAuditRequest`].
pub struct AuditEntryModel<R> {
    pub identity: IdentityModel,
    pub request: R,
    pub marker_backed: bool,
}

impl<R> View for PendingSourceAuditRequest<R> {
    type V = AuditEntryModel<R>;

    open spec fn view(&self) -> AuditEntryModel<R> {
        AuditEntryModel {
            identity: self.identity@,
            request: self.request,
            marker_backed: self.marker_backed,
        }
    }
}

/// Mathematical value of a [`PendingSourceAuditRequests`] queue.
#[verifier::ext_equal]
pub struct AuditQueueModel<R> {
    pub entries: Seq<AuditEntryModel<R>>,
    pub capacity: nat,
    pub latched: bool,
}

/// The first-in first-out queue of audit requests.
pub struct PendingSourceAuditRequests<R> {
    entries: Vec<PendingSourceAuditRequest<R>>,
    capacity: usize,
    conservative_recovery_latched: bool,
}

/// The models of a sequence of entries, in order.
pub open spec fn entry_models<R>(entries: Seq<PendingSourceAuditRequest<R>>) -> Seq<
    AuditEntryModel<R>,
> {
    entries.map_values(|entry: PendingSourceAuditRequest<R>| entry@)
}

/// No two entries share an identity.
pub open spec fn distinct_identities<R>(entries: Seq<AuditEntryModel<R>>) -> bool {
    forall|i: int, j: int|
        0 <= i < entries.len() && 0 <= j < entries.len() && i != j ==> #[trigger] entries[i].identity
            != #[trigger] entries[j].identity
}

/// Whether some entry has the identity.
pub open spec fn holds_identity<R>(entries: Seq<AuditEntryModel<R>>, identity: IdentityModel) -> bool {
    exists|i: int| 0 <= i < entries.len() && #[trigger] entries[i].identity == identity
}

/// The position of the entry with the identity, where one holds it.
pub open spec fn identity_index<R>(entries: Seq<AuditEntryModel<R>>, identity: IdentityModel) -> int {
    choose|i: int| 0 <= i < entries.len() && #[trigger] entries[i].identity == identity
}

/// Whether some entry is not backed by a marker.
pub open spec fn holds_fallback<R>(entries: Seq<AuditEntryModel<R>>) -> bool {
    exists|i: int| 0 <= i < entries.len() && !#[trigger] entries[i].marker_backed
}

/// The position of the oldest entry that is not backed by a marker.
pub open spec fn first_fallback_index<R>(entries: Seq<AuditEntryModel<R>>) -> int
    decreases entries.len(),
{
    if entries.len() == 0 {
        0
    } else if !entries[0].marker_backed {
        0
    } else {
        1 + first_fallback_index(entries.drop_first())
    }
}

/// A queue is well formed when it holds no more entries than its capacity and no identity twice.
pub open spec fn queue_wf<R>(queue: AuditQueueModel<R>) -> bool {
    &&& queue.entries.len() <= queue.capacity
    &&& distinct_identities(queue.entries)
}

/// The queue after `insert`, and the outcome, where `covered` is what covering the held request
/// of the same identity with the new one gave (it is only read when that identity is held).
pub open spec fn insert_result<R>(
    queue: AuditQueueModel<R>,
    identity: IdentityModel,
    request: R,
    marker_backed: bool,
    covered: R,
) -> (AuditQueueModel<R>, AuditRequestQueueOutcome) {
    let entries = queue.entries;
    let fresh = AuditEntryModel { identity, request, marker_backed };
    if holds_identity(entries, identity) {
        let i = identity_index(entries, identity);
        let merged = AuditEntryModel {
            identity: entries[i].identity,
            request: covered,
            marker_backed: entries[i].marker_backed || marker_backed,
        };
        (AuditQueueModel { entries: entries.update(i, merged), ..queue }, AuditRequestQueueOutcome::Coalesced)
    } else if entries.len() < queue.capacity {
        (AuditQueueModel { entries: entries.push(fresh), ..queue }, AuditRequestQueueOutcome::Queued)
    } else if marker_backed && holds_fallback(entries) {
        (
            AuditQueueModel {
                entries: entries.remove(first_fallback_index(entries)).push(fresh),
                latched: true,
                ..queue
            },
            AuditRequestQueueOutcome::QueuedAfterDroppingFallback,
        )
    } else if marker_backed {
        (AuditQueueModel { latched: true, ..queue }, AuditRequestQueueOutcome::MarkerCouldNotFit)
    } else {
        (AuditQueueModel { latched: true, ..queue }, AuditRequestQueueOutcome::FallbackCouldNotFit)
    }
}

/// The request held under the identity, where one is held.
pub open spec fn held_request<R>(queue: AuditQueueModel<R>, identity: IdentityModel) -> R {
    queue.entries[identity_index(queue.entries, identity)].request
}

/// The items whose flag in `keep` equals `want`, in their order.
pub open spec fn select_by<T>(items: Seq<T>, keep: Seq<bool>, want: bool) -> Seq<T>
    decreases items.len(),
{
    if items.len() == 0 || keep.len() == 0 {
        Seq::empty()
    } else {
        let rest = select_by(items.drop_last(), keep.drop_last(), want);
        if keep.last() == want {
            rest.push(items.last())
        } else {
            rest
        }
    }
}

/// Selecting commutes with taking models.
proof fn lemma_select_models<R>(
    items: Seq<PendingSourceAuditRequest<R>>,
    keep: Seq<bool>,
    want: bool,
)
    requires
        items.len() == keep.len(),
    ensures
        entry_models(select_by(items, keep, want)) == select_by(entry_models(items), keep, want),
    decreases items.len(),
{
    if items.len() > 0 {
        lemma_select_models(items.drop_last(), keep.drop_last(), want);
        assert(entry_models(items).drop_last() =~= entry_models(items.drop_last()));
        let rest = select_by(items.drop_last(), keep.drop_last(), want);
        assert(entry_models(rest.push(items.last())) =~= entry_models(rest).push(items.last()@));
    } else {
        assert(entry_models(select_by(items, keep, want)) =~= select_by(
            entry_models(items),
            keep,
            want,
        ));
    }
}

/// A selection keeps no more items than it started with, and only items it started with.
proof fn lemma_select_within<T>(items: Seq<T>, keep: Seq<bool>, want: bool)
    ensures
        select_by(items, keep, want).len() <= items.len(),
        forall|a: int|
            0 <= a < select_by(items, keep, want).len() ==> items.contains(
                #[trigger] select_by(items, keep, want)[a],
            ),
    decreases items.len(),
{
    if items.len() > 0 && keep.len() > 0 {
        let rest = items.drop_last();
        lemma_select_within(rest, keep.drop_last(), want);
        let picked = select_by(items, keep, want);
        assert forall|a: int| 0 <= a < picked.len() implies items.contains(#[trigger] picked[a]) by {
            let earlier = select_by(rest, keep.drop_last(), want);
            if a < earlier.len() {
                assert(picked[a] == earlier[a]);
                assert(rest.contains(earlier[a]));
                let b = choose|b: int| 0 <= b < rest.len() && rest[b] == earlier[a];
                assert(items[b] == rest[b]);
            } else {
                assert(picked[a] == items[items.len() - 1]);
            }
        }
    }
}

/// A selection of entries with distinct identities has distinct identities.
proof fn lemma_select_distinct<R>(entries: Seq<AuditEntryModel<R>>, keep: Seq<bool>, want: bool)
    requires
        distinct_identities(entries),
    ensures
        distinct_identities(select_by(entries, keep, want)),
        select_by(entries, keep, want).len() <= entries.len(),
    decreases entries.len(),
{
    lemma_select_within(entries, keep, want);
    if entries.len() > 0 && keep.len() > 0 {
        let rest = entries.drop_last();
        assert(distinct_identities(rest)) by {
            assert forall|i: int, j: int|
                0 <= i < rest.len() && 0 <= j < rest.len() && i != j implies #[trigger] rest[i].identity
                != #[trigger] rest[j].identity by {
                assert(rest[i] == entries[i] && rest[j] == entries[j]);
            }
        }
        lemma_select_distinct(rest, keep.drop_last(), want);
        lemma_select_within(rest, keep.drop_last(), want);
        let earlier = select_by(rest, keep.drop_last(), want);
        if keep.last() == want {
            let picked = earlier.push(entries.last());
            assert forall|i: int, j: int|
                0 <= i < picked.len() && 0 <= j < picked.len() && i != j implies #[trigger] picked[i].identity
                != #[trigger] picked[j].identity by {
                let last = entries.len() - 1;
                if i == earlier.len() {
                    assert(rest.contains(earlier[j]));
                    let b = choose|b: int| 0 <= b < rest.len() && rest[b] == earlier[j];
                    assert(entries[b] == rest[b]);
                    assert(entries[b].identity != entries[last].identity);
                } else if j == earlier.len() {
                    assert(rest.contains(earlier[i]));
                    let b = choose|b: int| 0 <= b < rest.len() && rest[b] == earlier[i];
                    assert(entries[b] == rest[b]);
                    assert(entries[b].identity != entries[last].identity);
                } else {
                    assert(picked[i] == earlier[i] && picked[j] == earlier[j]);
                }
            }
        }
    }
}

/// The oldest fallback entry is at the first position that is not marker-backed.
proof fn lemma_first_fallback_index<R>(entries: Seq<AuditEntryModel<R>>, j: int)
    requires
        0 <= j < entries.len(),
        !entries[j].marker_backed,
        forall|k: int| 0 <= k < j ==> #[trigger] entries[k].marker_backed,
    ensures
        first_fallback_index(entries) == j,
    decreases j,
{
    if j > 0 {
        let rest = entries.drop_first();
        assert(entries[0].marker_backed);
        assert forall|k: int| 0 <= k < j - 1 implies #[trigger] rest[k].marker_backed by {
            assert(rest[k] == entries[k + 1]);
        }
        lemma_first_fallback_index(rest, j - 1);
    }
}

/// Under distinct identities the chosen position of a held identity is its only position.
proof fn lemma_identity_index<R>(entries: Seq<AuditEntryModel<R>>, i: int)
    requires
        distinct_identities(entries),
        0 <= i < entries.len(),
    ensures
        holds_identity(entries, entries[i].identity),
        identity_index(entries, entries[i].identity) == i,
{
    assert(holds_identity(entries, entries[i].identity));
    let k = identity_index(entries, entries[i].identity);
    if k != i {
        assert(entries[k].identity != entries[i].identity);
    }
}

/// A request backed by a retained uncertainty marker is never dropped by a later insert: its
/// identity stays queued, still marker-backed.
pub proof fn lemma_marker_backed_requests_stay_queued<R>(
    queue: AuditQueueModel<R>,
    identity: IdentityModel,
    request: R,
    marker_backed: bool,
    covered: R,
    k: int,
)
    requires
        queue_wf(queue),
        0 <= k < queue.entries.len(),
        queue.entries[k].marker_backed,
    ensures
        ({
            let after = insert_result(queue, identity, request, marker_backed, covered).0;
            &&& holds_identity(after.entries, queue.entries[k].identity)
            &&& after.entries[identity_index(after.entries, queue.entries[k].identity)].marker_backed
        }),
{
    let entries = queue.entries;
    let after = insert_result(queue, identity, request, marker_backed, covered).0;
    let target = entries[k].identity;
    if holds_identity(entries, identity) {
        let i = identity_index(entries, identity);
        assert(after.entries.len() == entries.len());
        assert(after.entries[k].identity == target);
        assert(after.entries[k].marker_backed);
        assert(distinct_identities(after.entries)) by {
            assert forall|a: int, b: int|
                0 <= a < after.entries.len() && 0 <= b < after.entries.len() && a != b implies #[trigger] after.entries[a].identity
                != #[trigger] after.entries[b].identity by {
                assert(after.entries[a].identity == entries[a].identity);
                assert(after.entries[b].identity == entries[b].identity);
            }
        }
        lemma_identity_index(after.entries, k);
    } else if entries.len() < queue.capacity {
        assert(after.entries[k] == entries[k]);
        assert(holds_identity(after.entries, target));
        let j = identity_index(after.entries, target);
        if j != k {
            if j < entries.len() {
                assert(after.entries[j] == entries[j]);
            } else {
                assert(after.entries[j].identity == identity);
                assert(holds_identity(entries, identity));
            }
        }
    } else if marker_backed && holds_fallback(entries) {
        let f = first_fallback_index(entries);
        lemma_first_fallback_is_fallback(entries);
        assert(f != k);
        let kept = entries.remove(f);
        let m = if k < f { k } else { k - 1 };
        assert(kept[m] == entries[k]);
        assert(after.entries[m] == entries[k]);
        assert(holds_identity(after.entries, target));
        let j = identity_index(after.entries, target);
        if j != m {
            if j < kept.len() {
                assert(after.entries[j] == kept[j]);
                let source = if j < f { j } else { j + 1 };
                assert(kept[j] == entries[source]);
                assert(source != k);
            } else {
                assert(after.entries[j].identity == identity);
                assert(entries[k].identity == identity);
                assert(holds_identity(entries, identity));
            }
        }
    } else {
        assert(after.entries == entries);
        lemma_identity_index(entries, k);
    }
}

/// The first fallback position of a queue that holds a fallback entry is a fallback entry.
proof fn lemma_first_fallback_is_fallback<R>(entries: Seq<AuditEntryModel<R>>)
    requires
        holds_fallback(entries),
    ensures
        0 <= first_fallback_index(entries) < entries.len(),
        !entries[first_fallback_index(entries)].marker_backed,
    decreases entries.len(),
{
    if entries[0].marker_backed {
        let rest = entries.drop_first();
        let i = choose|i: int| 0 <= i < entries.len() && !#[trigger] entries[i].marker_backed;
        assert(i > 0);
        assert(rest[i - 1] == entries[i]);
        assert(holds_fallback(rest));
        lemma_first_fallback_is_fallback(rest);
        assert(rest[first_fallback_index(rest)] == entries[first_fallback_index(rest) + 1]);
    }
}

/// The conservative recovery latch is only ever set by an insert, and it is set whenever the
/// insert drops a queued request or refuses the new one.
pub proof fn lemma_insert_latch<R>(
    queue: AuditQueueModel<R>,
    identity: IdentityModel,
    request: R,
    marker_backed: bool,
    covered: R,
)
    ensures
        ({
            let (after, outcome) = insert_result(queue, identity, request, marker_backed, covered);
            &&& queue.latched ==> after.latched
            &&& (outcome == AuditRequestQueueOutcome::QueuedAfterDroppingFallback || outcome
                == AuditRequestQueueOutcome::FallbackCouldNotFit || outcome
                == AuditRequestQueueOutcome::MarkerCouldNotFit) ==> after.latched
            &&& (outcome == AuditRequestQueueOutcome::Queued || outcome
                == AuditRequestQueueOutcome::Coalesced) ==> after.latched == queue.latched
        }),
{
}

/// Unless it is refused, an inserted request's identity is queued afterwards; a refused request
/// leaves the entries as they were.
pub proof fn lemma_inserted_identity_is_queued<R>(
    queue: AuditQueueModel<R>,
    identity: IdentityModel,
    request: R,
    marker_backed: bool,
    covered: R,
)
    ensures
        ({
            let (after, outcome) = insert_result(queue, identity, request, marker_backed, covered);
            &&& (outcome == AuditRequestQueueOutcome::FallbackCouldNotFit || outcome
                == AuditRequestQueueOutcome::MarkerCouldNotFit) ==> after.entries == queue.entries
            &&& !(outcome == AuditRequestQueueOutcome::FallbackCouldNotFit || outcome
                == AuditRequestQueueOutcome::MarkerCouldNotFit) ==> holds_identity(
                after.entries,
                identity,
            )
        }),
{
    let entries = queue.entries;
    let (after, outcome) = insert_result(queue, identity, request, marker_backed, covered);
    if holds_identity(entries, identity) {
        let i = identity_index(entries, identity);
        assert(after.entries[i].identity == identity);
    } else if entries.len() < queue.capacity {
        assert(after.entries[entries.len() as int].identity == identity);
    } else if marker_backed && holds_fallback(entries) {
        assert(after.entries[after.entries.len() - 1].identity == identity);
    }
}

impl<R> View for PendingSourceAuditRequests<R> {
    type V = AuditQueueModel<R>;

    closed spec fn view(&self) -> AuditQueueModel<R> {
        AuditQueueModel {
            entries: entry_models(self.entries@),
            capacity: self.capacity as nat,
            latched: self.conservative_recovery_latched,
        }
    }
}

impl<R> PendingSourceAuditRequests<R> {
    /// The queue is well formed.
    pub open spec fn wf(&self) -> bool {
        queue_wf(self@)
    }

    /// An empty queue of capacity zero, not latched.
    pub fn new() -> (queue: Self)
        ensures
            queue.wf(),
            queue@ == (AuditQueueModel::<R> { entries: Seq::empty(), capacity: 0, latched: false }),
    {
        let queue = PendingSourceAuditRequests {
            entries: Vec::new(),
            capacity: 0,
            conservative_recovery_latched: false,
        };
        assert(queue@.entries =~= Seq::<AuditEntryModel<R>>::empty());
        queue
    }

    /// Set the capacity; it may not fall below the number of entries held.
    pub fn set_capacity(&mut self, capacity: usize)
        requires
            old(self).wf(),
            capacity >= old(self)@.entries.len(),
        ensures
            final(self).wf(),
            final(self)@ == (AuditQueueModel { capacity: capacity as nat, ..old(self)@ }),
    {
        self.capacity = capacity;
    }

    /// The number of queued requests.
    pub fn len(&self) -> (count: usize)
        ensures
            count == self@.entries.len(),
    {
        self.entries.len()
    }

    /// Whether no request is queued.
    pub fn is_empty(&self) -> (empty: bool)
        ensures
            empty == (self@.entries.len() == 0),
    {
        self.entries.len() == 0
    }

    /// Whether a request had to be dropped or refused since the latch was last cleared.
    pub fn conservative_recovery_latched(&self) -> (latched: bool)
        ensures
            latched == self@.latched,
    {
        self.conservative_recovery_latched
    }

    /// Clear the conservative recovery latch.
    pub fn clear_conservative_recovery_latch(&mut self)
        ensures
            final(self)@ == (AuditQueueModel { latched: false, ..old(self)@ }),
    {
        self.conservative_recovery_latched = false;
    }

    /// Drop every entry and clear the latch; the capacity stays.
    pub fn clear(&mut self)
        ensures
            final(self).wf(),
            final(self)@ == (AuditQueueModel::<R> {
                entries: Seq::empty(),
                capacity: old(self)@.capacity,
                latched: false,
            }),
    {
        self.entries = Vec::new();
        self.conservative_recovery_latched = false;
        assert(self@.entries =~= Seq::<AuditEntryModel<R>>::empty());
    }

    /// The oldest queued entry.
    pub fn front(&self) -> (first: Option<&PendingSourceAuditRequest<R>>)
        ensures
            match first {
                None => self@.entries.len() == 0,
                Some(entry) => self@.entries.len() > 0 && entry@ == self@.entries[0],
            },
    {
        if self.entries.len() == 0 {
            None
        } else {
            Some(&self.entries[0])
        }
    }

    /// Queue a request under its identity.
    ///
    /// A request whose identity is already queued is covered into that entry by `cover` (held
    /// request first), which keeps its place and becomes marker-backed if either was. Otherwise
    /// the request is appended while there is room. A full queue lets a marker-backed request
    /// displace the oldest fallback entry; any request that is dropped or refused latches the
    /// conservative recovery flag.
    pub fn insert<F>(
        &mut self,
        identity: AuditRequestIdentity,
        request: R,
        marker_backed: bool,
        cover: F,
    ) -> (outcome: AuditRequestQueueOutcome) where F: Fn(&R, &R) -> R
        requires
            old(self).wf(),
            forall|held: &R, incoming: &R| cover.requires((held, incoming)),
        ensures
            final(self).wf(),
            exists|covered: R|
                {
                    &&& holds_identity(old(self)@.entries, identity@) ==> cover.ensures(
                        (&held_request(old(self)@, identity@), &request),
                        covered,
                    )
                    &&& (final(self)@, outcome) == #[trigger] insert_result(
                        old(self)@,
                        identity@,
                        request,
                        marker_backed,
                        covered,
                    )
                },
    {
        let ghost start = self@;
        let ghost id = identity@;
        let ghost incoming = request;
        let mut i: usize = 0;
        while i < self.entries.len()
            invariant
                self@ == start,
                old(self)@ == start,
                queue_wf(start),
                id == identity@,
                incoming == request,
                forall|held: &R, incoming: &R| cover.requires((held, incoming)),
                i <= self.entries@.len(),
                forall|k: int| 0 <= k < i ==> (#[trigger] start.entries[k]).identity != id,
            decreases self.entries@.len() - i,
        {
            if same_audit_identity(&self.entries[i].identity, &identity) {
                proof {
                    assert(start.entries[i as int] == self.entries@[i as int]@);
                    lemma_identity_index(start.entries, i as int);
                }
                let ghost before = self.entries@;
                let held = self.entries.remove(i);
                let covered = cover(&held.request, &request);
                let merged = PendingSourceAuditRequest {
                    identity: held.identity,
                    request: covered,
                    marker_backed: held.marker_backed || marker_backed,
                };
                self.entries.insert(i, merged);
                proof {
                    assert(held@ == start.entries[i as int]);
                    assert(held_request(start, id) == held.request);
                    assert(cover.ensures((&held_request(start, id), &incoming), covered));
                    assert(entry_models(self.entries@) =~= start.entries.update(i as int, merged@));
                    let after = self@.entries;
                    assert forall|a: int, b: int|
                        0 <= a < after.len() && 0 <= b < after.len() && a != b implies #[trigger] after[a].identity
                        != #[trigger] after[b].identity by {
                        assert(after[a].identity == start.entries[a].identity);
                        assert(after[b].identity == start.entries[b].identity);
                    }
                    assert((self@, AuditRequestQueueOutcome::Coalesced) == insert_result(
                        start,
                        id,
                        incoming,
                        marker_backed,
                        covered,
                    ));
                }
                return AuditRequestQueueOutcome::Coalesced;
            }
            i = i + 1;
        }
        proof {
            assert(!holds_identity(start.entries, id));
        }
        let fresh = PendingSourceAuditRequest { identity, request, marker_backed };
        if self.entries.len() < self.capacity {
            self.entries.push(fresh);
            proof {
                assert(entry_models(self.entries@) =~= start.entries.push(fresh@));
                let after = self@.entries;
                assert forall|a: int, b: int|
                    0 <= a < after.len() && 0 <= b < after.len() && a != b implies #[trigger] after[a].identity
                    != #[trigger] after[b].identity by {
                    if a < start.entries.len() {
                        assert(after[a] == start.entries[a]);
                    }
                    if b < start.entries.len() {
                        assert(after[b] == start.entries[b]);
                    }
                }
                assert((self@, AuditRequestQueueOutcome::Queued) == insert_result(
                    start,
                    id,
                    incoming,
                    marker_backed,
                    incoming,
                ));
            }
            return AuditRequestQueueOutcome::Queued;
        }
        if marker_backed {
            let mut j: usize = 0;
            while j < self.entries.len()
                invariant
                    self@ == start,
                    old(self)@ == start,
                    queue_wf(start),
                    !holds_identity(start.entries, id),
                    start.entries.len() >= start.capacity,
                    fresh@ == (AuditEntryModel { identity: id, request: incoming, marker_backed }),
                    id == identity@,
                    incoming == request,
                    marker_backed,
                    j <= self.entries@.len(),
                    forall|k: int| 0 <= k < j ==> (#[trigger] start.entries[k]).marker_backed,
                decreases self.entries@.len() - j,
            {
                if !self.entries[j].marker_backed {
                    proof {
                        assert(start.entries[j as int] == self.entries@[j as int]@);
                        lemma_first_fallback_index(start.entries, j as int);
                        assert(!start.entries[j as int].marker_backed);
                        assert(holds_fallback(start.entries));
                    }
                    let ghost before = self.entries@;
                    let _dropped = self.entries.remove(j);
                    self.entries.push(fresh);
                    self.conservative_recovery_latched = true;
                    proof {
                        let kept = start.entries.remove(j as int);
                        assert(entry_models(self.entries@) =~= kept.push(fresh@));
                        let after = self@.entries;
                        assert forall|a: int, b: int|
                            0 <= a < after.len() && 0 <= b < after.len() && a != b implies #[trigger] after[a].identity
                            != #[trigger] after[b].identity by {
                            if a < kept.len() {
                                assert(after[a] == kept[a]);
                                if a < j {
                                    assert(kept[a] == start.entries[a]);
                                } else {
                                    assert(kept[a] == start.entries[a + 1]);
                                }
                            }
                            if b < kept.len() {
                                assert(after[b] == kept[b]);
                                if b < j {
                                    assert(kept[b] == start.entries[b]);
                                } else {
                                    assert(kept[b] == start.entries[b + 1]);
                                }
                            }
                        }
                        assert((self@, AuditRequestQueueOutcome::QueuedAfterDroppingFallback)
                            == insert_result(start, id, incoming, marker_backed, incoming));
                    }
                    return AuditRequestQueueOutcome::QueuedAfterDroppingFallback;
                }
                j = j + 1;
            }
            self.conservative_recovery_latched = true;
            proof {
                assert(!holds_fallback(start.entries));
                assert((self@, AuditRequestQueueOutcome::MarkerCouldNotFit) == insert_result(
                    start,
                    id,
                    incoming,
                    marker_backed,
                    incoming,
                ));
            }
            return AuditRequestQueueOutcome::MarkerCouldNotFit;
        }
        self.conservative_recovery_latched = true;
        proof {
            assert((self@, AuditRequestQueueOutcome::FallbackCouldNotFit) == insert_result(
                start,
                id,
                incoming,
                marker_backed,
                incoming,
            ));
        }
        AuditRequestQueueOutcome::FallbackCouldNotFit
    }

    /// The queued entries themselves, oldest first.
    pub closed spec fn stored(&self) -> Seq<PendingSourceAuditRequest<R>> {
        self.entries@
    }

    /// The model's entries are the models of the stored entries.
    pub proof fn lemma_stored_view(&self)
        ensures
            self@.entries == entry_models(self.stored()),
    {
    }

    /// Keep the entries that `matches` accepts, in their order, and hand back the others, in
    /// their order. The capacity and the latch stay.
    pub fn purge_non_matching<F>(&mut self, matches: F) -> (displaced: Vec<
        PendingSourceAuditRequest<R>,
    >) where F: Fn(&PendingSourceAuditRequest<R>) -> bool
        requires
            old(self).wf(),
            forall|entry: &PendingSourceAuditRequest<R>| matches.requires((entry,)),
        ensures
            final(self).wf(),
            exists|keep: Seq<bool>|
                {
                    &&& keep.len() == old(self)@.entries.len()
                    &&& forall|i: int|
                        0 <= i < keep.len() ==> matches.ensures(
                            (&old(self).stored()[i],),
                            #[trigger] keep[i],
                        )
                    &&& final(self)@ == (AuditQueueModel {
                        entries: #[trigger] select_by(old(self)@.entries, keep, true),
                        ..old(self)@
                    })
                    &&& entry_models(displaced@) == select_by(old(self)@.entries, keep, false)
                },
    {
        let ghost start = self@;
        let ghost initial = self.entries@;
        let mut pending: Vec<PendingSourceAuditRequest<R>> = Vec::new();
        std::mem::swap(&mut pending, &mut self.entries);
        let mut kept: Vec<PendingSourceAuditRequest<R>> = Vec::new();
        let mut displaced: Vec<PendingSourceAuditRequest<R>> = Vec::new();
        let ghost mut keep: Seq<bool> = Seq::empty();
        while pending.len() > 0
            invariant
                forall|entry: &PendingSourceAuditRequest<R>| matches.requires((entry,)),
                keep.len() + pending@.len() == initial.len(),
                pending@ == initial.subrange(keep.len() as int, initial.len() as int),
                kept@ == select_by(initial.subrange(0, keep.len() as int), keep, true),
                displaced@ == select_by(initial.subrange(0, keep.len() as int), keep, false),
                forall|i: int|
                    0 <= i < keep.len() ==> matches.ensures((&initial[i],), #[trigger] keep[i]),
            decreases pending@.len(),
        {
            let ghost done = keep.len() as int;
            let entry = pending.remove(0);
            assert(entry == initial[done]);
            let accepted = matches(&entry);
            proof {
                let next = keep.push(accepted);
                let prefix = initial.subrange(0, done + 1);
                assert(prefix.drop_last() =~= initial.subrange(0, done));
                assert(next.drop_last() =~= keep);
                assert(prefix.last() == entry);
                keep = next;
            }
            if accepted {
                kept.push(entry);
            } else {
                displaced.push(entry);
            }
            assert(pending@ =~= initial.subrange(keep.len() as int, initial.len() as int));
        }
        assert(initial.subrange(0, keep.len() as int) =~= initial);
        self.entries = kept;
        proof {
            lemma_select_models(initial, keep, true);
            lemma_select_models(initial, keep, false);
            lemma_select_distinct(start.entries, keep, true);
            assert(self@ == (AuditQueueModel {
                entries: select_by(start.entries, keep, true),
                ..start
            }));
        }
        displaced
    }

    /// Take the oldest queued entry.
    pub fn pop_front(&mut self) -> (first: Option<PendingSourceAuditRequest<R>>)
        requires
            old(self).wf(),
        ensures
            final(self).wf(),
            match first {
                None => old(self)@.entries.len() == 0 && final(self)@ == old(self)@,
                Some(entry) => old(self)@.entries.len() > 0 && entry@ == old(self)@.entries[0]
                    && final(self)@ == (AuditQueueModel {
                    entries: old(self)@.entries.drop_first(),
                    ..old(self)@
                }),
            },
    {
        if self.entries.len() == 0 {
            None
        } else {
            let ghost before = self.entries@;
            let entry = self.entries.remove(0);
            assert(entry_models(self.entries@) =~= entry_models(before).drop_first());
            Some(entry)
        }
    }
}

/// How displaced requests are recovered: the configured sources whose requests were displaced
/// are widened one by one (once per displaced request, in order), and when any displaced request
/// names a source that is no longer configured, every configured source is recovered.
pub struct DisplacedAuditRecovery {
    pub widen: Vec<String>,
    pub recover_all: bool,
}

/// The sources of the displaced requests that are still configured, in order.
pub open spec fn widened_sources<R>(
    configured: Seq<Seq<char>>,
    displaced: Seq<AuditEntryModel<R>>,
) -> Seq<Seq<char>>
    decreases displaced.len(),
{
    if displaced.len() == 0 {
        Seq::empty()
    } else {
        let rest = widened_sources(configured, displaced.drop_last());
        let source = displaced.last().identity.0;
        if configured.contains(source) {
            rest.push(source)
        } else {
            rest
        }
    }
}

/// Whether a displaced request names a source that is not configured.
pub open spec fn displaced_source_removed<R>(
    configured: Seq<Seq<char>>,
    displaced: Seq<AuditEntryModel<R>>,
) -> bool {
    exists|i: int|
        0 <= i < displaced.len() && !configured.contains(#[trigger] displaced[i].identity.0)
}

/// The views of a list of strings.
pub open spec fn text_views(texts: Seq<String>) -> Seq<Seq<char>> {
    texts.map_values(|text: String| text@)
}

pub(crate) fn is_configured(configured: &Vec<String>, source_id: &String) -> (found: bool)
    ensures
        found == text_views(configured@).contains(source_id@),
{
    let mut i: usize = 0;
    while i < configured.len()
        invariant
            i <= configured@.len(),
            forall|k: int| 0 <= k < i ==> (#[trigger] configured@[k])@ != source_id@,
        decreases configured@.len() - i,
    {
        if configured[i] == *source_id {
            assert(text_views(configured@)[i as int] == source_id@);
            return true;
        }
        i = i + 1;
    }
    proof {
        if text_views(configured@).contains(source_id@) {
            let k = choose|k: int|
                0 <= k < text_views(configured@).len() && text_views(configured@)[k] == source_id@;
            assert(configured@[k]@ == source_id@);
        }
    }
    false
}

/// Decide how to recover the requests that a purge displaced, given the configured source ids.
pub fn displaced_audit_recovery<R>(
    configured: &Vec<String>,
    displaced: &Vec<PendingSourceAuditRequest<R>>,
) -> (recovery: DisplacedAuditRecovery)
    ensures
        text_views(recovery.widen@) == widened_sources(
            text_views(configured@),
            entry_models(displaced@),
        ),
        recovery.recover_all == displaced_source_removed(
            text_views(configured@),
            entry_models(displaced@),
        ),
{
    let ghost ids = text_views(configured@);
    let ghost all = entry_models(displaced@);
    let mut widen: Vec<String> = Vec::new();
    let mut recover_all = false;
    let mut i: usize = 0;
    while i < displaced.len()
        invariant
            ids == text_views(configured@),
            all == entry_models(displaced@),
            i <= displaced@.len(),
            text_views(widen@) == widened_sources(ids, all.subrange(0, i as int)),
            recover_all == displaced_source_removed(ids, all.subrange(0, i as int)),
        decreases displaced@.len() - i,
    {
        let ghost prefix = all.subrange(0, i as int + 1);
        proof {
            assert(prefix.drop_last() =~= all.subrange(0, i as int));
            assert(prefix.last() == displaced@[i as int]@);
        }
        let source = &displaced[i].identity.source_id;
        if is_configured(configured, source) {
            let ghost before = widen@;
            widen.push(source.clone());
            assert(text_views(widen@) =~= text_views(before).push(source@));
        } else {
            recover_all = true;
            assert(!ids.contains(prefix[i as int].identity.0));
        }
        proof {
            let earlier = all.subrange(0, i as int);
            if displaced_source_removed(ids, earlier) {
                let k = choose|k: int|
                    0 <= k < earlier.len() && !ids.contains(#[trigger] earlier[k].identity.0);
                assert(prefix[k] == earlier[k]);
            }
            if displaced_source_removed(ids, prefix) && !recover_all {
                let k = choose|k: int|
                    0 <= k < prefix.len() && !ids.contains(#[trigger] prefix[k].identity.0);
                if k < i {
                    assert(prefix[k] == earlier[k]);
                }
            }
        }
        i = i + 1;
    }
    assert(all.subrange(0, displaced@.len() as int) =~= all);
    DisplacedAuditRecovery { widen, recover_all }
}

impl<R> Default for PendingSourceAuditRequests<R> {
    /// An empty queue of capacity zero, not latched.
    fn default() -> (queue: Self)
        ensures
            queue.wf(),
            queue@ == (AuditQueueModel::<R> { entries: Seq::empty(), capacity: 0, latched: false }),
    {
        Self::new()
    }
}

} // verus!
