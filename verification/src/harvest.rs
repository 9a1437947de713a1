//! Coalescing queue for "harvest touched" persistence requests.
//!
//! One entry is kept per (source, relative path). A newer request for a key replaces the older
//! one and receives a newer revision; a completion only acts on the entry it was claimed for,
//! so a stale completion can never remove its replacement. The queue holds at most
//! [`HARVEST_TOUCHED_QUEUE_CAPACITY`] entries, pending and in-flight alike, and hands work out
//! in first-in first-out batches of at most [`HARVEST_TOUCHED_BATCH_LIMIT`] entries.
use vstd::prelude::*;

verus! {

/// Entries the queue holds at most, pending and in flight together.
pub const HARVEST_TOUCHED_QUEUE_CAPACITY: usize = 64;

/// Entries one batch claims at most.
pub const HARVEST_TOUCHED_BATCH_LIMIT: usize = 32;

/// A request to persist that a sample was touched by a harvest.
#[derive(Clone, Debug, PartialEq, Eq)]
pub struct HarvestTouchedPersistRequest {
    pub file_id: String,
    pub source_id: String,
    pub source_root: String,
    pub relative_path: String,
}

/// Mathematical value of a [`HarvestTouchedPersistRequest`].
#[verifier::ext_equal]
pub struct RequestModel {
    pub file_id: Seq<char>,
    pub source_id: Seq<char>,
    pub source_root: Seq<char>,
    pub relative_path: Seq<char>,
}

impl View for HarvestTouchedPersistRequest {
    type V = RequestModel;

    open spec fn view(&self) -> RequestModel {
        RequestModel {
            file_id: self.file_id@,
            source_id: self.source_id@,
            source_root: self.source_root@,
            relative_path: self.relative_path@,
        }
    }
}

/// The coalescing key: one entry per source and relative path.
#[derive(Clone, Debug, PartialEq, Eq, Hash)]
pub struct HarvestTouchedPersistKey {
    pub source_id: String,
    pub relative_path: String,
}

pub type KeyModel = (Seq<char>, Seq<char>);

impl View for HarvestTouchedPersistKey {
    type V = KeyModel;

    open spec fn view(&self) -> KeyModel {
        (self.source_id@, self.relative_path@)
    }
}

pub open spec fn key_of(request: RequestModel) -> KeyModel {
    (request.source_id, request.relative_path)
}

impl HarvestTouchedPersistKey {
    /// The key a request coalesces under.
    pub fn from_request(request: &HarvestTouchedPersistRequest) -> (key: Self)
        ensures
            key@ == key_of(request@),
            key.source_id@ == request.source_id@,
            key.relative_path@ == request.relative_path@,
    {
        HarvestTouchedPersistKey {
            source_id: request.source_id.clone(),
            relative_path: request.relative_path.clone(),
        }
    }
}

fn copy_key(key: &HarvestTouchedPersistKey) -> (copy: HarvestTouchedPersistKey)
    ensures
        copy@ == key@,
{
    HarvestTouchedPersistKey {
        source_id: key.source_id.clone(),
        relative_path: key.relative_path.clone(),
    }
}

fn copy_request(request: &HarvestTouchedPersistRequest) -> (copy: HarvestTouchedPersistRequest)
    ensures
        copy@ == request@,
{
    HarvestTouchedPersistRequest {
        file_id: request.file_id.clone(),
        source_id: request.source_id.clone(),
        source_root: request.source_root.clone(),
        relative_path: request.relative_path.clone(),
    }
}

fn same_key(left: &HarvestTouchedPersistKey, right: &HarvestTouchedPersistKey) -> (same: bool)
    ensures
        same == (left@ == right@),
{
    left.source_id == right.source_id && left.relative_path == right.relative_path
}

/// Result of an enqueue.
#[derive(Clone, Copy, Debug, PartialEq, Eq, Structural)]
pub enum HarvestTouchedPersistAdmission {
    Queued,
    Replaced,
    Saturated,
}

/// Whether an entry waits for a batch or has been claimed by one.
#[derive(Clone, Copy, Debug, PartialEq, Eq, Structural)]
pub enum HarvestTouchedPersistEntryState {
    Pending,
    InFlight,
}

/// The latest request for a key, with its revision.
pub struct HarvestTouchedPersistEntry {
    pub request: HarvestTouchedPersistRequest,
    pub revision: u64,
    pub state: HarvestTouchedPersistEntryState,
    pub retry_blocked: bool,
}

#[verifier::ext_equal]
pub struct EntryModel {
    pub request: RequestModel,
    pub revision: u64,
    pub state: HarvestTouchedPersistEntryState,
    pub retry_blocked: bool,
}

impl View for HarvestTouchedPersistEntry {
    type V = EntryModel;

    open spec fn view(&self) -> EntryModel {
        EntryModel {
            request: self.request@,
            revision: self.revision,
            state: self.state,
            retry_blocked: self.retry_blocked,
        }
    }
}

/// One claimed unit of work.
#[derive(Clone, Debug, PartialEq, Eq)]
pub struct HarvestTouchedPersistWork {
    pub key: HarvestTouchedPersistKey,
    pub request: HarvestTouchedPersistRequest,
    pub revision: u64,
}

#[verifier::ext_equal]
pub struct WorkModel {
    pub key: KeyModel,
    pub request: RequestModel,
    pub revision: u64,
}

impl View for HarvestTouchedPersistWork {
    type V = WorkModel;

    open spec fn view(&self) -> WorkModel {
        WorkModel { key: self.key@, request: self.request@, revision: self.revision }
    }
}

/// What persisting one request produced.
#[derive(Debug, PartialEq, Eq)]
pub struct HarvestTouchedPersistResult {
    pub file_id: String,
    pub result: Result<(), String>,
}

/// The completion of one claimed unit of work; `result` is `None` when the work was skipped
/// because it was no longer current.
#[derive(Debug, PartialEq, Eq)]
pub struct HarvestTouchedPersistBatchItem {
    pub key: HarvestTouchedPersistKey,
    pub revision: u64,
    pub result: Option<HarvestTouchedPersistResult>,
}

pub open spec fn item_succeeded(item: HarvestTouchedPersistBatchItem) -> bool {
    item.result is Some && item.result->0.result is Ok
}

/// Mathematical value of the queue.
#[verifier::ext_equal]
pub struct QueueModel {
    pub entries: Map<KeyModel, EntryModel>,
    pub order: Seq<KeyModel>,
    pub next_revision: u64,
    pub closed: bool,
}

pub type StoredEntry = (HarvestTouchedPersistKey, HarvestTouchedPersistEntry);

pub open spec fn stored_keys(stored: Seq<StoredEntry>) -> Seq<KeyModel> {
    stored.map_values(|pair: StoredEntry| pair.0@)
}

pub open spec fn stored_map(stored: Seq<StoredEntry>) -> Map<KeyModel, EntryModel> {
    Map::new(
        |key: KeyModel| stored_keys(stored).contains(key),
        |key: KeyModel| stored[stored_keys(stored).index_of(key)].1@,
    )
}

/// The queue of pending and in-flight entries.
pub struct HarvestTouchedPersistQueue {
    entries: Vec<StoredEntry>,
    order: Vec<HarvestTouchedPersistKey>,
    next_revision: u64,
    closed: bool,
}

impl View for HarvestTouchedPersistQueue {
    type V = QueueModel;

    closed spec fn view(&self) -> QueueModel {
        QueueModel {
            entries: stored_map(self.entries@),
            order: self.order@.map_values(|key: HarvestTouchedPersistKey| key@),
            next_revision: self.next_revision,
            closed: self.closed,
        }
    }
}

/// `revision` was handed out while the counter stood at or below `next_revision`.
pub open spec fn revision_issued(revision: u64, next_revision: u64) -> bool {
    revision < next_revision || next_revision == u64::MAX
}

pub open spec fn saturating_next(revision: u64) -> u64 {
    if revision == u64::MAX {
        revision
    } else {
        (revision + 1) as u64
    }
}

/// The entry a request becomes when it is admitted with `revision`.
pub open spec fn admitted_entry(request: RequestModel, revision: u64) -> EntryModel {
    EntryModel {
        request,
        revision,
        state: HarvestTouchedPersistEntryState::Pending,
        retry_blocked: false,
    }
}

/// The enqueue rule. A closed queue refuses everything and stays as it is. Otherwise the next
/// revision is taken; an existing key is replaced in place (and re-queued if it was in flight
/// or blocked); a new key is queued at the back when there is room, and refused otherwise.
pub open spec fn enqueue_model(queue: QueueModel, request: RequestModel) -> (
    QueueModel,
    HarvestTouchedPersistAdmission,
) {
    let key = key_of(request);
    let revision = queue.next_revision;
    let advanced = QueueModel { next_revision: saturating_next(revision), ..queue };
    if queue.closed {
        (queue, HarvestTouchedPersistAdmission::Saturated)
    } else if queue.entries.contains_key(key) {
        let previous = queue.entries[key];
        let requeue = previous.state == HarvestTouchedPersistEntryState::InFlight
            || previous.retry_blocked;
        (
            QueueModel {
                entries: queue.entries.insert(key, admitted_entry(request, revision)),
                order: if requeue {
                    queue.order.push(key)
                } else {
                    queue.order
                },
                ..advanced
            },
            HarvestTouchedPersistAdmission::Replaced,
        )
    } else if queue.entries.dom().len() >= HARVEST_TOUCHED_QUEUE_CAPACITY {
        (advanced, HarvestTouchedPersistAdmission::Saturated)
    } else {
        (
            QueueModel {
                entries: queue.entries.insert(key, admitted_entry(request, revision)),
                order: queue.order.push(key),
                ..advanced
            },
            HarvestTouchedPersistAdmission::Queued,
        )
    }
}

pub open spec fn claimable(entries: Map<KeyModel, EntryModel>, key: KeyModel) -> bool {
    entries.contains_key(key) && entries[key].state == HarvestTouchedPersistEntryState::Pending
        && !entries[key].retry_blocked
}

/// The batch rule: walk the order from the front, dropping every key it passes, and claim each
/// pending, unblocked entry (marking it in flight) until the batch is full or the order is empty.
pub open spec fn claim_model(
    entries: Map<KeyModel, EntryModel>,
    order: Seq<KeyModel>,
    claimed: Seq<WorkModel>,
) -> (Seq<WorkModel>, Map<KeyModel, EntryModel>, Seq<KeyModel>)
    decreases order.len(),
{
    if claimed.len() >= HARVEST_TOUCHED_BATCH_LIMIT || order.len() == 0 {
        (claimed, entries, order)
    } else {
        let key = order[0];
        if claimable(entries, key) {
            let entry = entries[key];
            claim_model(
                entries.insert(
                    key,
                    EntryModel { state: HarvestTouchedPersistEntryState::InFlight, ..entry },
                ),
                order.drop_first(),
                claimed.push(WorkModel { key, request: entry.request, revision: entry.revision }),
            )
        } else {
            claim_model(entries, order.drop_first(), claimed)
        }
    }
}

/// The acknowledgement rule: only the in-flight entry of the same revision is affected; a
/// success removes it, anything else puts it back as pending, blocked from immediate retry, at
/// the back of the order.
pub open spec fn acknowledge_model(queue: QueueModel, item: HarvestTouchedPersistBatchItem) -> QueueModel {
    let key = item.key@;
    if !queue.entries.contains_key(key) || queue.entries[key].revision != item.revision
        || queue.entries[key].state != HarvestTouchedPersistEntryState::InFlight {
        queue
    } else if item_succeeded(item) {
        QueueModel { entries: queue.entries.remove(key), ..queue }
    } else {
        QueueModel {
            entries: queue.entries.insert(
                key,
                EntryModel {
                    state: HarvestTouchedPersistEntryState::Pending,
                    retry_blocked: true,
                    ..queue.entries[key]
                },
            ),
            order: queue.order.push(key),
            ..queue
        }
    }
}

pub open spec fn blocked_entry(entry: EntryModel) -> EntryModel {
    EntryModel { state: HarvestTouchedPersistEntryState::Pending, retry_blocked: true, ..entry }
}

pub open spec fn without_key(order: Seq<KeyModel>, key: KeyModel) -> Seq<KeyModel> {
    order.filter(|candidate: KeyModel| candidate != key)
}

// ----- lemmas about the stored entries -----

proof fn lemma_stored_lookup(stored: Seq<StoredEntry>, i: int)
    requires
        stored_keys(stored).no_duplicates(),
        0 <= i < stored.len(),
    ensures
        stored_map(stored).contains_key(stored[i].0@),
        stored_map(stored)[stored[i].0@] == stored[i].1@,
{
    let keys = stored_keys(stored);
    assert(keys[i] == stored[i].0@);
    assert(keys.contains(stored[i].0@));
    let j = keys.index_of(stored[i].0@);
    assert(keys[j] == stored[i].0@);
}

proof fn lemma_stored_push(stored: Seq<StoredEntry>, pair: StoredEntry)
    requires
        stored_keys(stored).no_duplicates(),
        !stored_keys(stored).contains(pair.0@),
    ensures
        stored_keys(stored.push(pair)).no_duplicates(),
        stored_map(stored.push(pair)) =~= stored_map(stored).insert(pair.0@, pair.1@),
{
    let after = stored.push(pair);
    assert(stored_keys(after) =~= stored_keys(stored).push(pair.0@));
    assert forall|key: KeyModel| #[trigger] stored_map(after).contains_key(key) implies stored_map(
        stored,
    ).insert(pair.0@, pair.1@).contains_key(key) by {
        let i = stored_keys(after).index_of(key);
        if i < stored.len() {
            assert(stored_keys(stored)[i] == key);
        }
    }
    assert forall|key: KeyModel| #[trigger] stored_map(stored).insert(pair.0@, pair.1@).contains_key(key)
        implies stored_map(after).contains_key(key) && stored_map(after)[key] == stored_map(
        stored,
    ).insert(pair.0@, pair.1@)[key] by {
        if key == pair.0@ {
            lemma_stored_lookup(after, stored.len() as int);
        } else {
            let i = stored_keys(stored).index_of(key);
            lemma_stored_lookup(stored, i);
            assert(after[i] == stored[i]);
            lemma_stored_lookup(after, i);
        }
    }
}

proof fn lemma_stored_update(stored: Seq<StoredEntry>, i: int, pair: StoredEntry)
    requires
        stored_keys(stored).no_duplicates(),
        0 <= i < stored.len(),
        pair.0@ == stored[i].0@,
    ensures
        stored_keys(stored.update(i, pair)) == stored_keys(stored),
        stored_map(stored.update(i, pair)) =~= stored_map(stored).insert(pair.0@, pair.1@),
{
    let after = stored.update(i, pair);
    assert(stored_keys(after) =~= stored_keys(stored));
    assert forall|key: KeyModel| #[trigger] stored_map(stored).insert(pair.0@, pair.1@).contains_key(key)
        implies stored_map(after).contains_key(key) && stored_map(after)[key] == stored_map(
        stored,
    ).insert(pair.0@, pair.1@)[key] by {
        if key == pair.0@ {
            lemma_stored_lookup(after, i);
        } else {
            let j = stored_keys(stored).index_of(key);
            lemma_stored_lookup(stored, j);
            assert(after[j] == stored[j]);
            lemma_stored_lookup(after, j);
        }
    }
}

proof fn lemma_stored_remove(stored: Seq<StoredEntry>, i: int)
    requires
        stored_keys(stored).no_duplicates(),
        0 <= i < stored.len(),
    ensures
        stored_keys(stored.remove(i)).no_duplicates(),
        stored_map(stored.remove(i)) =~= stored_map(stored).remove(stored[i].0@),
{
    let after = stored.remove(i);
    let removed = stored[i].0@;
    assert(stored_keys(after) =~= stored_keys(stored).remove(i));
    assert forall|a: int, b: int|
        0 <= a < stored_keys(after).len() && 0 <= b < stored_keys(after).len() && a != b
            implies stored_keys(after)[a] != stored_keys(after)[b] by {
        let a0 = if a < i { a } else { a + 1 };
        let b0 = if b < i { b } else { b + 1 };
        assert(stored_keys(after)[a] == stored_keys(stored)[a0]);
        assert(stored_keys(after)[b] == stored_keys(stored)[b0]);
    }
    assert forall|key: KeyModel| #[trigger] stored_map(after).contains_key(key) implies key
        != removed && stored_map(stored).contains_key(key) by {
        let j = stored_keys(after).index_of(key);
        let j0 = if j < i { j } else { j + 1 };
        assert(stored_keys(stored)[j0] == key);
        assert(stored_keys(stored)[i] == removed);
    }
    assert forall|key: KeyModel| #[trigger] stored_map(stored).remove(removed).contains_key(key)
        implies stored_map(after).contains_key(key) && stored_map(after)[key] == stored_map(
        stored,
    )[key] by {
        let j = stored_keys(stored).index_of(key);
        lemma_stored_lookup(stored, j);
        assert(j != i);
        let j1 = if j < i { j } else { j - 1 };
        assert(after[j1] == stored[j]);
        lemma_stored_lookup(after, j1);
    }
}

proof fn lemma_stored_size(stored: Seq<StoredEntry>)
    requires
        stored_keys(stored).no_duplicates(),
    ensures
        stored_map(stored).dom().len() == stored.len(),
        stored_map(stored).dom().finite(),
{
    let keys = stored_keys(stored);
    assert(stored_map(stored).dom() =~= keys.to_set());
    keys.unique_seq_to_set();
    vstd::seq_lib::seq_to_set_is_finite(keys);
}

impl HarvestTouchedPersistQueue {
    /// The queue's structural invariant: one stored entry per key, and no more than the
    /// capacity.
    pub closed spec fn wf(&self) -> bool {
        &&& stored_keys(self.entries@).no_duplicates()
        &&& self.entries@.len() <= HARVEST_TOUCHED_QUEUE_CAPACITY
        &&& forall|i: int|
            0 <= i < self.entries@.len() ==> revision_issued(
                #[trigger] self.entries@[i].1.revision,
                self.next_revision,
            )
    }

    /// Every stored revision was issued before the next one (the counter saturates at the
    /// largest value).
    pub proof fn lemma_revisions_issued(&self)
        requires
            self.wf(),
        ensures
            forall|key: KeyModel| #[trigger]
                self@.entries.contains_key(key) ==> revision_issued(
                    self@.entries[key].revision,
                    self@.next_revision,
                ),
    {
        assert forall|key: KeyModel| #[trigger] self@.entries.contains_key(key) implies revision_issued(
            self@.entries[key].revision,
            self@.next_revision,
        ) by {
            let j = stored_keys(self.entries@).index_of(key);
            lemma_stored_lookup(self.entries@, j);
        }
    }

    /// The invariant bounds the number of entries by the capacity.
    pub proof fn lemma_capacity(&self)
        requires
            self.wf(),
        ensures
            self@.entries.dom().finite(),
            self@.entries.dom().len() <= HARVEST_TOUCHED_QUEUE_CAPACITY,
    {
        lemma_stored_size(self.entries@);
    }

    /// An open, empty queue whose first revision is 1.
    pub fn new() -> (queue: Self)
        ensures
            queue.wf(),
            queue@ == (QueueModel {
                entries: Map::empty(),
                order: Seq::empty(),
                next_revision: 1,
                closed: false,
            }),
    {
        let queue = HarvestTouchedPersistQueue {
            entries: Vec::new(),
            order: Vec::new(),
            next_revision: 1,
            closed: false,
        };
        assert(queue@.entries =~= Map::<KeyModel, EntryModel>::empty());
        assert(queue@.order =~= Seq::<KeyModel>::empty());
        queue
    }

    fn find(&self, key: &HarvestTouchedPersistKey) -> (index: Option<usize>)
        requires
            self.wf(),
        ensures
            match index {
                Some(i) => i < self.entries@.len() && self.entries@[i as int].0@ == key@
                    && self@.entries.contains_key(key@) && self@.entries[key@]
                    == self.entries@[i as int].1@,
                None => !self@.entries.contains_key(key@),
            },
    {
        let mut i: usize = 0;
        while i < self.entries.len()
            invariant
                self.wf(),
                i <= self.entries@.len(),
                forall|k: int| 0 <= k < i ==> self.entries@[k].0@ != key@,
            decreases self.entries@.len() - i,
        {
            if same_key(&self.entries[i].0, key) {
                proof {
                    lemma_stored_lookup(self.entries@, i as int);
                }
                return Some(i);
            }
            i = i + 1;
        }
        proof {
            if stored_keys(self.entries@).contains(key@) {
                let j = stored_keys(self.entries@).index_of(key@);
                assert(self.entries@[j].0@ == key@);
            }
        }
        None
    }

    /// Number of entries, pending and in flight.
    pub fn len(&self) -> (count: usize)
        requires
            self.wf(),
        ensures
            count == self@.entries.dom().len(),
    {
        proof {
            lemma_stored_size(self.entries@);
        }
        self.entries.len()
    }

    /// Whether some entry waits for a batch and is not blocked from retrying.
    pub fn has_pending(&self) -> (pending: bool)
        requires
            self.wf(),
        ensures
            pending == exists|key: KeyModel| #[trigger] claimable(self@.entries, key),
    {
        let mut i: usize = 0;
        while i < self.entries.len()
            invariant
                self.wf(),
                i <= self.entries@.len(),
                forall|k: int|
                    0 <= k < i ==> !(self.entries@[k].1.state
                        == HarvestTouchedPersistEntryState::Pending
                        && !self.entries@[k].1.retry_blocked),
            decreases self.entries@.len() - i,
        {
            if self.entries[i].1.state == HarvestTouchedPersistEntryState::Pending
                && !self.entries[i].1.retry_blocked {
                proof {
                    lemma_stored_lookup(self.entries@, i as int);
                    assert(claimable(self@.entries, self.entries@[i as int].0@));
                }
                return true;
            }
            i = i + 1;
        }
        proof {
            assert forall|key: KeyModel| !#[trigger] claimable(self@.entries, key) by {
                if self@.entries.contains_key(key) {
                    let j = stored_keys(self.entries@).index_of(key);
                    lemma_stored_lookup(self.entries@, j);
                }
            }
        }
        false
    }

    /// Whether `revision` is still the in-flight revision of `key`.
    pub fn is_current(&self, key: &HarvestTouchedPersistKey, revision: u64) -> (current: bool)
        requires
            self.wf(),
        ensures
            current == (self@.entries.contains_key(key@) && self@.entries[key@].revision
                == revision && self@.entries[key@].state
                == HarvestTouchedPersistEntryState::InFlight),
    {
        match self.find(key) {
            Some(i) => self.entries[i].1.revision == revision && self.entries[i].1.state
                == HarvestTouchedPersistEntryState::InFlight,
            None => false,
        }
    }

    fn replace_entry(&mut self, i: usize, entry: HarvestTouchedPersistEntry)
        requires
            old(self).wf(),
            i < old(self).entries@.len(),
            revision_issued(entry.revision, old(self).next_revision),
        ensures
            final(self).wf(),
            final(self).entries@.len() == old(self).entries@.len(),
            final(self)@ == (QueueModel {
                entries: old(self)@.entries.insert(old(self).entries@[i as int].0@, entry@),
                ..old(self)@
            }),
    {
        let key = copy_key(&self.entries[i].0);
        proof {
            lemma_stored_update(self.entries@, i as int, (key, entry));
        }
        self.entries.set(i, (key, entry));
    }

    fn remove_entry(&mut self, i: usize)
        requires
            old(self).wf(),
            i < old(self).entries@.len(),
        ensures
            final(self).wf(),
            final(self)@ == (QueueModel {
                entries: old(self)@.entries.remove(old(self).entries@[i as int].0@),
                ..old(self)@
            }),
    {
        proof {
            lemma_stored_remove(self.entries@, i as int);
        }
        self.entries.remove(i);
    }

    fn push_order(&mut self, key: HarvestTouchedPersistKey)
        ensures
            final(self).entries@ == old(self).entries@,
            final(self)@ == (QueueModel { order: old(self)@.order.push(key@), ..old(self)@ }),
    {
        let ghost before = self@.order;
        self.order.push(key);
        assert(self@.order =~= before.push(key@));
    }

    /// Claim the next batch of work in first-in first-out order.
    pub fn claim_batch(&mut self) -> (claimed: Vec<HarvestTouchedPersistWork>)
        requires
            old(self).wf(),
        ensures
            final(self).wf(),
            ({
                let (work, entries, order) = claim_model(
                    old(self)@.entries,
                    old(self)@.order,
                    Seq::empty(),
                );
                &&& claimed@.map_values(|item: HarvestTouchedPersistWork| item@) == work
                &&& final(self)@ == (QueueModel { entries, order, ..old(self)@ })
            }),
    {
        let ghost initial = claim_model(self@.entries, self@.order, Seq::empty());
        let mut claimed: Vec<HarvestTouchedPersistWork> = Vec::new();
        assert(claimed@.map_values(|item: HarvestTouchedPersistWork| item@) =~= Seq::<
            WorkModel,
        >::empty());
        while claimed.len() < HARVEST_TOUCHED_BATCH_LIMIT && self.order.len() > 0
            invariant
                self.wf(),
                self@.next_revision == old(self)@.next_revision,
                self@.closed == old(self)@.closed,
                claim_model(
                    self@.entries,
                    self@.order,
                    claimed@.map_values(|item: HarvestTouchedPersistWork| item@),
                ) == initial,
            decreases self.order@.len(),
        {
            let ghost done = claimed@.map_values(|item: HarvestTouchedPersistWork| item@);
            let ghost before_order = self@.order;
            let key = self.order.remove(0);
            assert(self@.order =~= before_order.drop_first());
            match self.find(&key) {
                Some(i) => {
                    if self.entries[i].1.state == HarvestTouchedPersistEntryState::Pending
                        && !self.entries[i].1.retry_blocked {
                        let request = copy_request(&self.entries[i].1.request);
                        let revision = self.entries[i].1.revision;
                        let retry_blocked = self.entries[i].1.retry_blocked;
                        let updated = HarvestTouchedPersistEntry {
                            request: copy_request(&self.entries[i].1.request),
                            revision,
                            state: HarvestTouchedPersistEntryState::InFlight,
                            retry_blocked,
                        };
                        self.replace_entry(i, updated);
                        let work = HarvestTouchedPersistWork { key, request, revision };
                        claimed.push(work);
                        assert(claimed@.map_values(|item: HarvestTouchedPersistWork| item@)
                            =~= done.push(work@));
                    }
                },
                None => {},
            }
        }
        claimed
    }

    /// Apply the completion of one claimed unit of work.
    pub fn acknowledge(&mut self, item: &HarvestTouchedPersistBatchItem)
        requires
            old(self).wf(),
        ensures
            final(self).wf(),
            final(self)@ == acknowledge_model(old(self)@, *item),
    {
        let i = match self.find(&item.key) {
            Some(i) => i,
            None => {
                return;
            },
        };
        if self.entries[i].1.revision != item.revision || self.entries[i].1.state
            != HarvestTouchedPersistEntryState::InFlight {
            return;
        }
        let succeeded = match &item.result {
            Some(result) => result.result.is_ok(),
            None => false,
        };
        if succeeded {
            self.remove_entry(i);
        } else {
            let updated = HarvestTouchedPersistEntry {
                request: copy_request(&self.entries[i].1.request),
                revision: self.entries[i].1.revision,
                state: HarvestTouchedPersistEntryState::Pending,
                retry_blocked: true,
            };
            self.replace_entry(i, updated);
            self.push_order(copy_key(&item.key));
        }
    }

    /// Take the next revision.
    fn take_revision(&mut self) -> (revision: u64)
        ensures
            revision == old(self)@.next_revision,
            final(self).entries@ == old(self).entries@,
            old(self).wf() ==> final(self).wf(),
            revision_issued(revision, final(self).next_revision),
            final(self)@ == (QueueModel {
                next_revision: saturating_next(old(self)@.next_revision),
                ..old(self)@
            }),
    {
        let revision = self.next_revision;
        self.next_revision = self.next_revision.saturating_add(1);
        revision
    }
}

/// Hand out the queue's next revision, saturating at the largest value.
pub fn next_harvest_touched_revision(queue: &mut HarvestTouchedPersistQueue) -> (revision: u64)
    ensures
        revision == old(queue)@.next_revision,
        old(queue).wf() ==> final(queue).wf(),
        final(queue)@ == (QueueModel {
            next_revision: saturating_next(old(queue)@.next_revision),
            ..old(queue)@
        }),
{
    queue.take_revision()
}

/// The owner of the queue on the GUI side.
pub struct HarvestTouchedPersistOwner {
    pub queue: HarvestTouchedPersistQueue,
    /// Whether the one delayed recovery turn after a rejected admission has been used.
    pub admission_retry_used: bool,
}

impl HarvestTouchedPersistOwner {
    /// An owner with an empty, open queue.
    pub fn new() -> (owner: Self)
        ensures
            owner.queue.wf(),
            owner.queue@ == (QueueModel {
                entries: Map::empty(),
                order: Seq::empty(),
                next_revision: 1,
                closed: false,
            }),
            !owner.admission_retry_used,
    {
        HarvestTouchedPersistOwner {
            queue: HarvestTouchedPersistQueue::new(),
            admission_retry_used: false,
        }
    }

    /// Queue a request, coalescing it with any entry of the same key.
    pub fn enqueue(&mut self, request: HarvestTouchedPersistRequest) -> (admission:
        HarvestTouchedPersistAdmission)
        requires
            old(self).queue.wf(),
        ensures
            final(self).queue.wf(),
            (final(self).queue@, admission) == enqueue_model(old(self).queue@, request@),
            final(self).admission_retry_used == (old(self).admission_retry_used && admission
                == HarvestTouchedPersistAdmission::Saturated),
    {
        let key = HarvestTouchedPersistKey::from_request(&request);
        if self.queue.closed {
            return HarvestTouchedPersistAdmission::Saturated;
        }
        let revision = self.queue.take_revision();
        match self.queue.find(&key) {
            Some(i) => {
                self.admission_retry_used = false;
                let was_retry_blocked = self.queue.entries[i].1.retry_blocked;
                let was_in_flight = self.queue.entries[i].1.state
                    == HarvestTouchedPersistEntryState::InFlight;
                let entry = HarvestTouchedPersistEntry {
                    request,
                    revision,
                    state: HarvestTouchedPersistEntryState::Pending,
                    retry_blocked: false,
                };
                self.queue.replace_entry(i, entry);
                if was_in_flight || was_retry_blocked {
                    self.queue.push_order(key);
                }
                HarvestTouchedPersistAdmission::Replaced
            },
            None => {
                proof {
                    lemma_stored_size(self.queue.entries@);
                }
                if self.queue.entries.len() >= HARVEST_TOUCHED_QUEUE_CAPACITY {
                    return HarvestTouchedPersistAdmission::Saturated;
                }
                self.admission_retry_used = false;
                self.queue.push_order(copy_key(&key));
                let entry = HarvestTouchedPersistEntry {
                    request,
                    revision,
                    state: HarvestTouchedPersistEntryState::Pending,
                    retry_blocked: false,
                };
                let ghost before = self.queue.entries@;
                proof {
                    assert(!stored_keys(before).contains(key@)) by {
                        if stored_keys(before).contains(key@) {
                            let j = stored_keys(before).index_of(key@);
                            lemma_stored_lookup(before, j);
                        }
                    }
                    lemma_stored_push(before, (key, entry));
                }
                self.queue.entries.push((key, entry));
                HarvestTouchedPersistAdmission::Queued
            },
        }
    }

    /// Forget a request: its entry and every queued occurrence of its key.
    pub fn invalidate(&mut self, request: &HarvestTouchedPersistRequest)
        requires
            old(self).queue.wf(),
        ensures
            final(self).queue.wf(),
            final(self).admission_retry_used == old(self).admission_retry_used,
            final(self).queue@ == (QueueModel {
                entries: old(self).queue@.entries.remove(key_of(request@)),
                order: without_key(old(self).queue@.order, key_of(request@)),
                ..old(self).queue@
            }),
    {
        let key = HarvestTouchedPersistKey::from_request(request);
        match self.queue.find(&key) {
            Some(i) => self.queue.remove_entry(i),
            None => {
                assert(self.queue@.entries.remove(key@) =~= self.queue@.entries);
            },
        }
        let mut kept: Vec<HarvestTouchedPersistKey> = Vec::new();
        let ghost initial = self.queue@.order;
        let mut k: usize = 0;
        while k < self.queue.order.len()
            invariant
                k <= self.queue.order@.len(),
                initial == self.queue.order@.map_values(|key: HarvestTouchedPersistKey| key@),
                kept@.map_values(|key: HarvestTouchedPersistKey| key@) == without_key(
                    initial.subrange(0, k as int),
                    key@,
                ),
            decreases self.queue.order@.len() - k,
        {
            let ghost done = kept@.map_values(|key: HarvestTouchedPersistKey| key@);
            proof {
                assert(initial.subrange(0, k as int + 1) =~= initial.subrange(0, k as int).push(
                    initial[k as int],
                ));
                initial.subrange(0, k as int).lemma_filter_push(
                    initial[k as int],
                    |candidate: KeyModel| candidate != key@,
                );
            }
            if !same_key(&self.queue.order[k], &key) {
                let copy = copy_key(&self.queue.order[k]);
                kept.push(copy);
                assert(kept@.map_values(|key: HarvestTouchedPersistKey| key@) =~= done.push(
                    initial[k as int],
                ));
            }
            k = k + 1;
        }
        assert(initial.subrange(0, initial.len() as int) =~= initial);
        let ghost before = self.queue@;
        self.queue.order = kept;
        assert(self.queue@.order == without_key(initial, key@));
    }

    /// Block every entry from immediate retry after a second rejected admission; in-flight
    /// entries return to pending.
    pub fn block_admission_retry_queue(&mut self)
        requires
            old(self).queue.wf(),
        ensures
            final(self).queue.wf(),
            final(self).admission_retry_used == old(self).admission_retry_used,
            final(self).queue@.order == old(self).queue@.order,
            final(self).queue@.next_revision == old(self).queue@.next_revision,
            final(self).queue@.closed == old(self).queue@.closed,
            final(self).queue@.entries.dom() == old(self).queue@.entries.dom(),
            forall|key: KeyModel| #[trigger]
                old(self).queue@.entries.contains_key(key) ==> final(self).queue@.entries[key]
                    == blocked_entry(old(self).queue@.entries[key]),
    {
        let ghost start = self.queue@;
        let ghost start_entries = self.queue.entries@;
        let mut i: usize = 0;
        while i < self.queue.entries.len()
            invariant
                self.queue.wf(),
                self.admission_retry_used == old(self).admission_retry_used,
                i <= self.queue.entries@.len(),
                self.queue.entries@.len() == start_entries.len(),
                stored_keys(self.queue.entries@) == stored_keys(start_entries),
                self.queue@.order == start.order,
                self.queue@.next_revision == start.next_revision,
                self.queue@.closed == start.closed,
                forall|k: int|
                    0 <= k < i ==> self.queue.entries@[k].1@ == blocked_entry(
                        start_entries[k].1@,
                    ),
                forall|k: int|
                    i <= k < self.queue.entries@.len() ==> self.queue.entries@[k].1@
                        == start_entries[k].1@,
            decreases self.queue.entries@.len() - i,
        {
            let updated = HarvestTouchedPersistEntry {
                request: copy_request(&self.queue.entries[i].1.request),
                revision: self.queue.entries[i].1.revision,
                state: HarvestTouchedPersistEntryState::Pending,
                retry_blocked: true,
            };
            let ghost before = self.queue.entries@;
            let key = copy_key(&self.queue.entries[i].0);
            proof {
                lemma_stored_update(before, i as int, (key, updated));
            }
            self.queue.entries.set(i, (key, updated));
            assert(self.queue@.order == start.order);
            i = i + 1;
        }
        assert(stored_map(self.queue.entries@).dom() =~= stored_map(start_entries).dom());
        assert forall|key: KeyModel| #[trigger]
            start.entries.contains_key(key) implies self.queue@.entries[key] == blocked_entry(
            start.entries[key],
        ) by {
            let j = stored_keys(start_entries).index_of(key);
            lemma_stored_lookup(start_entries, j);
            assert(stored_keys(self.queue.entries@)[j] == key);
            lemma_stored_lookup(self.queue.entries@, j);
        }
    }

    /// Close the queue: later enqueues are refused, and the number of entries that were still
    /// admitted is reported.
    pub fn close(&mut self) -> (count: usize)
        requires
            old(self).queue.wf(),
        ensures
            final(self).queue.wf(),
            count == old(self).queue@.entries.dom().len(),
            final(self).admission_retry_used == old(self).admission_retry_used,
            final(self).queue@ == (QueueModel {
                entries: Map::empty(),
                order: Seq::empty(),
                next_revision: old(self).queue@.next_revision,
                closed: true,
            }),
    {
        proof {
            lemma_stored_size(self.queue.entries@);
        }
        self.queue.closed = true;
        let count = self.queue.entries.len();
        self.queue.entries = Vec::new();
        self.queue.order = Vec::new();
        assert(self.queue@.entries =~= Map::<KeyModel, EntryModel>::empty());
        assert(self.queue@.order =~= Seq::<KeyModel>::empty());
        count
    }
}

/// What the host reports of a submitted persist task.
#[derive(Clone, Copy, Debug, PartialEq, Eq, Structural)]
pub enum BusinessTaskAdmission {
    Pending,
    Accepted,
    Rejected,
    Closed,
}

/// What the owner does after its admission poll fires.
#[derive(Clone, Copy, Debug, PartialEq, Eq, Structural)]
pub enum AdmissionPollStep {
    /// No receipt is held: this is the delayed recovery turn, so schedule the worker if idle.
    ScheduleIfIdle,
    /// The host has not decided yet: poll again later.
    PollAgain,
    /// The host accepted the task: keep waiting for its completion.
    Admitted,
    /// The host closed: drop the receipt.
    DropReceipt,
    /// The host rejected the task for the first time: drop the receipt and poll once more
    /// later for the one recovery turn.
    RetryLater,
    /// The host rejected the task again: drop the receipt and block every entry from
    /// immediate retry.
    Blocked,
}

/// The step an admission poll takes, and whether the recovery turn is used afterwards.
pub open spec fn admission_poll_step(retry_used: bool, receipt: Option<BusinessTaskAdmission>) -> (
    AdmissionPollStep,
    bool,
) {
    match receipt {
        None => (AdmissionPollStep::ScheduleIfIdle, retry_used),
        Some(BusinessTaskAdmission::Pending) => (AdmissionPollStep::PollAgain, retry_used),
        Some(BusinessTaskAdmission::Accepted) => (AdmissionPollStep::Admitted, retry_used),
        Some(BusinessTaskAdmission::Closed) => (AdmissionPollStep::DropReceipt, retry_used),
        Some(BusinessTaskAdmission::Rejected) => if retry_used {
            (AdmissionPollStep::Blocked, retry_used)
        } else {
            (AdmissionPollStep::RetryLater, true)
        },
    }
}

/// A rejected admission earns exactly one delayed recovery turn: the first rejection schedules
/// it, a second one before anything re-arms it blocks the queue, and an admitted enqueue
/// re-arms it.
pub proof fn lemma_one_recovery_turn_per_rejection(
    queue: QueueModel,
    request: RequestModel,
)
    ensures
        admission_poll_step(false, Some(BusinessTaskAdmission::Rejected)) == (
            AdmissionPollStep::RetryLater,
            true,
        ),
        admission_poll_step(
            admission_poll_step(false, Some(BusinessTaskAdmission::Rejected)).1,
            Some(BusinessTaskAdmission::Rejected),
        ).0 == AdmissionPollStep::Blocked,
        !queue.closed && (queue.entries.contains_key(key_of(request)) || queue.entries.dom().len()
            < HARVEST_TOUCHED_QUEUE_CAPACITY) ==> enqueue_model(queue, request).1
            != HarvestTouchedPersistAdmission::Saturated,
{
}

/// Applying the completions of a batch in order.
pub open spec fn acknowledge_all(queue: QueueModel, items: Seq<HarvestTouchedPersistBatchItem>) -> QueueModel
    decreases items.len(),
{
    if items.len() == 0 {
        queue
    } else {
        acknowledge_model(acknowledge_all(queue, items.drop_last()), items.last())
    }
}

impl HarvestTouchedPersistOwner {
    /// Whether the persist worker should be scheduled: no task is running and some entry can
    /// be claimed.
    pub fn ready_to_schedule(&self, task_active: bool) -> (ready: bool)
        requires
            self.queue.wf(),
        ensures
            ready == (!task_active && exists|key: KeyModel| #[trigger] claimable(self.queue@.entries, key)),
    {
        !task_active && self.queue.has_pending()
    }

    /// React to the admission poll, given the state of the held receipt (`None` when no
    /// receipt is held).
    pub fn poll_admission(&mut self, receipt: Option<BusinessTaskAdmission>) -> (step: AdmissionPollStep)
        requires
            old(self).queue.wf(),
        ensures
            final(self).queue.wf(),
            (step, final(self).admission_retry_used) == admission_poll_step(
                old(self).admission_retry_used,
                receipt,
            ),
            step != AdmissionPollStep::Blocked ==> final(self).queue@ == old(self).queue@,
            step == AdmissionPollStep::Blocked ==> {
                &&& final(self).queue@.order == old(self).queue@.order
                &&& final(self).queue@.next_revision == old(self).queue@.next_revision
                &&& final(self).queue@.closed == old(self).queue@.closed
                &&& final(self).queue@.entries.dom() == old(self).queue@.entries.dom()
                &&& forall|key: KeyModel| #[trigger]
                    old(self).queue@.entries.contains_key(key) ==> final(self).queue@.entries[key]
                        == blocked_entry(old(self).queue@.entries[key])
            },
    {
        match receipt {
            None => AdmissionPollStep::ScheduleIfIdle,
            Some(BusinessTaskAdmission::Pending) => AdmissionPollStep::PollAgain,
            Some(BusinessTaskAdmission::Accepted) => AdmissionPollStep::Admitted,
            Some(BusinessTaskAdmission::Closed) => AdmissionPollStep::DropReceipt,
            Some(BusinessTaskAdmission::Rejected) => {
                if self.admission_retry_used {
                    self.block_admission_retry_queue();
                    AdmissionPollStep::Blocked
                } else {
                    self.admission_retry_used = true;
                    AdmissionPollStep::RetryLater
                }
            },
        }
    }

    /// Apply a finished batch: completing the task behind the held receipt re-arms the
    /// recovery turn, and each completion is acknowledged in order.
    pub fn finish(&mut self, completes_held_receipt: bool, results: &Vec<HarvestTouchedPersistBatchItem>)
        requires
            old(self).queue.wf(),
        ensures
            final(self).queue.wf(),
            final(self).queue@ == acknowledge_all(old(self).queue@, results@),
            final(self).admission_retry_used == (old(self).admission_retry_used
                && !completes_held_receipt),
    {
        if completes_held_receipt {
            self.admission_retry_used = false;
        }
        let mut i: usize = 0;
        while i < results.len()
            invariant
                i <= results@.len(),
                self.queue.wf(),
                self.queue@ == acknowledge_all(old(self).queue@, results@.subrange(0, i as int)),
                self.admission_retry_used == (old(self).admission_retry_used
                    && !completes_held_receipt),
            decreases results@.len() - i,
        {
            proof {
                assert(results@.subrange(0, i + 1).drop_last() =~= results@.subrange(0, i as int));
            }
            self.queue.acknowledge(&results[i]);
            i = i + 1;
        }
        proof {
            assert(results@.subrange(0, results@.len() as int) =~= results@);
        }
    }
}

/// Two requests coalesce exactly when they name the same file: the same source and the same
/// path relative to it. The key carries both.
pub proof fn lemma_key_names_source_and_path(a: RequestModel, b: RequestModel)
    ensures
        key_of(a).0 == a.source_id,
        key_of(a).1 == a.relative_path,
        key_of(a) == key_of(b) <==> (a.source_id == b.source_id && a.relative_path == b.relative_path),
{
}

/// Enqueuing a request never disturbs the entry of another file: a queued request of another
/// source, or of another path, keeps its entry whatever is enqueued after it.
pub proof fn lemma_other_files_keep_their_entries(
    queue: QueueModel,
    queued: RequestModel,
    request: RequestModel,
)
    requires
        queue.entries.contains_key(key_of(queued)),
        queued.source_id != request.source_id || queued.relative_path != request.relative_path,
    ensures
        enqueue_model(queue, request).0.entries.contains_key(key_of(queued)),
        enqueue_model(queue, request).0.entries[key_of(queued)] == queue.entries[key_of(queued)],
{
}

/// A request for a key that is already queued replaces that entry: the set of keys does not
/// grow, and the entry now holds the new request under the revision just issued.
pub proof fn lemma_enqueue_coalesces(queue: QueueModel, request: RequestModel)
    requires
        !queue.closed,
        queue.entries.contains_key(key_of(request)),
    ensures
        enqueue_model(queue, request).1 == HarvestTouchedPersistAdmission::Replaced,
        enqueue_model(queue, request).0.entries.dom() == queue.entries.dom(),
        enqueue_model(queue, request).0.entries[key_of(request)] == admitted_entry(
            request,
            queue.next_revision,
        ),
{
    assert(enqueue_model(queue, request).0.entries.dom() =~= queue.entries.dom());
}

/// A closed queue refuses every request and does not change.
pub proof fn lemma_closed_queue_refuses(queue: QueueModel, request: RequestModel)
    requires
        queue.closed,
    ensures
        enqueue_model(queue, request) == (queue, HarvestTouchedPersistAdmission::Saturated),
{
}

/// A full queue refuses a new key; it still takes a revision but keeps its entries and order.
pub proof fn lemma_full_queue_refuses_new_keys(queue: QueueModel, request: RequestModel)
    requires
        !queue.closed,
        !queue.entries.contains_key(key_of(request)),
        queue.entries.dom().len() >= HARVEST_TOUCHED_QUEUE_CAPACITY,
    ensures
        enqueue_model(queue, request).1 == HarvestTouchedPersistAdmission::Saturated,
        enqueue_model(queue, request).0.entries == queue.entries,
        enqueue_model(queue, request).0.order == queue.order,
{
}

/// A completion whose revision is not the entry's current in-flight revision changes nothing:
/// a stale completion can never remove or re-queue the replacement of its entry.
pub proof fn lemma_stale_completion_is_ignored(queue: QueueModel, item: HarvestTouchedPersistBatchItem)
    requires
        queue.entries.contains_key(item.key@) ==> (queue.entries[item.key@].revision
            != item.revision || queue.entries[item.key@].state
            != HarvestTouchedPersistEntryState::InFlight),
    ensures
        acknowledge_model(queue, item) == queue,
{
}

/// A replacement always outranks the claim it supersedes: the revision it receives is newer
/// than every revision stored in the queue (while the revision counter has not saturated), so
/// the superseded claim is no longer current.
pub proof fn lemma_replacement_outranks_stored_revisions(
    queue: &HarvestTouchedPersistQueue,
    request: RequestModel,
)
    requires
        queue.wf(),
        !queue@.closed,
        queue@.next_revision < u64::MAX,
    ensures
        forall|key: KeyModel| #[trigger]
            queue@.entries.contains_key(key) ==> queue@.entries[key].revision
                < enqueue_model(queue@, request).0.entries[key_of(request)].revision || (
            !enqueue_model(queue@, request).0.entries.contains_key(key_of(request))),
{
    queue.lemma_revisions_issued();
}

/// Failure keeps the work: a failed or skipped completion of the current claim leaves the
/// entry queued, pending and blocked from an immediate retry, at the back of the order.
pub proof fn lemma_failed_completion_is_retained(queue: QueueModel, item: HarvestTouchedPersistBatchItem)
    requires
        queue.entries.contains_key(item.key@),
        queue.entries[item.key@].revision == item.revision,
        queue.entries[item.key@].state == HarvestTouchedPersistEntryState::InFlight,
        !item_succeeded(item),
    ensures
        acknowledge_model(queue, item).entries.dom() == queue.entries.dom(),
        !claimable(acknowledge_model(queue, item).entries, item.key@),
        acknowledge_model(queue, item).entries[item.key@].state
            == HarvestTouchedPersistEntryState::Pending,
        acknowledge_model(queue, item).order.last() == item.key@,
{
    assert(acknowledge_model(queue, item).entries.dom() =~= queue.entries.dom());
}

/// Shape of a batch: it never exceeds the batch limit, it stops early only when the order is
/// exhausted, what remains of the order is a suffix of it, the set of keys is unchanged, and
/// every claimed unit is in flight and current afterwards.
pub proof fn lemma_claim_batch_shape(
    entries: Map<KeyModel, EntryModel>,
    order: Seq<KeyModel>,
    claimed: Seq<WorkModel>,
)
    requires
        claimed.len() <= HARVEST_TOUCHED_BATCH_LIMIT,
        forall|i: int|
            0 <= i < claimed.len() ==> entries.contains_key(#[trigger] claimed[i].key)
                && entries[claimed[i].key].state == HarvestTouchedPersistEntryState::InFlight
                && entries[claimed[i].key].revision == claimed[i].revision,
    ensures
        ({
            let (work, after, rest) = claim_model(entries, order, claimed);
            &&& claimed.len() <= work.len() <= HARVEST_TOUCHED_BATCH_LIMIT
            &&& work.subrange(0, claimed.len() as int) == claimed
            &&& rest.len() <= order.len()
            &&& rest == order.subrange(order.len() - rest.len(), order.len() as int)
            &&& work.len() < HARVEST_TOUCHED_BATCH_LIMIT ==> rest.len() == 0
            &&& after.dom() == entries.dom()
            &&& forall|i: int|
                0 <= i < work.len() ==> after.contains_key(#[trigger] work[i].key)
                    && after[work[i].key].state == HarvestTouchedPersistEntryState::InFlight
                    && after[work[i].key].revision == work[i].revision
        }),
    decreases order.len(),
{
    if claimed.len() >= HARVEST_TOUCHED_BATCH_LIMIT || order.len() == 0 {
        assert(claimed.subrange(0, claimed.len() as int) =~= claimed);
        assert(order.subrange(0, order.len() as int) =~= order);
    } else {
        let key = order[0];
        let rest0 = order.drop_first();
        if claimable(entries, key) {
            let entry = entries[key];
            let entries1 = entries.insert(
                key,
                EntryModel { state: HarvestTouchedPersistEntryState::InFlight, ..entry },
            );
            let item = WorkModel { key, request: entry.request, revision: entry.revision };
            let claimed1 = claimed.push(item);
            assert forall|i: int| 0 <= i < claimed1.len() implies entries1.contains_key(
                #[trigger] claimed1[i].key,
            ) && entries1[claimed1[i].key].state == HarvestTouchedPersistEntryState::InFlight
                && entries1[claimed1[i].key].revision == claimed1[i].revision by {
                if i < claimed.len() {
                    assert(claimed1[i] == claimed[i]);
                    assert(claimed[i].key != key);
                }
            }
            lemma_claim_batch_shape(entries1, rest0, claimed1);
            let (work, after, rest) = claim_model(entries1, rest0, claimed1);
            assert(work.subrange(0, claimed.len() as int) =~= work.subrange(
                0,
                claimed1.len() as int,
            ).subrange(0, claimed.len() as int));
            assert(claimed1.subrange(0, claimed.len() as int) =~= claimed);
            assert(rest0.subrange(rest0.len() - rest.len(), rest0.len() as int) =~= order.subrange(
                order.len() - rest.len(),
                order.len() as int,
            ));
            assert(entries1.dom() =~= entries.dom());
        } else {
            lemma_claim_batch_shape(entries, rest0, claimed);
            let (work, after, rest) = claim_model(entries, rest0, claimed);
            assert(rest0.subrange(rest0.len() - rest.len(), rest0.len() as int) =~= order.subrange(
                order.len() - rest.len(),
                order.len() as int,
            ));
        }
    }
}

} // verus!
