//! Bounded capture of native watcher events and their conservative reading as raw
//! observations.
//!
//! An event is kept only while its paths, their bytes and the metadata the observation may
//! retain stay within fixed bounds; otherwise it becomes an overflow marker. Event kinds map to
//! a small set of raw kinds; whatever the backend does not describe precisely marks the
//! observation's path coverage as uncertain instead of inventing semantics.
use vstd::prelude::*;
use crate::journal_recovery::{path_below, strip_path_prefix};
use crate::mutation::path_within;
use crate::rating::{normalized_rating_path, path_normal_form};

verus! {

/// At most this many paths are kept from one event.
pub const MAX_CAPTURE_PATHS: usize = 4096;

/// At most this many path bytes are kept from one event.
pub const MAX_CAPTURE_PATH_BYTES: usize = 262144;

/// At most this many metadata bytes are kept from one event.
pub const MAX_CAPTURE_METADATA_BYTES: usize = 262144;

/// Metadata bytes charged for the event kind.
pub const RAW_EVENT_KIND_METADATA_BYTES: usize = 1;

/// Metadata bytes charged for the uncertainty flags.
pub const RAW_UNCERTAINTY_METADATA_BYTES: usize = 2;

/// Metadata bytes charged per path, for its role and its optional hint.
pub const RAW_PATH_ROLE_AND_HINT_METADATA_BYTES: usize = 2;

#[derive(Clone, Copy, Debug, PartialEq, Eq, Structural)]
pub enum CreateKind {
    Any,
    File,
    Folder,
    Other,
}

#[derive(Clone, Copy, Debug, PartialEq, Eq, Structural)]
pub enum DataChange {
    Any,
    Size,
    Content,
    Other,
}

#[derive(Clone, Copy, Debug, PartialEq, Eq, Structural)]
pub enum MetadataKind {
    Any,
    AccessTime,
    WriteTime,
    Permissions,
    Ownership,
    Extended,
    Other,
}

#[derive(Clone, Copy, Debug, PartialEq, Eq, Structural)]
pub enum RenameMode {
    Any,
    To,
    From,
    Both,
    Other,
}

#[derive(Clone, Copy, Debug, PartialEq, Eq, Structural)]
pub enum ModifyKind {
    Any,
    Data(DataChange),
    Metadata(MetadataKind),
    Name(RenameMode),
    Other,
}

#[derive(Clone, Copy, Debug, PartialEq, Eq, Structural)]
pub enum RemoveKind {
    Any,
    File,
    Folder,
    Other,
}

/// The kind of a native watcher event.
#[derive(Clone, Copy, Debug, PartialEq, Eq, Structural)]
pub enum EventKind {
    Any,
    Access,
    Create(CreateKind),
    Modify(ModifyKind),
    Remove(RemoveKind),
    Other,
}

/// The raw kind an observation records.
#[derive(Clone, Copy, Debug, PartialEq, Eq, Structural)]
pub enum RawEventKind {
    Create,
    Modify,
    Rename,
    Delete,
    RootChanged,
    Error,
    Overflow,
    Unsupported,
}

/// What the backend says of an observed path.
#[derive(Clone, Copy, Debug, PartialEq, Eq, Structural)]
pub enum RawPathHint {
    Directory,
    Unknown,
}

/// The part an observed path plays in its observation.
#[derive(Clone, Copy, Debug, PartialEq, Eq, Structural)]
pub enum RawPathRole {
    Subject,
    RenameSource,
    RenameDestination,
}

/// How the roles of an event's paths are read.
#[derive(Clone, Copy, Debug, PartialEq, Eq, Structural)]
pub enum PathShape {
    Subject,
    RenameBoth,
    RenameSource,
    RenameDestination,
}

/// How an event kind is recorded.
#[derive(Clone, Copy, Debug, PartialEq, Eq, Structural)]
pub struct EventMapping {
    pub kind: RawEventKind,
    pub path_shape: PathShape,
    /// The event does not say precisely which paths changed.
    pub uncertain_coverage: bool,
    pub hint: Option<RawPathHint>,
}

pub open spec fn mapping(
    kind: RawEventKind,
    path_shape: PathShape,
    uncertain_coverage: bool,
    hint: Option<RawPathHint>,
) -> EventMapping {
    EventMapping { kind, path_shape, uncertain_coverage, hint }
}

/// A kind the capture does not describe: an unsupported observation of uncertain coverage.
pub open spec fn unsupported() -> EventMapping {
    mapping(RawEventKind::Unsupported, PathShape::Subject, true, None)
}

/// The reading of each event kind. Creations and removals keep their subject, hinting at a
/// folder or at an unknown entry when the backend says so; data and metadata changes are
/// modifications; a rename is precise only when its paths match its mode (two paths for both
/// ends, one for either end alone); every other kind is unsupported.
pub open spec fn event_mapping(kind: EventKind, path_count: usize) -> EventMapping {
    match kind {
        EventKind::Create(create) => match create {
            CreateKind::File => mapping(RawEventKind::Create, PathShape::Subject, false, None),
            CreateKind::Folder => mapping(
                RawEventKind::Create,
                PathShape::Subject,
                false,
                Some(RawPathHint::Directory),
            ),
            CreateKind::Any => mapping(
                RawEventKind::Create,
                PathShape::Subject,
                false,
                Some(RawPathHint::Unknown),
            ),
            CreateKind::Other => unsupported(),
        },
        EventKind::Modify(modify) => match modify {
            ModifyKind::Data(DataChange::Other) | ModifyKind::Other => unsupported(),
            ModifyKind::Data(_) | ModifyKind::Metadata(_) | ModifyKind::Any => mapping(
                RawEventKind::Modify,
                PathShape::Subject,
                false,
                None,
            ),
            ModifyKind::Name(mode) => if mode == RenameMode::Both && path_count == 2 {
                mapping(RawEventKind::Rename, PathShape::RenameBoth, false, None)
            } else if mode == RenameMode::From && path_count == 1 {
                mapping(RawEventKind::Rename, PathShape::RenameSource, true, None)
            } else if mode == RenameMode::To && path_count == 1 {
                mapping(RawEventKind::Rename, PathShape::RenameDestination, true, None)
            } else {
                mapping(RawEventKind::Rename, PathShape::Subject, true, None)
            },
        },
        EventKind::Remove(remove) => match remove {
            RemoveKind::File => mapping(RawEventKind::Delete, PathShape::Subject, false, None),
            RemoveKind::Folder => mapping(
                RawEventKind::Delete,
                PathShape::Subject,
                false,
                Some(RawPathHint::Directory),
            ),
            RemoveKind::Any => mapping(
                RawEventKind::Delete,
                PathShape::Subject,
                false,
                Some(RawPathHint::Unknown),
            ),
            RemoveKind::Other => unsupported(),
        },
        EventKind::Any | EventKind::Access | EventKind::Other => unsupported(),
    }
}

/// The paths of a rename play the parts its mode names: the only path of a rename `To` the
/// watched place is its destination, the only path of a rename `From` it is its source, and a
/// two-path rename of both ends has its source first and its destination second. An event that
/// is no rename gives no path a rename role.
pub proof fn lemma_rename_roles_follow_the_mode(kind: EventKind, path_count: usize, index: usize)
    ensures
        kind == EventKind::Modify(ModifyKind::Name(RenameMode::To)) && path_count == 1 ==> {
            &&& event_mapping(kind, path_count).kind == RawEventKind::Rename
            &&& path_role(event_mapping(kind, path_count).path_shape, index)
                == RawPathRole::RenameDestination
        },
        kind == EventKind::Modify(ModifyKind::Name(RenameMode::From)) && path_count == 1 ==> {
            &&& event_mapping(kind, path_count).kind == RawEventKind::Rename
            &&& path_role(event_mapping(kind, path_count).path_shape, index)
                == RawPathRole::RenameSource
        },
        kind == EventKind::Modify(ModifyKind::Name(RenameMode::Both)) && path_count == 2 ==> {
            &&& path_role(event_mapping(kind, path_count).path_shape, 0) == RawPathRole::RenameSource
            &&& path_role(event_mapping(kind, path_count).path_shape, 1)
                == RawPathRole::RenameDestination
        },
        !(kind matches EventKind::Modify(ModifyKind::Name(_))) ==> path_role(
            event_mapping(kind, path_count).path_shape,
            index,
        ) == RawPathRole::Subject,
        event_mapping(kind, path_count).kind == RawEventKind::Rename <==> (kind matches EventKind::Modify(
            ModifyKind::Name(_),
        )),
{
}

pub fn unsupported_mapping() -> (result: EventMapping)
    ensures
        result == unsupported(),
{
    EventMapping {
        kind: RawEventKind::Unsupported,
        path_shape: PathShape::Subject,
        uncertain_coverage: true,
        hint: None,
    }
}

/// How an event of `kind` with `path_count` paths is recorded.
pub fn map_event_kind(kind: EventKind, path_count: usize) -> (result: EventMapping)
    ensures
        result == event_mapping(kind, path_count),
{
    match kind {
        EventKind::Create(create) => match create {
            CreateKind::File => EventMapping {
                kind: RawEventKind::Create,
                path_shape: PathShape::Subject,
                uncertain_coverage: false,
                hint: None,
            },
            CreateKind::Folder => EventMapping {
                kind: RawEventKind::Create,
                path_shape: PathShape::Subject,
                uncertain_coverage: false,
                hint: Some(RawPathHint::Directory),
            },
            CreateKind::Any => EventMapping {
                kind: RawEventKind::Create,
                path_shape: PathShape::Subject,
                uncertain_coverage: false,
                hint: Some(RawPathHint::Unknown),
            },
            CreateKind::Other => unsupported_mapping(),
        },
        EventKind::Modify(modify) => match modify {
            ModifyKind::Data(DataChange::Other) | ModifyKind::Other => unsupported_mapping(),
            ModifyKind::Data(_) | ModifyKind::Metadata(_) | ModifyKind::Any => EventMapping {
                kind: RawEventKind::Modify,
                path_shape: PathShape::Subject,
                uncertain_coverage: false,
                hint: None,
            },
            ModifyKind::Name(mode) => {
                if mode == RenameMode::Both && path_count == 2 {
                    EventMapping {
                        kind: RawEventKind::Rename,
                        path_shape: PathShape::RenameBoth,
                        uncertain_coverage: false,
                        hint: None,
                    }
                } else if mode == RenameMode::From && path_count == 1 {
                    EventMapping {
                        kind: RawEventKind::Rename,
                        path_shape: PathShape::RenameSource,
                        uncertain_coverage: true,
                        hint: None,
                    }
                } else if mode == RenameMode::To && path_count == 1 {
                    EventMapping {
                        kind: RawEventKind::Rename,
                        path_shape: PathShape::RenameDestination,
                        uncertain_coverage: true,
                        hint: None,
                    }
                } else {
                    EventMapping {
                        kind: RawEventKind::Rename,
                        path_shape: PathShape::Subject,
                        uncertain_coverage: true,
                        hint: None,
                    }
                }
            },
        },
        EventKind::Remove(remove) => match remove {
            RemoveKind::File => EventMapping {
                kind: RawEventKind::Delete,
                path_shape: PathShape::Subject,
                uncertain_coverage: false,
                hint: None,
            },
            RemoveKind::Folder => EventMapping {
                kind: RawEventKind::Delete,
                path_shape: PathShape::Subject,
                uncertain_coverage: false,
                hint: Some(RawPathHint::Directory),
            },
            RemoveKind::Any => EventMapping {
                kind: RawEventKind::Delete,
                path_shape: PathShape::Subject,
                uncertain_coverage: false,
                hint: Some(RawPathHint::Unknown),
            },
            RemoveKind::Other => unsupported_mapping(),
        },
        EventKind::Any | EventKind::Access | EventKind::Other => unsupported_mapping(),
    }
}

/// The role of the path at `index`: both ends of a two-path rename in order, the one end of
/// a one-path rename, the subject otherwise.
pub open spec fn path_role(shape: PathShape, index: usize) -> RawPathRole {
    match shape {
        PathShape::Subject => RawPathRole::Subject,
        PathShape::RenameBoth => if index == 0 {
            RawPathRole::RenameSource
        } else {
            RawPathRole::RenameDestination
        },
        PathShape::RenameSource => RawPathRole::RenameSource,
        PathShape::RenameDestination => RawPathRole::RenameDestination,
    }
}

impl EventMapping {
    pub fn role(self, index: usize) -> (role: RawPathRole)
        ensures
            role == path_role(self.path_shape, index),
    {
        match self.path_shape {
            PathShape::Subject => RawPathRole::Subject,
            PathShape::RenameBoth => {
                if index == 0 {
                    RawPathRole::RenameSource
                } else {
                    RawPathRole::RenameDestination
                }
            },
            PathShape::RenameSource => RawPathRole::RenameSource,
            PathShape::RenameDestination => RawPathRole::RenameDestination,
        }
    }
}

/// The optional attributes of an event, as far as their metadata is retained.
#[derive(Clone, Copy, Debug, PartialEq, Eq)]
pub struct EventAttributeSizes {
    pub rescan: bool,
    pub tracker: bool,
    pub process_id: bool,
    /// Bytes of the detail text, when there is one.
    pub info_bytes: Option<usize>,
    /// Bytes of the source text, when there is one.
    pub source_bytes: Option<usize>,
}

pub open spec fn optional_bytes(bytes: Option<usize>) -> int {
    match bytes {
        Some(count) => count as int,
        None => 0,
    }
}

/// Every metadata byte an observation of the event may retain: the kind and uncertainty
/// bytes, a role and a hint byte per path, eight bytes for a rescan flag and for a rename
/// tracker, four for a process id, and the detail and source texts.
pub open spec fn metadata_bytes_total(path_count: usize, attributes: EventAttributeSizes) -> int {
    RAW_EVENT_KIND_METADATA_BYTES + RAW_UNCERTAINTY_METADATA_BYTES
        + path_count * RAW_PATH_ROLE_AND_HINT_METADATA_BYTES + (if attributes.rescan {
        8int
    } else {
        0
    }) + (if attributes.tracker {
        8int
    } else {
        0
    }) + (if attributes.process_id {
        4int
    } else {
        0
    }) + optional_bytes(attributes.info_bytes) + optional_bytes(attributes.source_bytes)
}

fn add_optional(total: Option<usize>, bytes: Option<usize>) -> (sum: Option<usize>)
    ensures
        match total {
            None => sum is None,
            Some(t) => if t + optional_bytes(bytes) <= usize::MAX {
                sum == Some((t + optional_bytes(bytes)) as usize)
            } else {
                sum is None
            },
        },
{
    match total {
        None => None,
        Some(t) => match bytes {
            None => Some(t),
            Some(b) => t.checked_add(b),
        },
    }
}

/// The metadata bytes charged for an event, or `None` when the count does not fit a `usize`.
pub fn raw_metadata_bytes(path_count: usize, attributes: EventAttributeSizes) -> (bytes: Option<usize>)
    ensures
        match bytes {
            Some(count) => count == metadata_bytes_total(path_count, attributes),
            None => metadata_bytes_total(path_count, attributes) > usize::MAX,
        },
{
    let path_bytes = path_count.checked_mul(RAW_PATH_ROLE_AND_HINT_METADATA_BYTES);
    let total = match path_bytes {
        None => None,
        Some(p) => p.checked_add(RAW_EVENT_KIND_METADATA_BYTES + RAW_UNCERTAINTY_METADATA_BYTES),
    };
    let total = if attributes.rescan {
        add_optional(total, Some(8))
    } else {
        total
    };
    let total = if attributes.tracker {
        add_optional(total, Some(8))
    } else {
        total
    };
    let total = if attributes.process_id {
        add_optional(total, Some(4))
    } else {
        total
    };
    let total = add_optional(total, attributes.info_bytes);
    add_optional(total, attributes.source_bytes)
}

/// The bytes of the paths, added up.
pub open spec fn total_bytes(lengths: Seq<usize>) -> int
    decreases lengths.len(),
{
    if lengths.len() == 0 {
        0
    } else {
        total_bytes(lengths.drop_last()) + lengths.last()
    }
}

proof fn lemma_total_bytes_grows(lengths: Seq<usize>, count: int)
    requires
        0 <= count <= lengths.len(),
    ensures
        total_bytes(lengths.subrange(0, count)) <= total_bytes(lengths),
    decreases lengths.len() - count,
{
    if count < lengths.len() {
        lemma_total_bytes_grows(lengths, count + 1);
        assert(lengths.subrange(0, count + 1).drop_last() =~= lengths.subrange(0, count));
    } else {
        assert(lengths.subrange(0, count) =~= lengths);
    }
}

/// What the capture keeps of an event.
#[derive(Clone, Copy, Debug, PartialEq, Eq, Structural)]
pub enum CaptureVerdict {
    Accepted,
    Overflow,
}

/// Keep an event of paths with the given byte lengths whose metadata comes to
/// `metadata_bytes` (`None` when it does not fit a `usize`), or mark it as an overflow: too
/// many paths, too many path bytes or too many metadata bytes.
pub fn capture_verdict(path_byte_lengths: &Vec<usize>, metadata_bytes: Option<usize>) -> (verdict:
    CaptureVerdict)
    ensures
        verdict == CaptureVerdict::Accepted <==> {
            &&& path_byte_lengths@.len() <= MAX_CAPTURE_PATHS
            &&& total_bytes(path_byte_lengths@) <= MAX_CAPTURE_PATH_BYTES
            &&& metadata_bytes is Some
            &&& metadata_bytes->0 <= MAX_CAPTURE_METADATA_BYTES
        },
{
    if path_byte_lengths.len() > MAX_CAPTURE_PATHS {
        return CaptureVerdict::Overflow;
    }
    let mut total: usize = 0;
    let mut i: usize = 0;
    while i < path_byte_lengths.len()
        invariant
            i <= path_byte_lengths@.len(),
            total == total_bytes(path_byte_lengths@.subrange(0, i as int)),
            total <= MAX_CAPTURE_PATH_BYTES,
        decreases path_byte_lengths@.len() - i,
    {
        proof {
            assert(path_byte_lengths@.subrange(0, i + 1).drop_last() =~= path_byte_lengths@.subrange(
                0,
                i as int,
            ));
        }
        if path_byte_lengths[i] > MAX_CAPTURE_PATH_BYTES - total {
            proof {
                lemma_total_bytes_grows(path_byte_lengths@, i + 1);
            }
            return CaptureVerdict::Overflow;
        }
        total = total + path_byte_lengths[i];
        i = i + 1;
    }
    proof {
        assert(path_byte_lengths@.subrange(0, path_byte_lengths@.len() as int)
            =~= path_byte_lengths@);
    }
    match metadata_bytes {
        Some(bytes) => {
            if bytes <= MAX_CAPTURE_METADATA_BYTES {
                CaptureVerdict::Accepted
            } else {
                CaptureVerdict::Overflow
            }
        },
        None => CaptureVerdict::Overflow,
    }
}

/// Which of the uncertainty flags an observation carries.
#[derive(Clone, Copy, Debug, PartialEq, Eq, Structural)]
pub struct ObservationUncertainty {
    pub path_coverage: bool,
    pub backend_error: bool,
    pub overflow: bool,
}

/// One observed path, relative to the source root.
#[derive(Clone, Debug, PartialEq, Eq)]
pub struct RawObservedPath {
    pub path: String,
    pub role: RawPathRole,
    pub hint: Option<RawPathHint>,
}

/// A raw observation: its kind, its paths and its uncertainty.
#[derive(Clone, Debug, PartialEq, Eq)]
pub struct RawObservation {
    pub kind: RawEventKind,
    pub paths: Vec<RawObservedPath>,
    pub uncertainty: ObservationUncertainty,
}

/// The paths below the root, in event order.
pub open spec fn below_root(paths: Seq<Option<String>>) -> Seq<Seq<char>>
    decreases paths.len(),
{
    if paths.len() == 0 {
        Seq::empty()
    } else {
        let earlier = below_root(paths.drop_last());
        match paths.last() {
            Some(path) => earlier.push(path@),
            None => earlier,
        }
    }
}

/// Some path is the source root itself.
pub open spec fn observes_root(paths: Seq<Option<String>>) -> bool {
    exists|i: int| 0 <= i < paths.len() && paths[i] is None
}

/// The observation of an event read through `mapping`, given each of its paths relative to
/// the source root (`None` for the root itself) and whether the backend asked for a rescan.
/// An event that touches the root is a root change of uncertain coverage whose other paths
/// are plain subjects. Otherwise the paths take the roles and the hint of the mapping, and the
/// coverage is uncertain when the mapping says so, when no path is left or on a rescan.
pub fn event_observation(mapping: EventMapping, relative_paths: &Vec<Option<String>>, rescan: bool) -> (observation:
    RawObservation)
    ensures
        observation.paths@.map_values(|p: RawObservedPath| p.path@) == below_root(relative_paths@),
        !observation.uncertainty.backend_error,
        !observation.uncertainty.overflow,
        observes_root(relative_paths@) ==> {
            &&& observation.kind == RawEventKind::RootChanged
            &&& observation.uncertainty.path_coverage
            &&& forall|k: int|
                0 <= k < observation.paths@.len() ==> (#[trigger] observation.paths@[k]).role
                    == RawPathRole::Subject && observation.paths@[k].hint is None
        },
        !observes_root(relative_paths@) ==> {
            &&& observation.kind == mapping.kind
            &&& observation.uncertainty.path_coverage == (mapping.uncertain_coverage
                || relative_paths@.len() == 0 || rescan)
            &&& observation.paths@.len() == relative_paths@.len()
            &&& forall|k: int|
                0 <= k < observation.paths@.len() ==> (#[trigger] observation.paths@[k]).role
                    == path_role(mapping.path_shape, k as usize) && observation.paths@[k].hint
                    == mapping.hint
        },
{
    let mut root_observed = false;
    let mut below: Vec<String> = Vec::new();
    let mut i: usize = 0;
    while i < relative_paths.len()
        invariant
            i <= relative_paths@.len(),
            below@.map_values(|p: String| p@) == below_root(relative_paths@.subrange(0, i as int)),
            root_observed == observes_root(relative_paths@.subrange(0, i as int)),
            !root_observed ==> below@.len() == i,
        decreases relative_paths@.len() - i,
    {
        proof {
            let upto = relative_paths@.subrange(0, i + 1);
            assert(upto.drop_last() =~= relative_paths@.subrange(0, i as int));
        }
        let ghost before = below@;
        match &relative_paths[i] {
            Some(path) => {
                below.push(path.clone());
                assert(below@.map_values(|p: String| p@) =~= before.map_values(|p: String| p@).push(
                    path@,
                ));
            },
            None => {
                root_observed = true;
            },
        }
        proof {
            let upto = relative_paths@.subrange(0, i + 1);
            if observes_root(upto) && !observes_root(relative_paths@.subrange(0, i as int)) {
                let j = choose|j: int| 0 <= j < upto.len() && upto[j] is None;
                if j < i {
                    assert(relative_paths@.subrange(0, i as int)[j] is None);
                }
            }
            if observes_root(relative_paths@.subrange(0, i as int)) {
                let j = choose|j: int| 0 <= j < i && relative_paths@.subrange(0, i as int)[j] is None;
                assert(upto[j] is None);
            }
            if relative_paths@[i as int] is None {
                assert(upto[i as int] is None);
            }
        }
        i = i + 1;
    }
    proof {
        assert(relative_paths@.subrange(0, relative_paths@.len() as int) =~= relative_paths@);
    }
    let mut paths: Vec<RawObservedPath> = Vec::new();
    let mut k: usize = 0;
    while k < below.len()
        invariant
            k <= below@.len(),
            paths@.len() == k,
            forall|m: int| 0 <= m < k ==> (#[trigger] paths@[m]).path@ == below@[m]@,
            forall|m: int|
                0 <= m < k ==> (#[trigger] paths@[m]).role == if root_observed {
                    RawPathRole::Subject
                } else {
                    path_role(mapping.path_shape, m as usize)
                },
            forall|m: int|
                0 <= m < k ==> (#[trigger] paths@[m]).hint == if root_observed {
                    None
                } else {
                    mapping.hint
                },
        decreases below@.len() - k,
    {
        let role = if root_observed {
            RawPathRole::Subject
        } else {
            mapping.role(k)
        };
        let hint = if root_observed {
            None
        } else {
            mapping.hint
        };
        paths.push(RawObservedPath { path: below[k].clone(), role, hint });
        k = k + 1;
    }
    proof {
        assert(paths@.map_values(|p: RawObservedPath| p.path@) =~= below@.map_values(|p: String| p@));
    }
    if root_observed {
        RawObservation {
            kind: RawEventKind::RootChanged,
            paths,
            uncertainty: ObservationUncertainty {
                path_coverage: true,
                backend_error: false,
                overflow: false,
            },
        }
    } else {
        let coverage = mapping.uncertain_coverage || relative_paths.len() == 0 || rescan;
        RawObservation {
            kind: mapping.kind,
            paths,
            uncertainty: ObservationUncertainty {
                path_coverage: coverage,
                backend_error: false,
                overflow: false,
            },
        }
    }
}

/// The marker a backend error or an overflow leaves: an observation without paths.
pub fn marker_observation(overflow: bool) -> (observation: RawObservation)
    ensures
        observation.paths@.len() == 0,
        overflow ==> observation.kind == RawEventKind::Overflow && observation.uncertainty
            == (ObservationUncertainty { path_coverage: false, backend_error: false, overflow: true }),
        !overflow ==> observation.kind == RawEventKind::Error && observation.uncertainty
            == (ObservationUncertainty { path_coverage: false, backend_error: true, overflow: false }),
{
    if overflow {
        RawObservation {
            kind: RawEventKind::Overflow,
            paths: Vec::new(),
            uncertainty: ObservationUncertainty {
                path_coverage: false,
                backend_error: false,
                overflow: true,
            },
        }
    } else {
        RawObservation {
            kind: RawEventKind::Error,
            paths: Vec::new(),
            uncertainty: ObservationUncertainty {
                path_coverage: false,
                backend_error: true,
                overflow: false,
            },
        }
    }
}

/// The UTF-8 length of a path, as `str::len` reports it.
pub open spec fn path_bytes(path: String) -> usize {
    vstd::utf8::encode_utf8(path@).len() as usize
}

/// Where admitting a replay stands after some of its paths: the byte total and the paths kept
/// so far, or the refusal for too many path bytes (with the running total that passed the
/// bound, or `usize::MAX` when that total does not fit).
pub enum ReplayScan {
    Within { total: int, kept: Seq<String> },
    Exceeded { value: usize },
}

/// Admitting the replayed paths one by one: empty paths are skipped, every other path adds
/// its bytes and is kept, and the first running total past the bound refuses the replay.
pub open spec fn replay_scan(paths: Seq<String>) -> ReplayScan
    decreases paths.len(),
{
    if paths.len() == 0 {
        ReplayScan::Within { total: 0, kept: Seq::empty() }
    } else {
        match replay_scan(paths.drop_last()) {
            ReplayScan::Exceeded { value } => ReplayScan::Exceeded { value },
            ReplayScan::Within { total, kept } => {
                let path = paths.last();
                if path@.len() == 0 {
                    ReplayScan::Within { total, kept }
                } else if total + path_bytes(path) > MAX_CAPTURE_PATH_BYTES {
                    ReplayScan::Exceeded {
                        value: if total + path_bytes(path) <= usize::MAX {
                            (total + path_bytes(path)) as usize
                        } else {
                            usize::MAX
                        },
                    }
                } else {
                    ReplayScan::Within { total: total + path_bytes(path), kept: kept.push(path) }
                }
            },
        }
    }
}

proof fn lemma_exceeded_stays(paths: Seq<String>, count: int, value: usize)
    requires
        0 <= count <= paths.len(),
        replay_scan(paths.subrange(0, count)) == (ReplayScan::Exceeded { value }),
    ensures
        replay_scan(paths) == (ReplayScan::Exceeded { value }),
    decreases paths.len() - count,
{
    if count == paths.len() {
        assert(paths.subrange(0, count) =~= paths);
    } else {
        assert(paths.subrange(0, count + 1).drop_last() =~= paths.subrange(0, count));
        lemma_exceeded_stays(paths, count + 1, value);
    }
}

/// Why a journal replay cannot be admitted.
#[derive(Clone, Copy, Debug, PartialEq, Eq, Structural)]
pub enum ReplayAdmissionError {
    PathCountExceeded { value: usize },
    PathBytesExceeded { value: usize },
}

fn utf8_length(path: &String) -> (length: usize)
    ensures
        length == path_bytes(*path),
{
    path.as_str().len()
}

/// Admit replayed journal paths as one conservative modification observation of their
/// non-empty paths, all subjects: too many paths, too many path bytes or no path left refuse
/// the replay.
pub fn fsevents_replay_observation(paths: &Vec<String>) -> (admitted: Result<RawObservation, ReplayAdmissionError>)
    ensures
        paths@.len() > MAX_CAPTURE_PATHS ==> admitted == Err::<RawObservation, ReplayAdmissionError>(
            ReplayAdmissionError::PathCountExceeded { value: paths@.len() as usize },
        ),
        paths@.len() <= MAX_CAPTURE_PATHS ==> match replay_scan(paths@) {
            ReplayScan::Exceeded { value } => admitted == Err::<RawObservation, ReplayAdmissionError>(
                ReplayAdmissionError::PathBytesExceeded { value },
            ),
            ReplayScan::Within { total, kept } => if kept.len() == 0 {
                admitted == Err::<RawObservation, ReplayAdmissionError>(
                    ReplayAdmissionError::PathCountExceeded { value: 0 },
                )
            } else {
                match admitted {
                    Ok(observation) => {
                        &&& observation.kind == RawEventKind::Modify
                        &&& observation.uncertainty == (ObservationUncertainty {
                            path_coverage: false,
                            backend_error: false,
                            overflow: false,
                        })
                        &&& observation.paths@.map_values(|p: RawObservedPath| p.path@)
                            == kept.map_values(|p: String| p@)
                        &&& forall|k: int|
                            0 <= k < observation.paths@.len() ==> (
                            #[trigger] observation.paths@[k]).role == RawPathRole::Subject
                                && observation.paths@[k].hint is None
                    },
                    Err(_) => false,
                }
            },
        },
{
    if paths.len() > MAX_CAPTURE_PATHS {
        return Err(ReplayAdmissionError::PathCountExceeded { value: paths.len() });
    }
    let mut total: usize = 0;
    let mut observed: Vec<RawObservedPath> = Vec::new();
    let mut i: usize = 0;
    while i < paths.len()
        invariant
            i <= paths@.len(),
            paths@.len() <= MAX_CAPTURE_PATHS,
            total <= MAX_CAPTURE_PATH_BYTES,
            match replay_scan(paths@.subrange(0, i as int)) {
                ReplayScan::Within { total: t, kept } => {
                    &&& t == total
                    &&& observed@.map_values(|p: RawObservedPath| p.path@) == kept.map_values(
                        |p: String| p@,
                    )
                },
                ReplayScan::Exceeded { .. } => false,
            },
            forall|k: int|
                0 <= k < observed@.len() ==> (#[trigger] observed@[k]).role == RawPathRole::Subject
                    && observed@[k].hint is None,
        decreases paths@.len() - i,
    {
        let ghost done = paths@.subrange(0, i as int);
        let ghost upto = paths@.subrange(0, i + 1);
        proof {
            assert(upto.drop_last() =~= done);
            assert(upto.last() == paths@[i as int]);
        }
        let path = &paths[i];
        if !path.as_str().is_empty() {
            let length = utf8_length(path);
            if length > MAX_CAPTURE_PATH_BYTES - total {
                let value = match total.checked_add(length) {
                    Some(sum) => sum,
                    None => usize::MAX,
                };
                proof {
                    assert(replay_scan(upto) == (ReplayScan::Exceeded { value }));
                    lemma_exceeded_stays(paths@, i + 1, value);
                }
                return Err(ReplayAdmissionError::PathBytesExceeded { value });
            }
            total = total + length;
            let ghost before = observed@;
            observed.push(RawObservedPath { path: path.clone(), role: RawPathRole::Subject, hint: None });
            proof {
                let kept = match replay_scan(done) {
                    ReplayScan::Within { kept, .. } => kept,
                    ReplayScan::Exceeded { .. } => Seq::empty(),
                };
                assert(observed@.map_values(|p: RawObservedPath| p.path@) =~= before.map_values(
                    |p: RawObservedPath| p.path@,
                ).push(path@));
                assert(kept.push(*path).map_values(|p: String| p@) =~= kept.map_values(
                    |p: String| p@,
                ).push(path@));
            }
        }
        i = i + 1;
    }
    proof {
        assert(paths@.subrange(0, paths@.len() as int) =~= paths@);
    }
    if observed.len() == 0 {
        return Err(ReplayAdmissionError::PathCountExceeded { value: 0 });
    }
    Ok(
        RawObservation {
            kind: RawEventKind::Modify,
            paths: observed,
            uncertainty: ObservationUncertainty {
                path_coverage: false,
                backend_error: false,
                overflow: false,
            },
        },
    )
}

/// The raw flag bit of a backend rescan request.
pub const RAW_FLAG_RESCAN: u64 = 1;

/// The metadata an observation retains of its event.
#[derive(Clone, Debug, PartialEq, Eq)]
pub struct RawObservationMetadata {
    pub flags: u64,
    pub rename_cookie: Option<u64>,
    pub detail: Option<String>,
    pub source: Option<String>,
    pub process_id: Option<u32>,
}

/// The metadata of an event's attributes: the rescan flag as a raw flag bit, the rename
/// tracker as the rename cookie, and the detail text, source text and process id as they are.
pub fn observation_metadata_from_values(
    rescan: bool,
    tracker: Option<usize>,
    info: Option<String>,
    source: Option<String>,
    process_id: Option<u32>,
) -> (metadata: RawObservationMetadata)
    ensures
        metadata.flags == if rescan {
            RAW_FLAG_RESCAN
        } else {
            0
        },
        match tracker {
            Some(value) => metadata.rename_cookie == Some(value as u64),
            None => metadata.rename_cookie is None,
        },
        metadata.detail == info,
        metadata.source == source,
        metadata.process_id == process_id,
{
    let flags = if rescan {
        RAW_FLAG_RESCAN
    } else {
        0
    };
    let rename_cookie = match tracker {
        Some(value) => Some(value as u64),
        None => None,
    };
    RawObservationMetadata { flags, rename_cookie, detail: info, source, process_id }
}


/// A watched path that is not below the source root.
#[derive(Clone, Debug, PartialEq, Eq)]
pub struct PathOutsideSourceRoot {
    pub path: String,
}

/// The relative form of a watched path: an error when it is not below the source root, `None`
/// when it names the root itself (every component of the remainder is `.`, which is when the
/// remainder rebuilt from its components is empty or `.`), and otherwise the remainder, which
/// is then still to be validated as a root-relative path.
pub open spec fn capture_relative_spec(source_root: Seq<char>, path: Seq<char>) -> Result<
    Option<Seq<char>>,
    Seq<char>,
> {
    if !path_within(path, source_root) {
        Err(path)
    } else {
        let relative = path_below(path, source_root);
        let normal = path_normal_form(relative);
        if normal.len() == 0 || normal == seq!['.'] {
            Ok(None)
        } else {
            Ok(Some(relative))
        }
    }
}

/// Make a watched path relative to the source root.
pub fn capture_relative_path(source_root: &String, path: String) -> (relative: Result<
    Option<String>,
    PathOutsideSourceRoot,
>)
    ensures
        match (relative, capture_relative_spec(source_root@, path@)) {
            (Ok(None), Ok(None)) => true,
            (Ok(Some(text)), Ok(Some(expected))) => text@ == expected,
            (Err(outside), Err(expected)) => outside.path@ == expected,
            _ => false,
        },
{
    let relative = match strip_path_prefix(&path, source_root) {
        Some(relative) => relative,
        None => {
            return Err(PathOutsideSourceRoot { path });
        },
    };
    let normal = normalized_rating_path(&relative);
    let length = normal.as_str().unicode_len();
    if length == 0 {
        return Ok(None);
    }
    if length == 1 && normal.as_str().get_char(0) == '.' {
        assert(normal@ =~= seq!['.']);
        return Ok(None);
    }
    proof {
        if normal@ == seq!['.'] {
            assert(normal@[0] == '.');
        }
    }
    Ok(Some(relative))
}

} // verus!
