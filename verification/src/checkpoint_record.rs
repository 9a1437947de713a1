//! Validation of the stored watcher-cursor record.
//!
//! The record is a JSON object. Its text is decoded outside this module into a
//! [`CheckpointObject`]: the object's members in their stored order, each member holding what
//! the validation reads of its value (its text if it is a string, its value if it is an
//! unsigned integer, and the cursor cause it names if it names one). A member name may occur
//! only once. The validation then accepts exactly two shapes: the legacy shape with the fields
//! `root_identity` and `event_id`, and the complete revision-bound shape with all seven fields
//! and format version 2. Every other shape fails closed.
use vstd::prelude::*;
use crate::checkpoint::{
    CheckpointCause, SourceWatcherCheckpoint, WatcherCheckpointModel, legacy_model,
    CHECKPOINT_FORMAT_VERSION,
};

verus! {

/// What the validation reads of one member value.
#[derive(Clone, Debug, PartialEq, Eq)]
pub struct CheckpointJsonValue {
    /// The value's text when the value is a JSON string.
    pub text: Option<String>,
    /// The value when it is a JSON number that is an unsigned 64-bit integer.
    pub unsigned: Option<u64>,
    /// The cursor cause that the value names, when it names one.
    pub cause: Option<CheckpointCause>,
}

/// Mathematical value of a [`CheckpointJsonValue`].
pub struct JsonValueModel {
    pub text: Option<Seq<char>>,
    pub unsigned: Option<u64>,
    pub cause: Option<CheckpointCause>,
}

impl View for CheckpointJsonValue {
    type V = JsonValueModel;

    open spec fn view(&self) -> JsonValueModel {
        JsonValueModel {
            text: match self.text {
                Some(text) => Some(text@),
                None => None,
            },
            unsigned: self.unsigned,
            cause: self.cause,
        }
    }
}

/// Which record field a validation error concerns.
#[derive(Clone, Copy, Debug, PartialEq, Eq, Structural)]
pub enum CheckpointField {
    RootIdentity,
    EventId,
    FormatVersion,
    SourceId,
    LifecycleGeneration,
    SourceRevision,
}

/// Why a stored record was refused.
#[derive(Clone, Copy, Debug, PartialEq, Eq, Structural)]
pub enum CheckpointParseError {
    /// The field is not a string.
    NotText(CheckpointField),
    /// The field is not an unsigned integer.
    NotUnsigned(CheckpointField),
    /// The members are neither exactly the legacy fields nor exactly the revision-bound fields.
    UnsupportedShape,
    /// The revision-bound shape carries another format version.
    UnsupportedVersion,
    /// The cause is not one of the known causes.
    InvalidCause,
}

pub type MemberModel = (Seq<char>, JsonValueModel);

/// No member name occurs twice.
pub open spec fn names_unique(members: Seq<MemberModel>) -> bool {
    forall|i: int, j: int|
        0 <= i < members.len() && 0 <= j < members.len() && i != j ==> #[trigger] members[i].0
            != #[trigger] members[j].0
}

pub open spec fn has_member(members: Seq<MemberModel>, name: Seq<char>) -> bool {
    exists|i: int| 0 <= i < members.len() && #[trigger] members[i].0 == name
}

/// The value of the member called `name`, if there is one.
pub open spec fn member_value(members: Seq<MemberModel>, name: Seq<char>) -> Option<JsonValueModel> {
    if has_member(members, name) {
        Some(members[choose|i: int| 0 <= i < members.len() && #[trigger] members[i].0 == name].1)
    } else {
        None
    }
}

/// The members are exactly the fields `names` (which are distinct).
pub open spec fn exact_fields(members: Seq<MemberModel>, names: Seq<Seq<char>>) -> bool {
    &&& members.len() == names.len()
    &&& forall|i: int| 0 <= i < names.len() ==> has_member(members, #[trigger] names[i])
}

pub open spec fn legacy_field_names() -> Seq<Seq<char>> {
    seq!["root_identity"@, "event_id"@]
}

pub open spec fn revision_bound_field_names() -> Seq<Seq<char>> {
    seq![
        "root_identity"@,
        "event_id"@,
        "format_version"@,
        "source_id"@,
        "lifecycle_generation"@,
        "source_revision"@,
        "cause"@,
    ]
}

pub open spec fn text_member(
    members: Seq<MemberModel>,
    name: Seq<char>,
    field: CheckpointField,
) -> Result<Seq<char>, CheckpointParseError> {
    match member_value(members, name) {
        Some(value) => match value.text {
            Some(text) => Ok(text),
            None => Err(CheckpointParseError::NotText(field)),
        },
        None => Err(CheckpointParseError::NotText(field)),
    }
}

pub open spec fn unsigned_member(
    members: Seq<MemberModel>,
    name: Seq<char>,
    field: CheckpointField,
) -> Result<u64, CheckpointParseError> {
    match member_value(members, name) {
        Some(value) => match value.unsigned {
            Some(number) => Ok(number),
            None => Err(CheckpointParseError::NotUnsigned(field)),
        },
        None => Err(CheckpointParseError::NotUnsigned(field)),
    }
}

pub open spec fn cause_member(members: Seq<MemberModel>) -> Result<
    CheckpointCause,
    CheckpointParseError,
> {
    match member_value(members, "cause"@) {
        Some(value) => match value.cause {
            Some(cause) => Ok(cause),
            None => Err(CheckpointParseError::InvalidCause),
        },
        None => Err(CheckpointParseError::InvalidCause),
    }
}

/// The revision-bound record, read in the order: format version, cause, root identity, event
/// id, source id, lifecycle generation, source revision; the first failure is reported.
pub open spec fn revision_bound_record(members: Seq<MemberModel>) -> Result<
    WatcherCheckpointModel,
    CheckpointParseError,
> {
    let version = unsigned_member(members, "format_version"@, CheckpointField::FormatVersion);
    let cause = cause_member(members);
    let root = text_member(members, "root_identity"@, CheckpointField::RootIdentity);
    let event = unsigned_member(members, "event_id"@, CheckpointField::EventId);
    let source = text_member(members, "source_id"@, CheckpointField::SourceId);
    let generation = unsigned_member(
        members,
        "lifecycle_generation"@,
        CheckpointField::LifecycleGeneration,
    );
    let revision = unsigned_member(members, "source_revision"@, CheckpointField::SourceRevision);
    if version is Err {
        Err(version->Err_0)
    } else if version->Ok_0 != CHECKPOINT_FORMAT_VERSION as u64 {
        Err(CheckpointParseError::UnsupportedVersion)
    } else if cause is Err {
        Err(cause->Err_0)
    } else if root is Err {
        Err(root->Err_0)
    } else if event is Err {
        Err(event->Err_0)
    } else if source is Err {
        Err(source->Err_0)
    } else if generation is Err {
        Err(generation->Err_0)
    } else if revision is Err {
        Err(revision->Err_0)
    } else {
        Ok(
            WatcherCheckpointModel {
                root_identity: root->Ok_0,
                event_id: event->Ok_0,
                format_version: Some(CHECKPOINT_FORMAT_VERSION),
                source_id: Some(source->Ok_0),
                lifecycle_generation: Some(generation->Ok_0),
                source_revision: Some(revision->Ok_0),
                cause: Some(cause->Ok_0),
            },
        )
    }
}

/// The whole validation of a stored record.
pub open spec fn checkpoint_record(members: Seq<MemberModel>) -> Result<
    WatcherCheckpointModel,
    CheckpointParseError,
> {
    if exact_fields(members, legacy_field_names()) {
        let root = text_member(members, "root_identity"@, CheckpointField::RootIdentity);
        let event = unsigned_member(members, "event_id"@, CheckpointField::EventId);
        if root is Err {
            Err(root->Err_0)
        } else if event is Err {
            Err(event->Err_0)
        } else {
            Ok(legacy_model(root->Ok_0, event->Ok_0))
        }
    } else if !exact_fields(members, revision_bound_field_names()) {
        Err(CheckpointParseError::UnsupportedShape)
    } else {
        revision_bound_record(members)
    }
}

/// The decoded members of a stored record, in stored order, with distinct names.
pub struct CheckpointObject {
    members: Vec<(String, CheckpointJsonValue)>,
}

impl View for CheckpointObject {
    type V = Seq<MemberModel>;

    closed spec fn view(&self) -> Seq<MemberModel> {
        self.members@.map_values(|member: (String, CheckpointJsonValue)| (member.0@, member.1@))
    }
}

impl CheckpointObject {
    #[verifier::type_invariant]
    closed spec fn members_are_distinct(self) -> bool {
        names_unique(self@)
    }

    /// An object without members.
    pub fn new() -> (object: Self)
        ensures
            object@ == Seq::<MemberModel>::empty(),
    {
        let object = CheckpointObject { members: Vec::new() };
        assert(object@ =~= Seq::<MemberModel>::empty());
        object
    }

    /// Number of members.
    pub fn len(&self) -> (count: usize)
        ensures
            count == self@.len(),
    {
        self.members.len()
    }

    fn position(&self, name: &String) -> (index: Option<usize>)
        ensures
            match index {
                Some(i) => i < self@.len() && self@[i as int].0 == name@,
                None => !has_member(self@, name@),
            },
    {
        let mut i: usize = 0;
        while i < self.members.len()
            invariant
                i <= self.members@.len(),
                forall|k: int| 0 <= k < i ==> self@[k].0 != name@,
            decreases self.members@.len() - i,
        {
            if self.members[i].0 == *name {
                return Some(i);
            }
            i = i + 1;
        }
        None
    }

    /// Add a member; a name that is already present is refused and leaves the object as it was.
    pub fn insert(&mut self, name: String, value: CheckpointJsonValue) -> (inserted: bool)
        ensures
            inserted == !has_member(old(self)@, name@),
            inserted ==> final(self)@ == old(self)@.push((name@, value@)),
            !inserted ==> final(self)@ == old(self)@,
    {
        proof {
            use_type_invariant(&*self);
        }
        if self.position(&name).is_some() {
            return false;
        }
        let ghost before = self@;
        let ghost name_view = name@;
        let ghost value_view = value@;
        let mut members = Vec::new();
        std::mem::swap(&mut members, &mut self.members);
        members.push((name, value));
        proof {
            assert(members@.map_values(
                |member: (String, CheckpointJsonValue)| (member.0@, member.1@),
            ) =~= before.push((name_view, value_view)));
        }
        self.members = members;
        assert(self@ =~= before.push((name_view, value_view)));
        true
    }

    /// The value of the member called `name`.
    pub fn get(&self, name: &str) -> (value: Option<&CheckpointJsonValue>)
        ensures
            match value {
                Some(v) => member_value(self@, name@) == Some(v@),
                None => member_value(self@, name@) is None,
            },
    {
        proof {
            use_type_invariant(self);
        }
        let name = name.to_owned();
        match self.position(&name) {
            Some(i) => {
                proof {
                    let j = choose|j: int| 0 <= j < self@.len() && #[trigger] self@[j].0 == name@;
                    assert(self@[i as int].0 == self@[j].0);
                }
                Some(&self.members[i].1)
            },
            None => None,
        }
    }
}

/// The members are exactly `expected_fields`.
pub fn has_exact_checkpoint_fields(object: &CheckpointObject, expected_fields: &[&str]) -> (exact:
    bool)
    ensures
        exact == exact_fields(object@, expected_fields@.map_values(|field: &str| field@)),
{
    let ghost names = expected_fields@.map_values(|field: &str| field@);
    if object.len() != expected_fields.len() {
        return false;
    }
    let mut i: usize = 0;
    while i < expected_fields.len()
        invariant
            i <= expected_fields@.len(),
            names == expected_fields@.map_values(|field: &str| field@),
            object@.len() == names.len(),
            forall|k: int| 0 <= k < i ==> has_member(object@, #[trigger] names[k]),
        decreases expected_fields@.len() - i,
    {
        if object.get(expected_fields[i]).is_none() {
            assert(names[i as int] == expected_fields@[i as int]@);
            assert(!has_member(object@, names[i as int]));
            return false;
        }
        i = i + 1;
    }
    true
}

/// The text of a string field.
pub fn checkpoint_string(object: &CheckpointObject, field: &str, which: CheckpointField) -> (text:
    Result<String, CheckpointParseError>)
    ensures
        match text {
            Ok(t) => text_member(object@, field@, which) == Ok::<Seq<char>, CheckpointParseError>(t@),
            Err(e) => text_member(object@, field@, which) == Err::<Seq<char>, CheckpointParseError>(e),
        },
{
    match object.get(field) {
        Some(value) => match &value.text {
            Some(text) => Ok(text.clone()),
            None => Err(CheckpointParseError::NotText(which)),
        },
        None => Err(CheckpointParseError::NotText(which)),
    }
}

/// The value of an unsigned-integer field.
pub fn checkpoint_u64(object: &CheckpointObject, field: &str, which: CheckpointField) -> (number:
    Result<u64, CheckpointParseError>)
    ensures
        number == unsigned_member(object@, field@, which),
{
    match object.get(field) {
        Some(value) => match value.unsigned {
            Some(number) => Ok(number),
            None => Err(CheckpointParseError::NotUnsigned(which)),
        },
        None => Err(CheckpointParseError::NotUnsigned(which)),
    }
}

fn checkpoint_cause(object: &CheckpointObject) -> (cause: Result<CheckpointCause, CheckpointParseError>)
    ensures
        cause == cause_member(object@),
{
    match object.get("cause") {
        Some(value) => match value.cause {
            Some(cause) => Ok(cause),
            None => Err(CheckpointParseError::InvalidCause),
        },
        None => Err(CheckpointParseError::InvalidCause),
    }
}

/// Validate a decoded record: the legacy shape, or the complete revision-bound shape of the
/// current format version; anything else is refused.
pub fn parse_checkpoint(object: &CheckpointObject) -> (parsed: Result<
    SourceWatcherCheckpoint,
    CheckpointParseError,
>)
    ensures
        match parsed {
            Ok(checkpoint) => checkpoint_record(object@) == Ok::<
                WatcherCheckpointModel,
                CheckpointParseError,
            >(checkpoint@),
            Err(e) => checkpoint_record(object@) == Err::<WatcherCheckpointModel, CheckpointParseError>(e),
        },
{
    let legacy_fields = ["root_identity", "event_id"];
    let exact_legacy = has_exact_checkpoint_fields(object, &legacy_fields);
    assert(legacy_fields@.map_values(|field: &str| field@) =~= legacy_field_names());
    if exact_legacy {
        let root_identity = checkpoint_string(object, "root_identity", CheckpointField::RootIdentity)?;
        let event_id = checkpoint_u64(object, "event_id", CheckpointField::EventId)?;
        return Ok(SourceWatcherCheckpoint::legacy(root_identity, event_id));
    }
    let revision_bound_fields = [
        "root_identity",
        "event_id",
        "format_version",
        "source_id",
        "lifecycle_generation",
        "source_revision",
        "cause",
    ];
    let exact_revision_bound = has_exact_checkpoint_fields(object, &revision_bound_fields);
    assert(revision_bound_fields@.map_values(|field: &str| field@) =~= revision_bound_field_names());
    if !exact_revision_bound {
        return Err(CheckpointParseError::UnsupportedShape);
    }
    let version = checkpoint_u64(object, "format_version", CheckpointField::FormatVersion)?;
    if version != CHECKPOINT_FORMAT_VERSION as u64 {
        return Err(CheckpointParseError::UnsupportedVersion);
    }
    let cause = checkpoint_cause(object)?;
    let root_identity = checkpoint_string(object, "root_identity", CheckpointField::RootIdentity)?;
    let event_id = checkpoint_u64(object, "event_id", CheckpointField::EventId)?;
    let source_id = checkpoint_string(object, "source_id", CheckpointField::SourceId)?;
    let lifecycle_generation = checkpoint_u64(
        object,
        "lifecycle_generation",
        CheckpointField::LifecycleGeneration,
    )?;
    let source_revision = checkpoint_u64(object, "source_revision", CheckpointField::SourceRevision)?;
    Ok(
        SourceWatcherCheckpoint {
            root_identity,
            event_id,
            format_version: Some(CHECKPOINT_FORMAT_VERSION),
            source_id: Some(source_id),
            lifecycle_generation: Some(lifecycle_generation),
            source_revision: Some(source_revision),
            cause: Some(cause),
        },
    )
}

} // verus!
