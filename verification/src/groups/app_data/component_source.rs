//! Reading, encoding and applying updates of the components of a group.
//!
//! A component is a piece of group data with its own id: where its current bytes live, how an
//! update of it looks on the wire and what an update makes of it is decided here.
//!
//! Inbox ids are 64-character hexadecimal texts in the group's metadata extension. On the wire of
//! component updates they stand in their raw form of 32 bytes.

use vstd::prelude::*;
use vstd::string::*;
use crate::bytes;
use crate::codec;
use crate::codec::{HexError, TlsCodecError};
use crate::groups::app_data::tls_set;
use crate::groups::app_data::tls_set::{TlsSet, TlsSetDelta, TlsSetError, TlsSetMutation, INBOX_ID_BYTE_LEN};
use crate::groups::error::GroupMutableMetadataError;
use crate::groups::extensions;
use crate::groups::extensions::{Decoded, Extension, ExtensionType, Extensions, GroupMutableMetadata};

verus! {

/// The components that the client knows, and those of applications by their number.
#[derive(Clone, Copy, Debug, PartialEq, Eq, Structural)]
pub enum ComponentId {
    ComponentRegistry,
    SuperAdminList,
    AdminList,
    GroupMembership,
    GroupName,
    GroupDescription,
    GroupImageUrl,
    MessageDisappearFromNs,
    MessageDisappearInNs,
    AppData,
    MinSupportedProtocolVersion,
    CommitLogSigner,
    ConversationType,
    CreatorInboxId,
    OneshotMessage,
    DmMembers,
    Application(u16),
}

impl ComponentId {
    /// The component of an application; `raw` is a number that none of the components above has.
    pub fn new(raw: u16) -> (r: ComponentId)
        ensures
            r == ComponentId::Application(raw),
    {
        ComponentId::Application(raw)
    }

    /// Whether a component is written once and never changed.
    pub open spec fn immutable(self) -> bool {
        ||| self is ConversationType
        ||| self is CreatorInboxId
        ||| self is OneshotMessage
        ||| self is DmMembers
    }

    pub fn is_immutable(&self) -> (r: bool)
        ensures
            r == self.immutable(),
    {
        match self {
            ComponentId::ConversationType => true,
            ComponentId::CreatorInboxId => true,
            ComponentId::OneshotMessage => true,
            ComponentId::DmMembers => true,
            _ => false,
        }
    }
}

/// The logical type of a component.
#[derive(Clone, Copy, Debug, PartialEq, Eq, Structural)]
pub enum ComponentType {
    Bytes,
    SetInboxId,
    TlsMapInboxIdBytes,
    TlsMapBytesBytes,
}

/// What a change does to an entry of a component.
#[derive(Clone, Copy, Debug, PartialEq, Eq, Structural)]
pub enum ComponentOp {
    Insert,
    Update,
    Delete,
}

/// What an update proposal does to a component.
#[derive(Debug)]
pub enum AppDataUpdateOperation {
    Update(Vec<u8>),
    Remove,
}

/// The attributes of a group's mutable metadata.
#[derive(Clone, Copy, Debug, PartialEq, Eq, Structural)]
pub enum MetadataField {
    GroupName,
    Description,
    GroupImageUrlSquare,
    MessageDisappearFromNS,
    MessageDisappearInNS,
    MinimumSupportedProtocolVersion,
    CommitLogSigner,
    AppData,
}

impl MetadataField {
    /// The name under which an attribute is stored.
    pub open spec fn name(self) -> Seq<char> {
        match self {
            MetadataField::GroupName => "group_name"@,
            MetadataField::Description => "description"@,
            MetadataField::GroupImageUrlSquare => "group_image_url_square"@,
            MetadataField::MessageDisappearFromNS => "message_disappear_from_ns"@,
            MetadataField::MessageDisappearInNS => "message_disappear_in_ns"@,
            MetadataField::MinimumSupportedProtocolVersion => "minimum_supported_protocol_version"@,
            MetadataField::CommitLogSigner => "_commit_log_signer"@,
            MetadataField::AppData => "app_data"@,
        }
    }

    /// The name under which an attribute is stored.
    pub fn as_str(&self) -> (r: &'static str)
        ensures
            r@ == self.name(),
    {
        match self {
            MetadataField::GroupName => "group_name",
            MetadataField::Description => "description",
            MetadataField::GroupImageUrlSquare => "group_image_url_square",
            MetadataField::MessageDisappearFromNS => "message_disappear_from_ns",
            MetadataField::MessageDisappearInNS => "message_disappear_in_ns",
            MetadataField::MinimumSupportedProtocolVersion => "minimum_supported_protocol_version",
            MetadataField::CommitLogSigner => "_commit_log_signer",
            MetadataField::AppData => "app_data",
        }
    }
}

/// No two attributes have the same name.
pub proof fn field_names_are_distinct(a: MetadataField, b: MetadataField)
    ensures
        a.name() == b.name() ==> a == b,
{
    reveal_strlit("group_name");
    reveal_strlit("description");
    reveal_strlit("group_image_url_square");
    reveal_strlit("message_disappear_from_ns");
    reveal_strlit("message_disappear_in_ns");
    reveal_strlit("minimum_supported_protocol_version");
    reveal_strlit("_commit_log_signer");
    reveal_strlit("app_data");
    assert("group_name"@.len() == 10);
    assert("description"@.len() == 11);
    assert("group_image_url_square"@.len() == 22);
    assert("message_disappear_from_ns"@.len() == 25);
    assert("message_disappear_in_ns"@.len() == 23);
    assert("minimum_supported_protocol_version"@.len() == 34);
    assert("_commit_log_signer"@.len() == 18);
    assert("app_data"@.len() == 8);
}

/// The stored values of components, the first entry for an id counting.
#[derive(Debug)]
pub struct AppDataDictionary {
    pub entries: Vec<(ComponentId, Vec<u8>)>,
}

/// The stored value of a component.
pub open spec fn stored(entries: Seq<(ComponentId, Vec<u8>)>, id: ComponentId) -> Option<Seq<u8>>
    decreases entries.len(),
{
    if entries.len() == 0 {
        None
    } else if entries[0].0 == id {
        Some(entries[0].1@)
    } else {
        stored(entries.drop_first(), id)
    }
}

impl AppDataDictionary {
    /// The stored value of a component.
    pub fn get(&self, id: ComponentId) -> (r: Option<&Vec<u8>>)
        ensures
            match r {
                Some(b) => stored(self.entries@, id) == Some(b@),
                None => stored(self.entries@, id) is None,
            },
    {
        let mut i: usize = 0;
        assert(self.entries@.skip(0) =~= self.entries@);
        while i < self.entries.len()
            invariant
                i <= self.entries@.len(),
                stored(self.entries@, id) == stored(self.entries@.skip(i as int), id),
            decreases self.entries@.len() - i,
        {
            assert(self.entries@.skip(i as int)[0] == self.entries@[i as int]);
            assert(self.entries@.skip(i as int).drop_first() =~= self.entries@.skip(i + 1));
            if self.entries[i].0 == id {
                return Some(&self.entries[i].1);
            }
            i += 1;
        }
        assert(self.entries@.skip(i as int) =~= Seq::<(ComponentId, Vec<u8>)>::empty());
        None
    }
}

/// Why a component cannot be read, encoded or updated.
#[derive(Debug)]
pub enum ComponentSourceError {
    /// The component is none that the client handles.
    UnknownComponent(ComponentId),
    /// The component is known but not handled yet.
    NotImplemented(ComponentId),
    /// An update of a component that is written once.
    ImmutableUpdate(ComponentId),
    /// The mutation does not fit the type of the component.
    MismatchedMutation(ComponentId),
    /// An inbox id is no hexadecimal text.
    InvalidInboxIdHex(HexError),
    /// An inbox id has the wrong number of bytes.
    InvalidInboxIdLength { expected: usize, actual: usize },
    /// The stored bytes of a component do not decode.
    MalformedComponentValue { component_id: ComponentId, reason: String },
    /// An attribute name that belongs to no component.
    UnknownMetadataField(String),
    GroupMutableMetadata(GroupMutableMetadataError),
    TlsCodec(TlsCodecError),
    TlsSetApply(TlsSetError),
}

/// A single mutation of a component.
#[derive(Debug)]
pub enum ComponentMutation<'a> {
    /// A new value for a bytes component.
    Bytes { component_id: ComponentId, new_value: &'a [u8] },
    AdminListAdd { inbox_id: &'a str },
    AdminListRemove { inbox_id: &'a str },
    SuperAdminListAdd { inbox_id: &'a str },
    SuperAdminListRemove { inbox_id: &'a str },
}

/// The component that a mutation is for.
pub open spec fn target_of(mutation: ComponentMutation<'_>) -> ComponentId {
    match mutation {
        ComponentMutation::Bytes { component_id, new_value: _ } => component_id,
        ComponentMutation::AdminListAdd { inbox_id: _ } => ComponentId::AdminList,
        ComponentMutation::AdminListRemove { inbox_id: _ } => ComponentId::AdminList,
        ComponentMutation::SuperAdminListAdd { inbox_id: _ } => ComponentId::SuperAdminList,
        ComponentMutation::SuperAdminListRemove { inbox_id: _ } => ComponentId::SuperAdminList,
    }
}

impl ComponentMutation<'_> {
    /// The component that a mutation is for.
    pub fn component_id(&self) -> (r: ComponentId)
        ensures
            r == target_of(*self),
    {
        match self {
            ComponentMutation::Bytes { component_id, new_value: _ } => *component_id,
            ComponentMutation::AdminListAdd { inbox_id: _ } => ComponentId::AdminList,
            ComponentMutation::AdminListRemove { inbox_id: _ } => ComponentId::AdminList,
            ComponentMutation::SuperAdminListAdd { inbox_id: _ } => ComponentId::SuperAdminList,
            ComponentMutation::SuperAdminListRemove { inbox_id: _ } => ComponentId::SuperAdminList,
        }
    }
}

/// The logical type of a component.
pub open spec fn type_of(id: ComponentId) -> Option<ComponentType> {
    match id {
        ComponentId::ComponentRegistry => Some(ComponentType::TlsMapBytesBytes),
        ComponentId::GroupMembership => Some(ComponentType::TlsMapInboxIdBytes),
        ComponentId::SuperAdminList => Some(ComponentType::SetInboxId),
        ComponentId::AdminList => Some(ComponentType::SetInboxId),
        ComponentId::DmMembers => Some(ComponentType::SetInboxId),
        ComponentId::Application(_) => None,
        _ => Some(ComponentType::Bytes),
    }
}

/// Every component that holds an attribute is of bytes, and every list of inboxes is a set of them; the type of a
/// component of an application is not known, and that of every other is. A mutation is for a component of its own type,
/// and for the list that it names.
pub proof fn components_have_their_types(
    id: ComponentId,
    field: MetadataField,
    mutation: ComponentMutation<'_>,
)
    ensures
        type_of(component_of(field)) == Some(ComponentType::Bytes),
        !component_of(field).immutable(),
        type_of(id) == Some(ComponentType::SetInboxId) <==> id == ComponentId::AdminList || id
            == ComponentId::SuperAdminList || id == ComponentId::DmMembers,
        type_of(id) == Some(ComponentType::TlsMapInboxIdBytes) <==> id == ComponentId::GroupMembership,
        type_of(id) == Some(ComponentType::TlsMapBytesBytes) <==> id == ComponentId::ComponentRegistry,
        type_of(id) is None <==> id is Application,
        mutation is AdminListAdd || mutation is AdminListRemove ==> target_of(mutation) == ComponentId::AdminList,
        mutation is SuperAdminListAdd || mutation is SuperAdminListRemove ==> target_of(mutation)
            == ComponentId::SuperAdminList,
        mutation matches ComponentMutation::Bytes { component_id, new_value: _ } ==> target_of(mutation) == component_id,
        id.immutable() <==> id == ComponentId::ConversationType || id == ComponentId::CreatorInboxId || id
            == ComponentId::OneshotMessage || id == ComponentId::DmMembers,
{
}

/// The logical type of a component; none for the components of applications.
pub fn component_type(id: ComponentId) -> (r: Option<ComponentType>)
    ensures
        r == type_of(id),
{
    match id {
        ComponentId::ComponentRegistry => Some(ComponentType::TlsMapBytesBytes),
        ComponentId::SuperAdminList => Some(ComponentType::SetInboxId),
        ComponentId::AdminList => Some(ComponentType::SetInboxId),
        ComponentId::GroupMembership => Some(ComponentType::TlsMapInboxIdBytes),
        ComponentId::GroupName => Some(ComponentType::Bytes),
        ComponentId::GroupDescription => Some(ComponentType::Bytes),
        ComponentId::GroupImageUrl => Some(ComponentType::Bytes),
        ComponentId::MessageDisappearFromNs => Some(ComponentType::Bytes),
        ComponentId::MessageDisappearInNs => Some(ComponentType::Bytes),
        ComponentId::AppData => Some(ComponentType::Bytes),
        ComponentId::MinSupportedProtocolVersion => Some(ComponentType::Bytes),
        ComponentId::CommitLogSigner => Some(ComponentType::Bytes),
        ComponentId::ConversationType => Some(ComponentType::Bytes),
        ComponentId::CreatorInboxId => Some(ComponentType::Bytes),
        ComponentId::OneshotMessage => Some(ComponentType::Bytes),
        ComponentId::DmMembers => Some(ComponentType::SetInboxId),
        ComponentId::Application(_) => None,
    }
}

/// The attributes that are components, in the order in which they are merged.
pub open spec fn field_at(i: int) -> MetadataField {
    if i == 0 {
        MetadataField::GroupName
    } else if i == 1 {
        MetadataField::Description
    } else if i == 2 {
        MetadataField::GroupImageUrlSquare
    } else if i == 3 {
        MetadataField::MessageDisappearFromNS
    } else if i == 4 {
        MetadataField::MessageDisappearInNS
    } else if i == 5 {
        MetadataField::MinimumSupportedProtocolVersion
    } else if i == 6 {
        MetadataField::CommitLogSigner
    } else {
        MetadataField::AppData
    }
}

fn nth_field(i: usize) -> (r: MetadataField)
    requires
        i < 8,
    ensures
        r == field_at(i as int),
{
    match i {
        0 => MetadataField::GroupName,
        1 => MetadataField::Description,
        2 => MetadataField::GroupImageUrlSquare,
        3 => MetadataField::MessageDisappearFromNS,
        4 => MetadataField::MessageDisappearInNS,
        5 => MetadataField::MinimumSupportedProtocolVersion,
        6 => MetadataField::CommitLogSigner,
        _ => MetadataField::AppData,
    }
}

/// The component that holds an attribute.
pub open spec fn component_of(field: MetadataField) -> ComponentId {
    match field {
        MetadataField::GroupName => ComponentId::GroupName,
        MetadataField::Description => ComponentId::GroupDescription,
        MetadataField::GroupImageUrlSquare => ComponentId::GroupImageUrl,
        MetadataField::MessageDisappearFromNS => ComponentId::MessageDisappearFromNs,
        MetadataField::MessageDisappearInNS => ComponentId::MessageDisappearInNs,
        MetadataField::MinimumSupportedProtocolVersion => ComponentId::MinSupportedProtocolVersion,
        MetadataField::CommitLogSigner => ComponentId::CommitLogSigner,
        MetadataField::AppData => ComponentId::AppData,
    }
}

fn component_for(field: MetadataField) -> (r: ComponentId)
    ensures
        r == component_of(field),
{
    match field {
        MetadataField::GroupName => ComponentId::GroupName,
        MetadataField::Description => ComponentId::GroupDescription,
        MetadataField::GroupImageUrlSquare => ComponentId::GroupImageUrl,
        MetadataField::MessageDisappearFromNS => ComponentId::MessageDisappearFromNs,
        MetadataField::MessageDisappearInNS => ComponentId::MessageDisappearInNs,
        MetadataField::MinimumSupportedProtocolVersion => ComponentId::MinSupportedProtocolVersion,
        MetadataField::CommitLogSigner => ComponentId::CommitLogSigner,
        MetadataField::AppData => ComponentId::AppData,
    }
}

/// Whether a component holds an attribute.
pub open spec fn holds_field(id: ComponentId) -> bool {
    exists|field: MetadataField| #[trigger] component_of(field) == id
}

/// Whether a component is the one whose attribute has a name.
pub open spec fn is_component_named(field_name: Seq<char>, r: Option<ComponentId>) -> bool {
    match r {
        Some(id) => exists|field: MetadataField| #[trigger] field.name() == field_name && id == component_of(field),
        None => forall|field: MetadataField| #[trigger] field.name() != field_name,
    }
}

/// Whether an attribute is the one that a component holds.
pub open spec fn is_field_of(id: ComponentId, r: Option<MetadataField>) -> bool {
    match r {
        Some(field) => component_of(field) == id,
        None => !holds_field(id),
    }
}

/// The name of an attribute leads to the attribute's component, and from there back to the attribute: for a name, a
/// description, an image, the times of disappearing messages, a version, a signer and application data alike.
pub proof fn names_lead_to_their_components(
    field: MetadataField,
    id: Option<ComponentId>,
    back: Option<MetadataField>,
)
    requires
        is_component_named(field.name(), id),
        id is Some ==> is_field_of(id->0, back),
    ensures
        id == Some(component_of(field)),
        back == Some(field),
        field == MetadataField::GroupName ==> id == Some(ComponentId::GroupName),
        field == MetadataField::Description ==> id == Some(ComponentId::GroupDescription),
        field == MetadataField::GroupImageUrlSquare ==> id == Some(ComponentId::GroupImageUrl),
        field == MetadataField::AppData ==> id == Some(ComponentId::AppData),
        field == MetadataField::CommitLogSigner ==> id == Some(ComponentId::CommitLogSigner),
        field == MetadataField::MessageDisappearFromNS ==> id == Some(ComponentId::MessageDisappearFromNs),
        field == MetadataField::MessageDisappearInNS ==> id == Some(ComponentId::MessageDisappearInNs),
        field == MetadataField::MinimumSupportedProtocolVersion ==> id == Some(
            ComponentId::MinSupportedProtocolVersion,
        ),
{
    assert(field.name() == field.name());
    if let Some(found) = id {
        let other = choose|other: MetadataField|
            #[trigger] other.name() == field.name() && found == component_of(other);
        field_names_are_distinct(other, field);
        assert(holds_field(found));
        if let Some(held) = back {
            fields_and_components_correspond(held, field);
        }
    }
}

/// The component whose attribute has a name; none for a name of no attribute.
pub fn metadata_field_to_component_id(field_name: &str) -> (r: Option<ComponentId>)
    ensures
        is_component_named(field_name@, r),
{
    let mut i: usize = 0;
    while i < 8
        invariant
            i <= 8,
            forall|j: int| 0 <= j < i ==> (#[trigger] field_at(j)).name() != field_name@,
        decreases 8 - i,
    {
        let field = nth_field(i);
        if bytes::text_equal(field.as_str(), field_name) {
            assert(field.name() == field_name@ && component_of(field) == component_of(field));
            return Some(component_for(field));
        }
        i += 1;
    }
    assert forall|field: MetadataField| #[trigger] field.name() != field_name@ by {
        assert(field_at(0).name() != field_name@);
        assert(field_at(1).name() != field_name@);
        assert(field_at(2).name() != field_name@);
        assert(field_at(3).name() != field_name@);
        assert(field_at(4).name() != field_name@);
        assert(field_at(5).name() != field_name@);
        assert(field_at(6).name() != field_name@);
        assert(field_at(7).name() != field_name@);
    }
    None
}

/// The attribute that a component holds; none for components outside the mutable metadata.
pub fn component_id_to_metadata_field(id: ComponentId) -> (r: Option<MetadataField>)
    ensures
        is_field_of(id, r),
{
    match id {
        ComponentId::GroupName => Some(MetadataField::GroupName),
        ComponentId::GroupDescription => Some(MetadataField::Description),
        ComponentId::GroupImageUrl => Some(MetadataField::GroupImageUrlSquare),
        ComponentId::MessageDisappearFromNs => Some(MetadataField::MessageDisappearFromNS),
        ComponentId::MessageDisappearInNs => Some(MetadataField::MessageDisappearInNS),
        ComponentId::MinSupportedProtocolVersion => Some(MetadataField::MinimumSupportedProtocolVersion),
        ComponentId::CommitLogSigner => Some(MetadataField::CommitLogSigner),
        ComponentId::AppData => Some(MetadataField::AppData),
        _ => None,
    }
}

/// Attributes and the components that hold them correspond one to one, and a name leads to the
/// component of its own attribute alone.
pub proof fn fields_and_components_correspond(a: MetadataField, b: MetadataField)
    ensures
        component_of(a) == component_of(b) ==> a == b,
        a.name() == b.name() ==> component_of(a) == component_of(b),
        holds_field(component_of(a)),
{
    field_names_are_distinct(a, b);
}

/// Whether a result is what a text gives when it is read as an inbox id.
pub open spec fn is_inbox_id_reading(t: Seq<u8>, r: Result<Seq<u8>, ComponentSourceError>) -> bool {
    match r {
        Ok(key) => t.len() == 64 && codec::all_hex(t) && key == codec::hex_bytes(t),
        Err(ComponentSourceError::InvalidInboxIdHex(HexError::OddLength)) => t.len() % 2 != 0,
        Err(ComponentSourceError::InvalidInboxIdHex(HexError::InvalidHexCharacter { c, index })) => t.len()
            % 2 == 0 && codec::first_bad_digit(t, index as int) && c as int == t[index as int],
        Err(ComponentSourceError::InvalidInboxIdLength { expected, actual }) => t.len() % 2 == 0
            && codec::all_hex(t) && t.len() != 64 && expected == INBOX_ID_BYTE_LEN && actual == t.len() / 2,
        _ => false,
    }
}

/// Reads the text of an inbox id.
pub fn inbox_id_str_to_bytes(inbox_id: &str) -> (r: Result<[u8; 32], ComponentSourceError>)
    ensures
        match r {
            Ok(key) => is_inbox_id_reading(inbox_id.spec_bytes(), Ok(key@)),
            Err(e) => is_inbox_id_reading(inbox_id.spec_bytes(), Err(e)),
        },
{
    let raw = match codec::hex_decode(inbox_id) {
        Ok(raw) => raw,
        Err(e) => return Err(ComponentSourceError::InvalidInboxIdHex(e)),
    };
    if raw.len() != INBOX_ID_BYTE_LEN {
        return Err(
            ComponentSourceError::InvalidInboxIdLength { expected: INBOX_ID_BYTE_LEN, actual: raw.len() },
        );
    }
    let mut key: [u8; 32] = [0u8; 32];
    let mut i: usize = 0;
    while i < 32
        invariant
            i <= 32,
            raw@.len() == 32,
            forall|j: int| 0 <= j < i ==> key@[j] == raw@[j],
        decreases 32 - i,
    {
        key[i] = raw[i];
        i += 1;
    }
    assert(key@ =~= raw@);
    Ok(key)
}

/// The text of an inbox id.
pub fn inbox_id_bytes_to_string(bytes: &[u8; 32]) -> (r: String)
    ensures
        r@ == codec::hex_text(bytes@),
{
    codec::hex_encode(bytes.as_slice())
}

/// The text of an inbox id is read back as the same inbox id.
pub proof fn inbox_id_round_trip(key: Seq<u8>)
    requires
        key.len() == 32,
    ensures
        is_inbox_id_reading(vstd::utf8::encode_utf8(codec::hex_text(key)), Ok(key)),
{
    codec::hex_round_trip(key);
}

/// The raw inbox ids of a list of texts that are all inbox ids.
pub open spec fn raw_ids(ids: Seq<String>) -> Seq<Seq<u8>> {
    ids.map_values(|s: String| codec::hex_bytes(vstd::utf8::encode_utf8(s@)))
}

/// Whether a result is the set of inbox ids of a list on the wire: the first text that is no inbox
/// id decides the error.
pub open spec fn is_inbox_id_set(ids: Seq<String>, r: Result<Seq<u8>, ComponentSourceError>) -> bool {
    match r {
        Ok(b) => {
            &&& forall|i: int|
                0 <= i < ids.len() ==> is_inbox_id_reading(
                    vstd::utf8::encode_utf8((#[trigger] ids[i])@),
                    Ok(raw_ids(ids)[i]),
                )
            &&& b == tls_set::set_bytes(tls_set::collected(raw_ids(ids)))
            &&& 32 * tls_set::collected(raw_ids(ids)).len() <= codec::MAX_VECTOR_LENGTH
        },
        Err(ComponentSourceError::TlsCodec(e)) => {
            &&& forall|i: int|
                0 <= i < ids.len() ==> is_inbox_id_reading(
                    vstd::utf8::encode_utf8((#[trigger] ids[i])@),
                    Ok(raw_ids(ids)[i]),
                )
            &&& e == TlsCodecError::InvalidVectorLength
            &&& 32 * tls_set::collected(raw_ids(ids)).len() > codec::MAX_VECTOR_LENGTH
        },
        Err(e) => exists|n: int|
            {
                &&& 0 <= n < ids.len()
                &&& is_inbox_id_reading(vstd::utf8::encode_utf8((#[trigger] ids[n])@), Err(e))
                &&& forall|i: int|
                    0 <= i < n ==> is_inbox_id_reading(
                        vstd::utf8::encode_utf8((#[trigger] ids[i])@),
                        Ok(raw_ids(ids)[i]),
                    )
            },
    }
}

/// A list of inbox ids as a set on the wire.
pub fn encode_inbox_id_set(inbox_ids: &[String]) -> (r: Result<Vec<u8>, ComponentSourceError>)
    ensures
        match r {
            Ok(b) => is_inbox_id_set(inbox_ids@, Ok(b@)),
            Err(e) => is_inbox_id_set(inbox_ids@, Err(e)),
        },
{
    let ghost raw = raw_ids(inbox_ids@);
    let mut keys: Vec<[u8; 32]> = Vec::new();
    let mut i: usize = 0;
    while i < inbox_ids.len()
        invariant
            i <= inbox_ids@.len(),
            raw == raw_ids(inbox_ids@),
            keys@.len() == i,
            forall|j: int| 0 <= j < i ==> (#[trigger] keys@[j])@ == raw[j],
            forall|j: int|
                0 <= j < i ==> is_inbox_id_reading(
                    vstd::utf8::encode_utf8((#[trigger] inbox_ids@[j])@),
                    Ok(raw_ids(inbox_ids@)[j]),
                ),
        decreases inbox_ids@.len() - i,
    {
        match inbox_id_str_to_bytes(inbox_ids[i].as_str()) {
            Ok(key) => keys.push(key),
            Err(e) => {
                assert(is_inbox_id_reading(vstd::utf8::encode_utf8(inbox_ids@[i as int]@), Err(e)));
                return Err(e);
            },
        }
        i += 1;
    }
    assert(keys@.map_values(|k: [u8; 32]| k@) =~= raw);
    let set = TlsSet::from_keys(&keys);
    match set.tls_serialize_detached() {
        Ok(b) => Ok(b),
        Err(e) => Err(ComponentSourceError::TlsCodec(e)),
    }
}

/// A single change of a set of inbox ids on the wire.
pub fn encode_inbox_id_set_delta(mutation: TlsSetMutation) -> (r: Result<Vec<u8>, ComponentSourceError>)
    ensures
        r is Ok,
        r->Ok_0@ == tls_set::delta_bytes(seq![mutation@]),
{
    let mut mutations: Vec<TlsSetMutation> = Vec::new();
    mutations.push(mutation);
    let delta = TlsSetDelta { mutations };
    assert(delta@ =~= seq![mutation@]);
    match delta.tls_serialize_detached() {
        Ok(b) => Ok(b),
        Err(e) => Err(ComponentSourceError::TlsCodec(e)),
    }
}

/// Whether an outcome is what stands for a mutation inside an update.
pub open spec fn is_payload_of(mutation: ComponentMutation<'_>, r: Result<Vec<u8>, ComponentSourceError>) -> bool {
    match mutation {
        ComponentMutation::Bytes { component_id, new_value } => match r {
            Ok(b) => holds_field(component_id) && b@ == new_value@,
            Err(e) => !holds_field(component_id) && e == ComponentSourceError::MismatchedMutation(
                component_id,
            ),
        },
        ComponentMutation::AdminListAdd { inbox_id } => is_insert_payload(inbox_id.spec_bytes(), r),
        ComponentMutation::SuperAdminListAdd { inbox_id } => is_insert_payload(inbox_id.spec_bytes(), r),
        ComponentMutation::AdminListRemove { inbox_id } => is_remove_payload(inbox_id.spec_bytes(), r),
        ComponentMutation::SuperAdminListRemove { inbox_id } => is_remove_payload(
            inbox_id.spec_bytes(),
            r,
        ),
    }
}

/// What stands for a mutation inside an update: the value itself for a bytes component, a single
/// change of the set for the lists of admins.
pub fn encode_app_data_update_payload(mutation: &ComponentMutation<'_>) -> (r: Result<
    Vec<u8>,
    ComponentSourceError,
>)
    ensures
        is_payload_of(*mutation, r),
{
    match mutation {
        ComponentMutation::Bytes { component_id, new_value } => {
            if component_id_to_metadata_field(*component_id).is_none() {
                return Err(ComponentSourceError::MismatchedMutation(*component_id));
            }
            Ok(bytes::clone_bytes(new_value))
        },
        ComponentMutation::AdminListAdd { inbox_id } => encode_insert(inbox_id),
        ComponentMutation::SuperAdminListAdd { inbox_id } => encode_insert(inbox_id),
        ComponentMutation::AdminListRemove { inbox_id } => encode_remove(inbox_id),
        ComponentMutation::SuperAdminListRemove { inbox_id } => encode_remove(inbox_id),
    }
}

/// Whether a result is the insertion of an inbox id on the wire.
pub open spec fn is_insert_payload(t: Seq<u8>, r: Result<Vec<u8>, ComponentSourceError>) -> bool {
    match r {
        Ok(b) => exists|key: Seq<u8>|
            is_inbox_id_reading(t, Ok(key)) && b@ == #[trigger] tls_set::delta_bytes(
                seq![tls_set::MutationView::Insert(key)],
            ),
        Err(e) => is_inbox_id_reading(t, Err(e)),
    }
}

/// Whether a result is the removal of an inbox id on the wire.
pub open spec fn is_remove_payload(t: Seq<u8>, r: Result<Vec<u8>, ComponentSourceError>) -> bool {
    match r {
        Ok(b) => exists|key: Seq<u8>|
            is_inbox_id_reading(t, Ok(key)) && b@ == #[trigger] tls_set::delta_bytes(
                seq![tls_set::MutationView::Remove(key)],
            ),
        Err(e) => is_inbox_id_reading(t, Err(e)),
    }
}

fn encode_insert(inbox_id: &str) -> (r: Result<Vec<u8>, ComponentSourceError>)
    ensures
        is_insert_payload(inbox_id.spec_bytes(), r),
{
    match inbox_id_str_to_bytes(inbox_id) {
        Ok(key) => encode_inbox_id_set_delta(TlsSetMutation::Insert(key)),
        Err(e) => Err(e),
    }
}

fn encode_remove(inbox_id: &str) -> (r: Result<Vec<u8>, ComponentSourceError>)
    ensures
        is_remove_payload(inbox_id.spec_bytes(), r),
{
    match inbox_id_str_to_bytes(inbox_id) {
        Ok(key) => encode_inbox_id_set_delta(TlsSetMutation::Remove(key)),
        Err(e) => Err(e),
    }
}

/// One entry of an update. `value` is the new value; a deletion has none.
#[derive(Debug)]
pub struct ExpandedComponentChange {
    pub op: ComponentOp,
    pub value: Option<Vec<u8>>,
}

/// An entry of an update as a mathematical value.
pub struct ChangeView {
    pub op: ComponentOp,
    pub value: Option<Seq<u8>>,
}

impl View for ExpandedComponentChange {
    type V = ChangeView;

    open spec fn view(&self) -> ChangeView {
        ChangeView {
            op: self.op,
            value: match self.value {
                Some(v) => Some(v@),
                None => None,
            },
        }
    }
}

/// The entry that a change of a set stands for.
pub open spec fn change_of(m: tls_set::MutationView) -> ChangeView {
    match m {
        tls_set::MutationView::Insert(k) => ChangeView { op: ComponentOp::Insert, value: Some(k) },
        _ => ChangeView { op: ComponentOp::Delete, value: None },
    }
}

/// Whether a component is a list of admins.
pub open spec fn is_admin_component(id: ComponentId) -> bool {
    id == ComponentId::AdminList || id == ComponentId::SuperAdminList
}

/// The error for a component that is neither bytes nor a list of admins.
pub open spec fn unhandled(id: ComponentId) -> ComponentSourceError {
    if id == ComponentId::GroupMembership {
        ComponentSourceError::NotImplemented(id)
    } else {
        ComponentSourceError::UnknownComponent(id)
    }
}

/// Whether an outcome is the entries of an update.
pub open spec fn is_expansion(
    component_id: ComponentId,
    operation: AppDataUpdateOperation,
    r: Result<Vec<ExpandedComponentChange>, ComponentSourceError>,
) -> bool {
    match operation {
        AppDataUpdateOperation::Remove => r is Ok && change_views(r->Ok_0@) == seq![
            ChangeView { op: ComponentOp::Delete, value: None },
        ],
        AppDataUpdateOperation::Update(payload) => if holds_field(component_id) {
            r is Ok && change_views(r->Ok_0@) == seq![
                ChangeView { op: ComponentOp::Update, value: Some(payload@) },
            ]
        } else if is_admin_component(component_id) {
            codec::length_fits_word(payload@) ==> match r {
                Ok(changes) => tls_set::read_delta(payload@) is Ok && change_views(changes@)
                    == tls_set::read_delta(payload@)->Ok_0.map_values(
                    |m: tls_set::MutationView| change_of(m),
                ),
                Err(e) => tls_set::read_delta(payload@) is Err && e == ComponentSourceError::TlsCodec(
                    tls_set::read_delta(payload@)->Err_0,
                ),
            }
        } else {
            r is Err && r->Err_0 == unhandled(component_id)
        },
    }
}

/// The entries of an update, each of which is checked on its own: one for a bytes component, one
/// for each change of a list of admins, a deletion without value for the removal of a component.
pub fn expand_app_data_update_to_changes(component_id: ComponentId, operation: &AppDataUpdateOperation) -> (r:
    Result<Vec<ExpandedComponentChange>, ComponentSourceError>)
    ensures
        is_expansion(component_id, *operation, r),
{
    match operation {
        AppDataUpdateOperation::Remove => {
            let mut out: Vec<ExpandedComponentChange> = Vec::new();
            out.push(ExpandedComponentChange { op: ComponentOp::Delete, value: None });
            assert(change_views(out@) =~= seq![ChangeView { op: ComponentOp::Delete, value: None }]);
            Ok(out)
        },
        AppDataUpdateOperation::Update(payload) => {
            if component_id_to_metadata_field(component_id).is_some() {
                let mut out: Vec<ExpandedComponentChange> = Vec::new();
                out.push(
                    ExpandedComponentChange {
                        op: ComponentOp::Update,
                        value: Some(bytes::clone_bytes(payload.as_slice())),
                    },
                );
                assert(change_views(out@) =~= seq![ChangeView { op: ComponentOp::Update, value: Some(payload@) }]);
                return Ok(out);
            }
            match component_id {
                ComponentId::AdminList | ComponentId::SuperAdminList => {
                    let delta = match TlsSetDelta::tls_deserialize_exact(payload.as_slice()) {
                        Ok(delta) => delta,
                        Err(e) => return Err(ComponentSourceError::TlsCodec(e)),
                    };
                    Ok(expand_delta(&delta))
                },
                ComponentId::GroupMembership => Err(ComponentSourceError::NotImplemented(component_id)),
                _ => Err(ComponentSourceError::UnknownComponent(component_id)),
            }
        },
    }
}

/// The contents of each entry of an update.
pub open spec fn change_views(changes: Seq<ExpandedComponentChange>) -> Seq<ChangeView> {
    changes.map_values(|c: ExpandedComponentChange| c@)
}

fn expand_delta(delta: &TlsSetDelta) -> (out: Vec<ExpandedComponentChange>)
    ensures
        change_views(out@) == delta@.map_values(|m: tls_set::MutationView| change_of(m)),
{
    let mut out: Vec<ExpandedComponentChange> = Vec::new();
    let mut i: usize = 0;
    while i < delta.mutations.len()
        invariant
            i <= delta.mutations@.len(),
            out@.len() == i,
            forall|j: int| 0 <= j < i ==> (#[trigger] out@[j])@ == change_of(delta@[j]),
        decreases delta.mutations@.len() - i,
    {
        match &delta.mutations[i] {
            TlsSetMutation::Insert(key) => out.push(
                ExpandedComponentChange {
                    op: ComponentOp::Insert,
                    value: Some(bytes::clone_bytes(key.as_slice())),
                },
            ),
            TlsSetMutation::Remove(_) => out.push(
                ExpandedComponentChange { op: ComponentOp::Delete, value: None },
            ),
            TlsSetMutation::RemoveByHash(_) => out.push(
                ExpandedComponentChange { op: ComponentOp::Delete, value: None },
            ),
        }
        i += 1;
    }
    assert(change_views(out@) =~= delta@.map_values(|m: tls_set::MutationView| change_of(m)));
    out
}

/// The set that an update makes of a stored set.
pub open spec fn updated_set(payload: Seq<u8>, old_value: Option<Seq<u8>>) -> Result<
    Seq<Seq<u8>>,
    TlsCodecError,
> {
    match tls_set::read_delta(payload) {
        Err(e) => Err(e),
        Ok(delta) => match old_value {
            None => Ok(tls_set::changed_by(seq![], delta)),
            Some(b) => match tls_set::read_set(b) {
                Err(e) => Err(e),
                Ok(set) => Ok(tls_set::changed_by(set, delta)),
            },
        },
    }
}

/// Whether an outcome is the new value of a component after an update.
pub open spec fn is_application(
    id: ComponentId,
    payload: Seq<u8>,
    old_value: Option<Seq<u8>>,
    r: Result<Vec<u8>, ComponentSourceError>,
) -> bool {
    if id.immutable() {
        r is Err && r->Err_0 == ComponentSourceError::ImmutableUpdate(id)
    } else if holds_field(id) {
        r is Ok && r->Ok_0@ == payload
    } else if is_admin_component(id) {
        codec::length_fits_word(payload) && (old_value is Some ==> codec::length_fits_word(old_value->0))
            ==> is_updated_set(updated_set(payload, old_value), r)
    } else {
        r is Err && r->Err_0 == unhandled(id)
    }
}

/// The new value of a component after an update. A bytes component takes the payload as it is; a
/// list of admins takes the changes to its stored set. Components that are written once refuse.
pub fn apply_app_data_update_payload(id: ComponentId, payload: &[u8], old_value: Option<&[u8]>) -> (r: Result<
    Vec<u8>,
    ComponentSourceError,
>)
    ensures
        is_application(
            id,
            payload@,
            match old_value {
                Some(b) => Some(b@),
                None => None,
            },
            r,
        ),
{
    if id.is_immutable() {
        return Err(ComponentSourceError::ImmutableUpdate(id));
    }
    if component_id_to_metadata_field(id).is_some() {
        return Ok(bytes::clone_bytes(payload));
    }
    match id {
        ComponentId::AdminList | ComponentId::SuperAdminList => {
            let delta = match TlsSetDelta::tls_deserialize_exact(payload) {
                Ok(delta) => delta,
                Err(e) => return Err(ComponentSourceError::TlsCodec(e)),
            };
            let mut set = match old_value {
                Some(b) => match TlsSet::tls_deserialize_exact(b) {
                    Ok(set) => set,
                    Err(e) => return Err(ComponentSourceError::TlsCodec(e)),
                },
                None => TlsSet::new(),
            };
            set.apply_delta(&delta);
            match set.tls_serialize_detached() {
                Ok(b) => Ok(b),
                Err(e) => Err(ComponentSourceError::TlsCodec(e)),
            }
        },
        ComponentId::GroupMembership => Err(ComponentSourceError::NotImplemented(id)),
        _ => Err(ComponentSourceError::UnknownComponent(id)),
    }
}

/// Whether a result is an updated set on the wire.
pub open spec fn is_updated_set(
    model: Result<Seq<Seq<u8>>, TlsCodecError>,
    r: Result<Vec<u8>, ComponentSourceError>,
) -> bool {
    match model {
        Err(e) => r is Err && r->Err_0 == ComponentSourceError::TlsCodec(e),
        Ok(set) => if 32 * set.len() <= codec::MAX_VECTOR_LENGTH {
            r is Ok && r->Ok_0@ == tls_set::set_bytes(set)
        } else {
            r is Err && r->Err_0 == ComponentSourceError::TlsCodec(TlsCodecError::InvalidVectorLength)
        },
    }
}

/// Adding an admin through an update gives a list with that admin in which all others stay, and
/// removing one gives a list without that admin in which all others stay.
pub proof fn admin_updates_change_one_admin(set: Seq<Seq<u8>>, key: Seq<u8>, other: Seq<u8>)
    requires
        tls_set::all_keys(set),
        set.no_duplicates(),
        32 * set.len() + 32 <= codec::MAX_VECTOR_LENGTH,
        key.len() == 32,
    ensures
        ({
            let add = tls_set::delta_bytes(seq![tls_set::MutationView::Insert(key)]);
            let added = updated_set(add, Some(tls_set::set_bytes(set)));
            &&& added is Ok
            &&& added->Ok_0.contains(key)
            &&& other != key ==> added->Ok_0.contains(other) == set.contains(other)
        }),
        ({
            let remove = tls_set::delta_bytes(seq![tls_set::MutationView::Remove(key)]);
            let removed = updated_set(remove, Some(tls_set::set_bytes(set)));
            &&& removed is Ok
            &&& !removed->Ok_0.contains(key)
            &&& other != key ==> removed->Ok_0.contains(other) == set.contains(other)
        }),
{
    let ins = seq![tls_set::MutationView::Insert(key)];
    let rem = seq![tls_set::MutationView::Remove(key)];
    tls_set::delta_round_trip(ins);
    tls_set::delta_round_trip(rem);
    tls_set::set_round_trip(set);
    tls_set::insert_adds_only(set, key, other);
    tls_set::remove_drops_only(set, key, other);
    reveal_with_fuel(tls_set::changed_by, 2);
    assert(ins.drop_last() =~= Seq::<tls_set::MutationView>::empty());
    assert(rem.drop_last() =~= Seq::<tls_set::MutationView>::empty());
}

/// An admin who was added to a list without that admin and then removed leaves the list as it was.
pub proof fn admin_removal_undoes_addition(set: Seq<Seq<u8>>, key: Seq<u8>)
    requires
        !set.contains(key),
    ensures
        tls_set::changed_by(
            set,
            seq![tls_set::MutationView::Insert(key), tls_set::MutationView::Remove(key)],
        ) == set,
{
    let delta = seq![tls_set::MutationView::Insert(key), tls_set::MutationView::Remove(key)];
    reveal_with_fuel(tls_set::changed_by, 3);
    assert(delta.drop_last() =~= seq![tls_set::MutationView::Insert(key)]);
    assert(delta.drop_last().drop_last() =~= Seq::<tls_set::MutationView>::empty());
    lemma_filter_absent(set, key);
    reveal(Seq::filter);
    assert(set.push(key).drop_last() =~= set);
}

/// The set that a stored value stands for; nothing stored stands for the empty set.
pub open spec fn stored_set(value: Option<Seq<u8>>) -> Result<Seq<Seq<u8>>, TlsCodecError> {
    match value {
        None => Ok(seq![]),
        Some(b) => tls_set::read_set(b),
    }
}

/// An update that adds an inbox to a stored list of admins without it gives the list with that inbox, and
/// an update that removes the inbox again gives the list as it was. Only a list that is already as long as
/// can be announced on the wire takes no other inbox: there the first update is refused. `first` and
/// `second` are what the two updates give.
pub proof fn admin_updates_undo_each_other(
    old_value: Option<Seq<u8>>,
    set: Seq<Seq<u8>>,
    inbox_id: Seq<u8>,
    key: Seq<u8>,
    add: Vec<u8>,
    remove: Vec<u8>,
    first: Result<Vec<u8>, ComponentSourceError>,
    second: Result<Vec<u8>, ComponentSourceError>,
)
    requires
        stored_set(old_value) == Ok::<_, TlsCodecError>(set),
        is_inbox_id_reading(inbox_id, Ok(key)),
        !set.contains(key),
        is_insert_payload(inbox_id, Ok(add)),
        is_remove_payload(inbox_id, Ok(remove)),
        is_updated_set(updated_set(add@, old_value), first),
        first is Ok ==> is_updated_set(updated_set(remove@, Some(first->Ok_0@)), second),
    ensures
        if 32 * (set.len() + 1) <= codec::MAX_VECTOR_LENGTH {
            &&& first is Ok
            &&& stored_set(Some(first->Ok_0@)) == Ok::<_, TlsCodecError>(set.push(key))
            &&& second is Ok
            &&& stored_set(Some(second->Ok_0@)) == Ok::<_, TlsCodecError>(set)
        } else {
            first == Err::<Vec<u8>, _>(ComponentSourceError::TlsCodec(TlsCodecError::InvalidVectorLength))
        },
{
    let ins = seq![tls_set::MutationView::Insert(key)];
    let rem = seq![tls_set::MutationView::Remove(key)];
    let added = set.push(key);
    if let Some(b) = old_value {
        tls_set::read_sets_are_sets(b);
    }
    assert(add@ == tls_set::delta_bytes(ins));
    assert(remove@ == tls_set::delta_bytes(rem));
    tls_set::delta_round_trip(ins);
    tls_set::delta_round_trip(rem);
    reveal_with_fuel(tls_set::changed_by, 2);
    assert(ins.drop_last() =~= Seq::<tls_set::MutationView>::empty());
    assert(rem.drop_last() =~= Seq::<tls_set::MutationView>::empty());
    assert(added == tls_set::inserted(set, key));
    tls_set::insert_adds_only(set, key, key);
    if 32 * (set.len() + 1) <= codec::MAX_VECTOR_LENGTH {
        tls_set::set_round_trip(added);
        tls_set::set_round_trip(set);
    }
    lemma_filter_absent(set, key);
    reveal(Seq::filter);
    assert(added.drop_last() =~= set);
    assert(tls_set::removed(added, key) == set);
}

proof fn lemma_filter_absent(set: Seq<Seq<u8>>, key: Seq<u8>)
    requires
        !set.contains(key),
    ensures
        tls_set::removed(set, key) == set,
    decreases set.len(),
{
    reveal(Seq::filter);
    if set.len() > 0 {
        let init = set.drop_last();
        assert forall|i: int| 0 <= i < init.len() implies init[i] != key by {
            assert(set[i] == init[i]);
        }
        lemma_filter_absent(init, key);
        assert(set.last() != key) by {
            assert(set[set.len() - 1] == set.last());
        }
        assert(init.push(set.last()) =~= set);
    } else {
        assert(tls_set::removed(set, key) =~= set);
    }
}

/// The stored value of a component in the dictionary of a group, if the group has one.
pub open spec fn dictionary_value(list: Seq<Extension>, id: ComponentId) -> Option<Seq<u8>> {
    match extensions::first_of(list, ExtensionType::AppDataDictionary) {
        Some(Extension::AppDataDictionary(dictionary)) => stored(dictionary.entries@, id),
        _ => None,
    }
}

/// Whether an outcome is the current bytes of a component.
pub open spec fn is_component_reading(
    list: Seq<Extension>,
    id: ComponentId,
    proposals_enabled: bool,
    r: Result<Option<Vec<u8>>, ComponentSourceError>,
) -> bool {
    &&& proposals_enabled ==> is_dictionary_reading(list, id, r)
    &&& !proposals_enabled ==> is_legacy_reading(list, id, r)
}

/// The current bytes of a component: from the dictionary where proposals are enabled, otherwise
/// from the metadata extension.
pub fn read_component_bytes(id: ComponentId, group_extensions: &Extensions, proposals_enabled: bool) -> (r: Result<
    Option<Vec<u8>>,
    ComponentSourceError,
>)
    ensures
        is_component_reading(group_extensions.list@, id, proposals_enabled, r),
{
    if proposals_enabled {
        Ok(read_from_app_data_dict(id, group_extensions))
    } else {
        read_from_legacy(id, group_extensions)
    }
}

/// Whether a result is what the dictionary holds.
pub open spec fn is_dictionary_reading(
    list: Seq<Extension>,
    id: ComponentId,
    r: Result<Option<Vec<u8>>, ComponentSourceError>,
) -> bool {
    match r {
        Ok(Some(b)) => dictionary_value(list, id) == Some(b@),
        Ok(None) => dictionary_value(list, id) is None,
        Err(_) => false,
    }
}

/// The bytes of a component in the dictionary of a group.
pub fn read_from_app_data_dict(id: ComponentId, group_extensions: &Extensions) -> (r: Option<Vec<u8>>)
    ensures
        is_dictionary_reading(group_extensions.list@, id, Ok(r)),
{
    match group_extensions.find(ExtensionType::AppDataDictionary) {
        Some(Extension::AppDataDictionary(dictionary)) => match dictionary.get(id) {
            Some(b) => Some(bytes::clone_bytes(b.as_slice())),
            None => None,
        },
        _ => None,
    }
}

/// What a component reads from a group's mutable metadata.
pub open spec fn is_metadata_reading(
    metadata: GroupMutableMetadata,
    id: ComponentId,
    r: Result<Option<Vec<u8>>, ComponentSourceError>,
) -> bool {
    if holds_field(id) {
        exists|field: MetadataField|
            {
                &&& #[trigger] component_of(field) == id
                &&& match r {
                    Ok(Some(b)) => metadata.attributes@.dom().contains(field.name()) && b@
                        == vstd::utf8::encode_utf8(metadata.attributes@[field.name()]@),
                    Ok(None) => !metadata.attributes@.dom().contains(field.name()),
                    Err(_) => false,
                }
            }
    } else {
        let ids = if id == ComponentId::AdminList {
            metadata.admin_list@
        } else {
            metadata.super_admin_list@
        };
        match r {
            Ok(Some(b)) => is_inbox_id_set(ids, Ok(b@)),
            Ok(None) => false,
            Err(e) => is_inbox_id_set(ids, Err(e)),
        }
    }
}

/// Whether a result is what the metadata extension gives for a component.
pub open spec fn is_legacy_reading(
    list: Seq<Extension>,
    id: ComponentId,
    r: Result<Option<Vec<u8>>, ComponentSourceError>,
) -> bool {
    if !holds_field(id) && !is_admin_component(id) {
        r is Err && r->Err_0 == unhandled(id)
    } else {
        match extensions::first_of(list, ExtensionType::MutableMetadata) {
            Some(Extension::MutableMetadata(Decoded::Valid(metadata))) => is_metadata_reading(metadata, id, r),
            Some(Extension::MutableMetadata(Decoded::Malformed(e))) => r is Err && r->Err_0
                == ComponentSourceError::GroupMutableMetadata(GroupMutableMetadataError::Malformed(e)),
            _ => r is Ok && r->Ok_0 is None,
        }
    }
}

/// The bytes of a component in the metadata extension, in the form that updates use on the wire.
pub fn read_from_legacy(id: ComponentId, group_extensions: &Extensions) -> (r: Result<
    Option<Vec<u8>>,
    ComponentSourceError,
>)
    ensures
        is_legacy_reading(group_extensions.list@, id, r),
{
    let field = component_id_to_metadata_field(id);
    if field.is_none() && id != ComponentId::AdminList && id != ComponentId::SuperAdminList {
        if id == ComponentId::GroupMembership {
            return Err(ComponentSourceError::NotImplemented(id));
        }
        return Err(ComponentSourceError::UnknownComponent(id));
    }
    let metadata = match group_extensions.find(ExtensionType::MutableMetadata) {
        Some(Extension::MutableMetadata(Decoded::Valid(metadata))) => metadata,
        Some(Extension::MutableMetadata(Decoded::Malformed(e))) => {
            return Err(
                ComponentSourceError::GroupMutableMetadata(GroupMutableMetadataError::Malformed(e.duplicate())),
            );
        },
        _ => return Ok(None),
    };
    match field {
        Some(field) => {
            assert(component_of(field) == id);
            match metadata.attributes.get(field.as_str()) {
                Some(s) => Ok(Some(bytes::clone_bytes(s.as_str().as_bytes()))),
                None => Ok(None),
            }
        },
        None => {
            let encoded = if id == ComponentId::AdminList {
                encode_inbox_id_set(metadata.admin_list.as_slice())
            } else {
                encode_inbox_id_set(metadata.super_admin_list.as_slice())
            };
            match encoded {
                Ok(b) => Ok(Some(b)),
                Err(e) => Err(e),
            }
        },
    }
}

/// The text of each attribute.
pub open spec fn attribute_texts(attributes: Map<Seq<char>, String>) -> Map<Seq<char>, Seq<char>> {
    attributes.map_values(|s: String| s@)
}

/// Whether the stored value of the attribute at a place is a text, where it is stored at all.
pub open spec fn is_text_at(dictionary: Seq<(ComponentId, Vec<u8>)>, i: int) -> bool {
    stored(dictionary, component_of(field_at(i))) matches Some(b) ==> vstd::utf8::valid_utf8(b)
}

/// Attributes after the first `n` components have taken precedence over them.
pub open spec fn merged(
    attributes: Map<Seq<char>, Seq<char>>,
    dictionary: Seq<(ComponentId, Vec<u8>)>,
    n: nat,
) -> Map<Seq<char>, Seq<char>>
    decreases n,
{
    if n == 0 {
        attributes
    } else {
        let before = merged(attributes, dictionary, (n - 1) as nat);
        match stored(dictionary, component_of(field_at(n - 1))) {
            Some(b) => before.insert(field_at(n - 1).name(), vstd::utf8::decode_utf8(b)),
            None => before,
        }
    }
}

/// What is said of a stored value that is no text.
pub open spec fn not_text_reason(b: Seq<u8>) -> Seq<char> {
    "non-UTF-8 bytes: "@ + codec::utf8_error_text(b)
}

/// Whether the component at place `n` is the first whose stored value is no text, and what is said of it.
pub open spec fn malformed_at(
    dictionary: Seq<(ComponentId, Vec<u8>)>,
    component_id: ComponentId,
    reason: Seq<char>,
    n: nat,
) -> bool {
    &&& n < 8
    &&& !is_text_at(dictionary, n as int)
    &&& forall|i: int| 0 <= i < n ==> #[trigger] is_text_at(dictionary, i)
    &&& component_id == component_of(field_at(n as int))
    &&& reason == not_text_reason(stored(dictionary, component_id)->0)
}

/// Whether a merge stopped at the component at place `n`, whose stored value is no text, with all
/// components before it merged.
pub open spec fn stopped_at(
    dictionary: Seq<(ComponentId, Vec<u8>)>,
    before: Map<Seq<char>, Seq<char>>,
    after: Map<Seq<char>, Seq<char>>,
    component_id: ComponentId,
    reason: Seq<char>,
    n: nat,
) -> bool {
    &&& malformed_at(dictionary, component_id, reason, n)
    &&& after == merged(before, dictionary, n)
}

/// What the dictionary of a group holds for an attribute takes precedence; an attribute that it does not
/// hold stays as it was.
pub proof fn dictionary_takes_precedence(
    attributes: Map<Seq<char>, Seq<char>>,
    dictionary: Seq<(ComponentId, Vec<u8>)>,
    field: MetadataField,
)
    ensures
        match stored(dictionary, component_of(field)) {
            Some(b) => {
                &&& merged(attributes, dictionary, 8).dom().contains(field.name())
                &&& merged(attributes, dictionary, 8)[field.name()] == vstd::utf8::decode_utf8(b)
            },
            None => {
                &&& merged(attributes, dictionary, 8).dom().contains(field.name()) == attributes.dom().contains(
                    field.name(),
                )
                &&& merged(attributes, dictionary, 8)[field.name()] == attributes[field.name()]
            },
        },
{
    let place: int = match field {
        MetadataField::GroupName => 0,
        MetadataField::Description => 1,
        MetadataField::GroupImageUrlSquare => 2,
        MetadataField::MessageDisappearFromNS => 3,
        MetadataField::MessageDisappearInNS => 4,
        MetadataField::MinimumSupportedProtocolVersion => 5,
        MetadataField::CommitLogSigner => 6,
        MetadataField::AppData => 7,
    };
    lemma_merged(attributes, dictionary, field, place, 8);
}

proof fn lemma_merged(
    attributes: Map<Seq<char>, Seq<char>>,
    dictionary: Seq<(ComponentId, Vec<u8>)>,
    field: MetadataField,
    place: int,
    n: nat,
)
    requires
        n <= 8,
        0 <= place < 8,
        field_at(place) == field,
    ensures
        ({
            let after = merged(attributes, dictionary, n);
            let value = stored(dictionary, component_of(field));
            if place < n && value is Some {
                after.dom().contains(field.name()) && after[field.name()] == vstd::utf8::decode_utf8(value->0)
            } else {
                after.dom().contains(field.name()) == attributes.dom().contains(field.name()) && after[field.name()]
                    == attributes[field.name()]
            }
        }),
    decreases n,
{
    if n > 0 {
        lemma_merged(attributes, dictionary, field, place, (n - 1) as nat);
        field_names_are_distinct(field_at(n - 1), field);
    }
}

/// Whether metadata are others with what the dictionary of a group holds merged in.
pub open spec fn is_merge(
    before: GroupMutableMetadata,
    list: Seq<Extension>,
    after: GroupMutableMetadata,
    r: Result<(), ComponentSourceError>,
) -> bool {
    &&& after.admin_list == before.admin_list
    &&& after.super_admin_list == before.super_admin_list
    &&& match extensions::first_of(list, ExtensionType::AppDataDictionary) {
        Some(Extension::AppDataDictionary(dictionary)) => match r {
            Ok(_) => {
                &&& forall|i: int| 0 <= i < 8 ==> #[trigger] is_text_at(dictionary.entries@, i)
                &&& attribute_texts(after.attributes@) == merged(
                    attribute_texts(before.attributes@),
                    dictionary.entries@,
                    8,
                )
            },
            Err(ComponentSourceError::MalformedComponentValue { component_id, reason }) => exists|n: nat|
                stopped_at(
                    dictionary.entries@,
                    attribute_texts(before.attributes@),
                    attribute_texts(after.attributes@),
                    component_id,
                    reason@,
                    n,
                ),
            Err(_) => false,
        },
        _ => r is Ok && after.attributes@ == before.attributes@,
    }
}

/// Once the dictionary of a group is merged in, an attribute that it holds reads as it says, and one that it does not
/// hold reads as before; the lists of admins are left alone. Without a dictionary nothing changes.
pub proof fn merged_attributes_read_as_the_dictionary_says(
    before: GroupMutableMetadata,
    list: Seq<Extension>,
    after: GroupMutableMetadata,
    r: Result<(), ComponentSourceError>,
    field: MetadataField,
)
    requires
        is_merge(before, list, after, r),
        r is Ok,
    ensures
        after.admin_list == before.admin_list && after.super_admin_list == before.super_admin_list,
        dictionary_value(list, component_of(field)) matches Some(b) ==> after.attributes@.dom().contains(field.name())
            && after.attributes@[field.name()]@ == vstd::utf8::decode_utf8(b),
        dictionary_value(list, component_of(field)) is None ==> {
            &&& after.attributes@.dom().contains(field.name()) == before.attributes@.dom().contains(field.name())
            &&& before.attributes@.dom().contains(field.name()) ==> after.attributes@[field.name()]@
                == before.attributes@[field.name()]@
        },
{
    let texts_before = attribute_texts(before.attributes@);
    let texts_after = attribute_texts(after.attributes@);
    assert(texts_before.dom() =~= before.attributes@.dom());
    assert(texts_after.dom() =~= after.attributes@.dom());
    if let Some(Extension::AppDataDictionary(d)) = extensions::first_of(list, ExtensionType::AppDataDictionary) {
        dictionary_takes_precedence(texts_before, d.entries@, field);
        if after.attributes@.dom().contains(field.name()) {
            assert(texts_after[field.name()] == after.attributes@[field.name()]@);
        }
        if before.attributes@.dom().contains(field.name()) {
            assert(texts_before[field.name()] == before.attributes@[field.name()]@);
        }
    }
}

/// Lets the attributes that are stored in a group's dictionary take precedence over those of its
/// metadata extension. The lists of admins are left alone: the extension stays their source.
///
/// A stored value that is no text stops the merge; the attributes before it have been merged.
pub fn merge_app_data_into_mutable_metadata(base: &mut GroupMutableMetadata, group_extensions: &Extensions) -> (r:
    Result<(), ComponentSourceError>)
    ensures
        is_merge(*old(base), group_extensions.list@, *final(base), r),
{
    let dictionary = match group_extensions.find(ExtensionType::AppDataDictionary) {
        Some(Extension::AppDataDictionary(dictionary)) => dictionary,
        _ => return Ok(()),
    };
    let ghost before = attribute_texts(base.attributes@);
    let ghost admins = base.admin_list;
    let ghost super_admins = base.super_admin_list;
    let mut i: usize = 0;
    let mut malformed: Option<(ComponentId, String)> = None;
    while i < 8 && malformed.is_none()
        invariant
            i <= 8,
            base.admin_list == admins,
            base.super_admin_list == super_admins,
            forall|j: int| 0 <= j < i ==> #[trigger] is_text_at(dictionary.entries@, j),
            attribute_texts(base.attributes@) == merged(before, dictionary.entries@, i as nat),
            malformed is Some ==> stopped_at(
                dictionary.entries@,
                before,
                attribute_texts(base.attributes@),
                (malformed->0).0,
                (malformed->0).1@,
                i as nat,
            ),
        decreases 8 - i, (if malformed is None { 1int } else { 0int }),
    {
        let field = nth_field(i);
        let id = component_for(field);
        match dictionary.get(id) {
            Some(b) => {
                match codec::utf8_text(b.as_slice()) {
                    Ok(text) => {
                        let ghost attributes = base.attributes@;
                        proof {
                            vstd::utf8::encode_utf8_decode_utf8(text@);
                        }
                        base.attributes.insert(field.as_str().to_owned(), text);
                        assert(attribute_texts(base.attributes@) =~= attribute_texts(attributes).insert(
                            field.name(),
                            text@,
                        ));
                    },
                    Err(said) => {
                        let reason = "non-UTF-8 bytes: ".to_owned().concat(said.as_str());
                        assert(!is_text_at(dictionary.entries@, i as int));
                        malformed = Some((id, reason));
                    },
                }
            },
            None => {},
        }
        if malformed.is_none() {
            assert(is_text_at(dictionary.entries@, i as int));
            i += 1;
        }
    }
    match malformed {
        Some((component_id, reason)) => {
            assert(stopped_at(
                dictionary.entries@,
                before,
                attribute_texts(base.attributes@),
                component_id,
                reason@,
                i as nat,
            ));
            let ghost said = reason@;
            let error = ComponentSourceError::MalformedComponentValue { component_id, reason };
            assert(error->MalformedComponentValue_reason@ == said);
            Err(error)
        },
        None => Ok(()),
    }
}

/// A value that is set by an update is what the component holds once the update is applied, whatever it held before. A
/// component that holds no attribute takes no value, and one that is written once takes no update at all.
pub proof fn values_are_set_by_updates(
    component_id: ComponentId,
    new_value: &[u8],
    payload: Result<Vec<u8>, ComponentSourceError>,
    old_value: Option<Seq<u8>>,
    applied: Result<Vec<u8>, ComponentSourceError>,
    any_payload: Seq<u8>,
    refused: Result<Vec<u8>, ComponentSourceError>,
)
    requires
        is_payload_of(ComponentMutation::Bytes { component_id, new_value }, payload),
        payload is Ok ==> is_application(component_id, payload->Ok_0@, old_value, applied),
        is_application(component_id, any_payload, old_value, refused),
    ensures
        payload is Ok <==> holds_field(component_id),
        payload is Ok ==> applied is Ok && applied->Ok_0@ == new_value@,
        payload is Err ==> payload->Err_0 == ComponentSourceError::MismatchedMutation(component_id),
        component_id.immutable() ==> refused is Err && refused->Err_0 == ComponentSourceError::ImmutableUpdate(
            component_id,
        ),
        component_id == ComponentId::GroupMembership ==> refused is Err && refused->Err_0
            == ComponentSourceError::NotImplemented(component_id),
        component_id is Application ==> refused is Err && refused->Err_0 == ComponentSourceError::UnknownComponent(
            component_id,
        ),
{
    if holds_field(component_id) {
        let field = choose|field: MetadataField| #[trigger] component_of(field) == component_id;
        components_have_their_types(component_id, field, ComponentMutation::Bytes { component_id, new_value });
    }
}

/// An update that adds an inbox to a list of admins leads to a list with this inbox, and one that removes it to a list
/// without it; all others stay as they were. Both speak of the list that they are meant for.
pub proof fn admin_mutations_are_applied_as_meant(
    add: bool,
    super_list: bool,
    inbox_id: &str,
    payload: Vec<u8>,
    set: Seq<Seq<u8>>,
    key: Seq<u8>,
    other: Seq<u8>,
    applied: Result<Vec<u8>, ComponentSourceError>,
)
    requires
        ({
            let mutation = if add {
                if super_list {
                    ComponentMutation::SuperAdminListAdd { inbox_id }
                } else {
                    ComponentMutation::AdminListAdd { inbox_id }
                }
            } else if super_list {
                ComponentMutation::SuperAdminListRemove { inbox_id }
            } else {
                ComponentMutation::AdminListRemove { inbox_id }
            };
            &&& is_payload_of(mutation, Ok(payload))
            &&& is_application(target_of(mutation), payload@, Some(tls_set::set_bytes(set)), applied)
        }),
        is_inbox_id_reading(inbox_id.spec_bytes(), Ok(key)),
        tls_set::all_keys(set),
        set.no_duplicates(),
        32 * set.len() + 32 <= codec::MAX_VECTOR_LENGTH,
        codec::length_fits_word(payload@),
        codec::length_fits_word(tls_set::set_bytes(set)),
    ensures
        applied is Ok && (stored_set(Some(applied->Ok_0@)) matches Ok(after) && after.contains(key) == add && (other
            != key ==> after.contains(other) == set.contains(other))),
{
    let old_value = Some(tls_set::set_bytes(set));
    let ins = seq![tls_set::MutationView::Insert(key)];
    let rem = seq![tls_set::MutationView::Remove(key)];
    admin_updates_change_one_admin(set, key, other);
    tls_set::insert_adds_only(set, key, other);
    tls_set::remove_drops_only(set, key, other);
    tls_set::delta_round_trip(ins);
    tls_set::delta_round_trip(rem);
    tls_set::set_round_trip(set);
    reveal_with_fuel(tls_set::changed_by, 2);
    assert(ins.drop_last() =~= Seq::<tls_set::MutationView>::empty());
    assert(rem.drop_last() =~= Seq::<tls_set::MutationView>::empty());
    assert(payload@ == if add {
        tls_set::delta_bytes(ins)
    } else {
        tls_set::delta_bytes(rem)
    });
    let after = updated_set(payload@, old_value)->Ok_0;
    assert(after == if add {
        tls_set::inserted(set, key)
    } else {
        tls_set::removed(set, key)
    });
    lemma_changed_set(set, key);
    tls_set::set_round_trip(after);
}

proof fn lemma_changed_set(set: Seq<Seq<u8>>, key: Seq<u8>)
    requires
        tls_set::all_keys(set),
        set.no_duplicates(),
        key.len() == 32,
    ensures
        tls_set::all_keys(tls_set::inserted(set, key)),
        tls_set::all_keys(tls_set::removed(set, key)),
        tls_set::inserted(set, key).no_duplicates(),
        tls_set::removed(set, key).no_duplicates(),
        tls_set::inserted(set, key).len() <= set.len() + 1,
        tls_set::removed(set, key).len() <= set.len(),
{
    tls_set::insert_adds_only(set, key, key);
    tls_set::remove_drops_only(set, key, key);
    let kept = tls_set::removed(set, key);
    tls_set::removals_shorten(set, key);
    assert forall|i: int| 0 <= i < kept.len() implies (#[trigger] kept[i]).len() == 32 by {
        assert(kept.contains(kept[i]));
        tls_set::remove_drops_only(set, key, kept[i]);
        let k = choose|k: int| 0 <= k < set.len() && set[k] == kept[i];
        assert(set[k].len() == 32);
    }
}

/// An update is checked entry by entry: a value that is set is one update with that value, each inbox that a list takes in
/// is an insertion of it, each that leaves is a deletion, and so is the removal of a whole component. What is no component
/// with entries cannot be checked.
pub proof fn updates_are_checked_entry_by_entry(
    component_id: ComponentId,
    payload: Vec<u8>,
    updated: Result<Vec<ExpandedComponentChange>, ComponentSourceError>,
    removed: Result<Vec<ExpandedComponentChange>, ComponentSourceError>,
    key: Seq<u8>,
)
    requires
        is_expansion(component_id, AppDataUpdateOperation::Update(payload), updated),
        is_expansion(component_id, AppDataUpdateOperation::Remove, removed),
    ensures
        removed is Ok && removed->Ok_0@.len() == 1 && removed->Ok_0@[0].op == ComponentOp::Delete
            && removed->Ok_0@[0].value is None,
        holds_field(component_id) ==> updated is Ok && updated->Ok_0@.len() == 1 && updated->Ok_0@[0].op
            == ComponentOp::Update && updated->Ok_0@[0].value is Some && updated->Ok_0@[0].value->0@ == payload@,
        is_admin_component(component_id) && key.len() == 32 && codec::length_fits_word(payload@) && payload@
            == tls_set::delta_bytes(seq![tls_set::MutationView::Insert(key)]) ==> updated is Ok && updated->Ok_0@.len() == 1
            && updated->Ok_0@[0].op == ComponentOp::Insert && updated->Ok_0@[0].value is Some
            && updated->Ok_0@[0].value->0@ == key,
        is_admin_component(component_id) && key.len() == 32 && codec::length_fits_word(payload@) && payload@
            == tls_set::delta_bytes(seq![tls_set::MutationView::Remove(key)]) ==> updated is Ok && updated->Ok_0@.len() == 1
            && updated->Ok_0@[0].op == ComponentOp::Delete && updated->Ok_0@[0].value is None,
        component_id == ComponentId::GroupMembership ==> updated is Err && updated->Err_0
            == ComponentSourceError::NotImplemented(component_id),
{
    let views = change_views(removed->Ok_0@);
    assert(views.len() == removed->Ok_0@.len());
    assert(views[0] == removed->Ok_0@[0]@);
    let all = change_views(updated->Ok_0@);
    assert(all.len() == updated->Ok_0@.len());
    if key.len() == 32 {
        tls_set::delta_round_trip(seq![tls_set::MutationView::Insert(key)]);
        tls_set::delta_round_trip(seq![tls_set::MutationView::Remove(key)]);
    }
    if holds_field(component_id) || is_admin_component(component_id) {
        if updated is Ok && updated->Ok_0@.len() > 0 {
            assert(all[0] == updated->Ok_0@[0]@);
        }
    }
    if is_admin_component(component_id) {
        assert(!holds_field(component_id)) by {
            if holds_field(component_id) {
                let field = choose|field: MetadataField| #[trigger] component_of(field) == component_id;
                assert(component_of(field) != ComponentId::AdminList);
            }
        }
    }
}

/// Where the proposal flow is on, a component reads as the dictionary holds it; where it is off, an attribute reads as the
/// metadata hold it under its own name, and is not there if they do not.
pub proof fn components_are_read_where_they_live(
    list: Seq<Extension>,
    metadata: GroupMutableMetadata,
    field: MetadataField,
    proposals_enabled: bool,
    r: Result<Option<Vec<u8>>, ComponentSourceError>,
)
    requires
        is_component_reading(list, component_of(field), proposals_enabled, r),
        extensions::first_of(list, ExtensionType::MutableMetadata) == Some(
            Extension::MutableMetadata(Decoded::Valid(metadata)),
        ),
    ensures
        r is Ok,
        proposals_enabled ==> r->Ok_0 is Some == dictionary_value(list, component_of(field)) is Some,
        proposals_enabled && r->Ok_0 is Some ==> r->Ok_0->0@ == dictionary_value(list, component_of(field))->0,
        !proposals_enabled ==> r->Ok_0 is Some == metadata.attributes@.dom().contains(field.name()),
        !proposals_enabled && r->Ok_0 is Some ==> r->Ok_0->0@ == vstd::utf8::encode_utf8(
            metadata.attributes@[field.name()]@,
        ),
{
    let id = component_of(field);
    assert(holds_field(id));
    if !proposals_enabled {
        assert(is_metadata_reading(metadata, id, r));
        let held = choose|held: MetadataField|
            {
                &&& #[trigger] component_of(held) == id
                &&& match r {
                    Ok(Some(b)) => metadata.attributes@.dom().contains(held.name()) && b@ == vstd::utf8::encode_utf8(
                        metadata.attributes@[held.name()]@,
                    ),
                    Ok(None) => !metadata.attributes@.dom().contains(held.name()),
                    Err(_) => false,
                }
            };
        fields_and_components_correspond(held, field);
    }
}

/// The first entry of a dictionary for a component counts.
pub proof fn the_first_entry_counts(entries: Seq<(ComponentId, Vec<u8>)>, id: ComponentId, i: int)
    requires
        0 <= i < entries.len(),
        entries[i].0 == id,
        forall|j: int| 0 <= j < i ==> (#[trigger] entries[j]).0 != id,
    ensures
        stored(entries, id) == Some(entries[i].1@),
    decreases i,
{
    if i > 0 {
        let rest = entries.drop_first();
        assert(entries[0].0 != id);
        assert forall|j: int| 0 <= j < i - 1 implies (#[trigger] rest[j]).0 != id by {
            assert(rest[j] == entries[j + 1]);
        }
        assert(rest[i - 1] == entries[i]);
        the_first_entry_counts(rest, id, i - 1);
    }
}

/// A merge fails exactly if the dictionary holds a value for an attribute that is no text. The first such is named, with
/// what is wrong with it.
pub proof fn values_that_are_no_text_are_named(
    before: GroupMutableMetadata,
    dictionary: AppDataDictionary,
    list: Seq<Extension>,
    after: GroupMutableMetadata,
    r: Result<(), ComponentSourceError>,
)
    requires
        extensions::first_of(list, ExtensionType::AppDataDictionary) == Some(Extension::AppDataDictionary(dictionary)),
        is_merge(before, list, after, r),
    ensures
        r is Ok <==> forall|i: int| 0 <= i < 8 ==> #[trigger] is_text_at(dictionary.entries@, i),
        r matches Err(e) ==> (e matches ComponentSourceError::MalformedComponentValue { component_id, reason }
            && holds_field(component_id) && stored(dictionary.entries@, component_id) is Some && !vstd::utf8::valid_utf8(
            stored(dictionary.entries@, component_id)->0,
        ) && reason@ == "non-UTF-8 bytes: "@ + codec::utf8_error_text(stored(dictionary.entries@, component_id)->0)),
{
    if let Err(ComponentSourceError::MalformedComponentValue { component_id, reason }) = r {
        let n = choose|n: nat|
            stopped_at(
                dictionary.entries@,
                attribute_texts(before.attributes@),
                attribute_texts(after.attributes@),
                component_id,
                reason@,
                n,
            );
        assert(!is_text_at(dictionary.entries@, n as int));
        assert(component_of(field_at(n as int)) == component_id);
    }
}

/// An update of a list of admins that cannot be read, or one of a stored list that cannot be, is refused with what is wrong
/// with it; without a stored list the changes are made to an empty one.
pub proof fn unreadable_updates_are_refused(
    id: ComponentId,
    payload: Seq<u8>,
    old_value: Option<Seq<u8>>,
    r: Result<Vec<u8>, ComponentSourceError>,
)
    requires
        is_admin_component(id),
        is_application(id, payload, old_value, r),
        codec::length_fits_word(payload),
        old_value is Some ==> codec::length_fits_word(old_value->0),
    ensures
        tls_set::read_delta(payload) matches Err(e) ==> r == Err::<Vec<u8>, _>(ComponentSourceError::TlsCodec(e)),
        tls_set::read_delta(payload) is Ok && old_value is Some ==> (tls_set::read_set(old_value->0) matches Err(e) ==> r
            == Err::<Vec<u8>, _>(ComponentSourceError::TlsCodec(e))),
        tls_set::read_delta(payload) matches Ok(delta) ==> (old_value is None && 32 * tls_set::changed_by(
            seq![],
            delta,
        ).len() <= codec::MAX_VECTOR_LENGTH ==> r is Ok && r->Ok_0@ == tls_set::set_bytes(
            tls_set::changed_by(seq![], delta),
        )),
{
    assert(!holds_field(id)) by {
        if holds_field(id) {
            let field = choose|field: MetadataField| #[trigger] component_of(field) == id;
            assert(component_of(field) != ComponentId::AdminList);
        }
    }
}

} // verus!
