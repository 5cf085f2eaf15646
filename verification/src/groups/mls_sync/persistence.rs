//! What outlives a pass of synchronization.

use vstd::prelude::*;
use vstd::string::*;
use crate::bytes;
use crate::error::{ExternalError, GroupMessageProcessingError};
use crate::groups::app_data::component_source;
use crate::groups::app_data::component_source::MetadataField;
use crate::groups::group::MlsGroup;
use crate::groups::message_fields::QueryableContentFields;
use crate::groups::mls_sync::processing;
use crate::numbers;
use crate::records::{ContentType, ContentTypeId, Cursor, DeliveryStatus, GroupMessageKind, IntentKind, StoredGroupMessage, UpdateMetadataIntentData};

verus! {

/// Whether a row is that of a message of another member.
pub open spec fn is_external_message(
    m: StoredGroupMessage,
    content: Vec<u8>,
    sent_at_ns: i64,
    cursor: Cursor,
    sender_installation_id: Seq<u8>,
    sender_inbox_id: Seq<char>,
    fields: QueryableContentFields,
    message_id: Vec<u8>,
    group_id: Seq<u8>,
    expire_at_ns: Option<i64>,
) -> bool {
    &&& m.id == message_id
    &&& m.group_id@ == group_id
    &&& m.decrypted_message_bytes == content
    &&& m.sent_at_ns == sent_at_ns
    &&& m.kind == GroupMessageKind::Application
    &&& m.sender_installation_id@ == sender_installation_id
    &&& m.sender_inbox_id@ == sender_inbox_id
    &&& m.delivery_status == DeliveryStatus::Published
    &&& m.content_type == fields.content_type
    &&& m.version_major == fields.version_major
    &&& m.version_minor == fields.version_minor
    &&& m.authority_id == fields.authority_id
    &&& m.reference_id == fields.reference_id
    &&& m.sequence_id == cursor.sequence_id as i64
    &&& m.originator_id == cursor.originator_id
    &&& m.expire_at_ns == expire_at_ns
    &&& m.inserted_at_ns == 0
    &&& m.should_push
}

/// A message of another member is stored as it came: its bytes, its time, its place, its sender, its group, the time
/// at which it expires, and what it refers to. It counts as published, and is pushed.
pub proof fn received_messages_are_stored_as_they_came(
    m: StoredGroupMessage,
    content: Vec<u8>,
    sent_at_ns: i64,
    cursor: Cursor,
    sender_installation_id: Seq<u8>,
    sender_inbox_id: Seq<char>,
    fields: QueryableContentFields,
    message_id: Vec<u8>,
    group_id: Seq<u8>,
    expire_at_ns: Option<i64>,
)
    requires
        is_external_message(
            m,
            content,
            sent_at_ns,
            cursor,
            sender_installation_id,
            sender_inbox_id,
            fields,
            message_id,
            group_id,
            expire_at_ns,
        ),
    ensures
        m.id == message_id && m.group_id@ == group_id,
        m.decrypted_message_bytes == content,
        m.sent_at_ns == sent_at_ns && m.expire_at_ns == expire_at_ns,
        m.sender_installation_id@ == sender_installation_id && m.sender_inbox_id@ == sender_inbox_id,
        m.kind == GroupMessageKind::Application && m.delivery_status == DeliveryStatus::Published && m.should_push,
        m.reference_id == fields.reference_id && m.content_type == fields.content_type && m.authority_id
            == fields.authority_id && m.version_major == fields.version_major && m.version_minor == fields.version_minor,
        m.originator_id == cursor.originator_id,
        cursor.sequence_id <= i64::MAX ==> m.sequence_id == cursor.sequence_id,
{
}

/// The row of a message of another member.
pub fn persist_external_application_message(
    content: Vec<u8>,
    sent_at_ns: i64,
    cursor: Cursor,
    sender_installation_id: &[u8],
    sender_inbox_id: &str,
    fields: QueryableContentFields,
    message_id: Vec<u8>,
    group_id: &[u8],
    expire_at_ns: Option<i64>,
) -> (m: StoredGroupMessage)
    ensures
        is_external_message(
            m,
            content,
            sent_at_ns,
            cursor,
            sender_installation_id@,
            sender_inbox_id@,
            fields,
            message_id,
            group_id@,
            expire_at_ns,
        ),
{
    StoredGroupMessage {
        id: message_id,
        group_id: bytes::clone_bytes(group_id),
        decrypted_message_bytes: content,
        sent_at_ns,
        kind: GroupMessageKind::Application,
        sender_installation_id: bytes::clone_bytes(sender_installation_id),
        sender_inbox_id: sender_inbox_id.to_owned(),
        delivery_status: DeliveryStatus::Published,
        content_type: fields.content_type,
        version_major: fields.version_major,
        version_minor: fields.version_minor,
        authority_id: fields.authority_id,
        reference_id: fields.reference_id,
        sequence_id: cursor.sequence_id as i64,
        originator_id: cursor.originator_id as i64,
        expire_at_ns,
        inserted_at_ns: 0,
        should_push: true,
    }
}

/// What is noted of a message whose epoch lies ahead of that of its group.
pub open spec fn fork_details_text(message_cursor: u64, message_epoch: u64, group_epoch: u64) -> Seq<char> {
    "Message cursor ["@ + numbers::decimal_text(message_cursor as nat) + "] epoch ["@ + numbers::decimal_text(
        message_epoch as nat,
    ) + "] is greater than group epoch ["@ + numbers::decimal_text(group_epoch as nat)
        + "], your group may be forked"@
}

/// What is noted of a group that a message lies ahead of: it may have forked.
pub fn mark_probable_fork(message_cursor: u64, message_epoch: u64, group_epoch: u64) -> (details: String)
    ensures
        details@ == fork_details_text(message_cursor, message_epoch, group_epoch),
{
    let mut details: String = "Message cursor [".to_owned();
    details.append(numbers::decimal(message_cursor).as_str());
    details.append("] epoch [");
    details.append(numbers::decimal(message_epoch).as_str());
    details.append("] is greater than group epoch [");
    details.append(numbers::decimal(group_epoch).as_str());
    details.append("], your group may be forked");
    details
}

/// What an error of processing says about a fork: the details to note, and the error of the check.
#[derive(Debug)]
pub struct ForkCheck {
    pub fork_details: Option<String>,
    pub result: Result<(), GroupMessageProcessingError>,
}

/// Whether a check says what an error says about a fork.
pub open spec fn is_fork_check(
    message_cursor: u64,
    message_epoch: u64,
    error: GroupMessageProcessingError,
    group_epoch: u64,
    max_past_epochs: usize,
    r: ForkCheck,
) -> bool {
    if error matches GroupMessageProcessingError::OpenMlsProcessMessage { wrong_epoch: true, error: _ } && {
        &&& !processing::is_old_epoch(group_epoch, message_epoch, max_past_epochs)
        &&& message_epoch > group_epoch
    } {
        &&& r.fork_details matches Some(details)
        &&& details@ == fork_details_text(message_cursor, message_epoch, group_epoch)
        &&& r.result == Err::<(), _>(GroupMessageProcessingError::FutureEpoch(message_epoch, group_epoch))
    } else {
        r.fork_details is None && r.result == Ok::<(), GroupMessageProcessingError>(())
    }
}

/// A fork is noted exactly if a message was in the wrong epoch and this epoch lies ahead of the group's. The note names
/// the message and both epochs, and the error does so too.
pub proof fn messages_from_the_future_speak_for_a_fork(
    message_cursor: u64,
    message_epoch: u64,
    error: GroupMessageProcessingError,
    group_epoch: u64,
    max_past_epochs: usize,
    r: ForkCheck,
)
    requires
        is_fork_check(message_cursor, message_epoch, error, group_epoch, max_past_epochs, r),
    ensures
        r.fork_details is Some <==> message_epoch > group_epoch && (error matches
            GroupMessageProcessingError::OpenMlsProcessMessage { wrong_epoch, error: _ } && wrong_epoch),
        r.fork_details is Some ==> r.result == Err::<(), _>(
            GroupMessageProcessingError::FutureEpoch(message_epoch, group_epoch),
        ),
        r.fork_details is None ==> r.result is Ok,
        r.fork_details matches Some(details) ==> details@ == "Message cursor ["@ + numbers::decimal_text(
            message_cursor as nat,
        ) + "] epoch ["@ + numbers::decimal_text(message_epoch as nat) + "] is greater than group epoch ["@
            + numbers::decimal_text(group_epoch as nat) + "], your group may be forked"@,
{
}

/// Looks for a fork behind an error: only an error about the epoch of a message that lies ahead of
/// its group speaks for one.
pub fn process_group_message_error_for_fork_detection(
    message_cursor: u64,
    message_epoch: u64,
    error: &GroupMessageProcessingError,
    group_epoch: u64,
    max_past_epochs: usize,
) -> (r: ForkCheck)
    ensures
        is_fork_check(message_cursor, message_epoch, *error, group_epoch, max_past_epochs, r),
{
    let wrong_epoch: bool = match error {
        GroupMessageProcessingError::OpenMlsProcessMessage { wrong_epoch, error: _ } => *wrong_epoch,
        _ => false,
    };
    if !wrong_epoch {
        return ForkCheck { fork_details: None, result: Ok(()) };
    }
    match processing::validate_message_epoch(group_epoch, message_epoch, max_past_epochs) {
        Err(GroupMessageProcessingError::FutureEpoch(message, group)) => ForkCheck {
            fork_details: Some(mark_probable_fork(message_cursor, message_epoch, group_epoch)),
            result: Err(GroupMessageProcessingError::FutureEpoch(message, group)),
        },
        _ => ForkCheck { fork_details: None, result: Ok(()) },
    }
}

/// A setting of the group row that follows the group's metadata.
#[derive(Clone, Copy, Debug, PartialEq, Eq, Structural)]
pub enum MetadataMirror {
    DisappearFromNs(Option<i64>),
    DisappearInNs(Option<i64>),
}

/// The number that a metadata value stands for, if it stands for one.
pub open spec fn metadata_number(value: Option<Seq<char>>) -> Option<i64> {
    match value {
        Some(text) => match numbers::parsed_i64(vstd::utf8::encode_utf8(text)) {
            Some(n) => Some(n as i64),
            None => None,
        },
        None => None,
    }
}

/// What a change of an attribute does to the group row.
pub open spec fn mirror_of(field_name: Seq<char>, value: Option<Seq<char>>) -> Option<MetadataMirror> {
    if field_name == MetadataField::MessageDisappearFromNS.name() {
        Some(MetadataMirror::DisappearFromNs(metadata_number(value)))
    } else if field_name == MetadataField::MessageDisappearInNS.name() {
        Some(MetadataMirror::DisappearInNs(metadata_number(value)))
    } else {
        None
    }
}

/// The settings of the group row follow the two attributes for disappearing messages, each its own: a number is taken
/// over as it was written, and a value that is gone or no number clears the setting. No other attribute touches the row.
pub proof fn settings_follow_their_attributes(field: MetadataField, n: i64, value: Option<Seq<char>>)
    ensures
        mirror_of("message_disappear_from_ns"@, Some(numbers::signed_text(n as int))) == Some(
            MetadataMirror::DisappearFromNs(Some(n)),
        ),
        mirror_of("message_disappear_in_ns"@, Some(numbers::signed_text(n as int))) == Some(
            MetadataMirror::DisappearInNs(Some(n)),
        ),
        mirror_of("message_disappear_from_ns"@, None) == Some(MetadataMirror::DisappearFromNs(None)),
        mirror_of("message_disappear_in_ns"@, None) == Some(MetadataMirror::DisappearInNs(None)),
        field != MetadataField::MessageDisappearFromNS && field != MetadataField::MessageDisappearInNS ==> mirror_of(
            field.name(),
            value,
        ) is None,
        value is Some && numbers::parsed_i64(vstd::utf8::encode_utf8(value->0)) is None ==> mirror_of(
            "message_disappear_in_ns"@,
            value,
        ) == Some(MetadataMirror::DisappearInNs(None)),
{
    numbers::signed_text_is_read_back(n);
    component_source::field_names_are_distinct(
        MetadataField::MessageDisappearFromNS,
        MetadataField::MessageDisappearInNS,
    );
    component_source::field_names_are_distinct(field, MetadataField::MessageDisappearFromNS);
    component_source::field_names_are_distinct(field, MetadataField::MessageDisappearInNS);
}

/// The text of an optional value.
pub open spec fn optional_text(value: Option<String>) -> Option<Seq<char>> {
    match value {
        Some(text) => Some(text@),
        None => None,
    }
}

fn mirror(field_name: &str, value: Option<&str>) -> (r: Option<MetadataMirror>)
    ensures
        r == mirror_of(
            field_name@,
            match value {
                Some(text) => Some(text@),
                None => None,
            },
        ),
{
    let number: Option<i64> = match value {
        Some(text) => numbers::parse_i64(text),
        None => None,
    };
    if bytes::text_equal(field_name, MetadataField::MessageDisappearFromNS.as_str()) {
        Some(MetadataMirror::DisappearFromNs(number))
    } else if bytes::text_equal(field_name, MetadataField::MessageDisappearInNS.as_str()) {
        Some(MetadataMirror::DisappearInNs(number))
    } else {
        None
    }
}

/// What an intent does to the group row.
pub open spec fn intent_mirror(kind: IntentKind, data: Result<UpdateMetadataIntentData, ExternalError>) -> Result<
    Option<MetadataMirror>,
    ExternalError,
> {
    if kind != IntentKind::MetadataUpdate {
        Ok(None)
    } else {
        match data {
            Ok(d) => Ok(mirror_of(d.field_name@, Some(d.field_value@))),
            Err(e) => Err(e),
        }
    }
}

/// An intent to set one of the times of disappearing messages sets it in the group row, to the number that was asked
/// for; an intent of another kind touches nothing, whatever its data.
pub proof fn own_updates_are_mirrored(
    kind: IntentKind,
    data: UpdateMetadataIntentData,
    undecoded: Result<UpdateMetadataIntentData, ExternalError>,
    n: i64,
)
    ensures
        kind != IntentKind::MetadataUpdate ==> intent_mirror(kind, undecoded) == Ok::<Option<MetadataMirror>, ExternalError>(
            None,
        ),
        data.field_name@ == "message_disappear_in_ns"@ && data.field_value@ == numbers::signed_text(n as int)
            ==> intent_mirror(IntentKind::MetadataUpdate, Ok(data)) == Ok::<_, ExternalError>(
            Some(MetadataMirror::DisappearInNs(Some(n))),
        ),
        data.field_name@ == "message_disappear_from_ns"@ && data.field_value@ == numbers::signed_text(n as int)
            ==> intent_mirror(IntentKind::MetadataUpdate, Ok(data)) == Ok::<_, ExternalError>(
            Some(MetadataMirror::DisappearFromNs(Some(n))),
        ),
        undecoded matches Err(e) ==> intent_mirror(IntentKind::MetadataUpdate, undecoded) == Err::<
            Option<MetadataMirror>,
            _,
        >(e),
{
    settings_follow_their_attributes(MetadataField::AppData, n, None);
}

/// What an intent of this client does to the group row, before its message comes back from the
/// network. Only an update of the metadata does anything. A value that is no number clears the
/// setting.
pub fn handle_metadata_update_from_intent(
    kind: IntentKind,
    data: Result<UpdateMetadataIntentData, ExternalError>,
) -> (r: Result<Option<MetadataMirror>, ExternalError>)
    ensures
        r == intent_mirror(kind, data),
{
    if kind != IntentKind::MetadataUpdate {
        return Ok(None);
    }
    match data {
        Ok(d) => Ok(mirror(d.field_name.as_str(), Some(d.field_value.as_str()))),
        Err(e) => Err(e),
    }
}

/// A change of an attribute that a commit makes.
#[derive(Debug)]
pub struct MetadataFieldChange {
    pub field_name: String,
    pub old_value: Option<String>,
    pub new_value: Option<String>,
}

/// What changes of attributes do to the group row, in order.
pub open spec fn mirrors_of(changes: Seq<MetadataFieldChange>) -> Seq<MetadataMirror>
    decreases changes.len(),
{
    if changes.len() == 0 {
        seq![]
    } else {
        let rest = mirrors_of(changes.drop_last());
        match mirror_of(changes.last().field_name@, optional_text(changes.last().new_value)) {
            Some(m) => rest.push(m),
            None => rest,
        }
    }
}

/// Every change of a commit that touches a setting is mirrored, and nothing else is.
pub proof fn all_changes_are_mirrored(changes: Seq<MetadataFieldChange>, i: int)
    ensures
        0 <= i < changes.len() ==> (mirror_of(changes[i].field_name@, optional_text(changes[i].new_value)) matches Some(
            m,
        ) ==> mirrors_of(changes).contains(m)),
        0 <= i < mirrors_of(changes).len() ==> exists|k: int|
            0 <= k < changes.len() && mirror_of(
                (#[trigger] changes[k]).field_name@,
                optional_text(changes[k].new_value),
            ) == Some(mirrors_of(changes)[i]),
        mirrors_of(changes).len() <= changes.len(),
    decreases changes.len(),
{
    if changes.len() > 0 {
        let init = changes.drop_last();
        all_changes_are_mirrored(init, i);
        let rest = mirrors_of(init);
        let all = mirrors_of(changes);
        if 0 <= i < init.len() {
            assert(changes[i] == init[i]);
            if let Some(m) = mirror_of(changes[i].field_name@, optional_text(changes[i].new_value)) {
                let j = choose|j: int| 0 <= j < rest.len() && rest[j] == m;
                assert(all[j] == m);
            }
        }
        if i == changes.len() - 1 {
            if let Some(m) = mirror_of(changes[i].field_name@, optional_text(changes[i].new_value)) {
                assert(all[rest.len() as int] == m);
            }
        }
        if 0 <= i < all.len() {
            if i < rest.len() {
                let k = choose|k: int|
                    0 <= k < init.len() && mirror_of(
                        (#[trigger] init[k]).field_name@,
                        optional_text(init[k].new_value),
                    ) == Some(rest[i]);
                assert(changes[k] == init[k]);
                assert(all[i] == rest[i]);
            } else {
                assert(mirror_of(changes[changes.len() - 1].field_name@, optional_text(changes.last().new_value))
                    == Some(all[i]));
            }
        }
    }
}

/// What the metadata changes of a commit do to the group row, in order.
pub fn handle_metadata_update_from_commit(changes: &Vec<MetadataFieldChange>) -> (r: Vec<MetadataMirror>)
    ensures
        r@ == mirrors_of(changes@),
{
    let mut out: Vec<MetadataMirror> = Vec::new();
    let mut i: usize = 0;
    assert(changes@.take(0) =~= Seq::<MetadataFieldChange>::empty());
    while i < changes.len()
        invariant
            i <= changes@.len(),
            out@ == mirrors_of(changes@.take(i as int)),
        decreases changes@.len() - i,
    {
        assert(changes@.take(i + 1).drop_last() =~= changes@.take(i as int));
        assert(changes@.take(i + 1).last() == changes@[i as int]);
        let value: Option<&str> = match &changes[i].new_value {
            Some(text) => Some(text.as_str()),
            None => None,
        };
        if let Some(m) = mirror(changes[i].field_name.as_str(), value) {
            out.push(m);
        }
        i += 1;
    }
    assert(changes@.take(i as int) =~= changes@);
    out
}

/// A validated commit, encoded as the message that reports it.
#[derive(Debug)]
pub struct TranscriptPayload {
    pub bytes: Vec<u8>,
    pub message_id: Vec<u8>,
    pub content_type: Option<ContentTypeId>,
    pub actor_installation_id: Vec<u8>,
    pub actor_inbox_id: String,
    /// The changes of attributes that the commit makes.
    pub metadata_field_changes: Vec<MetadataFieldChange>,
    /// How many inboxes join with the commit.
    pub added_inboxes: usize,
}

/// Whether a row is the message that reports a commit.
pub open spec fn is_transcript_message(
    m: StoredGroupMessage,
    payload: TranscriptPayload,
    timestamp_ns: u64,
    cursor: Cursor,
    group_id: Seq<u8>,
) -> bool {
    &&& m.id == payload.message_id
    &&& m.group_id@ == group_id
    &&& m.decrypted_message_bytes == payload.bytes
    &&& m.sent_at_ns == timestamp_ns as i64
    &&& m.kind == GroupMessageKind::MembershipChange
    &&& m.sender_installation_id == payload.actor_installation_id
    &&& m.sender_inbox_id == payload.actor_inbox_id
    &&& m.delivery_status == DeliveryStatus::Published
    &&& match payload.content_type {
        Some(t) => {
            &&& m.content_type == t.content_type
            &&& m.version_major == t.version_major as i32
            &&& m.version_minor == t.version_minor as i32
            &&& m.authority_id == t.authority_id
        },
        None => {
            &&& m.content_type == ContentType::Unknown
            &&& m.version_major == 0
            &&& m.version_minor == 0
            &&& m.authority_id@ == "unknown"@
        },
    }
    &&& m.reference_id is None
    &&& m.sequence_id == cursor.sequence_id as i64
    &&& m.originator_id == cursor.originator_id
    &&& m.expire_at_ns is None
    &&& m.inserted_at_ns == 0
    &&& m.should_push
}

fn transcript_message(payload: TranscriptPayload, timestamp_ns: u64, cursor: Cursor, group_id: &[u8]) -> (m:
    StoredGroupMessage)
    ensures
        is_transcript_message(m, payload, timestamp_ns, cursor, group_id@),
{
    let content_type = match payload.content_type {
        Some(t) => t,
        None => ContentTypeId {
            authority_id: "unknown".to_owned(),
            content_type: ContentType::Unknown,
            version_major: 0,
            version_minor: 0,
        },
    };
    StoredGroupMessage {
        id: payload.message_id,
        group_id: bytes::clone_bytes(group_id),
        decrypted_message_bytes: payload.bytes,
        sent_at_ns: timestamp_ns as i64,
        kind: GroupMessageKind::MembershipChange,
        sender_installation_id: payload.actor_installation_id,
        sender_inbox_id: payload.actor_inbox_id,
        delivery_status: DeliveryStatus::Published,
        content_type: content_type.content_type,
        version_major: content_type.version_major as i32,
        version_minor: content_type.version_minor as i32,
        authority_id: content_type.authority_id,
        reference_id: None,
        sequence_id: cursor.sequence_id as i64,
        originator_id: cursor.originator_id as i64,
        expire_at_ns: None,
        inserted_at_ns: 0,
        should_push: true,
    }
}

/// What the keeping of a commit waits for.
#[derive(Debug)]
pub enum TranscriptPhase {
    /// The inboxes whose removal is pending.
    LoadingRemovals,
    /// The message that reports the commit.
    Encoding,
    /// The settings of the group row that follow the commit, one after the other.
    Mirroring { payload: TranscriptPayload, mirrors: Vec<MetadataMirror>, next: usize },
    /// Whether the report repeats an earlier one.
    Searching { payload: TranscriptPayload },
    /// The report stored under its id.
    Storing { message_id: Vec<u8> },
    Done,
}

/// A commit that is being kept.
#[derive(Debug)]
pub struct TranscriptPass {
    pub phase: TranscriptPhase,
    pub timestamp_ns: u64,
    pub cursor: Cursor,
}

/// What has happened outside.
#[derive(Debug)]
pub enum TranscriptEvent {
    RemovalsLoaded(Result<(), GroupMessageProcessingError>),
    Encoded(Result<TranscriptPayload, GroupMessageProcessingError>),
    Mirrored(Result<(), GroupMessageProcessingError>),
    /// An earlier report was looked for; whether there is one.
    Searched(Result<bool, GroupMessageProcessingError>),
    Stored(Result<(), GroupMessageProcessingError>),
}

/// What is to be done next outside.
#[derive(Debug)]
pub enum TranscriptAction {
    LoadRemovals,
    /// Encode the commit with the removals, and work out its id; the key keeps the messages of two equal
    /// commits apart.
    Encode { idempotency_key: String },
    Mirror(MetadataMirror),
    /// Look for an earlier report of the same.
    Search { added_inboxes: usize },
    Store(StoredGroupMessage),
    /// Stop, with the id of the report, where one is stored.
    Finish(Result<Option<Vec<u8>>, GroupMessageProcessingError>),
    Ignore,
}

/// Whether the keeping of a commit ends.
pub open spec fn ends_transcript(
    before: TranscriptPass,
    result: Result<Option<Vec<u8>>, GroupMessageProcessingError>,
    after: TranscriptPass,
    action: TranscriptAction,
) -> bool {
    &&& after == (TranscriptPass { phase: TranscriptPhase::Done, ..before })
    &&& action == TranscriptAction::Finish(result)
}

/// Whether the next setting is mirrored, or an earlier report is looked for after the last.
pub open spec fn mirrors_next(
    before: TranscriptPass,
    payload: TranscriptPayload,
    mirrors: Seq<MetadataMirror>,
    next: int,
    after: TranscriptPass,
    action: TranscriptAction,
) -> bool {
    &&& after == (TranscriptPass { phase: after.phase, ..before })
    &&& if next < mirrors.len() {
        &&& after.phase matches TranscriptPhase::Mirroring { payload: p, mirrors: m, next: n }
        &&& p == payload
        &&& m@ == mirrors
        &&& n == next
        &&& action == TranscriptAction::Mirror(mirrors[next])
    } else {
        &&& after.phase == (TranscriptPhase::Searching { payload })
        &&& action == (TranscriptAction::Search { added_inboxes: payload.added_inboxes })
    }
}

/// How the keeping of a commit begins.
pub open spec fn begins_transcript(
    is_empty: bool,
    timestamp_ns: u64,
    cursor: Cursor,
    pass: TranscriptPass,
    action: TranscriptAction,
) -> bool {
    &&& pass.timestamp_ns == timestamp_ns
    &&& pass.cursor == cursor
    &&& if is_empty {
        pass.phase is Done && action == TranscriptAction::Finish(Ok(None))
    } else {
        pass.phase is LoadingRemovals && action is LoadRemovals
    }
}

/// The transitions of keeping a commit.
pub open spec fn is_transcript_step(
    group_id: Seq<u8>,
    before: TranscriptPass,
    event: TranscriptEvent,
    after: TranscriptPass,
    action: TranscriptAction,
) -> bool {
    match (before.phase, event) {
        (TranscriptPhase::LoadingRemovals, TranscriptEvent::RemovalsLoaded(outcome)) => match outcome {
            Err(e) => ends_transcript(before, Err(e), after, action),
            Ok(_) => {
                &&& after == (TranscriptPass { phase: TranscriptPhase::Encoding, ..before })
                &&& action matches TranscriptAction::Encode { idempotency_key }
                &&& idempotency_key@ == numbers::decimal_text(before.timestamp_ns as nat)
            },
        },
        (TranscriptPhase::Encoding, TranscriptEvent::Encoded(outcome)) => match outcome {
            Err(e) => ends_transcript(before, Err(e), after, action),
            Ok(payload) => mirrors_next(
                before,
                payload,
                mirrors_of(payload.metadata_field_changes@),
                0,
                after,
                action,
            ),
        },
        (TranscriptPhase::Mirroring { payload, mirrors, next }, TranscriptEvent::Mirrored(outcome)) => match outcome {
            Err(e) => ends_transcript(before, Err(e), after, action),
            Ok(_) => if next < mirrors@.len() {
                mirrors_next(before, payload, mirrors@, next + 1, after, action)
            } else {
                after == before && action is Ignore
            },
        },
        (TranscriptPhase::Searching { payload }, TranscriptEvent::Searched(outcome)) => match outcome {
            Err(e) => ends_transcript(before, Err(e), after, action),
            Ok(true) => ends_transcript(before, Ok(None), after, action),
            Ok(false) => {
                &&& after == (TranscriptPass { phase: after.phase, ..before })
                &&& after.phase matches TranscriptPhase::Storing { message_id }
                &&& message_id@ == payload.message_id@
                &&& action matches TranscriptAction::Store(message)
                &&& is_transcript_message(message, payload, before.timestamp_ns, before.cursor, group_id)
            },
        },
        (TranscriptPhase::Storing { message_id }, TranscriptEvent::Stored(outcome)) => match outcome {
            Err(e) => ends_transcript(before, Err(e), after, action),
            Ok(_) => ends_transcript(before, Ok(Some(message_id)), after, action),
        },
        _ => after == before && action is Ignore,
    }
}

fn mirror_next(
    timestamp_ns: u64,
    cursor: Cursor,
    payload: TranscriptPayload,
    mirrors: Vec<MetadataMirror>,
    next: usize,
) -> (r: (TranscriptPass, TranscriptAction))
    ensures
        mirrors_next(
            TranscriptPass { phase: TranscriptPhase::Done, timestamp_ns, cursor },
            payload,
            mirrors@,
            next as int,
            r.0,
            r.1,
        ),
{
    if next < mirrors.len() {
        let mirror = mirrors[next];
        (
            TranscriptPass { phase: TranscriptPhase::Mirroring { payload, mirrors, next }, timestamp_ns, cursor },
            TranscriptAction::Mirror(mirror),
        )
    } else {
        let added_inboxes: usize = payload.added_inboxes;
        (
            TranscriptPass { phase: TranscriptPhase::Searching { payload }, timestamp_ns, cursor },
            TranscriptAction::Search { added_inboxes },
        )
    }
}

fn end_transcript(
    timestamp_ns: u64,
    cursor: Cursor,
    result: Result<Option<Vec<u8>>, GroupMessageProcessingError>,
) -> (r: (TranscriptPass, TranscriptAction))
    ensures
        ends_transcript(TranscriptPass { phase: TranscriptPhase::Done, timestamp_ns, cursor }, result, r.0, r.1),
{
    (
        TranscriptPass { phase: TranscriptPhase::Done, timestamp_ns, cursor },
        TranscriptAction::Finish(result),
    )
}

impl MlsGroup {
    /// Begins to keep a validated commit: `is_empty` tells whether it changes nothing, and then it leaves
    /// no trace.
    pub fn save_transcript_message(&self, is_empty: bool, timestamp_ns: u64, cursor: Cursor) -> (r: (
        TranscriptPass,
        TranscriptAction,
    ))
        ensures
            begins_transcript(is_empty, timestamp_ns, cursor, r.0, r.1),
    {
        if is_empty {
            return end_transcript(timestamp_ns, cursor, Ok(None));
        }
        (
            TranscriptPass { phase: TranscriptPhase::LoadingRemovals, timestamp_ns, cursor },
            TranscriptAction::LoadRemovals,
        )
    }

    /// Takes the keeping of a commit one step further. What follows for the group row follows even where
    /// the report is a repetition and is not stored.
    pub fn transcript_step(&self, pass: TranscriptPass, event: TranscriptEvent) -> (r: (
        TranscriptPass,
        TranscriptAction,
    ))
        ensures
            is_transcript_step(self.group_id@, pass, event, r.0, r.1),
    {
        let TranscriptPass { phase, timestamp_ns, cursor } = pass;
        match (phase, event) {
            (TranscriptPhase::LoadingRemovals, TranscriptEvent::RemovalsLoaded(outcome)) => match outcome {
                Err(e) => end_transcript(timestamp_ns, cursor, Err(e)),
                Ok(_) => (
                    TranscriptPass { phase: TranscriptPhase::Encoding, timestamp_ns, cursor },
                    TranscriptAction::Encode { idempotency_key: numbers::decimal(timestamp_ns) },
                ),
            },
            (TranscriptPhase::Encoding, TranscriptEvent::Encoded(outcome)) => match outcome {
                Err(e) => end_transcript(timestamp_ns, cursor, Err(e)),
                Ok(payload) => {
                    let mirrors = handle_metadata_update_from_commit(&payload.metadata_field_changes);
                    mirror_next(timestamp_ns, cursor, payload, mirrors, 0)
                },
            },
            (TranscriptPhase::Mirroring { payload, mirrors, next }, TranscriptEvent::Mirrored(outcome)) => match outcome {
                Err(e) => end_transcript(timestamp_ns, cursor, Err(e)),
                Ok(_) => {
                    if next < mirrors.len() {
                        mirror_next(timestamp_ns, cursor, payload, mirrors, next + 1)
                    } else {
                        (
                            TranscriptPass {
                                phase: TranscriptPhase::Mirroring { payload, mirrors, next },
                                timestamp_ns,
                                cursor,
                            },
                            TranscriptAction::Ignore,
                        )
                    }
                },
            },
            (TranscriptPhase::Searching { payload }, TranscriptEvent::Searched(outcome)) => match outcome {
                Err(e) => end_transcript(timestamp_ns, cursor, Err(e)),
                Ok(true) => end_transcript(timestamp_ns, cursor, Ok(None)),
                Ok(false) => {
                    let message_id = bytes::clone_bytes(payload.message_id.as_slice());
                    let message = transcript_message(payload, timestamp_ns, cursor, self.group_id.as_slice());
                    (
                        TranscriptPass { phase: TranscriptPhase::Storing { message_id }, timestamp_ns, cursor },
                        TranscriptAction::Store(message),
                    )
                },
            },
            (TranscriptPhase::Storing { message_id }, TranscriptEvent::Stored(outcome)) => match outcome {
                Err(e) => end_transcript(timestamp_ns, cursor, Err(e)),
                Ok(_) => end_transcript(timestamp_ns, cursor, Ok(Some(message_id))),
            },
            (phase, _) => (TranscriptPass { phase, timestamp_ns, cursor }, TranscriptAction::Ignore),
        }
    }
}

/// A report is stored, or found to be a repetition, only after every setting that follows the commit was
/// mirrored into the group row.
pub proof fn settings_are_mirrored_before_the_report(
    group_id: Seq<u8>,
    before: TranscriptPass,
    event: TranscriptEvent,
    after: TranscriptPass,
    action: TranscriptAction,
)
    requires
        is_transcript_step(group_id, before, event, after, action),
        action is Search,
    ensures
        match (before.phase, event) {
            (TranscriptPhase::Encoding, TranscriptEvent::Encoded(Ok(payload))) => mirrors_of(
                payload.metadata_field_changes@,
            ).len() == 0,
            (TranscriptPhase::Mirroring { payload: _, mirrors, next }, TranscriptEvent::Mirrored(Ok(_))) => next + 1
                == mirrors@.len(),
            _ => false,
        },
{
}

/// How many earlier reports are looked at in one page.
pub const REPORT_PAGE_SIZE: i64 = 100;

/// What the search for an earlier report waits for.
#[derive(Clone, Copy, Debug, PartialEq, Eq, Structural)]
pub enum DuplicatePhase {
    /// A page of earlier reports.
    Loading,
    /// The comparison with all of them.
    Comparing,
    Done,
}

/// What has happened outside.
#[derive(Debug)]
pub enum DuplicateEvent {
    /// A page of earlier reports, taken in for the comparison; when each of them was inserted.
    Page(Result<Vec<i64>, GroupMessageProcessingError>),
    /// Whether one of them says the same.
    Compared(bool),
}

/// What is to be done next outside.
#[derive(Debug)]
pub enum DuplicateAction {
    LoadPage { inserted_after_ns: Option<i64>, limit: i64 },
    Compare,
    Finish(Result<bool, GroupMessageProcessingError>),
    Ignore,
}

/// How the search for an earlier report begins.
pub open spec fn begins_search(
    dm_id: Option<String>,
    added_inboxes: usize,
    phase: DuplicatePhase,
    action: DuplicateAction,
) -> bool {
    if dm_id is None || added_inboxes == 0 {
        (phase, action) == (DuplicatePhase::Done, DuplicateAction::Finish(Ok(false)))
    } else {
        (phase, action) == (
            DuplicatePhase::Loading,
            DuplicateAction::LoadPage { inserted_after_ns: None, limit: REPORT_PAGE_SIZE },
        )
    }
}

/// The transitions of the search for an earlier report: page by page, each behind the last report of the
/// one before, until a page is empty.
pub open spec fn is_duplicate_step(
    before: DuplicatePhase,
    event: DuplicateEvent,
    after: DuplicatePhase,
    action: DuplicateAction,
) -> bool {
    match (before, event) {
        (DuplicatePhase::Loading, DuplicateEvent::Page(outcome)) => match outcome {
            Err(e) => after == DuplicatePhase::Done && action == DuplicateAction::Finish(Err(e)),
            Ok(inserted_at_ns) => if inserted_at_ns@.len() > 0 {
                &&& after == DuplicatePhase::Loading
                &&& action == (DuplicateAction::LoadPage {
                    inserted_after_ns: Some(inserted_at_ns@.last()),
                    limit: REPORT_PAGE_SIZE,
                })
            } else {
                after == DuplicatePhase::Comparing && action is Compare
            },
        },
        (DuplicatePhase::Comparing, DuplicateEvent::Compared(found)) => {
            after == DuplicatePhase::Done && action == DuplicateAction::Finish(Ok(found))
        },
        _ => after == before && action is Ignore,
    }
}

impl MlsGroup {
    /// Begins to look for an earlier report of the same. Only direct conversations that were stitched
    /// together repeat reports, and only those of members who join.
    pub fn update_already_exists(&self, added_inboxes: usize) -> (r: (DuplicatePhase, DuplicateAction))
        ensures
            begins_search(self.dm_id, added_inboxes, r.0, r.1),
    {
        if self.dm_id.is_none() || added_inboxes == 0 {
            return (DuplicatePhase::Done, DuplicateAction::Finish(Ok(false)));
        }
        (
            DuplicatePhase::Loading,
            DuplicateAction::LoadPage { inserted_after_ns: None, limit: REPORT_PAGE_SIZE },
        )
    }
}

/// Takes the search for an earlier report one step further.
pub fn duplicate_step(phase: DuplicatePhase, event: DuplicateEvent) -> (r: (DuplicatePhase, DuplicateAction))
    ensures
        is_duplicate_step(phase, event, r.0, r.1),
{
    match (phase, event) {
        (DuplicatePhase::Loading, DuplicateEvent::Page(outcome)) => match outcome {
            Err(e) => (DuplicatePhase::Done, DuplicateAction::Finish(Err(e))),
            Ok(inserted_at_ns) => {
                if inserted_at_ns.len() > 0 {
                    let last: i64 = inserted_at_ns[inserted_at_ns.len() - 1];
                    (
                        DuplicatePhase::Loading,
                        DuplicateAction::LoadPage { inserted_after_ns: Some(last), limit: REPORT_PAGE_SIZE },
                    )
                } else {
                    (DuplicatePhase::Comparing, DuplicateAction::Compare)
                }
            },
        },
        (DuplicatePhase::Comparing, DuplicateEvent::Compared(found)) => (
            DuplicatePhase::Done,
            DuplicateAction::Finish(Ok(found)),
        ),
        (phase, _) => (phase, DuplicateAction::Ignore),
    }
}

/// An earlier report is looked for only in a direct conversation, and only for members who join. Page after page of a
/// hundred is loaded, each behind the last report of the one before, until one is empty; then all of them are compared,
/// and what the comparison finds is the answer.
pub proof fn earlier_reports_are_all_looked_at(
    dm_id: Option<String>,
    added_inboxes: usize,
    first: DuplicatePhase,
    asked: DuplicateAction,
    before: DuplicatePhase,
    event: DuplicateEvent,
    after: DuplicatePhase,
    action: DuplicateAction,
)
    requires
        begins_search(dm_id, added_inboxes, first, asked),
        is_duplicate_step(before, event, after, action),
        action !is Ignore,
    ensures
        dm_id is None || added_inboxes == 0 ==> asked == DuplicateAction::Finish(Ok(false)),
        dm_id is Some && added_inboxes > 0 ==> first == DuplicatePhase::Loading && asked == (DuplicateAction::LoadPage {
            inserted_after_ns: None,
            limit: 100,
        }),
        event matches DuplicateEvent::Page(Ok(page)) ==> {
            &&& page@.len() > 0 ==> after == before && action == (DuplicateAction::LoadPage {
                inserted_after_ns: Some(page@[page@.len() - 1]),
                limit: 100,
            })
            &&& page@.len() == 0 ==> action is Compare
        },
        event matches DuplicateEvent::Page(Err(e)) ==> action == DuplicateAction::Finish(Err(e)),
        event matches DuplicateEvent::Compared(found) ==> action == DuplicateAction::Finish(Ok(found)),
        action is Compare <==> after == DuplicatePhase::Comparing,
        action is Finish <==> after == DuplicatePhase::Done,
{
}

/// A commit that changes nothing leaves no trace. Any other is encoded with the removals that are pending, under a key
/// that is the commit's own time, and what follows for the group row is mirrored before the report is looked for.
pub proof fn commits_are_encoded_and_mirrored(
    group_id: Seq<u8>,
    timestamp_ns: u64,
    cursor: Cursor,
    is_empty: bool,
    passes: Seq<TranscriptPass>,
    actions: Seq<TranscriptAction>,
    payload: TranscriptPayload,
)
    requires
        passes.len() == 3,
        actions.len() == 3,
        begins_transcript(is_empty, timestamp_ns, cursor, passes[0], actions[0]),
        is_transcript_step(group_id, passes[0], TranscriptEvent::RemovalsLoaded(Ok(())), passes[1], actions[1]),
        is_transcript_step(group_id, passes[1], TranscriptEvent::Encoded(Ok(payload)), passes[2], actions[2]),
    ensures
        is_empty ==> actions[0] == TranscriptAction::Finish(Ok(None)),
        !is_empty ==> {
            let mirrors = mirrors_of(payload.metadata_field_changes@);
            &&& actions[0] is LoadRemovals
            &&& actions[1] matches TranscriptAction::Encode { idempotency_key } && idempotency_key@
                == numbers::decimal_text(timestamp_ns as nat)
            &&& mirrors.len() > 0 ==> actions[2] == TranscriptAction::Mirror(mirrors[0])
            &&& mirrors.len() == 0 ==> actions[2] == (TranscriptAction::Search { added_inboxes: payload.added_inboxes })
            &&& passes[2].timestamp_ns == timestamp_ns && passes[2].cursor == cursor
        },
{
}

/// The settings that follow a commit are mirrored one after the other, none left out; behind the last an earlier report
/// is looked for.
pub proof fn settings_are_mirrored_one_by_one(
    group_id: Seq<u8>,
    before: TranscriptPass,
    payload: TranscriptPayload,
    mirrors: Vec<MetadataMirror>,
    next: usize,
    after: TranscriptPass,
    action: TranscriptAction,
)
    requires
        before.phase == (TranscriptPhase::Mirroring { payload, mirrors, next }),
        next < mirrors@.len(),
        is_transcript_step(group_id, before, TranscriptEvent::Mirrored(Ok(())), after, action),
    ensures
        next + 1 < mirrors@.len() ==> action == TranscriptAction::Mirror(mirrors@[next + 1]) && (after.phase matches
            TranscriptPhase::Mirroring { payload: p, mirrors: m, next: n } && p == payload && m@ == mirrors@ && n == next
            + 1),
        next + 1 == mirrors@.len() ==> action == (TranscriptAction::Search { added_inboxes: payload.added_inboxes })
            && after.phase == (TranscriptPhase::Searching { payload }),
        after.timestamp_ns == before.timestamp_ns && after.cursor == before.cursor,
{
}

/// A report that is no repetition is stored under its own id, with the commit's time and place and with the one who made
/// the commit as its sender, and this id is the result. A repetition is not stored.
pub proof fn reports_are_stored_once(
    group_id: Seq<u8>,
    before: TranscriptPass,
    payload: TranscriptPayload,
    found: bool,
    after: TranscriptPass,
    action: TranscriptAction,
    last: TranscriptPass,
    result: TranscriptAction,
)
    requires
        before.phase == (TranscriptPhase::Searching { payload }),
        is_transcript_step(group_id, before, TranscriptEvent::Searched(Ok(found)), after, action),
        is_transcript_step(group_id, after, TranscriptEvent::Stored(Ok(())), last, result),
    ensures
        found ==> action == TranscriptAction::Finish(Ok(None)),
        !found ==> {
            &&& action matches TranscriptAction::Store(m) && {
                &&& m.id == payload.message_id
                &&& m.group_id@ == group_id
                &&& m.decrypted_message_bytes == payload.bytes
                &&& m.sender_inbox_id == payload.actor_inbox_id
                &&& m.sender_installation_id == payload.actor_installation_id
                &&& m.kind == GroupMessageKind::MembershipChange
                &&& m.delivery_status == DeliveryStatus::Published
                &&& before.timestamp_ns <= i64::MAX ==> m.sent_at_ns == before.timestamp_ns
                &&& before.cursor.sequence_id <= i64::MAX ==> m.sequence_id == before.cursor.sequence_id
                &&& m.originator_id == before.cursor.originator_id
                &&& m.expire_at_ns is None
                &&& m.reference_id is None
                &&& payload.content_type matches Some(t) ==> m.content_type == t.content_type && m.authority_id
                    == t.authority_id
                &&& payload.content_type is None ==> m.content_type == ContentType::Unknown
            }
            &&& result matches TranscriptAction::Finish(Ok(Some(id))) && id@ == payload.message_id@
        },
{
}

/// The first failure ends the keeping of a commit and is what is reported; nothing else makes it fail.
pub proof fn keeping_a_commit_fails_as_its_steps_do(
    group_id: Seq<u8>,
    before: TranscriptPass,
    event: TranscriptEvent,
    after: TranscriptPass,
    action: TranscriptAction,
)
    requires
        is_transcript_step(group_id, before, event, after, action),
        action !is Ignore,
    ensures
        event matches TranscriptEvent::RemovalsLoaded(Err(e)) ==> action == TranscriptAction::Finish(Err(e)),
        event matches TranscriptEvent::Encoded(Err(e)) ==> action == TranscriptAction::Finish(Err(e)),
        event matches TranscriptEvent::Mirrored(Err(e)) ==> action == TranscriptAction::Finish(Err(e)),
        event matches TranscriptEvent::Searched(Err(e)) ==> action == TranscriptAction::Finish(Err(e)),
        event matches TranscriptEvent::Stored(Err(e)) ==> action == TranscriptAction::Finish(Err(e)),
        action matches TranscriptAction::Finish(Err(_)) ==> (event matches TranscriptEvent::RemovalsLoaded(Err(_)))
            || (event matches TranscriptEvent::Encoded(Err(_))) || (event matches TranscriptEvent::Mirrored(Err(_))) || (
        event matches TranscriptEvent::Searched(Err(_))) || (event matches TranscriptEvent::Stored(Err(_))),
        action is Finish <==> after.phase is Done,
{
}

/// A commit that was kept asks for nothing more, and what does not fit the step that is waited for changes nothing.
pub proof fn kept_commits_stay_kept(
    group_id: Seq<u8>,
    before: TranscriptPass,
    event: TranscriptEvent,
    after: TranscriptPass,
    action: TranscriptAction,
)
    requires
        is_transcript_step(group_id, before, event, after, action),
    ensures
        before.phase is Done ==> action is Ignore,
        action is Ignore ==> after == before,
{
}

/// A search that has come to its end does nothing more, and what does not fit the step that it waits for changes nothing.
pub proof fn finished_searches_stay_finished(
    before: DuplicatePhase,
    event: DuplicateEvent,
    after: DuplicatePhase,
    action: DuplicateAction,
)
    requires
        is_duplicate_step(before, event, after, action),
    ensures
        before is Done ==> action is Ignore,
        action is Ignore ==> after == before,
{
}

} // verus!
