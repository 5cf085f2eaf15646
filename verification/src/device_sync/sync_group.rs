//! The group between the devices of the user.

use vstd::prelude::*;
use vstd::string::*;
use crate::device_sync::catalog::NS_IN_DAY;
use crate::device_sync::client::DeviceSyncClient;
use crate::device_sync::content::SyncContent;
use crate::device_sync::error::{ClientError, DeviceSyncError};
use crate::device_sync::lifecycle::SyncMetric;
use crate::groups::error::GroupError;
use crate::groups::group::MlsGroup;
use crate::groups::summary::SyncSummary;
use crate::records::{ConsentState, ConversationType, StoredGroup, StoredGroupIntent};
use crate::subscriptions::events::SyncWorkerEvent;

verus! {

/// What getting the group between devices waits for.
#[derive(Debug)]
pub enum SyncGroupPhase {
    /// The row of the primary one.
    LookingUp,
    /// The group of that row.
    Loading,
    /// A new one.
    Creating,
    /// The other devices of the user in the new one.
    AddingDevices { group: MlsGroup },
    /// A pass over the new one.
    Syncing { group: MlsGroup },
    Done,
}

/// What has happened outside.
#[derive(Debug)]
pub enum SyncGroupEvent {
    Found(Result<Option<StoredGroup>, GroupError>),
    /// A stored group was loaded, or a new one was created.
    Got(Result<MlsGroup, GroupError>),
    DevicesAdded(Result<(), GroupError>),
    Synced(Result<SyncSummary, SyncSummary>),
}

/// What is to be done next outside.
#[derive(Debug)]
pub enum SyncGroupAction {
    LookUp,
    Load { group_id: Vec<u8> },
    /// Create a group of this type with the default permissions and metadata.
    Create { conversation_type: ConversationType },
    AddDevices,
    Sync,
    Finish { result: Result<MlsGroup, GroupError>, metric: Option<SyncMetric> },
    Ignore,
}

/// Whether the group is had, or cannot be.
pub open spec fn gets(
    result: Result<MlsGroup, GroupError>,
    metric: Option<SyncMetric>,
    after: SyncGroupPhase,
    action: SyncGroupAction,
) -> bool {
    after is Done && action == (SyncGroupAction::Finish { result, metric })
}

/// How getting the group between devices begins.
pub open spec fn begins_getting(phase: SyncGroupPhase, action: SyncGroupAction) -> bool {
    (phase, action) == (SyncGroupPhase::LookingUp, SyncGroupAction::LookUp)
}

/// The transitions of getting the group between devices.
pub open spec fn is_sync_group_step(
    before: SyncGroupPhase,
    event: SyncGroupEvent,
    after: SyncGroupPhase,
    action: SyncGroupAction,
) -> bool {
    match (before, event) {
        (SyncGroupPhase::LookingUp, SyncGroupEvent::Found(outcome)) => match outcome {
            Err(e) => gets(Err(e), None, after, action),
            Ok(Some(row)) => after is Loading && action == (SyncGroupAction::Load { group_id: row.id }),
            Ok(None) => after is Creating && action == (SyncGroupAction::Create {
                conversation_type: ConversationType::Sync,
            }),
        },
        (SyncGroupPhase::Loading, SyncGroupEvent::Got(outcome)) => gets(outcome, None, after, action),
        (SyncGroupPhase::Creating, SyncGroupEvent::Got(outcome)) => match outcome {
            Err(e) => gets(Err(e), None, after, action),
            Ok(group) => after == (SyncGroupPhase::AddingDevices { group }) && action is AddDevices,
        },
        (SyncGroupPhase::AddingDevices { group }, SyncGroupEvent::DevicesAdded(outcome)) => match outcome {
            Err(e) => gets(Err(e), None, after, action),
            Ok(_) => after == (SyncGroupPhase::Syncing { group }) && action is Sync,
        },
        (SyncGroupPhase::Syncing { group }, SyncGroupEvent::Synced(outcome)) => match outcome {
            Err(summary) => gets(Err(GroupError::Sync(Box::new(summary))), None, after, action),
            Ok(_) => gets(Ok(group), Some(SyncMetric::SyncGroupCreated), after, action),
        },
        _ => after == before && action is Ignore,
    }
}

fn get(result: Result<MlsGroup, GroupError>, metric: Option<SyncMetric>) -> (r: (SyncGroupPhase, SyncGroupAction))
    ensures
        gets(result, metric, r.0, r.1),
{
    (SyncGroupPhase::Done, SyncGroupAction::Finish { result, metric })
}

impl DeviceSyncClient {
    /// Begins to get the group between devices.
    pub fn get_sync_group(&self) -> (r: (SyncGroupPhase, SyncGroupAction))
        ensures
            begins_getting(r.0, r.1),
    {
        (SyncGroupPhase::LookingUp, SyncGroupAction::LookUp)
    }
}

/// Takes getting the group between devices one step further. Where there is none yet, it is created, the
/// other devices are added to it, and it is synced.
pub fn get_sync_group_step(phase: SyncGroupPhase, event: SyncGroupEvent) -> (r: (SyncGroupPhase, SyncGroupAction))
    ensures
        is_sync_group_step(phase, event, r.0, r.1),
{
    match (phase, event) {
        (SyncGroupPhase::LookingUp, SyncGroupEvent::Found(outcome)) => match outcome {
            Err(e) => get(Err(e), None),
            Ok(Some(row)) => (SyncGroupPhase::Loading, SyncGroupAction::Load { group_id: row.id }),
            Ok(None) => (
                SyncGroupPhase::Creating,
                SyncGroupAction::Create { conversation_type: ConversationType::Sync },
            ),
        },
        (SyncGroupPhase::Loading, SyncGroupEvent::Got(outcome)) => get(outcome, None),
        (SyncGroupPhase::Creating, SyncGroupEvent::Got(outcome)) => match outcome {
            Err(e) => get(Err(e), None),
            Ok(group) => (SyncGroupPhase::AddingDevices { group }, SyncGroupAction::AddDevices),
        },
        (SyncGroupPhase::AddingDevices { group }, SyncGroupEvent::DevicesAdded(outcome)) => match outcome {
            Err(e) => get(Err(e), None),
            Ok(_) => (SyncGroupPhase::Syncing { group }, SyncGroupAction::Sync),
        },
        (SyncGroupPhase::Syncing { group }, SyncGroupEvent::Synced(outcome)) => match outcome {
            Err(summary) => get(Err(GroupError::Sync(Box::new(summary))), None),
            Ok(_) => get(Ok(group), Some(SyncMetric::SyncGroupCreated)),
        },
        (phase, _) => (phase, SyncGroupAction::Ignore),
    }
}

/// The type of a content by its names.
#[derive(Debug)]
pub struct NamedContentType {
    pub authority_id: String,
    pub type_id: String,
    pub version_major: u32,
    pub version_minor: u32,
}

/// Whether a type is that of the messages between devices.
pub open spec fn is_sync_content_type(t: NamedContentType) -> bool {
    &&& t.authority_id@ == "xmtp.org"@
    &&& t.type_id@ == "application/x-protobuf"@
    &&& t.version_major == 1
    &&& t.version_minor == 0
}

/// What sending a message to the other devices waits for.
#[derive(Debug)]
pub enum SendSyncPhase {
    /// The group between devices.
    Getting { content: SyncContent },
    /// The message encoded.
    Encoding { group: MlsGroup },
    /// The message queued in the group.
    Preparing,
    /// The message sent, as everything else that is queued in the group.
    Waiting { message_id: Vec<u8> },
    Done,
}

/// What has happened outside.
#[derive(Debug)]
pub enum SendSyncEvent {
    Got(Result<MlsGroup, GroupError>),
    /// The message was encoded, or the text of the failure.
    Encoded(Result<Vec<u8>, String>),
    /// The message was queued under an id.
    Prepared(Result<Vec<u8>, GroupError>),
    Resolved(Result<SyncSummary, GroupError>),
}

/// What is to be done next outside.
#[derive(Debug)]
pub enum SendSyncAction {
    GetGroup,
    /// Encode the content of the message.
    Encode(SyncContent),
    /// Queue a content of a type in the group.
    Prepare { group: MlsGroup, content_type: NamedContentType, content: Vec<u8>, should_push: bool },
    /// Wait until the last intent of the group is resolved.
    Wait,
    Finish {
        result: Result<Vec<u8>, ClientError>,
        /// What the worker is told.
        announce: Option<SyncWorkerEvent>,
    },
    Ignore,
}

/// How sending a message to the other devices begins.
pub open spec fn begins_sending(content: SyncContent, phase: SendSyncPhase, action: SendSyncAction) -> bool {
    (phase, action) == (SendSyncPhase::Getting { content }, SendSyncAction::GetGroup)
}

/// Whether sending a message fails.
pub open spec fn send_fails(error: ClientError, after: SendSyncPhase, action: SendSyncAction) -> bool {
    after is Done && action == (SendSyncAction::Finish { result: Err(error), announce: None })
}

/// The transitions of sending a message to the other devices. Such a message is never pushed.
pub open spec fn is_send_sync_step(
    before: SendSyncPhase,
    event: SendSyncEvent,
    after: SendSyncPhase,
    action: SendSyncAction,
) -> bool {
    match (before, event) {
        (SendSyncPhase::Getting { content }, SendSyncEvent::Got(outcome)) => match outcome {
            Err(e) => send_fails(ClientError::Group(e), after, action),
            Ok(group) => after == (SendSyncPhase::Encoding { group }) && action == SendSyncAction::Encode(content),
        },
        (SendSyncPhase::Encoding { group }, SendSyncEvent::Encoded(outcome)) => match outcome {
            Err(text) => send_fails(ClientError::Generic(text), after, action),
            Ok(bytes) => {
                &&& after is Preparing
                &&& action matches SendSyncAction::Prepare { group: g, content_type, content, should_push }
                &&& g == group
                &&& is_sync_content_type(content_type)
                &&& content == bytes
                &&& !should_push
            },
        },
        (SendSyncPhase::Preparing, SendSyncEvent::Prepared(outcome)) => match outcome {
            Err(e) => send_fails(ClientError::Group(e), after, action),
            Ok(message_id) => after == (SendSyncPhase::Waiting { message_id }) && action is Wait,
        },
        (SendSyncPhase::Waiting { message_id }, SendSyncEvent::Resolved(outcome)) => match outcome {
            Err(e) => send_fails(ClientError::Group(e), after, action),
            Ok(_) => after is Done && action == (SendSyncAction::Finish {
                result: Ok(message_id),
                announce: Some(SyncWorkerEvent::NewSyncGroupMsg),
            }),
        },
        _ => after == before && action is Ignore,
    }
}

fn send_fail(error: ClientError) -> (r: (SendSyncPhase, SendSyncAction))
    ensures
        send_fails(error, r.0, r.1),
{
    (SendSyncPhase::Done, SendSyncAction::Finish { result: Err(error), announce: None })
}

impl DeviceSyncClient {
    /// Begins to send a message to the other devices.
    pub fn send_device_sync_message(&self, content: SyncContent) -> (r: (SendSyncPhase, SendSyncAction))
        ensures
            begins_sending(content, r.0, r.1),
    {
        (SendSyncPhase::Getting { content }, SendSyncAction::GetGroup)
    }
}

/// Takes sending a message to the other devices one step further.
pub fn send_device_sync_message_step(phase: SendSyncPhase, event: SendSyncEvent) -> (r: (SendSyncPhase, SendSyncAction))
    ensures
        is_send_sync_step(phase, event, r.0, r.1),
{
    match (phase, event) {
        (SendSyncPhase::Getting { content }, SendSyncEvent::Got(outcome)) => match outcome {
            Err(e) => send_fail(ClientError::Group(e)),
            Ok(group) => (SendSyncPhase::Encoding { group }, SendSyncAction::Encode(content)),
        },
        (SendSyncPhase::Encoding { group }, SendSyncEvent::Encoded(outcome)) => match outcome {
            Err(text) => send_fail(ClientError::Generic(text)),
            Ok(content) => {
                let content_type = NamedContentType {
                    authority_id: "xmtp.org".to_owned(),
                    type_id: "application/x-protobuf".to_owned(),
                    version_major: 1,
                    version_minor: 0,
                };
                (
                    SendSyncPhase::Preparing,
                    SendSyncAction::Prepare { group, content_type, content, should_push: false },
                )
            },
        },
        (SendSyncPhase::Preparing, SendSyncEvent::Prepared(outcome)) => match outcome {
            Err(e) => send_fail(ClientError::Group(e)),
            Ok(message_id) => (SendSyncPhase::Waiting { message_id }, SendSyncAction::Wait),
        },
        (SendSyncPhase::Waiting { message_id }, SendSyncEvent::Resolved(outcome)) => match outcome {
            Err(e) => send_fail(ClientError::Group(e)),
            Ok(_) => (
                SendSyncPhase::Done,
                SendSyncAction::Finish {
                    result: Ok(message_id),
                    announce: Some(SyncWorkerEvent::NewSyncGroupMsg),
                },
            ),
        },
        (phase, _) => (phase, SendSyncAction::Ignore),
    }
}

/// How many groups take in a new device at the same time.
pub const CONCURRENT_SYNCS: usize = 10;

/// Which groups a new device is added to.
#[derive(Debug)]
pub struct GroupSelection {
    pub last_activity_after_ns: i64,
    pub consent_states: Vec<ConsentState>,
}

/// What adding a new device to groups waits for.
#[derive(Clone, Copy, Debug, PartialEq, Eq, Structural)]
pub enum NewDevicePhase {
    FindingGroups,
    /// An update of the members queued in each group.
    Queueing,
    /// The updates resolved.
    Syncing,
    Done,
}

/// What has happened outside.
#[derive(Debug)]
pub enum NewDeviceEvent {
    Found(Result<Vec<MlsGroup>, DeviceSyncError>),
    Queued(Result<Vec<StoredGroupIntent>, DeviceSyncError>),
    Synced(Result<(), DeviceSyncError>),
}

/// What is to be done next outside.
#[derive(Debug)]
pub enum NewDeviceAction {
    FindGroups(GroupSelection),
    /// Work out an update of the members of each group that adds and removes nobody, and queue it.
    QueueUpdates(Vec<MlsGroup>),
    /// Sync the group of each intent until the intent is resolved, several at the same time.
    SyncIntents { intents: Vec<StoredGroupIntent>, at_a_time: usize },
    Finish(Result<(), DeviceSyncError>),
    Ignore,
}

/// How adding a new device to groups begins.
pub open spec fn begins_adding(now_ns: i64, phase: NewDevicePhase, action: NewDeviceAction) -> bool {
    &&& phase == NewDevicePhase::FindingGroups
    &&& action matches NewDeviceAction::FindGroups(selection) && {
        &&& selection.last_activity_after_ns == now_ns - 90 * NS_IN_DAY
        &&& selection.consent_states@ == seq![ConsentState::Allowed, ConsentState::Unknown]
    }
}

/// The transitions of adding a new device to groups: each group is updated once.
pub open spec fn is_new_device_step(
    before: NewDevicePhase,
    event: NewDeviceEvent,
    after: NewDevicePhase,
    action: NewDeviceAction,
) -> bool {
    match (before, event) {
        (NewDevicePhase::FindingGroups, NewDeviceEvent::Found(outcome)) => match outcome {
            Err(e) => after == NewDevicePhase::Done && action == NewDeviceAction::Finish(Err(e)),
            Ok(found) => {
                &&& after == NewDevicePhase::Queueing
                &&& action matches NewDeviceAction::QueueUpdates(groups)
                &&& all_differ(groups@)
                &&& forall|i: int| 0 <= i < groups@.len() ==> found@.contains(#[trigger] groups@[i])
                &&& group_ids(groups@).to_set() == group_ids(found@).to_set()
            },
        },
        (NewDevicePhase::Queueing, NewDeviceEvent::Queued(outcome)) => match outcome {
            Err(e) => after == NewDevicePhase::Done && action == NewDeviceAction::Finish(Err(e)),
            Ok(intents) => {
                &&& after == NewDevicePhase::Syncing
                &&& action == (NewDeviceAction::SyncIntents { intents, at_a_time: CONCURRENT_SYNCS })
            },
        },
        (NewDevicePhase::Syncing, NewDeviceEvent::Synced(outcome)) => {
            after == NewDevicePhase::Done && action == NewDeviceAction::Finish(outcome)
        },
        _ => after == before && action is Ignore,
    }
}

impl DeviceSyncClient {
    /// Begins to add a new device to groups: to those of the last ninety days that the user did not deny.
    pub fn add_new_installation_to_groups(&self, now_ns: i64) -> (r: (NewDevicePhase, NewDeviceAction))
        requires
            now_ns >= i64::MIN + 90 * NS_IN_DAY,
        ensures
            begins_adding(now_ns, r.0, r.1),
    {
        let mut consent_states: Vec<ConsentState> = Vec::new();
        consent_states.push(ConsentState::Allowed);
        consent_states.push(ConsentState::Unknown);
        assert(consent_states@ =~= seq![ConsentState::Allowed, ConsentState::Unknown]);
        let selection = GroupSelection { last_activity_after_ns: now_ns - NS_IN_DAY * 90, consent_states };
        (NewDevicePhase::FindingGroups, NewDeviceAction::FindGroups(selection))
    }
}

/// Takes adding a new device to groups one step further.
pub fn add_new_installation_step(phase: NewDevicePhase, event: NewDeviceEvent) -> (r: (NewDevicePhase, NewDeviceAction))
    ensures
        is_new_device_step(phase, event, r.0, r.1),
{
    match (phase, event) {
        (NewDevicePhase::FindingGroups, NewDeviceEvent::Found(outcome)) => match outcome {
            Err(e) => (NewDevicePhase::Done, NewDeviceAction::Finish(Err(e))),
            Ok(found) => {
                let ghost all = found@;
                let groups = distinct_groups(found);
                assert(group_ids(groups@).to_set() =~= group_ids(all).to_set()) by {
                    assert forall|id: Seq<u8>| group_ids(groups@).to_set().contains(id) == group_ids(
                        all,
                    ).to_set().contains(id) by {
                        assert(group_ids(groups@).contains(id) == group_ids(all).contains(id));
                    }
                }
                (NewDevicePhase::Queueing, NewDeviceAction::QueueUpdates(groups))
            },
        },
        (NewDevicePhase::Queueing, NewDeviceEvent::Queued(outcome)) => match outcome {
            Err(e) => (NewDevicePhase::Done, NewDeviceAction::Finish(Err(e))),
            Ok(intents) => (
                NewDevicePhase::Syncing,
                NewDeviceAction::SyncIntents { intents, at_a_time: CONCURRENT_SYNCS },
            ),
        },
        (NewDevicePhase::Syncing, NewDeviceEvent::Synced(outcome)) => (
            NewDevicePhase::Done,
            NewDeviceAction::Finish(outcome),
        ),
        (phase, _) => (phase, NewDeviceAction::Ignore),
    }
}

/// The ids of groups.
pub open spec fn group_ids(groups: Seq<MlsGroup>) -> Seq<Seq<u8>> {
    groups.map_values(|g: MlsGroup| g.group_id@)
}

/// Whether no group stands twice in a list.
pub open spec fn all_differ(groups: Seq<MlsGroup>) -> bool {
    forall|i: int, j: int|
        0 <= i < j < groups.len() ==> (#[trigger] groups[i]).group_id@ != (#[trigger] groups[j]).group_id@
}

fn contains_group(groups: &Vec<MlsGroup>, wanted: &MlsGroup) -> (r: bool)
    ensures
        r == (exists|i: int| 0 <= i < groups@.len() && (#[trigger] groups@[i]).group_id@ == wanted.group_id@),
{
    let mut i: usize = 0;
    while i < groups.len()
        invariant
            i <= groups@.len(),
            forall|j: int| 0 <= j < i ==> (#[trigger] groups@[j]).group_id@ != wanted.group_id@,
        decreases groups@.len() - i,
    {
        if groups[i].is_same_group(wanted) {
            return true;
        }
        i += 1;
    }
    false
}

/// Each group of a list once.
pub fn distinct_groups(groups: Vec<MlsGroup>) -> (r: Vec<MlsGroup>)
    ensures
        all_differ(r@),
        forall|i: int| 0 <= i < r@.len() ==> groups@.contains(#[trigger] r@[i]),
        forall|id: Seq<u8>| group_ids(r@).contains(id) == #[trigger] group_ids(groups@).contains(id),
{
    let ghost all = groups@;
    let mut rest = groups;
    let mut out: Vec<MlsGroup> = Vec::new();
    let total: usize = rest.len();
    let mut i: usize = 0;
    assert(all.skip(0) =~= all);
    assert(group_ids(all.take(0)) =~= group_ids(out@));
    while i < total
        invariant
            i <= total,
            total == all.len(),
            rest@ == all.skip(i as int),
            all_differ(out@),
            forall|j: int| 0 <= j < out@.len() ==> all.contains(#[trigger] out@[j]),
            forall|id: Seq<u8>|
                group_ids(out@).contains(id) == #[trigger] group_ids(all.take(i as int)).contains(id),
        decreases total - i,
    {
        let next = rest.remove(0);
        assert(next == all[i as int]);
        assert(rest@ =~= all.skip(i + 1));
        let ghost before = out@;
        let ghost next_id = next.group_id@;
        let known: bool = contains_group(&out, &next);
        if !known {
            out.push(next);
        }
        proof {
            let shorter = group_ids(all.take(i as int));
            let longer = group_ids(all.take(i + 1));
            assert(longer =~= shorter.push(next_id));
            if !known {
                assert(group_ids(out@) =~= group_ids(before).push(next_id));
            }
            assert forall|id: Seq<u8>| group_ids(out@).contains(id) == #[trigger] longer.contains(id) by {
                vstd::seq_lib::lemma_seq_contains_after_push(shorter, next_id, id);
                vstd::seq_lib::lemma_seq_contains_after_push(group_ids(before), next_id, id);
                assert(group_ids(before).contains(id) == shorter.contains(id));
                if known {
                    let k = choose|k: int| 0 <= k < before.len() && (#[trigger] before[k]).group_id@ == next_id;
                    assert(group_ids(before)[k] == next_id);
                }
            }
        }
        i += 1;
    }
    assert(all.take(i as int) =~= all);
    out
}

/// The group between devices that is stored is loaded and handed out, and nothing is created or counted.
pub proof fn a_stored_sync_group_is_loaded(
    row: StoredGroup,
    outcome: Result<MlsGroup, GroupError>,
    phases: Seq<SyncGroupPhase>,
    actions: Seq<SyncGroupAction>,
)
    requires
        phases.len() == 3,
        actions.len() == 3,
        begins_getting(phases[0], actions[0]),
        is_sync_group_step(phases[0], SyncGroupEvent::Found(Ok(Some(row))), phases[1], actions[1]),
        is_sync_group_step(phases[1], SyncGroupEvent::Got(outcome), phases[2], actions[2]),
    ensures
        actions[0] is LookUp,
        actions[1] == (SyncGroupAction::Load { group_id: row.id }),
        actions[2] == (SyncGroupAction::Finish { result: outcome, metric: None }),
{
}

/// Where there is no group between devices yet, one for the client's own traffic is created, the other devices are added
/// to it, and it is synced; only then is it handed out and counted.
pub proof fn a_missing_sync_group_is_created(
    group: MlsGroup,
    summary: SyncSummary,
    phases: Seq<SyncGroupPhase>,
    actions: Seq<SyncGroupAction>,
)
    requires
        phases.len() == 5,
        actions.len() == 5,
        begins_getting(phases[0], actions[0]),
        is_sync_group_step(phases[0], SyncGroupEvent::Found(Ok(None)), phases[1], actions[1]),
        is_sync_group_step(phases[1], SyncGroupEvent::Got(Ok(group)), phases[2], actions[2]),
        is_sync_group_step(phases[2], SyncGroupEvent::DevicesAdded(Ok(())), phases[3], actions[3]),
        is_sync_group_step(phases[3], SyncGroupEvent::Synced(Ok(summary)), phases[4], actions[4]),
    ensures
        actions[1] == (SyncGroupAction::Create { conversation_type: ConversationType::Sync }),
        actions[2] is AddDevices,
        actions[3] is Sync,
        actions[4] == (SyncGroupAction::Finish { result: Ok(group), metric: Some(SyncMetric::SyncGroupCreated) }),
{
}

/// The first failure ends getting the group between devices and is what is reported; nothing is counted.
pub proof fn getting_a_sync_group_fails_as_its_steps_do(
    before: SyncGroupPhase,
    event: SyncGroupEvent,
    after: SyncGroupPhase,
    action: SyncGroupAction,
)
    requires
        is_sync_group_step(before, event, after, action),
        action !is Ignore,
    ensures
        event matches SyncGroupEvent::Found(Err(e)) ==> action == (SyncGroupAction::Finish {
            result: Err(e),
            metric: None,
        }),
        event matches SyncGroupEvent::Got(Err(e)) ==> action == (SyncGroupAction::Finish { result: Err(e), metric: None }),
        event matches SyncGroupEvent::DevicesAdded(Err(e)) ==> action == (SyncGroupAction::Finish {
            result: Err(e),
            metric: None,
        }),
        event matches SyncGroupEvent::Synced(Err(summary)) ==> (action matches SyncGroupAction::Finish {
            result: Err(GroupError::Sync(given)),
            metric: None,
        } && *given == summary),
        action matches SyncGroupAction::Finish { result: Ok(_), metric: _ } ==> before is Loading || before is Syncing,
{
}

/// A message to the other devices goes into the group between them, encoded, under its own content type and without a push.
/// Its id is the result once it is sent, and only then is the worker told.
pub proof fn device_messages_are_sent_to_the_group(
    content: SyncContent,
    group: MlsGroup,
    encoded: Vec<u8>,
    message_id: Vec<u8>,
    summary: SyncSummary,
    phases: Seq<SendSyncPhase>,
    actions: Seq<SendSyncAction>,
)
    requires
        phases.len() == 5,
        actions.len() == 5,
        begins_sending(content, phases[0], actions[0]),
        is_send_sync_step(phases[0], SendSyncEvent::Got(Ok(group)), phases[1], actions[1]),
        is_send_sync_step(phases[1], SendSyncEvent::Encoded(Ok(encoded)), phases[2], actions[2]),
        is_send_sync_step(phases[2], SendSyncEvent::Prepared(Ok(message_id)), phases[3], actions[3]),
        is_send_sync_step(phases[3], SendSyncEvent::Resolved(Ok(summary)), phases[4], actions[4]),
    ensures
        actions[0] is GetGroup,
        actions[1] == SendSyncAction::Encode(content),
        actions[2] matches SendSyncAction::Prepare { group: g, content_type, content: bytes, should_push } && g == group
            && bytes == encoded && !should_push && content_type.authority_id@ == "xmtp.org"@ && content_type.type_id@
            == "application/x-protobuf"@ && content_type.version_major == 1 && content_type.version_minor == 0,
        actions[3] is Wait,
        actions[4] == (SendSyncAction::Finish {
            result: Ok(message_id),
            announce: Some(SyncWorkerEvent::NewSyncGroupMsg),
        }),
{
}

/// The first failure ends sending a message to the other devices, is what is reported, and the worker is told nothing.
pub proof fn device_messages_fail_as_their_steps_do(
    before: SendSyncPhase,
    event: SendSyncEvent,
    after: SendSyncPhase,
    action: SendSyncAction,
)
    requires
        is_send_sync_step(before, event, after, action),
        action !is Ignore,
    ensures
        event matches SendSyncEvent::Got(Err(e)) ==> action == (SendSyncAction::Finish {
            result: Err(ClientError::Group(e)),
            announce: None,
        }),
        event matches SendSyncEvent::Encoded(Err(text)) ==> action == (SendSyncAction::Finish {
            result: Err(ClientError::Generic(text)),
            announce: None,
        }),
        event matches SendSyncEvent::Prepared(Err(e)) ==> action == (SendSyncAction::Finish {
            result: Err(ClientError::Group(e)),
            announce: None,
        }),
        event matches SendSyncEvent::Resolved(Err(e)) ==> action == (SendSyncAction::Finish {
            result: Err(ClientError::Group(e)),
            announce: None,
        }),
        action matches SendSyncAction::Finish { result: Ok(_), announce: _ } ==> before is Waiting,
{
}

/// A new device is added to the groups of the last ninety days that the user did not deny. Every one of them that is found
/// gets one update, however often it is found, and all updates that were queued are synced, ten at a time.
pub proof fn new_devices_are_added_to_every_group(
    now_ns: i64,
    found: Vec<MlsGroup>,
    intents: Vec<StoredGroupIntent>,
    outcome: Result<(), DeviceSyncError>,
    phases: Seq<NewDevicePhase>,
    actions: Seq<NewDeviceAction>,
    i: int,
    j: int,
)
    requires
        phases.len() == 4,
        actions.len() == 4,
        begins_adding(now_ns, phases[0], actions[0]),
        is_new_device_step(phases[0], NewDeviceEvent::Found(Ok(found)), phases[1], actions[1]),
        is_new_device_step(phases[1], NewDeviceEvent::Queued(Ok(intents)), phases[2], actions[2]),
        is_new_device_step(phases[2], NewDeviceEvent::Synced(outcome), phases[3], actions[3]),
    ensures
        actions[0] matches NewDeviceAction::FindGroups(selection) && {
            &&& selection.last_activity_after_ns == now_ns - 90 * 24 * 3600 * 1_000_000_000
            &&& selection.consent_states@.contains(ConsentState::Allowed)
            &&& selection.consent_states@.contains(ConsentState::Unknown)
            &&& !selection.consent_states@.contains(ConsentState::Denied)
        },
        actions[1] matches NewDeviceAction::QueueUpdates(groups) && {
            &&& 0 <= i < found@.len() ==> group_ids(groups@).contains(found@[i].group_id@)
            &&& 0 <= i < groups@.len() ==> found@.contains(groups@[i])
            &&& 0 <= i < j < groups@.len() ==> groups@[i].group_id@ != groups@[j].group_id@
        },
        actions[2] == (NewDeviceAction::SyncIntents { intents, at_a_time: 10 }),
        actions[3] == NewDeviceAction::Finish(outcome),
{
    if let NewDeviceAction::FindGroups(selection) = actions[0] {
        assert(selection.consent_states@[0] == ConsentState::Allowed);
        assert(selection.consent_states@[1] == ConsentState::Unknown);
    }
    if let NewDeviceAction::QueueUpdates(groups) = actions[1] {
        if 0 <= i < found@.len() {
            assert(group_ids(found@)[i] == found@[i].group_id@);
            assert(group_ids(found@).to_set().contains(found@[i].group_id@));
            assert(group_ids(groups@).to_set().contains(found@[i].group_id@));
        }
    }
}

/// The first failure ends adding a new device and is what is reported.
pub proof fn adding_a_device_fails_as_its_steps_do(
    before: NewDevicePhase,
    event: NewDeviceEvent,
    after: NewDevicePhase,
    action: NewDeviceAction,
)
    requires
        is_new_device_step(before, event, after, action),
        action !is Ignore,
    ensures
        event matches NewDeviceEvent::Found(Err(e)) ==> action == NewDeviceAction::Finish(Err(e)),
        event matches NewDeviceEvent::Queued(Err(e)) ==> action == NewDeviceAction::Finish(Err(e)),
        event matches NewDeviceEvent::Synced(Err(e)) ==> action == NewDeviceAction::Finish(Err(e)),
        action matches NewDeviceAction::Finish(Ok(_)) ==> (event matches NewDeviceEvent::Synced(Ok(_))),
{
}

/// Getting the group between devices ends once, and what does not fit the step that it waits for changes nothing.
pub proof fn a_group_is_got_once(
    before: SyncGroupPhase,
    event: SyncGroupEvent,
    after: SyncGroupPhase,
    action: SyncGroupAction,
)
    requires
        is_sync_group_step(before, event, after, action),
    ensures
        before is Done ==> action is Ignore,
        action is Ignore ==> after == before,
{
}

/// A message that was sent asks for nothing more, and what does not fit the step that is waited for changes nothing.
pub proof fn sent_messages_stay_sent(
    before: SendSyncPhase,
    event: SendSyncEvent,
    after: SendSyncPhase,
    action: SendSyncAction,
)
    requires
        is_send_sync_step(before, event, after, action),
    ensures
        before is Done ==> action is Ignore,
        action is Ignore ==> after == before,
{
}

/// Adding a new device ends once, and what does not fit the step that it waits for changes nothing.
pub proof fn added_devices_stay_added(
    before: NewDevicePhase,
    event: NewDeviceEvent,
    after: NewDevicePhase,
    action: NewDeviceAction,
)
    requires
        is_new_device_step(before, event, after, action),
    ensures
        before is Done ==> action is Ignore,
        action is Ignore ==> after == before,
{
}

} // verus!
