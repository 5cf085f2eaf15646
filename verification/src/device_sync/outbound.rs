//! Sending an archive to another device, and asking for one.

use vstd::prelude::*;
use crate::device_sync::client::DeviceSyncClient;
use vstd::string::*;
use crate::device_sync::content::{DeviceSyncReply, DeviceSyncRequest};
use crate::device_sync::error::{ClientError, DeviceSyncError};
use crate::device_sync::lifecycle::SyncMetric;
use crate::groups::error::GroupError;
use crate::groups::summary::SyncSummary;

verus! {

/// What an archive can hold.
#[derive(Clone, Copy, Debug, PartialEq, Eq, Structural)]
pub enum BackupElementSelection {
    Messages,
    Consent,
    Event,
}

/// Whether a reply tells of an archive: `response` is what the server called it.
pub open spec fn is_reply(
    reply: DeviceSyncReply,
    server_url: Seq<char>,
    response: Seq<char>,
    pin: String,
    key: Vec<u8>,
    metadata: Vec<u8>,
) -> bool {
    &&& reply.request_id == pin
    &&& reply.url@ == server_url + "/files/"@ + response
    &&& reply.encryption_key == Some(key)
    &&& reply.metadata == Some(metadata)
    &&& !reply.has_kind
}

/// What is counted once an archive is sent.
pub open spec fn counted(elements: Seq<BackupElementSelection>) -> Seq<SyncMetric> {
    let consent = if elements.contains(BackupElementSelection::Consent) {
        seq![SyncMetric::ConsentPayloadSent]
    } else {
        seq![]
    };
    let messages = if elements.contains(BackupElementSelection::Messages) {
        seq![SyncMetric::MessagesPayloadSent]
    } else {
        seq![]
    };
    consent + messages + seq![SyncMetric::PayloadSent]
}

fn contains_element(elements: &Vec<BackupElementSelection>, wanted: BackupElementSelection) -> (r: bool)
    ensures
        r == elements@.contains(wanted),
{
    let mut i: usize = 0;
    while i < elements.len()
        invariant
            i <= elements@.len(),
            forall|j: int| 0 <= j < i ==> elements@[j] != wanted,
        decreases elements@.len() - i,
    {
        if elements[i] == wanted {
            assert(elements@[i as int] == wanted);
            return true;
        }
        i += 1;
    }
    false
}

/// What is counted once an archive is sent.
fn archive_metrics(elements: &Vec<BackupElementSelection>) -> (r: Vec<SyncMetric>)
    ensures
        r@ == counted(elements@),
{
    let mut metrics: Vec<SyncMetric> = Vec::new();
    if contains_element(elements, BackupElementSelection::Consent) {
        metrics.push(SyncMetric::ConsentPayloadSent);
    }
    if contains_element(elements, BackupElementSelection::Messages) {
        metrics.push(SyncMetric::MessagesPayloadSent);
    }
    metrics.push(SyncMetric::PayloadSent);
    assert(metrics@ =~= counted(elements@));
    metrics
}

/// What sending an archive waits for.
#[derive(Debug)]
pub enum ArchiveSendPhase {
    /// The archive uploaded.
    Uploading {
        elements: Vec<BackupElementSelection>,
        pin: String,
        server_url: String,
        key: Vec<u8>,
        metadata: Vec<u8>,
    },
    /// The reply sent to the other devices.
    Replying { elements: Vec<BackupElementSelection> },
    Done,
}

/// What has happened outside.
#[derive(Debug)]
pub enum ArchiveSendEvent {
    /// The archive was uploaded; what the server called it.
    Uploaded(Result<String, DeviceSyncError>),
    Sent(Result<(), DeviceSyncError>),
}

/// What is to be done next outside.
#[derive(Debug)]
pub enum ArchiveSendAction {
    Upload { url: String },
    Send(DeviceSyncReply),
    Finish { result: Result<(), DeviceSyncError>, metrics: Vec<SyncMetric> },
    Ignore,
}

/// How sending an archive begins.
pub open spec fn begins_archive_send(
    elements: Vec<BackupElementSelection>,
    pin: String,
    server_url: String,
    key: Vec<u8>,
    metadata: Vec<u8>,
    phase: ArchiveSendPhase,
    action: ArchiveSendAction,
) -> bool {
    &&& phase == (ArchiveSendPhase::Uploading { elements, pin, server_url, key, metadata })
    &&& action matches ArchiveSendAction::Upload { url } && url@ == server_url@ + "/upload"@
}

/// The transitions of sending an archive. It is counted once the other devices were told of it.
pub open spec fn is_archive_send_step(
    before: ArchiveSendPhase,
    event: ArchiveSendEvent,
    after: ArchiveSendPhase,
    action: ArchiveSendAction,
) -> bool {
    match (before, event) {
        (
            ArchiveSendPhase::Uploading { elements, pin, server_url, key, metadata },
            ArchiveSendEvent::Uploaded(outcome),
        ) => match outcome {
            Err(e) => {
                &&& after is Done
                &&& action matches ArchiveSendAction::Finish { result, metrics }
                &&& result == Err::<(), _>(e)
                &&& metrics@.len() == 0
            },
            Ok(response) => {
                &&& after == (ArchiveSendPhase::Replying { elements })
                &&& action matches ArchiveSendAction::Send(reply)
                &&& is_reply(reply, server_url@, response@, pin, key, metadata)
            },
        },
        (ArchiveSendPhase::Replying { elements }, ArchiveSendEvent::Sent(outcome)) => {
            &&& after is Done
            &&& action matches ArchiveSendAction::Finish { result, metrics }
            &&& result == outcome
            &&& metrics@ == (if outcome is Ok {
                counted(elements@)
            } else {
                seq![]
            })
        },
        _ => after == before && action is Ignore,
    }
}

impl DeviceSyncClient {
    /// Begins to send an archive of some elements to the other devices, encrypted with a fresh key.
    pub fn send_archive(
        &self,
        elements: Vec<BackupElementSelection>,
        pin: String,
        server_url: String,
        key: Vec<u8>,
        metadata: Vec<u8>,
    ) -> (r: (ArchiveSendPhase, ArchiveSendAction))
        ensures
            begins_archive_send(elements, pin, server_url, key, metadata, r.0, r.1),
    {
        let mut url: String = server_url.as_str().to_owned();
        url.append("/upload");
        (
            ArchiveSendPhase::Uploading { elements, pin, server_url, key, metadata },
            ArchiveSendAction::Upload { url },
        )
    }
}

/// Takes sending an archive one step further.
pub fn send_archive_step(phase: ArchiveSendPhase, event: ArchiveSendEvent) -> (r: (ArchiveSendPhase, ArchiveSendAction))
    ensures
        is_archive_send_step(phase, event, r.0, r.1),
{
    match (phase, event) {
        (
            ArchiveSendPhase::Uploading { elements, pin, server_url, key, metadata },
            ArchiveSendEvent::Uploaded(outcome),
        ) => match outcome {
            Err(e) => (
                ArchiveSendPhase::Done,
                ArchiveSendAction::Finish { result: Err(e), metrics: Vec::new() },
            ),
            Ok(response) => {
                let mut url: String = server_url.as_str().to_owned();
                url.append("/files/");
                url.append(response.as_str());
                let reply = DeviceSyncReply {
                    request_id: pin,
                    url,
                    encryption_key: Some(key),
                    metadata: Some(metadata),
                    has_kind: false,
                };
                (ArchiveSendPhase::Replying { elements }, ArchiveSendAction::Send(reply))
            },
        },
        (ArchiveSendPhase::Replying { elements }, ArchiveSendEvent::Sent(outcome)) => {
            let metrics: Vec<SyncMetric> = if outcome.is_ok() {
                archive_metrics(&elements)
            } else {
                Vec::new()
            };
            assert(outcome is Err ==> metrics@ =~= seq![]);
            (ArchiveSendPhase::Done, ArchiveSendAction::Finish { result: outcome, metrics })
        },
        (phase, _) => (phase, ArchiveSendAction::Ignore),
    }
}

/// What asking for an archive, or sending one unasked, waits for.
#[derive(Debug)]
pub enum OutboundPhase<T> {
    /// The group between devices, and a pass over it.
    Getting { payload: T },
    Syncing { payload: T },
    /// The request or the archive sent.
    Sending,
    Done,
}

/// What has happened outside.
#[derive(Debug)]
pub enum OutboundEvent<E> {
    Got(Result<(), GroupError>),
    Synced(Result<SyncSummary, SyncSummary>),
    Sent(Result<(), E>),
}

/// What is to be done next outside.
#[derive(Debug)]
pub enum OutboundAction<T> {
    GetGroup,
    Sync,
    Send(T),
    Finish { result: Result<(), ClientError>, metric: Option<SyncMetric> },
    Ignore,
}

/// Whether an outcome ends the sending.
pub open spec fn outbound_ends<T>(
    result: Result<(), ClientError>,
    metric: Option<SyncMetric>,
    after: OutboundPhase<T>,
    action: OutboundAction<T>,
) -> bool {
    after is Done && action == (OutboundAction::<T>::Finish { result, metric })
}

/// The steps that asking for an archive and sending one unasked have in common: the group between
/// devices is brought up to date first.
pub open spec fn is_common_step<T, E>(
    before: OutboundPhase<T>,
    event: OutboundEvent<E>,
    after: OutboundPhase<T>,
    action: OutboundAction<T>,
) -> bool {
    match (before, event) {
        (OutboundPhase::Getting { payload }, OutboundEvent::Got(outcome)) => match outcome {
            Err(e) => outbound_ends(Err(ClientError::Group(e)), None, after, action),
            Ok(_) => after == (OutboundPhase::Syncing { payload }) && action is Sync,
        },
        (OutboundPhase::Syncing { payload }, OutboundEvent::Synced(outcome)) => match outcome {
            Err(summary) => outbound_ends(
                Err(ClientError::Group(GroupError::Sync(Box::new(summary)))),
                None,
                after,
                action,
            ),
            Ok(_) => after is Sending && action == OutboundAction::Send(payload),
        },
        _ => after == before && action is Ignore,
    }
}

fn common_step<T, E>(phase: OutboundPhase<T>, event: OutboundEvent<E>) -> (r: (OutboundPhase<T>, OutboundAction<T>))
    ensures
        is_common_step(phase, event, r.0, r.1),
{
    match (phase, event) {
        (OutboundPhase::Getting { payload }, OutboundEvent::Got(outcome)) => match outcome {
            Err(e) => (
                OutboundPhase::Done,
                OutboundAction::Finish { result: Err(ClientError::Group(e)), metric: None },
            ),
            Ok(_) => (OutboundPhase::Syncing { payload }, OutboundAction::Sync),
        },
        (OutboundPhase::Syncing { payload }, OutboundEvent::Synced(outcome)) => match outcome {
            Err(summary) => (
                OutboundPhase::Done,
                OutboundAction::Finish {
                    result: Err(ClientError::Group(GroupError::Sync(Box::new(summary)))),
                    metric: None,
                },
            ),
            Ok(_) => (OutboundPhase::Sending, OutboundAction::Send(payload)),
        },
        (phase, _) => (phase, OutboundAction::Ignore),
    }
}

/// How asking for an archive begins.
pub open spec fn begins_request(
    pin: String,
    options: Vec<u8>,
    server_url: String,
    phase: OutboundPhase<DeviceSyncRequest>,
    action: OutboundAction<DeviceSyncRequest>,
) -> bool {
    &&& phase == (OutboundPhase::Getting { payload: DeviceSyncRequest { pin, options: Some(options), server_url } })
    &&& action is GetGroup
}

/// The transitions of asking for an archive. A request is counted once it is sent.
pub open spec fn is_request_step(
    before: OutboundPhase<DeviceSyncRequest>,
    event: OutboundEvent<ClientError>,
    after: OutboundPhase<DeviceSyncRequest>,
    action: OutboundAction<DeviceSyncRequest>,
) -> bool {
    match (before, event) {
        (OutboundPhase::Sending, OutboundEvent::Sent(outcome)) => match outcome {
            Err(e) => outbound_ends(Err(e), None, after, action),
            Ok(_) => outbound_ends(Ok(()), Some(SyncMetric::RequestSent), after, action),
        },
        _ => is_common_step(before, event, after, action),
    }
}

impl DeviceSyncClient {
    /// Begins to ask the other devices for an archive, under a fresh pin.
    pub fn send_sync_request(&self, pin: String, options: Vec<u8>, server_url: String) -> (r: (
        OutboundPhase<DeviceSyncRequest>,
        OutboundAction<DeviceSyncRequest>,
    ))
        ensures
            begins_request(pin, options, server_url, r.0, r.1),
    {
        (
            OutboundPhase::Getting { payload: DeviceSyncRequest { pin, options: Some(options), server_url } },
            OutboundAction::GetGroup,
        )
    }
}

/// Takes asking for an archive one step further.
pub fn send_sync_request_step(phase: OutboundPhase<DeviceSyncRequest>, event: OutboundEvent<ClientError>) -> (r: (
    OutboundPhase<DeviceSyncRequest>,
    OutboundAction<DeviceSyncRequest>,
))
    ensures
        is_request_step(phase, event, r.0, r.1),
{
    match (phase, event) {
        (OutboundPhase::Sending, OutboundEvent::Sent(outcome)) => match outcome {
            Err(e) => (OutboundPhase::Done, OutboundAction::Finish { result: Err(e), metric: None }),
            Ok(_) => (
                OutboundPhase::Done,
                OutboundAction::Finish { result: Ok(()), metric: Some(SyncMetric::RequestSent) },
            ),
        },
        (phase, event) => common_step(phase, event),
    }
}

/// An archive that is sent unasked.
#[derive(Debug)]
pub struct ArchiveOrder {
    /// What the archive should hold, as it is encoded.
    pub options: Vec<u8>,
    pub server_url: String,
    pub pin: String,
}

/// How sending an archive unasked begins.
pub open spec fn begins_order(
    options: Vec<u8>,
    server_url: String,
    pin: String,
    phase: OutboundPhase<ArchiveOrder>,
    action: OutboundAction<ArchiveOrder>,
) -> bool {
    &&& phase == (OutboundPhase::Getting { payload: ArchiveOrder { options, server_url, pin } })
    &&& action is GetGroup
}

/// The transitions of sending an archive unasked.
pub open spec fn is_order_step(
    before: OutboundPhase<ArchiveOrder>,
    event: OutboundEvent<DeviceSyncError>,
    after: OutboundPhase<ArchiveOrder>,
    action: OutboundAction<ArchiveOrder>,
) -> bool {
    match (before, event) {
        (OutboundPhase::Sending, OutboundEvent::Sent(outcome)) => match outcome {
            Err(e) => outbound_ends(
                Err(ClientError::Group(GroupError::DeviceSync(Box::new(e)))),
                None,
                after,
                action,
            ),
            Ok(_) => outbound_ends(Ok(()), None, after, action),
        },
        _ => is_common_step(before, event, after, action),
    }
}

impl DeviceSyncClient {
    /// Begins to send an archive to the other devices unasked.
    pub fn send_sync_archive(&self, options: Vec<u8>, server_url: String, pin: String) -> (r: (
        OutboundPhase<ArchiveOrder>,
        OutboundAction<ArchiveOrder>,
    ))
        ensures
            begins_order(options, server_url, pin, r.0, r.1),
    {
        (
            OutboundPhase::Getting { payload: ArchiveOrder { options, server_url, pin } },
            OutboundAction::GetGroup,
        )
    }
}

/// Takes sending an archive unasked one step further.
pub fn send_sync_archive_step(phase: OutboundPhase<ArchiveOrder>, event: OutboundEvent<DeviceSyncError>) -> (r: (
    OutboundPhase<ArchiveOrder>,
    OutboundAction<ArchiveOrder>,
))
    ensures
        is_order_step(phase, event, r.0, r.1),
{
    match (phase, event) {
        (OutboundPhase::Sending, OutboundEvent::Sent(outcome)) => match outcome {
            Err(e) => (
                OutboundPhase::Done,
                OutboundAction::Finish {
                    result: Err(ClientError::Group(GroupError::DeviceSync(Box::new(e)))),
                    metric: None,
                },
            ),
            Ok(_) => (OutboundPhase::Done, OutboundAction::Finish { result: Ok(()), metric: None }),
        },
        (phase, event) => common_step(phase, event),
    }
}

/// An archive is uploaded to the server, and the other devices are told where it lies, under the pin that was asked for and
/// with the key that opens it. Only once they were told is it counted, and what is counted is what it holds.
pub proof fn archives_are_uploaded_and_announced(
    elements: Vec<BackupElementSelection>,
    pin: String,
    server_url: String,
    key: Vec<u8>,
    metadata: Vec<u8>,
    response: String,
    outcome: Result<(), DeviceSyncError>,
    phases: Seq<ArchiveSendPhase>,
    actions: Seq<ArchiveSendAction>,
)
    requires
        phases.len() == 3,
        actions.len() == 3,
        begins_archive_send(elements, pin, server_url, key, metadata, phases[0], actions[0]),
        is_archive_send_step(phases[0], ArchiveSendEvent::Uploaded(Ok(response)), phases[1], actions[1]),
        is_archive_send_step(phases[1], ArchiveSendEvent::Sent(outcome), phases[2], actions[2]),
    ensures
        actions[0] matches ArchiveSendAction::Upload { url } && url@ == server_url@ + "/upload"@,
        actions[1] matches ArchiveSendAction::Send(reply) && {
            &&& reply.request_id == pin
            &&& reply.url@ == server_url@ + "/files/"@ + response@
            &&& reply.encryption_key == Some(key)
            &&& reply.metadata == Some(metadata)
            &&& !reply.has_kind
        },
        actions[2] matches ArchiveSendAction::Finish { result, metrics } && {
            &&& result == outcome
            &&& outcome is Err ==> metrics@.len() == 0
            &&& outcome is Ok ==> metrics@.contains(SyncMetric::PayloadSent)
            &&& outcome is Ok ==> metrics@.contains(SyncMetric::ConsentPayloadSent) == elements@.contains(
                BackupElementSelection::Consent,
            )
            &&& outcome is Ok ==> metrics@.contains(SyncMetric::MessagesPayloadSent) == elements@.contains(
                BackupElementSelection::Messages,
            )
        },
{
    lemma_counted(elements@);
}

proof fn lemma_counted(elements: Seq<BackupElementSelection>)
    ensures
        counted(elements).contains(SyncMetric::PayloadSent),
        counted(elements).contains(SyncMetric::ConsentPayloadSent) == elements.contains(BackupElementSelection::Consent),
        counted(elements).contains(SyncMetric::MessagesPayloadSent) == elements.contains(
            BackupElementSelection::Messages,
        ),
{
    let all = counted(elements);
    let has_consent = elements.contains(BackupElementSelection::Consent);
    let has_messages = elements.contains(BackupElementSelection::Messages);
    assert(all[all.len() - 1] == SyncMetric::PayloadSent);
    if has_consent {
        assert(all[0] == SyncMetric::ConsentPayloadSent);
    }
    if has_messages {
        assert(all[all.len() - 2] == SyncMetric::MessagesPayloadSent);
    }
    assert(all.len() <= 3);
}

/// An archive that could not be uploaded is not announced, and not counted.
pub proof fn failed_uploads_are_not_announced(
    before: ArchiveSendPhase,
    error: DeviceSyncError,
    after: ArchiveSendPhase,
    action: ArchiveSendAction,
)
    requires
        before is Uploading,
        is_archive_send_step(before, ArchiveSendEvent::Uploaded(Err(error)), after, action),
    ensures
        action matches ArchiveSendAction::Finish { result, metrics } && result == Err::<(), _>(error) && metrics@.len()
            == 0,
        after is Done,
{
}

/// A request for an archive goes out as it was made, after the group between devices was brought up to date, and is counted
/// once it is sent.
pub proof fn archives_are_requested(
    pin: String,
    options: Vec<u8>,
    server_url: String,
    summary: SyncSummary,
    phases: Seq<OutboundPhase<DeviceSyncRequest>>,
    actions: Seq<OutboundAction<DeviceSyncRequest>>,
)
    requires
        phases.len() == 4,
        actions.len() == 4,
        begins_request(pin, options, server_url, phases[0], actions[0]),
        is_request_step(phases[0], OutboundEvent::Got(Ok(())), phases[1], actions[1]),
        is_request_step(phases[1], OutboundEvent::Synced(Ok(summary)), phases[2], actions[2]),
        is_request_step(phases[2], OutboundEvent::Sent(Ok(())), phases[3], actions[3]),
    ensures
        actions[0] is GetGroup,
        actions[1] is Sync,
        actions[2] matches OutboundAction::Send(request) && request.pin == pin && request.options == Some(options)
            && request.server_url == server_url,
        actions[3] matches OutboundAction::Finish { result: Ok(_), metric } && metric == Some(SyncMetric::RequestSent),
{
}

/// An archive that is sent unasked goes out as it was ordered, after the group between devices was brought up to date, and
/// no request is counted for it.
pub proof fn archives_are_sent_unasked(
    options: Vec<u8>,
    server_url: String,
    pin: String,
    summary: SyncSummary,
    phases: Seq<OutboundPhase<ArchiveOrder>>,
    actions: Seq<OutboundAction<ArchiveOrder>>,
)
    requires
        phases.len() == 4,
        actions.len() == 4,
        begins_order(options, server_url, pin, phases[0], actions[0]),
        is_order_step(phases[0], OutboundEvent::Got(Ok(())), phases[1], actions[1]),
        is_order_step(phases[1], OutboundEvent::Synced(Ok(summary)), phases[2], actions[2]),
        is_order_step(phases[2], OutboundEvent::Sent(Ok(())), phases[3], actions[3]),
    ensures
        actions[0] is GetGroup,
        actions[1] is Sync,
        actions[2] == OutboundAction::Send((ArchiveOrder { options, server_url, pin })),
        actions[3] matches OutboundAction::Finish { result: Ok(_), metric } && metric is None,
{
}

/// The first failure ends a request or an order and is what is reported; nothing is counted then.
pub proof fn outbound_fails_as_its_steps_do(
    request: OutboundPhase<DeviceSyncRequest>,
    request_event: OutboundEvent<ClientError>,
    request_after: OutboundPhase<DeviceSyncRequest>,
    request_action: OutboundAction<DeviceSyncRequest>,
    order: OutboundPhase<ArchiveOrder>,
    order_event: OutboundEvent<DeviceSyncError>,
    order_after: OutboundPhase<ArchiveOrder>,
    order_action: OutboundAction<ArchiveOrder>,
)
    requires
        is_request_step(request, request_event, request_after, request_action),
        is_order_step(order, order_event, order_after, order_action),
        request_action !is Ignore,
        order_action !is Ignore,
    ensures
        request_event matches OutboundEvent::Got(Err(e)) ==> (request_action matches OutboundAction::Finish {
            result: Err(ClientError::Group(given)),
            metric: None,
        } && given == e),
        request_event matches OutboundEvent::Synced(Err(summary)) ==> (request_action matches OutboundAction::Finish {
            result: Err(ClientError::Group(GroupError::Sync(given))),
            metric: None,
        } && *given == summary),
        request_event matches OutboundEvent::Sent(Err(e)) ==> (request_action matches OutboundAction::Finish {
            result: Err(given),
            metric: None,
        } && given == e),
        order_event matches OutboundEvent::Got(Err(e)) ==> (order_action matches OutboundAction::Finish {
            result: Err(ClientError::Group(given)),
            metric: None,
        } && given == e),
        order_event matches OutboundEvent::Synced(Err(summary)) ==> (order_action matches OutboundAction::Finish {
            result: Err(ClientError::Group(GroupError::Sync(given))),
            metric: None,
        } && *given == summary),
        order_event matches OutboundEvent::Sent(Err(e)) ==> (order_action matches OutboundAction::Finish {
            result: Err(ClientError::Group(GroupError::DeviceSync(given))),
            metric: None,
        } && *given == e),
{
}

/// An archive that was sent asks for nothing more, and what does not fit the step that is waited for changes nothing.
pub proof fn sent_archives_stay_sent(
    before: ArchiveSendPhase,
    event: ArchiveSendEvent,
    after: ArchiveSendPhase,
    action: ArchiveSendAction,
)
    requires
        is_archive_send_step(before, event, after, action),
    ensures
        before is Done ==> action is Ignore,
        action is Ignore ==> after == before,
{
}

/// A request that was sent asks for nothing more, and what does not fit the step that is waited for changes nothing.
pub proof fn sent_requests_stay_sent(
    before: OutboundPhase<DeviceSyncRequest>,
    event: OutboundEvent<ClientError>,
    after: OutboundPhase<DeviceSyncRequest>,
    action: OutboundAction<DeviceSyncRequest>,
)
    requires
        is_request_step(before, event, after, action),
    ensures
        before is Done ==> action is Ignore,
        action is Ignore ==> after == before,
{
}

/// An archive that was sent unasked asks for nothing more, and what does not fit the step that is waited for changes nothing.
pub proof fn sent_orders_stay_sent(
    before: OutboundPhase<ArchiveOrder>,
    event: OutboundEvent<DeviceSyncError>,
    after: OutboundPhase<ArchiveOrder>,
    action: OutboundAction<ArchiveOrder>,
)
    requires
        is_order_step(before, event, after, action),
    ensures
        before is Done ==> action is Ignore,
        action is Ignore ==> after == before,
{
}

} // verus!
