//! Messages from the devices of the user.

use vstd::prelude::*;
use crate::bytes;
use crate::device_sync::client::DeviceSyncClient;
use crate::device_sync::content;
use crate::device_sync::content::{DeviceSyncReply, SyncContent};
use crate::device_sync::error::DeviceSyncError;
use crate::device_sync::lifecycle::SyncMetric;
use crate::records::{PreferenceUpdate, StoredGroupMessage};

verus! {

/// How often a message is tried.
pub const MAX_ATTEMPTS: i32 = 3;

/// The task of sending an archive.
#[derive(Debug)]
pub struct SendArchiveTask {
    pub originator_id: i32,
    pub sequence_id: i64,
    pub options: Option<Vec<u8>>,
    pub pin: String,
    pub sync_group_id: Vec<u8>,
    pub server_url: String,
}

/// What is noted of a message after it was tried.
#[derive(Clone, Copy, Debug, PartialEq, Eq, Structural)]
pub enum MessageRecord {
    Processed,
    /// It failed; after so many attempts it is given up.
    Attempted { max_attempts: i32 },
}

/// What is noted of a message after an outcome.
pub open spec fn record_of(outcome: Result<(), DeviceSyncError>) -> MessageRecord {
    match outcome {
        Ok(_) => MessageRecord::Processed,
        Err(_) => MessageRecord::Attempted { max_attempts: MAX_ATTEMPTS },
    }
}

/// What a pass over messages between devices waits for.
#[derive(Debug)]
pub enum MessagesPhase {
    /// The processing of a message.
    Processing { message_id: Vec<u8> },
    /// The record of what came of it.
    Recording,
    Done,
}

/// A pass over messages between devices.
#[derive(Debug)]
pub struct MessagesPass {
    pub phase: MessagesPhase,
    /// The messages that are still to come.
    pub rest: Vec<(StoredGroupMessage, SyncContent)>,
}

/// What has happened outside.
#[derive(Debug)]
pub enum MessagesEvent {
    Processed(Result<(), DeviceSyncError>),
    Recorded(Result<(), DeviceSyncError>),
}

/// What is to be done next outside.
#[derive(Debug)]
pub enum MessagesAction {
    Process { message: StoredGroupMessage, content: SyncContent },
    Record { message_id: Vec<u8>, record: MessageRecord },
    Finish(Result<(), DeviceSyncError>),
    Ignore,
}

/// Whether the next message is taken up, or the end is reached.
pub open spec fn takes_next(
    rest: Seq<(StoredGroupMessage, SyncContent)>,
    after: MessagesPass,
    action: MessagesAction,
) -> bool {
    if rest.len() > 0 {
        &&& after.phase matches MessagesPhase::Processing { message_id }
        &&& message_id@ == rest[0].0.id@
        &&& after.rest@ == rest.skip(1)
        &&& action == (MessagesAction::Process { message: rest[0].0, content: rest[0].1 })
    } else {
        &&& after.phase is Done
        &&& action == MessagesAction::Finish(Ok(()))
    }
}

/// How a pass over messages between devices begins.
pub open spec fn begins_messages(
    messages: Seq<(StoredGroupMessage, Option<SyncContent>)>,
    pass: MessagesPass,
    action: MessagesAction,
) -> bool {
    takes_next(content::readable(messages), pass, action)
}

/// The transitions of a pass over messages between devices. A message that fails is counted as an attempt,
/// and the pass goes on; only a failure to record ends it.
pub open spec fn is_messages_step(
    before: MessagesPass,
    event: MessagesEvent,
    after: MessagesPass,
    action: MessagesAction,
) -> bool {
    match (before.phase, event) {
        (MessagesPhase::Processing { message_id }, MessagesEvent::Processed(outcome)) => {
            &&& after == (MessagesPass { phase: MessagesPhase::Recording, ..before })
            &&& action == (MessagesAction::Record { message_id, record: record_of(outcome) })
        },
        (MessagesPhase::Recording, MessagesEvent::Recorded(outcome)) => match outcome {
            Err(e) => {
                &&& after == (MessagesPass { phase: MessagesPhase::Done, ..before })
                &&& action == MessagesAction::Finish(Err(e))
            },
            Ok(_) => takes_next(before.rest@, after, action),
        },
        _ => after == before && action is Ignore,
    }
}

fn take_next(rest: Vec<(StoredGroupMessage, SyncContent)>) -> (r: (MessagesPass, MessagesAction))
    ensures
        takes_next(rest@, r.0, r.1),
{
    let ghost all = rest@;
    let mut rest = rest;
    if rest.len() == 0 {
        return (MessagesPass { phase: MessagesPhase::Done, rest }, MessagesAction::Finish(Ok(())));
    }
    let (message, content) = rest.remove(0);
    assert(rest@ =~= all.skip(1));
    let message_id = bytes::clone_bytes(message.id.as_slice());
    (
        MessagesPass { phase: MessagesPhase::Processing { message_id }, rest },
        MessagesAction::Process { message, content },
    )
}

impl DeviceSyncClient {
    /// Begins a pass over messages between devices; those that cannot be read are left out.
    pub fn process_sync_group_messages(&self, messages: Vec<(StoredGroupMessage, Option<SyncContent>)>) -> (r: (
        MessagesPass,
        MessagesAction,
    ))
        ensures
            begins_messages(messages@, r.0, r.1),
    {
        take_next(content::iter_with_content(messages))
    }
}

/// Takes a pass over messages between devices one step further.
pub fn process_sync_group_messages_step(pass: MessagesPass, event: MessagesEvent) -> (r: (MessagesPass, MessagesAction))
    ensures
        is_messages_step(pass, event, r.0, r.1),
{
    let MessagesPass { phase, rest } = pass;
    match (phase, event) {
        (MessagesPhase::Processing { message_id }, MessagesEvent::Processed(outcome)) => {
            let record = match outcome {
                Ok(_) => MessageRecord::Processed,
                Err(_) => MessageRecord::Attempted { max_attempts: MAX_ATTEMPTS },
            };
            (
                MessagesPass { phase: MessagesPhase::Recording, rest },
                MessagesAction::Record { message_id, record },
            )
        },
        (MessagesPhase::Recording, MessagesEvent::Recorded(outcome)) => match outcome {
            Err(e) => (MessagesPass { phase: MessagesPhase::Done, rest }, MessagesAction::Finish(Err(e))),
            Ok(_) => take_next(rest),
        },
        (phase, _) => (MessagesPass { phase, rest }, MessagesAction::Ignore),
    }
}

/// A message that fails does not keep the following ones from being processed.
pub proof fn a_failing_message_is_passed(
    before: MessagesPass,
    error: DeviceSyncError,
    recorded: MessagesPass,
    record: MessagesAction,
    after: MessagesPass,
    action: MessagesAction,
)
    requires
        before.phase is Processing,
        is_messages_step(before, MessagesEvent::Processed(Err(error)), recorded, record),
        is_messages_step(recorded, MessagesEvent::Recorded(Ok(())), after, action),
    ensures
        record matches MessagesAction::Record { message_id: _, record: noted } && noted == (MessageRecord::Attempted {
            max_attempts: MAX_ATTEMPTS,
        }),
        takes_next(before.rest@, after, action),
{
}

/// How far a message has come.
#[derive(Debug)]
pub enum InboundPhase {
    Scheduling,
    Marking,
    /// It is found out whether this device asked for an archive.
    CheckingRequest(DeviceSyncReply),
    Importing,
    Storing,
    Done,
}

/// What has happened outside.
#[derive(Debug)]
pub enum InboundEvent {
    Passed(Result<(), DeviceSyncError>),
    Requested(Result<bool, DeviceSyncError>),
    /// The preferences that changed.
    Stored(Result<Vec<PreferenceUpdate>, DeviceSyncError>),
}

/// What is to be done next outside.
#[derive(Debug)]
pub enum InboundAction {
    /// Schedule that an archive is sent.
    Schedule(SendArchiveTask),
    MarkProcessed,
    CheckRequested,
    Import(DeviceSyncReply),
    StorePreferences(Vec<Vec<u8>>),
    Finish {
        result: Result<(), DeviceSyncError>,
        metric: Option<SyncMetric>,
        /// The preferences that the streams of this client are told of.
        announce: Option<Vec<PreferenceUpdate>>,
    },
    Ignore,
}

/// Whether a message comes to its end.
pub open spec fn finishes(
    phase: InboundPhase,
    action: InboundAction,
    outcome: Result<(), DeviceSyncError>,
    counted: Option<SyncMetric>,
) -> bool {
    phase is Done && action == (InboundAction::Finish { result: outcome, metric: counted, announce: None })
}

/// Whether a message begins its way. What this device sent itself is not taken up again, but for
/// preferences.
pub open spec fn is_inbound_start(
    message: StoredGroupMessage,
    content: SyncContent,
    own_installation: Seq<u8>,
    phase: InboundPhase,
    action: InboundAction,
) -> bool {
    let is_external = message.sender_installation_id@ != own_installation;
    match content {
        SyncContent::Request(request) => if is_external {
            &&& phase is Scheduling
            &&& action matches InboundAction::Schedule(task)
            &&& task.originator_id == message.originator_id as i32
            &&& task.sequence_id == message.sequence_id
            &&& task.options == request.options
            &&& task.pin == request.pin
            &&& task.sync_group_id@ == message.group_id@
            &&& task.server_url == request.server_url
        } else {
            finishes(phase, action, Ok(()), None)
        },
        SyncContent::Reply(reply) => if is_external {
            phase == InboundPhase::CheckingRequest(reply) && action is CheckRequested
        } else {
            finishes(phase, action, Ok(()), None)
        },
        SyncContent::PreferenceUpdates(updates) => phase is Storing && action == InboundAction::StorePreferences(
            updates,
        ),
        SyncContent::Acknowledge => finishes(phase, action, Ok(()), None),
    }
}

impl DeviceSyncClient {
    /// Begins with a message from a device of the user.
    pub fn process_message(&self, message: &StoredGroupMessage, content: SyncContent) -> (r: (
        InboundPhase,
        InboundAction,
    ))
        ensures
            is_inbound_start(*message, content, self.installation_id@, r.0, r.1),
    {
        let is_external: bool = !bytes::bytes_equal(message.sender_installation_id.as_slice(), self.installation_id.as_slice());
        match content {
            SyncContent::Request(request) => {
                if !is_external {
                    return finish(Ok(()), None);
                }
                let task = SendArchiveTask {
                    originator_id: message.originator_id as i32,
                    sequence_id: message.sequence_id,
                    options: request.options,
                    pin: request.pin,
                    sync_group_id: bytes::clone_bytes(message.group_id.as_slice()),
                    server_url: request.server_url,
                };
                (InboundPhase::Scheduling, InboundAction::Schedule(task))
            },
            SyncContent::Reply(reply) => {
                if !is_external {
                    return finish(Ok(()), None);
                }
                (InboundPhase::CheckingRequest(reply), InboundAction::CheckRequested)
            },
            SyncContent::PreferenceUpdates(updates) => (
                InboundPhase::Storing,
                InboundAction::StorePreferences(updates),
            ),
            SyncContent::Acknowledge => finish(Ok(()), None),
        }
    }
}

fn finish(result: Result<(), DeviceSyncError>, metric: Option<SyncMetric>) -> (r: (InboundPhase, InboundAction))
    ensures
        finishes(r.0, r.1, result, metric),
{
    (InboundPhase::Done, InboundAction::Finish { result, metric, announce: None })
}

/// The transitions of a message. An archive that this device did not ask for counts as processed,
/// without being imported.
pub open spec fn is_inbound_step(
    before: InboundPhase,
    event: InboundEvent,
    after: InboundPhase,
    action: InboundAction,
) -> bool {
    match (before, event) {
        (InboundPhase::Scheduling, InboundEvent::Passed(outcome)) => match outcome {
            Ok(_) => after is Marking && action is MarkProcessed,
            Err(e) => finishes(after, action, Err(e), None),
        },
        (InboundPhase::Marking, InboundEvent::Passed(outcome)) => match outcome {
            Ok(_) => finishes(after, action, Ok(()), Some(SyncMetric::PayloadTaskScheduled)),
            Err(e) => finishes(after, action, Err(e), None),
        },
        (InboundPhase::CheckingRequest(reply), InboundEvent::Requested(outcome)) => match outcome {
            Ok(true) => after is Importing && action == InboundAction::Import(reply),
            Ok(false) => finishes(after, action, Ok(()), Some(SyncMetric::PayloadProcessed)),
            Err(e) => finishes(after, action, Err(e), None),
        },
        (InboundPhase::Importing, InboundEvent::Passed(outcome)) => match outcome {
            Ok(_) => finishes(after, action, Ok(()), Some(SyncMetric::PayloadProcessed)),
            Err(e) => finishes(after, action, Err(e), None),
        },
        (InboundPhase::Storing, InboundEvent::Stored(outcome)) => match outcome {
            Ok(updated) => {
                &&& after is Done
                &&& action == (InboundAction::Finish {
                    result: Ok(()),
                    metric: None,
                    announce: if updated@.len() > 0 {
                        Some(updated)
                    } else {
                        None
                    },
                })
            },
            Err(e) => finishes(after, action, Err(e), None),
        },
        _ => after == before && action is Ignore,
    }
}

/// Takes a message one step further.
pub fn process_message_step(phase: InboundPhase, event: InboundEvent) -> (r: (InboundPhase, InboundAction))
    ensures
        is_inbound_step(phase, event, r.0, r.1),
{
    match (phase, event) {
        (InboundPhase::Scheduling, InboundEvent::Passed(outcome)) => match outcome {
            Ok(_) => (InboundPhase::Marking, InboundAction::MarkProcessed),
            Err(e) => finish(Err(e), None),
        },
        (InboundPhase::Marking, InboundEvent::Passed(outcome)) => match outcome {
            Ok(_) => finish(Ok(()), Some(SyncMetric::PayloadTaskScheduled)),
            Err(e) => finish(Err(e), None),
        },
        (InboundPhase::CheckingRequest(reply), InboundEvent::Requested(outcome)) => match outcome {
            Ok(true) => (InboundPhase::Importing, InboundAction::Import(reply)),
            Ok(false) => finish(Ok(()), Some(SyncMetric::PayloadProcessed)),
            Err(e) => finish(Err(e), None),
        },
        (InboundPhase::Importing, InboundEvent::Passed(outcome)) => match outcome {
            Ok(_) => finish(Ok(()), Some(SyncMetric::PayloadProcessed)),
            Err(e) => finish(Err(e), None),
        },
        (InboundPhase::Storing, InboundEvent::Stored(outcome)) => match outcome {
            Ok(updated) => {
                let announce: Option<Vec<PreferenceUpdate>> = if updated.len() > 0 {
                    Some(updated)
                } else {
                    None
                };
                (InboundPhase::Done, InboundAction::Finish { result: Ok(()), metric: None, announce })
            },
            Err(e) => finish(Err(e), None),
        },
        (phase, _) => (phase, InboundAction::Ignore),
    }
}

/// An archive is imported only where another device sent it and this device asked for it.
pub proof fn only_requested_archives_are_imported(
    message: StoredGroupMessage,
    content: SyncContent,
    own_installation: Seq<u8>,
    start: InboundPhase,
    start_action: InboundAction,
    event: InboundEvent,
    after: InboundPhase,
    action: InboundAction,
)
    requires
        is_inbound_start(message, content, own_installation, start, start_action),
        is_inbound_step(start, event, after, action),
    ensures
        !(start_action is Import),
        action matches InboundAction::Import(reply) ==> {
            &&& message.sender_installation_id@ != own_installation
            &&& content == SyncContent::Reply(reply)
            &&& event == InboundEvent::Requested(Ok(true))
        },
{
}

/// Whether a pass over messages runs to its end: every message is processed, with any outcome, and every record is made.
pub open spec fn is_messages_run(
    messages: Seq<(StoredGroupMessage, Option<SyncContent>)>,
    outcomes: Seq<Result<(), DeviceSyncError>>,
    passes: Seq<MessagesPass>,
    actions: Seq<MessagesAction>,
) -> bool {
    let n = content::readable(messages).len();
    &&& outcomes.len() == n
    &&& passes.len() == 2 * n + 1
    &&& actions.len() == 2 * n + 1
    &&& begins_messages(messages, passes[0], actions[0])
    &&& forall|i: int|
        0 <= i < n ==> #[trigger] is_messages_step(
            passes[2 * i],
            MessagesEvent::Processed(outcomes[i]),
            passes[2 * i + 1],
            actions[2 * i + 1],
        )
    &&& forall|i: int|
        0 <= i < n ==> #[trigger] is_messages_step(
            passes[2 * i + 1],
            MessagesEvent::Recorded(Ok(())),
            passes[2 * i + 2],
            actions[2 * i + 2],
        )
}

proof fn lemma_messages_run(
    messages: Seq<(StoredGroupMessage, Option<SyncContent>)>,
    outcomes: Seq<Result<(), DeviceSyncError>>,
    passes: Seq<MessagesPass>,
    actions: Seq<MessagesAction>,
    i: int,
)
    requires
        is_messages_run(messages, outcomes, passes, actions),
        0 <= i <= outcomes.len(),
    ensures
        takes_next(content::readable(messages).skip(i), passes[2 * i], actions[2 * i]),
    decreases i,
{
    let all = content::readable(messages);
    if i == 0 {
        assert(all.skip(0) =~= all);
    } else {
        let k = i - 1;
        lemma_messages_run(messages, outcomes, passes, actions, k);
        assert(is_messages_step(
            passes[2 * k],
            MessagesEvent::Processed(outcomes[k]),
            passes[2 * k + 1],
            actions[2 * k + 1],
        ));
        assert(is_messages_step(
            passes[2 * k + 1],
            MessagesEvent::Recorded(Ok(())),
            passes[2 * k + 2],
            actions[2 * k + 2],
        ));
        assert(all.skip(k).skip(1) =~= all.skip(i));
        assert(2 * k + 2 == 2 * i);
    }
}

/// Every message that can be read is processed, once and in its order, and what came of it is recorded under its own id:
/// as processed if it went well, and as one of three attempts if it failed. The pass then ends well, whatever came of the
/// messages.
pub proof fn every_message_is_processed_and_recorded(
    messages: Seq<(StoredGroupMessage, Option<SyncContent>)>,
    outcomes: Seq<Result<(), DeviceSyncError>>,
    passes: Seq<MessagesPass>,
    actions: Seq<MessagesAction>,
    i: int,
)
    requires
        is_messages_run(messages, outcomes, passes, actions),
    ensures
        0 <= i < outcomes.len() ==> {
            let (message, content) = content::readable(messages)[i];
            &&& actions[2 * i] == (MessagesAction::Process { message, content })
            &&& actions[2 * i + 1] matches MessagesAction::Record { message_id, record } && message_id@ == message.id@ && (
            outcomes[i] is Ok ==> record == MessageRecord::Processed) && (outcomes[i] is Err ==> record == (
            MessageRecord::Attempted { max_attempts: 3 }))
        },
        actions.last() matches MessagesAction::Finish(Ok(_)),
{
    let all = content::readable(messages);
    let n = outcomes.len() as int;
    if 0 <= i < n {
        lemma_messages_run(messages, outcomes, passes, actions, i);
        assert(is_messages_step(
            passes[2 * i],
            MessagesEvent::Processed(outcomes[i]),
            passes[2 * i + 1],
            actions[2 * i + 1],
        ));
        assert(all.skip(i)[0] == all[i]);
    }
    lemma_messages_run(messages, outcomes, passes, actions, n);
    assert(actions.last() == actions[2 * n]);
}

/// A request of another device schedules that an archive is sent for it, as it was asked for and to where it was asked for;
/// an archive of another device is looked at; preferences are stored whoever sent them. What this device sent itself needs
/// nothing else, nor does an acknowledgement.
pub proof fn messages_are_taken_up_by_their_content(
    message: StoredGroupMessage,
    content: SyncContent,
    own_installation: Seq<u8>,
    phase: InboundPhase,
    action: InboundAction,
)
    requires
        is_inbound_start(message, content, own_installation, phase, action),
    ensures
        message.sender_installation_id@ != own_installation ==> {
            &&& content matches SyncContent::Request(request) ==> (action matches InboundAction::Schedule(task) && task.pin
                == request.pin && task.options == request.options && task.server_url == request.server_url
                && task.sync_group_id@ == message.group_id@ && task.sequence_id == message.sequence_id && (0
                <= message.originator_id <= i32::MAX ==> task.originator_id == message.originator_id))
            &&& content matches SyncContent::Reply(reply) ==> action is CheckRequested && phase
                == InboundPhase::CheckingRequest(reply)
        },
        message.sender_installation_id@ == own_installation && (content is Request || content is Reply) ==> (action matches
            InboundAction::Finish { result: Ok(_), metric: None, announce: None }),
        content matches SyncContent::PreferenceUpdates(updates) ==> action == InboundAction::StorePreferences(updates),
        content is Acknowledge ==> (action matches InboundAction::Finish { result: Ok(_), metric: None, announce: None }),
{
}

/// A request counts once it is scheduled and marked, an archive once it is imported or found not to be asked for, and
/// preferences that changed are announced, all of them, if there are any.
pub proof fn messages_come_to_their_end(
    before: InboundPhase,
    event: InboundEvent,
    after: InboundPhase,
    action: InboundAction,
)
    requires
        is_inbound_step(before, event, after, action),
        action !is Ignore,
    ensures
        before is Scheduling && (event matches InboundEvent::Passed(Ok(_))) ==> action is MarkProcessed,
        before is Marking && (event matches InboundEvent::Passed(Ok(_))) ==> (action matches InboundAction::Finish {
            result: Ok(_),
            metric,
            announce: None,
        } && metric == Some(SyncMetric::PayloadTaskScheduled)),
        before matches InboundPhase::CheckingRequest(reply) ==> (event matches InboundEvent::Requested(Ok(requested)) ==> {
            &&& requested ==> action == InboundAction::Import(reply)
            &&& !requested ==> (action matches InboundAction::Finish { result: Ok(_), metric, announce: None } && metric
                == Some(SyncMetric::PayloadProcessed))
        }),
        before is Importing && (event matches InboundEvent::Passed(Ok(_))) ==> (action matches InboundAction::Finish {
            result: Ok(_),
            metric,
            announce: None,
        } && metric == Some(SyncMetric::PayloadProcessed)),
        event matches InboundEvent::Stored(Ok(updated)) ==> (action matches InboundAction::Finish {
            result: Ok(_),
            metric: None,
            announce,
        } && (updated@.len() > 0 ==> announce == Some(updated)) && (updated@.len() == 0 ==> announce is None)),
        event matches InboundEvent::Passed(Err(e)) ==> action == (InboundAction::Finish {
            result: Err(e),
            metric: None,
            announce: None,
        }),
        event matches InboundEvent::Requested(Err(e)) ==> action == (InboundAction::Finish {
            result: Err(e),
            metric: None,
            announce: None,
        }),
        event matches InboundEvent::Stored(Err(e)) ==> action == (InboundAction::Finish {
            result: Err(e),
            metric: None,
            announce: None,
        }),
{
}

/// Only a failure to record ends a pass over messages early, and it is what is reported.
pub proof fn only_records_end_a_pass(
    before: MessagesPass,
    event: MessagesEvent,
    after: MessagesPass,
    action: MessagesAction,
)
    requires
        is_messages_step(before, event, after, action),
    ensures
        action matches MessagesAction::Finish(Err(e)) ==> event == MessagesEvent::Recorded(Err(e)),
        before.phase is Recording && (event matches MessagesEvent::Recorded(Err(_))) ==> action is Finish,
        action matches MessagesAction::Finish(Ok(_)) ==> before.rest@.len() == 0,
{
}

/// A pass over messages that has come to its end does nothing more, and what does not fit the step that it waits for changes nothing.
pub proof fn finished_passes_stay_finished(
    before: MessagesPass,
    event: MessagesEvent,
    after: MessagesPass,
    action: MessagesAction,
)
    requires
        is_messages_step(before, event, after, action),
    ensures
        before.phase is Done ==> action is Ignore,
        action is Ignore ==> after == before,
{
}

/// A message that has come to its end asks for nothing more, and what does not fit the step that it waits for changes nothing.
pub proof fn finished_messages_stay_finished(
    before: InboundPhase,
    event: InboundEvent,
    after: InboundPhase,
    action: InboundAction,
)
    requires
        is_inbound_step(before, event, after, action),
    ensures
        before is Done ==> action is Ignore,
        action is Ignore ==> after == before,
{
}

} // verus!
