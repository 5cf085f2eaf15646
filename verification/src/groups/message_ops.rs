//! Sending, preparing and deleting messages.

use vstd::prelude::*;
use vstd::string::*;
use crate::bytes;
use crate::codec;
use crate::error::{ExternalError, NotFound};
use crate::groups::error::{DeleteMessageError, GroupError};
use crate::groups::group::MlsGroup;
use crate::groups::message_fields::QueryableContentFields;
use crate::numbers;
use crate::records::{DeliveryStatus, GroupMessageKind, StoredGroupMessage, StoredMessageDeletion};

verus! {

/// A message as it goes into a group, before it is encrypted.
#[derive(Debug)]
pub struct PlaintextEnvelope {
    pub content: Vec<u8>,
    /// What keeps two messages of equal content apart.
    pub idempotency_key: String,
}

/// Whether an envelope is that of a content from some time.
pub open spec fn is_envelope(e: PlaintextEnvelope, content: Seq<u8>, sent_at_ns: i64) -> bool {
    e.content@ == content && e.idempotency_key@ == numbers::signed_text(sent_at_ns as int)
}

/// The envelope of a content: its time keeps it apart from others.
pub fn into_envelope(encoded_msg: &[u8], idempotency_key: i64) -> (r: PlaintextEnvelope)
    ensures
        is_envelope(r, encoded_msg@, idempotency_key),
{
    PlaintextEnvelope {
        content: bytes::clone_bytes(encoded_msg),
        idempotency_key: numbers::signed_decimal(idempotency_key),
    }
}

/// A message that waits to be published.
#[derive(Debug)]
pub struct QueuedMessage {
    pub envelope: PlaintextEnvelope,
    pub should_push: bool,
}

/// What a sender asks for besides the message itself.
#[derive(Clone, Copy, Debug, PartialEq, Eq, Structural)]
pub struct SendMessageOpts {
    /// Whether the members are notified of the message.
    pub should_push: bool,
}

/// How messages are sent.
#[derive(Clone, Copy, Debug, PartialEq, Eq, Structural)]
pub enum SendKind {
    /// A new message is prepared and published.
    Send,
    /// Everything that waits is published.
    PublishAll,
    /// A message that was stored earlier is published.
    PublishStored,
}

/// The steps of sending.
#[derive(Clone, Copy, Debug, PartialEq, Eq, Structural)]
pub enum SendPhase {
    CheckingActivity,
    CheckingPause,
    LookingUp,
    Queueing,
    UpdatingInstallations,
    CheckingProposals,
    CommittingProposals,
    Preparing,
    Syncing,
    Consenting,
    Done,
}

/// What has happened outside.
#[derive(Debug)]
pub enum SendEvent {
    /// Whether this client is active in the group, or whether proposals are pending.
    Checked(Result<bool, GroupError>),
    /// A step was done.
    Passed(Result<(), GroupError>),
    /// The stored message.
    Found(Result<Option<StoredGroupMessage>, ExternalError>),
    /// The id of the message that was prepared.
    Prepared(Result<Vec<u8>, GroupError>),
}

/// What is to be done next outside.
#[derive(Debug)]
pub enum SendAction {
    CheckActivity,
    CheckPause,
    LookUp,
    Queue(QueuedMessage),
    UpdateInstallations,
    CheckProposals,
    CommitProposals,
    /// Store a new message and queue it.
    Prepare { content: Vec<u8>, should_push: bool },
    /// Publish what waits, until it has come back.
    Sync,
    /// Note that the user wants the conversation.
    AllowConsent,
    Finish(Result<(), GroupError>),
    Ignore,
}

/// Sending of messages.
#[derive(Debug)]
pub struct SendPass {
    pub kind: SendKind,
    pub phase: SendPhase,
    /// The message that is sent: the one to publish, or the one that was prepared.
    pub message_id: Vec<u8>,
    /// What a new message holds; empty where none is prepared.
    pub content: Vec<u8>,
    /// Whether the members are notified of a new message.
    pub should_push: bool,
}

/// The step after one that went well.
pub open spec fn phase_after(kind: SendKind, phase: SendPhase) -> SendPhase {
    match phase {
        SendPhase::CheckingActivity => SendPhase::CheckingPause,
        SendPhase::CheckingPause => if kind == SendKind::PublishStored {
            SendPhase::LookingUp
        } else {
            SendPhase::UpdatingInstallations
        },
        SendPhase::LookingUp => SendPhase::Queueing,
        SendPhase::Queueing => SendPhase::UpdatingInstallations,
        SendPhase::UpdatingInstallations => if kind == SendKind::Send {
            SendPhase::CheckingProposals
        } else {
            SendPhase::Syncing
        },
        SendPhase::CheckingProposals => SendPhase::Preparing,
        SendPhase::CommittingProposals => SendPhase::Preparing,
        SendPhase::Preparing => SendPhase::Syncing,
        SendPhase::Syncing => SendPhase::Consenting,
        SendPhase::Consenting => SendPhase::Done,
        SendPhase::Done => SendPhase::Done,
    }
}

/// Whether an action is that of the step that a pass has come to.
pub open spec fn is_action_of(pass: SendPass, action: SendAction) -> bool {
    match pass.phase {
        SendPhase::CheckingActivity => action is CheckActivity,
        SendPhase::CheckingPause => action is CheckPause,
        SendPhase::LookingUp => action is LookUp,
        SendPhase::Queueing => action is Queue,
        SendPhase::UpdatingInstallations => action is UpdateInstallations,
        SendPhase::CheckingProposals => action is CheckProposals,
        SendPhase::CommittingProposals => action is CommitProposals,
        SendPhase::Preparing => action matches SendAction::Prepare { content, should_push } && content@
            == pass.content@ && should_push == pass.should_push,
        SendPhase::Syncing => action is Sync,
        SendPhase::Consenting => action is AllowConsent,
        SendPhase::Done => action == SendAction::Finish(Ok(())),
    }
}

/// Whether sending moves on to the next step.
pub open spec fn moves_on(before: SendPass, after: SendPass, action: SendAction) -> bool {
    &&& after == (SendPass { phase: phase_after(before.kind, before.phase), ..before })
    &&& is_action_of(after, action)
}

/// Whether sending ends.
pub open spec fn ends(before: SendPass, after: SendPass, action: SendAction, result: Result<(), GroupError>) -> bool {
    after == (SendPass { phase: SendPhase::Done, ..before }) && action == SendAction::Finish(result)
}

/// The transitions of sending.
pub open spec fn is_send_step(before: SendPass, event: SendEvent, after: SendPass, action: SendAction) -> bool {
    match (before.phase, event) {
        (SendPhase::CheckingActivity, SendEvent::Checked(outcome)) => match outcome {
            Ok(true) => moves_on(before, after, action),
            Ok(false) => ends(before, after, action, Err(GroupError::GroupInactive)),
            Err(e) => ends(before, after, action, Err(e)),
        },
        (SendPhase::CheckingProposals, SendEvent::Checked(outcome)) => match outcome {
            Ok(true) => {
                &&& after == (SendPass { phase: SendPhase::CommittingProposals, ..before })
                &&& action is CommitProposals
            },
            Ok(false) => moves_on(before, after, action),
            Err(e) => ends(before, after, action, Err(e)),
        },
        (SendPhase::LookingUp, SendEvent::Found(outcome)) => match outcome {
            Err(e) => ends(before, after, action, Err(GroupError::External(e))),
            Ok(None) => {
                &&& after == (SendPass { phase: SendPhase::Done, ..before })
                &&& action matches SendAction::Finish(Err(GroupError::NotFound(NotFound::MessageById(id))))
                &&& id@ == before.message_id@
            },
            Ok(Some(message)) => if message.delivery_status == DeliveryStatus::Published {
                ends(before, after, action, Ok(()))
            } else {
                &&& moves_on(before, after, action)
                &&& action matches SendAction::Queue(queued)
                &&& is_envelope(queued.envelope, message.decrypted_message_bytes@, message.sent_at_ns)
                &&& queued.should_push == message.should_push
            },
        },
        (SendPhase::Preparing, SendEvent::Prepared(outcome)) => match outcome {
            Ok(id) => {
                &&& after == (SendPass { phase: SendPhase::Syncing, message_id: id, ..before })
                &&& action is Sync
            },
            Err(e) => ends(before, after, action, Err(e)),
        },
        (phase, SendEvent::Passed(outcome)) => if takes_passed(phase) {
            match outcome {
                Ok(_) => moves_on(before, after, action),
                Err(e) => ends(before, after, action, Err(e)),
            }
        } else {
            after == before && action is Ignore
        },
        _ => after == before && action is Ignore,
    }
}

/// The steps that are simply done.
pub open spec fn takes_passed(phase: SendPhase) -> bool {
    ||| phase == SendPhase::CheckingPause
    ||| phase == SendPhase::Queueing
    ||| phase == SendPhase::UpdatingInstallations
    ||| phase == SendPhase::CommittingProposals
    ||| phase == SendPhase::Syncing
    ||| phase == SendPhase::Consenting
}

/// Whether the sending of a new message begins.
pub open spec fn begins_send(message: Seq<u8>, opts: SendMessageOpts, pass: SendPass, action: SendAction) -> bool {
    &&& pass.kind == SendKind::Send
    &&& pass.phase == SendPhase::CheckingActivity
    &&& pass.message_id@.len() == 0
    &&& pass.content@ == message
    &&& pass.should_push == opts.should_push
    &&& action is CheckActivity
}

/// Whether the publishing of everything that waits begins.
pub open spec fn begins_publish_all(pass: SendPass, action: SendAction) -> bool {
    &&& pass.kind == SendKind::PublishAll
    &&& pass.phase == SendPhase::CheckingPause
    &&& pass.content@.len() == 0
    &&& !pass.should_push
    &&& action is CheckPause
}

/// Whether the publishing of a stored message begins.
pub open spec fn begins_publish_stored(message_id: Vec<u8>, pass: SendPass, action: SendAction) -> bool {
    &&& pass.kind == SendKind::PublishStored
    &&& pass.phase == SendPhase::CheckingActivity
    &&& pass.message_id == message_id
    &&& pass.content@.len() == 0
    &&& !pass.should_push
    &&& action is CheckActivity
}

impl MlsGroup {
    /// Begins to send a new message, which has no id until it is prepared.
    pub fn send_message(&self, message: &[u8], opts: SendMessageOpts) -> (r: (SendPass, SendAction))
        ensures
            begins_send(message@, opts, r.0, r.1),
    {
        (
            SendPass {
                kind: SendKind::Send,
                phase: SendPhase::CheckingActivity,
                message_id: Vec::new(),
                content: bytes::clone_bytes(message),
                should_push: opts.should_push,
            },
            SendAction::CheckActivity,
        )
    }
}

impl MlsGroup {
    /// Begins to publish everything that waits.
    pub fn publish_messages(&self) -> (r: (SendPass, SendAction))
        ensures
            begins_publish_all(r.0, r.1),
    {
        (
            SendPass {
                kind: SendKind::PublishAll,
                phase: SendPhase::CheckingPause,
                message_id: Vec::new(),
                content: Vec::new(),
                should_push: false,
            },
            SendAction::CheckPause,
        )
    }
}

impl MlsGroup {
    /// Begins to publish a message that was stored earlier.
    pub fn publish_stored_message(&self, message_id: Vec<u8>) -> (r: (SendPass, SendAction))
        ensures
            begins_publish_stored(message_id, r.0, r.1),
    {
        (
            SendPass {
                kind: SendKind::PublishStored,
                phase: SendPhase::CheckingActivity,
                message_id,
                content: Vec::new(),
                should_push: false,
            },
            SendAction::CheckActivity,
        )
    }
}

fn finish(pass: SendPass, result: Result<(), GroupError>) -> (r: (SendPass, SendAction))
    ensures
        ends(pass, r.0, r.1, result),
{
    (SendPass { phase: SendPhase::Done, ..pass }, SendAction::Finish(result))
}

fn prepare_action(pass: &SendPass) -> (r: SendAction)
    ensures
        r matches SendAction::Prepare { content, should_push } && content@ == pass.content@ && should_push
            == pass.should_push,
{
    SendAction::Prepare { content: bytes::clone_bytes(pass.content.as_slice()), should_push: pass.should_push }
}

fn go_on(pass: SendPass, outcome: Result<(), GroupError>) -> (r: (SendPass, SendAction))
    requires
        pass.phase != SendPhase::LookingUp,
    ensures
        match outcome {
            Ok(_) => moves_on(pass, r.0, r.1),
            Err(e) => ends(pass, r.0, r.1, Err(e)),
        },
{
    match outcome {
        Err(e) => return finish(pass, Err(e)),
        Ok(_) => {},
    }
    let (phase, action) = match pass.phase {
        SendPhase::CheckingActivity => (SendPhase::CheckingPause, SendAction::CheckPause),
        SendPhase::CheckingPause => {
            if pass.kind == SendKind::PublishStored {
                (SendPhase::LookingUp, SendAction::LookUp)
            } else {
                (SendPhase::UpdatingInstallations, SendAction::UpdateInstallations)
            }
        },
        SendPhase::LookingUp => (SendPhase::Done, SendAction::Ignore),
        SendPhase::Queueing => (SendPhase::UpdatingInstallations, SendAction::UpdateInstallations),
        SendPhase::UpdatingInstallations => {
            if pass.kind == SendKind::Send {
                (SendPhase::CheckingProposals, SendAction::CheckProposals)
            } else {
                (SendPhase::Syncing, SendAction::Sync)
            }
        },
        SendPhase::CheckingProposals => (SendPhase::Preparing, prepare_action(&pass)),
        SendPhase::CommittingProposals => (SendPhase::Preparing, prepare_action(&pass)),
        SendPhase::Preparing => (SendPhase::Syncing, SendAction::Sync),
        SendPhase::Syncing => (SendPhase::Consenting, SendAction::AllowConsent),
        SendPhase::Consenting => (SendPhase::Done, SendAction::Finish(Ok(()))),
        SendPhase::Done => (SendPhase::Done, SendAction::Finish(Ok(()))),
    };
    (SendPass { phase, ..pass }, action)
}

/// Takes sending one step further. Any step that fails ends it.
pub fn send_step(pass: SendPass, event: SendEvent) -> (r: (SendPass, SendAction))
    ensures
        is_send_step(pass, event, r.0, r.1),
{
    match (pass.phase, event) {
        (SendPhase::CheckingActivity, SendEvent::Checked(outcome)) => match outcome {
            Ok(true) => go_on(pass, Ok(())),
            Ok(false) => finish(pass, Err(GroupError::GroupInactive)),
            Err(e) => finish(pass, Err(e)),
        },
        (SendPhase::CheckingProposals, SendEvent::Checked(outcome)) => match outcome {
            Ok(true) => (
                SendPass { phase: SendPhase::CommittingProposals, ..pass },
                SendAction::CommitProposals,
            ),
            Ok(false) => go_on(pass, Ok(())),
            Err(e) => finish(pass, Err(e)),
        },
        (SendPhase::LookingUp, SendEvent::Found(outcome)) => match outcome {
            Err(e) => finish(pass, Err(GroupError::External(e))),
            Ok(None) => {
                let id = bytes::clone_bytes(pass.message_id.as_slice());
                finish(pass, Err(GroupError::NotFound(NotFound::MessageById(id))))
            },
            Ok(Some(message)) => {
                if message.delivery_status == DeliveryStatus::Published {
                    finish(pass, Ok(()))
                } else {
                    let envelope = into_envelope(message.decrypted_message_bytes.as_slice(), message.sent_at_ns);
                    let queued = QueuedMessage { envelope, should_push: message.should_push };
                    (SendPass { phase: SendPhase::Queueing, ..pass }, SendAction::Queue(queued))
                }
            },
        },
        (SendPhase::Preparing, SendEvent::Prepared(outcome)) => match outcome {
            Ok(id) => (
                SendPass { phase: SendPhase::Syncing, message_id: id, ..pass },
                SendAction::Sync,
            ),
            Err(e) => finish(pass, Err(e)),
        },
        (SendPhase::CheckingPause, SendEvent::Passed(outcome)) => go_on(pass, outcome),
        (SendPhase::Queueing, SendEvent::Passed(outcome)) => go_on(pass, outcome),
        (SendPhase::UpdatingInstallations, SendEvent::Passed(outcome)) => go_on(pass, outcome),
        (SendPhase::CommittingProposals, SendEvent::Passed(outcome)) => go_on(pass, outcome),
        (SendPhase::Syncing, SendEvent::Passed(outcome)) => go_on(pass, outcome),
        (SendPhase::Consenting, SendEvent::Passed(outcome)) => go_on(pass, outcome),
        _ => (pass, SendAction::Ignore),
    }
}

/// A run of sending: the passes that it goes through, with the events between them.
pub open spec fn is_send_run(passes: Seq<SendPass>, events: Seq<SendEvent>, actions: Seq<SendAction>) -> bool {
    &&& passes.len() == events.len() + 1
    &&& actions.len() == events.len()
    &&& passes[0].phase == SendPhase::CheckingActivity || (passes[0].kind == SendKind::PublishAll && passes[0].phase
        == SendPhase::CheckingPause)
    &&& forall|i: int|
        0 <= i < events.len() ==> is_send_step(#[trigger] passes[i], events[i], passes[i + 1], actions[i])
}

/// Whether an event of a run told that the group is not paused.
pub open spec fn pause_was_checked(passes: Seq<SendPass>, events: Seq<SendEvent>, n: int) -> bool {
    exists|i: int|
        0 <= i < n && (#[trigger] passes[i]).phase == SendPhase::CheckingPause && (events[i] matches SendEvent::Passed(
            Ok(_),
        ))
}

/// Nothing is prepared, queued or published before the group was seen not to be paused.
pub proof fn nothing_is_sent_to_a_paused_group(
    passes: Seq<SendPass>,
    events: Seq<SendEvent>,
    actions: Seq<SendAction>,
    n: int,
)
    requires
        is_send_run(passes, events, actions),
        0 <= n < events.len(),
        actions[n] is Prepare || actions[n] is Queue || actions[n] is Sync || actions[n] is AllowConsent,
    ensures
        pause_was_checked(passes, events, n),
{
    assert(is_send_step(passes[n], events[n], passes[n + 1], actions[n]));
    lemma_late_phases(passes, events, actions, n);
}

proof fn lemma_late_phases(passes: Seq<SendPass>, events: Seq<SendEvent>, actions: Seq<SendAction>, n: int)
    requires
        is_send_run(passes, events, actions),
        0 <= n <= events.len(),
    ensures
        passes[n].phase == SendPhase::CheckingActivity || passes[n].phase == SendPhase::CheckingPause
            || passes[n].phase == SendPhase::Done || pause_was_checked(passes, events, n),
    decreases n,
{
    if n > 0 {
        lemma_late_phases(passes, events, actions, n - 1);
        assert(is_send_step(passes[n - 1], events[n - 1], passes[n - 1 + 1], actions[n - 1]));
        if pause_was_checked(passes, events, n - 1) {
            let i = choose|i: int|
                0 <= i < n - 1 && (#[trigger] passes[i]).phase == SendPhase::CheckingPause && (
                events[i] matches SendEvent::Passed(Ok(_)));
            assert(0 <= i < n && passes[i].phase == SendPhase::CheckingPause);
        } else if passes[n - 1].phase == SendPhase::CheckingPause && (events[n - 1] matches SendEvent::Passed(Ok(_))) {
            assert(pause_was_checked(passes, events, n));
        }
    }
}

/// A new message goes this way where all goes well: activity and pause are checked, installations are brought
/// up to date, pending proposals are committed if there are any, the given message is prepared, everything
/// that waits is published, and the conversation is noted as wanted. Its id is the one it was prepared under.
pub proof fn a_new_message_is_sent(
    message: Seq<u8>,
    opts: SendMessageOpts,
    has_proposals: bool,
    id: Vec<u8>,
    p: Seq<SendPass>,
    a: Seq<SendAction>,
)
    requires
        p.len() == 9,
        a.len() == 9,
        begins_send(message, opts, p[0], a[0]),
        is_send_step(p[0], SendEvent::Checked(Ok(true)), p[1], a[1]),
        is_send_step(p[1], SendEvent::Passed(Ok(())), p[2], a[2]),
        is_send_step(p[2], SendEvent::Passed(Ok(())), p[3], a[3]),
        is_send_step(p[3], SendEvent::Checked(Ok(has_proposals)), p[4], a[4]),
        has_proposals ==> is_send_step(p[4], SendEvent::Passed(Ok(())), p[5], a[5]),
        !has_proposals ==> p[5] == p[4] && a[5] == a[4],
        is_send_step(p[5], SendEvent::Prepared(Ok(id)), p[6], a[6]),
        is_send_step(p[6], SendEvent::Passed(Ok(())), p[7], a[7]),
        is_send_step(p[7], SendEvent::Passed(Ok(())), p[8], a[8]),
    ensures
        a[0] is CheckActivity,
        a[1] is CheckPause,
        a[2] is UpdateInstallations,
        a[3] is CheckProposals,
        has_proposals ==> a[4] is CommitProposals,
        a[5] matches SendAction::Prepare { content, should_push } && content@ == message && should_push
            == opts.should_push,
        a[6] is Sync,
        a[7] is AllowConsent,
        a[8] == SendAction::Finish(Ok(())),
        p[8].message_id == id,
{
}

/// A stored message that is not published yet goes this way where all goes well: activity and pause are
/// checked, it is looked up and queued as it was stored, installations are brought up to date, everything
/// that waits is published, and the conversation is noted as wanted. One that is published needs nothing, and
/// one that is not there cannot be published.
pub proof fn a_stored_message_is_published(
    message_id: Vec<u8>,
    found: Option<StoredGroupMessage>,
    p: Seq<SendPass>,
    a: Seq<SendAction>,
)
    requires
        p.len() == 8,
        a.len() == 8,
        begins_publish_stored(message_id, p[0], a[0]),
        is_send_step(p[0], SendEvent::Checked(Ok(true)), p[1], a[1]),
        is_send_step(p[1], SendEvent::Passed(Ok(())), p[2], a[2]),
        is_send_step(p[2], SendEvent::Found(Ok(found)), p[3], a[3]),
        is_send_step(p[3], SendEvent::Passed(Ok(())), p[4], a[4]),
        is_send_step(p[4], SendEvent::Passed(Ok(())), p[5], a[5]),
        is_send_step(p[5], SendEvent::Passed(Ok(())), p[6], a[6]),
        is_send_step(p[6], SendEvent::Passed(Ok(())), p[7], a[7]),
    ensures
        a[0] is CheckActivity,
        a[1] is CheckPause,
        a[2] is LookUp,
        p[2].message_id == message_id,
        match found {
            None => a[3] matches SendAction::Finish(Err(GroupError::NotFound(NotFound::MessageById(id)))) && id@
                == message_id@,
            Some(message) => if message.delivery_status == DeliveryStatus::Published {
                a[3] == SendAction::Finish(Ok(()))
            } else {
                &&& a[3] matches SendAction::Queue(queued) && queued.envelope.content@
                    == message.decrypted_message_bytes@ && queued.envelope.idempotency_key@ == numbers::signed_text(
                    message.sent_at_ns as int,
                ) && queued.should_push == message.should_push
                &&& a[4] is UpdateInstallations
                &&& a[5] is Sync
                &&& a[6] is AllowConsent
                &&& a[7] == SendAction::Finish(Ok(()))
            },
        },
{
}

/// Everything that waits is published this way where all goes well: the pause is checked, installations are
/// brought up to date, what waits is published, and the conversation is noted as wanted.
pub proof fn everything_that_waits_is_published(p: Seq<SendPass>, a: Seq<SendAction>)
    requires
        p.len() == 5,
        a.len() == 5,
        begins_publish_all(p[0], a[0]),
        is_send_step(p[0], SendEvent::Passed(Ok(())), p[1], a[1]),
        is_send_step(p[1], SendEvent::Passed(Ok(())), p[2], a[2]),
        is_send_step(p[2], SendEvent::Passed(Ok(())), p[3], a[3]),
        is_send_step(p[3], SendEvent::Passed(Ok(())), p[4], a[4]),
    ensures
        a[0] is CheckPause,
        a[1] is UpdateInstallations,
        a[2] is Sync,
        a[3] is AllowConsent,
        a[4] == SendAction::Finish(Ok(())),
{
}

/// A failure outside ends sending with that failure, and a client that is not active in the group sends
/// nothing; nothing else makes sending fail but a stored message that is not there.
pub proof fn sending_fails_as_its_steps_do(before: SendPass, event: SendEvent, after: SendPass, action: SendAction)
    requires
        is_send_step(before, event, after, action),
        action !is Ignore,
    ensures
        event matches SendEvent::Passed(Err(e)) ==> action == SendAction::Finish(Err(e)),
        event matches SendEvent::Checked(Err(e)) ==> action == SendAction::Finish(Err(e)),
        event matches SendEvent::Prepared(Err(e)) ==> action == SendAction::Finish(Err(e)),
        event matches SendEvent::Found(Err(e)) ==> action == SendAction::Finish(Err(GroupError::External(e))),
        (before.phase == SendPhase::CheckingActivity && event == SendEvent::Checked(Ok(false))) ==> action
            == SendAction::Finish(Err(GroupError::GroupInactive)),
        action matches SendAction::Finish(Err(_)) ==> match event {
            SendEvent::Passed(outcome) => outcome is Err,
            SendEvent::Checked(outcome) => outcome is Err || (before.phase == SendPhase::CheckingActivity && outcome
                == Ok::<_, GroupError>(false)),
            SendEvent::Prepared(outcome) => outcome is Err,
            SendEvent::Found(outcome) => outcome is Err || outcome->Ok_0 is None,
        },
{
}

/// Whether an action of a run was answered, and well, before action `n`.
pub open spec fn installations_were_updated(actions: Seq<SendAction>, events: Seq<SendEvent>, n: int) -> bool {
    exists|u: int|
        0 <= u && u + 1 < n && (#[trigger] actions[u]) is UpdateInstallations && (
        events[u + 1] matches SendEvent::Passed(Ok(_)))
}

/// Whether what waits was published after action `m` and before action `n`, with installations brought up to
/// date before.
pub open spec fn was_synced(actions: Seq<SendAction>, events: Seq<SendEvent>, m: int, n: int) -> bool {
    exists|j: int|
        m <= j && j + 1 <= n && (#[trigger] actions[j]) is Sync && (events[j + 1] matches SendEvent::Passed(Ok(_)))
            && installations_were_updated(actions, events, j + 1)
}

/// In every run of sending, of any kind, that queues or prepares a message and ends well, everything that
/// waits was published after that, and installations were brought up to date before it was published.
pub proof fn what_is_queued_is_published(
    passes: Seq<SendPass>,
    events: Seq<SendEvent>,
    actions: Seq<SendAction>,
    m: int,
    n: int,
)
    requires
        is_send_run(passes, events, actions),
        forall|i: int| 0 <= i < actions.len() ==> (#[trigger] actions[i]) !is Ignore,
        0 <= m < n < events.len(),
        actions[m] is Queue || actions[m] is Prepare,
        actions[n] == SendAction::Finish(Ok(())),
    ensures
        was_synced(actions, events, m, n),
{
    lemma_published(passes, events, actions, m, n);
    assert(is_send_step(passes[n], events[n], passes[n + 1], actions[n]));
}

proof fn lemma_published(
    passes: Seq<SendPass>,
    events: Seq<SendEvent>,
    actions: Seq<SendAction>,
    m: int,
    n: int,
)
    requires
        is_send_run(passes, events, actions),
        forall|i: int| 0 <= i < actions.len() ==> (#[trigger] actions[i]) !is Ignore,
        0 <= m < n <= events.len(),
        actions[m] is Queue || actions[m] is Prepare,
    ensures
        passes[n].phase != SendPhase::CheckingActivity,
        passes[n].phase != SendPhase::CheckingPause,
        passes[n].phase != SendPhase::LookingUp,
        passes[n].phase == SendPhase::Syncing ==> actions[n - 1] is Sync && installations_were_updated(
            actions,
            events,
            n,
        ),
        passes[n].phase == SendPhase::Consenting ==> actions[n - 1] is AllowConsent && was_synced(
            actions,
            events,
            m,
            n,
        ),
    decreases n,
{
    assert(is_send_step(passes[n - 1], events[n - 1], passes[n - 1 + 1], actions[n - 1]));
    assert(is_send_step(passes[m], events[m], passes[m + 1], actions[m]));
    lemma_installations(passes, events, actions, n);
    assert(actions[n - 1] !is Ignore);
    if n - 1 > m {
        lemma_published(passes, events, actions, m, n - 1);
        if passes[n].phase == SendPhase::Consenting {
            let j = n - 2;
            assert(actions[j] is Sync && (events[j + 1] matches SendEvent::Passed(Ok(_))));
            assert(was_synced(actions, events, m, n));
        }
    }
}

proof fn lemma_installations(passes: Seq<SendPass>, events: Seq<SendEvent>, actions: Seq<SendAction>, n: int)
    requires
        is_send_run(passes, events, actions),
        forall|i: int| 0 <= i < actions.len() ==> (#[trigger] actions[i]) !is Ignore,
        0 <= n <= events.len(),
    ensures
        passes[n].phase == SendPhase::UpdatingInstallations ==> n > 0 && actions[n - 1] is UpdateInstallations,
        (passes[n].phase == SendPhase::CheckingProposals || passes[n].phase == SendPhase::CommittingProposals
            || passes[n].phase == SendPhase::Preparing || passes[n].phase == SendPhase::Syncing || passes[n].phase
            == SendPhase::Consenting) ==> installations_were_updated(actions, events, n),
    decreases n,
{
    if n > 0 {
        lemma_installations(passes, events, actions, n - 1);
        assert(is_send_step(passes[n - 1], events[n - 1], passes[n - 1 + 1], actions[n - 1]));
        assert(actions[n - 1] !is Ignore);
        if installations_were_updated(actions, events, n - 1) {
            let u = choose|u: int|
                0 <= u && u + 1 < n - 1 && (#[trigger] actions[u]) is UpdateInstallations && (
                events[u + 1] matches SendEvent::Passed(Ok(_)));
            assert(0 <= u && u + 1 < n && actions[u] is UpdateInstallations);
        } else if passes[n - 1].phase == SendPhase::UpdatingInstallations && n >= 2 {
            assert(actions[n - 2] is UpdateInstallations);
        }
    }
}

/// Whether an event of a run told the id of the message that was prepared.
pub open spec fn was_prepared(events: Seq<SendEvent>, id: Vec<u8>, n: int) -> bool {
    exists|i: int| 0 <= i < n && #[trigger] events[i] == SendEvent::Prepared(Ok(id))
}

/// Whatever is prepared while a message is sent is the message that was given, with what its sender
/// asked for; and once sending has succeeded, its id is that of the message which was prepared.
pub proof fn the_given_message_is_sent(
    passes: Seq<SendPass>,
    events: Seq<SendEvent>,
    actions: Seq<SendAction>,
    n: int,
)
    requires
        is_send_run(passes, events, actions),
        passes[0].kind == SendKind::Send,
        0 <= n < events.len(),
    ensures
        actions[n] matches SendAction::Prepare { content, should_push } ==> content@ == passes[0].content@
            && should_push == passes[0].should_push,
        actions[n] == SendAction::Finish(Ok(())) ==> was_prepared(events, passes[n + 1].message_id, n),
{
    assert(is_send_step(passes[n], events[n], passes[n + 1], actions[n]));
    lemma_sent_message(passes, events, actions, n);
}

proof fn lemma_sent_message(passes: Seq<SendPass>, events: Seq<SendEvent>, actions: Seq<SendAction>, n: int)
    requires
        is_send_run(passes, events, actions),
        passes[0].kind == SendKind::Send,
        0 <= n <= events.len(),
    ensures
        passes[n].kind == SendKind::Send,
        passes[n].content == passes[0].content,
        passes[n].should_push == passes[0].should_push,
        passes[n].phase != SendPhase::LookingUp,
        passes[n].phase != SendPhase::Queueing,
        (passes[n].phase == SendPhase::Syncing || passes[n].phase == SendPhase::Consenting) ==> was_prepared(
            events,
            passes[n].message_id,
            n,
        ),
    decreases n,
{
    if n > 0 {
        lemma_sent_message(passes, events, actions, n - 1);
        assert(is_send_step(passes[n - 1], events[n - 1], passes[n - 1 + 1], actions[n - 1]));
        let id = passes[n].message_id;
        if was_prepared(events, id, n - 1) {
            let i = choose|i: int| 0 <= i < n - 1 && #[trigger] events[i] == SendEvent::Prepared(Ok(id));
            assert(0 <= i < n && events[i] == SendEvent::Prepared(Ok(id)));
        }
    }
}

/// Whether a row is that of a message which waits to be published.
pub open spec fn is_unpublished_message(
    m: StoredGroupMessage,
    group_id: Seq<u8>,
    content: Seq<u8>,
    message_id: Vec<u8>,
    now_ns: i64,
    fields: QueryableContentFields,
    installation_id: Seq<u8>,
    inbox_id: Seq<char>,
    originator_id: u32,
    should_push: bool,
) -> bool {
    &&& m.id == message_id
    &&& m.group_id@ == group_id
    &&& m.decrypted_message_bytes@ == content
    &&& m.sent_at_ns == now_ns
    &&& m.kind == GroupMessageKind::Application
    &&& m.sender_installation_id@ == installation_id
    &&& m.sender_inbox_id@ == inbox_id
    &&& m.delivery_status == DeliveryStatus::Unpublished
    &&& m.content_type == fields.content_type
    &&& m.version_major == fields.version_major
    &&& m.version_minor == fields.version_minor
    &&& m.authority_id == fields.authority_id
    &&& m.reference_id == fields.reference_id
    &&& m.sequence_id == 0
    &&& m.originator_id == originator_id
    &&& m.expire_at_ns is None
    &&& m.inserted_at_ns == 0
    &&& m.should_push == should_push
}

/// What a deletion of a message consists of.
#[derive(Debug)]
pub struct DeletePlan {
    /// The id of the deleted message, as the deletion names it.
    pub message_id: String,
    /// Whether a super admin deletes a message of another.
    pub is_super_admin_deletion: bool,
}

/// Whether a row is that of a deletion.
pub open spec fn is_deletion_record(
    r: StoredMessageDeletion,
    group_id: Seq<u8>,
    deletion_message_id: Vec<u8>,
    message_id: Vec<u8>,
    inbox_id: Seq<char>,
    is_super_admin_deletion: bool,
    now_ns: i64,
) -> bool {
    &&& r.id == deletion_message_id
    &&& r.group_id@ == group_id
    &&& r.deleted_message_id == message_id
    &&& r.deleted_by_inbox_id@ == inbox_id
    &&& r.is_super_admin_deletion == is_super_admin_deletion
    &&& r.deleted_at_ns == now_ns
}

/// Whether a result is what is queued for a message that was just stored.
pub open spec fn is_prepared(
    message: Seq<u8>,
    message_id: Seq<u8>,
    found: Result<Option<StoredGroupMessage>, ExternalError>,
    r: Result<QueuedMessage, GroupError>,
) -> bool {
    match found {
        Err(e) => r == Err::<QueuedMessage, _>(GroupError::External(e)),
        Ok(None) => r matches Err(GroupError::NotFound(NotFound::MessageById(id))) && id@ == message_id,
        Ok(Some(stored)) => {
            &&& r matches Ok(queued)
            &&& is_envelope(queued.envelope, message, stored.sent_at_ns)
            &&& queued.should_push == stored.should_push
        },
    }
}

/// Whether a result is the decision about the deletion of a message.
pub open spec fn is_deletion(
    group_id: Seq<u8>,
    message_id: Seq<u8>,
    found: Result<Option<StoredGroupMessage>, ExternalError>,
    is_deleted: Result<bool, ExternalError>,
    inbox_id: Seq<char>,
    is_super_admin: Result<bool, GroupError>,
    is_deletable: bool,
    r: Result<DeletePlan, GroupError>,
) -> bool {
    match found {
        Err(e) => r == Err::<DeletePlan, _>(GroupError::External(e)),
        Ok(None) => r matches Err(GroupError::DeleteMessage(DeleteMessageError::MessageNotFound(id))) && id@
            == codec::hex_text(message_id),
        Ok(Some(message)) => if message.group_id@ != group_id {
            r == Err::<DeletePlan, _>(GroupError::DeleteMessage(DeleteMessageError::NotAuthorized))
        } else {
            match (is_deleted, is_super_admin) {
                (Err(e), _) => r == Err::<DeletePlan, _>(GroupError::External(e)),
                (Ok(true), _) => r == Err::<DeletePlan, _>(
                    GroupError::DeleteMessage(DeleteMessageError::MessageAlreadyDeleted),
                ),
                (Ok(false), Err(e)) => r == Err::<DeletePlan, _>(e),
                (Ok(false), Ok(is_super_admin)) => {
                    let is_sender = message.sender_inbox_id@ == inbox_id;
                    if !is_sender && !is_super_admin {
                        r == Err::<DeletePlan, _>(
                            GroupError::DeleteMessage(DeleteMessageError::NotAuthorized),
                        )
                    } else if !is_deletable {
                        r == Err::<DeletePlan, _>(
                            GroupError::DeleteMessage(DeleteMessageError::NonDeletableMessage),
                        )
                    } else {
                        &&& r matches Ok(plan)
                        &&& plan.message_id@ == codec::hex_text(message_id)
                        &&& plan.is_super_admin_deletion == !is_sender
                    }
                },
            }
        },
    }
}

/// A message can be deleted exactly if it is in this group, is not deleted yet, can be deleted at all, and who
/// deletes it has sent it or is a super admin. The deletion names it by its id, and counts as one by a super
/// admin exactly if it is of somebody else's message.
pub proof fn messages_are_deleted_by_those_who_may(
    group_id: Seq<u8>,
    message_id: Seq<u8>,
    message: StoredGroupMessage,
    is_deleted: bool,
    inbox_id: Seq<char>,
    is_super_admin: bool,
    is_deletable: bool,
    r: Result<DeletePlan, GroupError>,
)
    requires
        is_deletion(
            group_id,
            message_id,
            Ok(Some(message)),
            Ok(is_deleted),
            inbox_id,
            Ok(is_super_admin),
            is_deletable,
            r,
        ),
    ensures
        r is Ok <==> message.group_id@ == group_id && !is_deleted && is_deletable && (message.sender_inbox_id@
            == inbox_id || is_super_admin),
        r matches Ok(plan) ==> plan.message_id@ == codec::hex_text(message_id) && (plan.is_super_admin_deletion
            <==> message.sender_inbox_id@ != inbox_id) && (plan.is_super_admin_deletion ==> is_super_admin),
        r matches Err(e) ==> e == GroupError::DeleteMessage(
            if message.group_id@ != group_id {
                DeleteMessageError::NotAuthorized
            } else if is_deleted {
                DeleteMessageError::MessageAlreadyDeleted
            } else if message.sender_inbox_id@ != inbox_id && !is_super_admin {
                DeleteMessageError::NotAuthorized
            } else {
                DeleteMessageError::NonDeletableMessage
            },
        ),
{
}

/// Nothing is deleted where the message is not there, or where the store or the group cannot tell what has to
/// be known.
pub proof fn deletions_need_to_know(
    group_id: Seq<u8>,
    message_id: Seq<u8>,
    found: Result<Option<StoredGroupMessage>, ExternalError>,
    is_deleted: Result<bool, ExternalError>,
    inbox_id: Seq<char>,
    is_super_admin: Result<bool, GroupError>,
    is_deletable: bool,
    r: Result<DeletePlan, GroupError>,
)
    requires
        is_deletion(group_id, message_id, found, is_deleted, inbox_id, is_super_admin, is_deletable, r),
    ensures
        found matches Err(e) ==> r == Err::<DeletePlan, _>(GroupError::External(e)),
        found == Ok::<Option<StoredGroupMessage>, ExternalError>(None) ==> (r matches Err(
            GroupError::DeleteMessage(DeleteMessageError::MessageNotFound(id)),
        ) && id@ == codec::hex_text(message_id)),
        r is Ok ==> found is Ok && found->Ok_0 is Some && is_deleted == Ok::<_, ExternalError>(false) && is_super_admin
            is Ok,
{
}

/// A message that is stored to be published later is found with the content, the time and the push that it was
/// stored with, as an unpublished message of this group from this user; and what is queued for it, at once or
/// later, is that content under a key that its time alone decides.
pub proof fn stored_messages_are_published_as_they_were_stored(
    stored: StoredGroupMessage,
    group_id: Seq<u8>,
    content: Seq<u8>,
    message_id: Vec<u8>,
    now_ns: i64,
    fields: QueryableContentFields,
    installation_id: Seq<u8>,
    inbox_id: Seq<char>,
    originator_id: u32,
    should_push: bool,
    at_once: Result<QueuedMessage, GroupError>,
    before: SendPass,
    after: SendPass,
    later: SendAction,
)
    requires
        is_unpublished_message(
            stored,
            group_id,
            content,
            message_id,
            now_ns,
            fields,
            installation_id,
            inbox_id,
            originator_id,
            should_push,
        ),
        is_prepared(content, message_id@, Ok(Some(stored)), at_once),
        before.phase == SendPhase::LookingUp,
        is_send_step(before, SendEvent::Found(Ok(Some(stored))), after, later),
    ensures
        stored.id == message_id,
        stored.group_id@ == group_id,
        stored.decrypted_message_bytes@ == content,
        stored.sent_at_ns == now_ns,
        stored.sender_inbox_id@ == inbox_id,
        stored.sender_installation_id@ == installation_id,
        stored.delivery_status == DeliveryStatus::Unpublished,
        stored.kind == GroupMessageKind::Application,
        stored.content_type == fields.content_type,
        stored.version_major == fields.version_major,
        stored.version_minor == fields.version_minor,
        stored.authority_id == fields.authority_id,
        stored.reference_id == fields.reference_id,
        stored.originator_id == originator_id,
        stored.should_push == should_push,
        stored.expire_at_ns is None,
        at_once matches Ok(queued) && queued.envelope.content@ == content && queued.envelope.idempotency_key@
            == numbers::signed_text(now_ns as int) && queued.should_push == should_push,
        later matches SendAction::Queue(queued) && queued.envelope.content@ == content
            && queued.envelope.idempotency_key@ == numbers::signed_text(now_ns as int) && queued.should_push
            == should_push,
{
}

/// Envelopes of messages from different times have different keys: no two of them are taken for one.
pub proof fn envelopes_are_kept_apart(a: PlaintextEnvelope, b: PlaintextEnvelope, content: Seq<u8>, at: i64, later: i64)
    requires
        is_envelope(a, content, at),
        is_envelope(b, content, later),
    ensures
        a.content@ == content,
        a.idempotency_key@ == b.idempotency_key@ <==> at == later,
{
    numbers::signed_text_is_read_back(at);
    numbers::signed_text_is_read_back(later);
}

/// The row of a deletion names the message that tells of it, the deleted message, and who deleted it when.
pub proof fn deletions_are_on_record(
    r: StoredMessageDeletion,
    group_id: Seq<u8>,
    deletion_message_id: Vec<u8>,
    message_id: Vec<u8>,
    inbox_id: Seq<char>,
    by_super_admin: bool,
    now_ns: i64,
)
    requires
        is_deletion_record(r, group_id, deletion_message_id, message_id, inbox_id, by_super_admin, now_ns),
    ensures
        r.id@ == deletion_message_id@,
        r.deleted_message_id@ == message_id@,
        r.group_id@ == group_id,
        r.deleted_by_inbox_id@ == inbox_id,
        r.is_super_admin_deletion <==> by_super_admin,
        r.deleted_at_ns == now_ns,
{
}

impl MlsGroup {
    /// The row of a message that waits to be published. `message_id` was calculated for the content
    /// at that time; `originator_id` is that of application messages.
    pub fn prepare_message_for_later_publish(
        &self,
        message: &[u8],
        message_id: Vec<u8>,
        now_ns: i64,
        fields: QueryableContentFields,
        installation_id: &[u8],
        inbox_id: &str,
        originator_id: u32,
        should_push: bool,
    ) -> (r: StoredGroupMessage)
        ensures
            is_unpublished_message(
                r,
                self.group_id@,
                message@,
                message_id,
                now_ns,
                fields,
                installation_id@,
                inbox_id@,
                originator_id,
                should_push,
            ),
    {
        StoredGroupMessage {
            id: message_id,
            group_id: bytes::clone_bytes(self.group_id.as_slice()),
            decrypted_message_bytes: bytes::clone_bytes(message),
            sent_at_ns: now_ns,
            kind: GroupMessageKind::Application,
            sender_installation_id: bytes::clone_bytes(installation_id),
            sender_inbox_id: inbox_id.to_owned(),
            delivery_status: DeliveryStatus::Unpublished,
            content_type: fields.content_type,
            version_major: fields.version_major,
            version_minor: fields.version_minor,
            authority_id: fields.authority_id,
            reference_id: fields.reference_id,
            sequence_id: 0,
            originator_id: originator_id as i64,
            expire_at_ns: None,
            inserted_at_ns: 0,
            should_push,
        }
    }

    /// What is queued for a message that was just stored. `found` is its row, which must be there.
    pub fn prepare_message(
        &self,
        message: &[u8],
        message_id: &[u8],
        found: Result<Option<StoredGroupMessage>, ExternalError>,
    ) -> (r: Result<QueuedMessage, GroupError>)
        ensures
            is_prepared(message@, message_id@, found, r),
    {
        match found {
            Err(e) => Err(GroupError::External(e)),
            Ok(None) => Err(GroupError::NotFound(NotFound::MessageById(bytes::clone_bytes(message_id)))),
            Ok(Some(stored)) => Ok(
                QueuedMessage {
                    envelope: into_envelope(message, stored.sent_at_ns),
                    should_push: stored.should_push,
                },
            ),
        }
    }

    /// Decides whether a message may be deleted. `found` is its row; `is_deletable` tells whether
    /// messages of its kind and content can be deleted at all. Only its sender and super admins may.
    pub fn delete_message(
        &self,
        message_id: &[u8],
        found: Result<Option<StoredGroupMessage>, ExternalError>,
        is_deleted: Result<bool, ExternalError>,
        inbox_id: &str,
        is_super_admin: Result<bool, GroupError>,
        is_deletable: bool,
    ) -> (r: Result<DeletePlan, GroupError>)
        requires
            2 * message_id@.len() <= isize::MAX,
        ensures
            is_deletion(self.group_id@, message_id@, found, is_deleted, inbox_id@, is_super_admin, is_deletable, r),
    {
        let message = match found {
            Err(e) => return Err(GroupError::External(e)),
            Ok(None) => return Err(
                GroupError::DeleteMessage(DeleteMessageError::MessageNotFound(codec::hex_encode(message_id))),
            ),
            Ok(Some(message)) => message,
        };
        if !bytes::bytes_equal(message.group_id.as_slice(), self.group_id.as_slice()) {
            return Err(GroupError::DeleteMessage(DeleteMessageError::NotAuthorized));
        }
        match is_deleted {
            Err(e) => return Err(GroupError::External(e)),
            Ok(true) => return Err(GroupError::DeleteMessage(DeleteMessageError::MessageAlreadyDeleted)),
            Ok(false) => {},
        }
        let is_sender: bool = bytes::text_equal(message.sender_inbox_id.as_str(), inbox_id);
        let is_super_admin: bool = match is_super_admin {
            Ok(is_super_admin) => is_super_admin,
            Err(e) => return Err(e),
        };
        if !is_sender && !is_super_admin {
            return Err(GroupError::DeleteMessage(DeleteMessageError::NotAuthorized));
        }
        if !is_deletable {
            return Err(GroupError::DeleteMessage(DeleteMessageError::NonDeletableMessage));
        }
        Ok(
            DeletePlan {
                message_id: codec::hex_encode(message_id),
                is_super_admin_deletion: !is_sender && is_super_admin,
            },
        )
    }

    /// The row of a deletion that was queued as a message of its own.
    pub fn deletion_record(
        &self,
        deletion_message_id: Vec<u8>,
        message_id: Vec<u8>,
        inbox_id: &str,
        is_super_admin_deletion: bool,
        now_ns: i64,
    ) -> (r: StoredMessageDeletion)
        ensures
            is_deletion_record(
                r,
                self.group_id@,
                deletion_message_id,
                message_id,
                inbox_id@,
                is_super_admin_deletion,
                now_ns,
            ),
    {
        StoredMessageDeletion {
            id: deletion_message_id,
            group_id: bytes::clone_bytes(self.group_id.as_slice()),
            deleted_message_id: message_id,
            deleted_by_inbox_id: inbox_id.to_owned(),
            is_super_admin_deletion,
            deleted_at_ns: now_ns,
        }
    }
}

/// Sending that has come to its end does nothing more, and what does not fit the step that it waits for changes nothing.
pub proof fn finished_sending_stays_finished(
    before: SendPass,
    event: SendEvent,
    after: SendPass,
    action: SendAction,
)
    requires
        is_send_step(before, event, after, action),
    ensures
        before.phase is Done ==> action is Ignore,
        action is Ignore ==> after == before,
{
}

} // verus!
