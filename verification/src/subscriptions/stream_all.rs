//! The stream of all messages: those of the followed groups, and those of conversations that join.

use std::collections::VecDeque;
use vstd::prelude::*;
use crate::bytes;
use crate::groups::group::MlsGroup;
use crate::records::{ConsentState, ConversationType, GlobalCursor, StoredGroup, StoredGroupMessage};
use crate::subscriptions::error::SubscribeError;
use crate::subscriptions::process_welcome;
use crate::subscriptions::stream_conversations::Polled;

verus! {

/// What a stream of all messages starts with.
#[derive(Debug)]
pub struct StreamAllBootstrap {
    pub active_conversations: Vec<Vec<u8>>,
    /// The groups between the devices of the user.
    pub sync_groups: Vec<Vec<u8>>,
}

/// Whether groups between the devices of the user are followed.
pub open spec fn follows_sync_groups(conversation_type: Option<ConversationType>) -> bool {
    conversation_type is None || conversation_type == Some(ConversationType::Sync)
}

/// Groups between the devices of the user are followed in a stream of everything and in one of these groups, and in no
/// other.
pub proof fn device_groups_are_followed_unless_others_are_asked_for(t: ConversationType)
    ensures
        follows_sync_groups(None),
        follows_sync_groups(Some(t)) <==> t == ConversationType::Sync,
{
}

/// Whether groups between the devices of the user are followed: they are, unless only other types are
/// asked for.
pub fn include_sync_groups(conversation_type: Option<ConversationType>) -> (r: bool)
    ensures
        r == follows_sync_groups(conversation_type),
{
    match conversation_type {
        Some(ConversationType::Sync) => true,
        Some(_) => false,
        None => true,
    }
}

/// The ids of groups.
pub open spec fn ids_of(groups: Seq<StoredGroup>) -> Seq<Seq<u8>> {
    groups.map_values(|g: StoredGroup| g.id@)
}

/// The groups between the devices of the user.
pub open spec fn sync_groups_of(groups: Seq<StoredGroup>) -> Seq<StoredGroup> {
    groups.filter(|g: StoredGroup| g.conversation_type == ConversationType::Sync)
}

/// Whether a stream of all messages starts with some groups.
pub open spec fn is_bootstrap(groups: Seq<StoredGroup>, r: StreamAllBootstrap) -> bool {
    &&& bytes::byte_views(r.active_conversations@) == ids_of(groups)
    &&& bytes::byte_views(r.sync_groups@) == ids_of(sync_groups_of(groups))
}

/// Every group that is found is followed, and each group between the devices of the user, but no other, is
/// known as such.
pub proof fn streams_start_with_all_groups(groups: Seq<StoredGroup>, r: StreamAllBootstrap, i: int, k: int)
    requires
        is_bootstrap(groups, r),
        0 <= i < groups.len(),
    ensures
        r.active_conversations@.len() == groups.len(),
        r.active_conversations@[i]@ == groups[i].id@,
        groups[i].conversation_type == ConversationType::Sync ==> bytes::byte_views(r.sync_groups@).contains(
            groups[i].id@,
        ),
        0 <= k < r.sync_groups@.len() ==> exists|g: int|
            0 <= g < groups.len() && (#[trigger] groups[g]).conversation_type == ConversationType::Sync && groups[g].id@
                == r.sync_groups@[k]@,
{
    let p = |g: StoredGroup| g.conversation_type == ConversationType::Sync;
    let kept = groups.filter(p);
    assert(bytes::byte_views(r.active_conversations@).len() == r.active_conversations@.len());
    assert(bytes::byte_views(r.active_conversations@)[i] == ids_of(groups)[i]);
    if p(groups[i]) {
        groups.lemma_filter_contains(p, i);
        let k = choose|k: int| 0 <= k < kept.len() && kept[k] == groups[i];
        assert(ids_of(kept)[k] == groups[i].id@);
        assert(bytes::byte_views(r.sync_groups@)[k] == groups[i].id@);
    }
    assert(bytes::byte_views(r.sync_groups@).len() == r.sync_groups@.len());
    if 0 <= k < r.sync_groups@.len() {
        assert(bytes::byte_views(r.sync_groups@)[k] == ids_of(kept)[k]);
        groups.lemma_filter_pred(p, k);
        groups.lemma_filter_contains_rev(p, kept[k]);
        let g = choose|g: int| 0 <= g < groups.len() && groups[g] == kept[k];
        assert(groups[g].conversation_type == ConversationType::Sync);
    }
}

/// What a stream of all messages starts with, given the groups that it follows.
pub fn load_stream_bootstrap(groups: &Vec<StoredGroup>) -> (r: StreamAllBootstrap)
    ensures
        is_bootstrap(groups@, r),
{
    let ghost p = |g: StoredGroup| g.conversation_type == ConversationType::Sync;
    let mut active_conversations: Vec<Vec<u8>> = Vec::new();
    let mut sync_groups: Vec<Vec<u8>> = Vec::new();
    let mut i: usize = 0;
    proof {
        reveal(Seq::filter);
        assert(groups@.take(0) =~= Seq::<StoredGroup>::empty());
        assert(bytes::byte_views(active_conversations@) =~= ids_of(groups@.take(0)));
        assert(bytes::byte_views(sync_groups@) =~= ids_of(groups@.take(0).filter(p)));
    }
    while i < groups.len()
        invariant
            i <= groups@.len(),
            p == (|g: StoredGroup| g.conversation_type == ConversationType::Sync),
            bytes::byte_views(active_conversations@) == ids_of(groups@.take(i as int)),
            bytes::byte_views(sync_groups@) == ids_of(groups@.take(i as int).filter(p)),
        decreases groups@.len() - i,
    {
        proof {
            reveal(Seq::filter);
            assert(groups@.take(i + 1).drop_last() =~= groups@.take(i as int));
            assert(groups@.take(i + 1).last() == groups@[i as int]);
        }
        let ghost before_active = active_conversations@;
        let ghost before_sync = sync_groups@;
        let id = groups[i].id.as_slice();
        if groups[i].conversation_type == ConversationType::Sync {
            sync_groups.push(bytes::clone_bytes(id));
            assert(bytes::byte_views(sync_groups@) =~= bytes::byte_views(before_sync).push(id@));
            assert(ids_of(groups@.take(i + 1).filter(p)) =~= ids_of(groups@.take(i as int).filter(p)).push(id@));
        }
        active_conversations.push(bytes::clone_bytes(id));
        assert(bytes::byte_views(active_conversations@) =~= bytes::byte_views(before_active).push(id@));
        assert(ids_of(groups@.take(i + 1)) =~= ids_of(groups@.take(i as int)).push(id@));
        i += 1;
    }
    assert(groups@.take(i as int) =~= groups@);
    StreamAllBootstrap { active_conversations, sync_groups }
}

/// What is on record about the conversation of a message.
#[derive(Debug)]
pub struct ConsentFacts {
    /// The group of the message.
    pub group: Result<Option<StoredGroup>, SubscribeError>,
    /// What is on record for the other person of a direct conversation.
    pub peer: Result<Option<ConsentState>, SubscribeError>,
    /// What is on record for any direct conversation with that person.
    pub stitched: Result<Option<ConsentState>, SubscribeError>,
    /// What is on record for the conversation itself.
    pub direct: Result<Option<ConsentState>, SubscribeError>,
}

impl ConsentFacts {
    /// What is given for a stream that is for all of the user's decisions, where nothing is asked.
    pub fn unasked() -> (r: Self)
        ensures
            r.group matches Ok(None),
            r.peer matches Ok(None),
            r.stitched matches Ok(None),
            r.direct matches Ok(None),
    {
        ConsentFacts { group: Ok(None), peer: Ok(None), stitched: Ok(None), direct: Ok(None) }
    }
}

/// The first of three states that is there.
pub open spec fn first_state(
    a: Option<ConsentState>,
    b: Option<ConsentState>,
    c: Option<ConsentState>,
) -> ConsentState {
    match a {
        Some(s) => s,
        None => match b {
            Some(s) => s,
            None => match c {
                Some(s) => s,
                None => ConsentState::Unknown,
            },
        },
    }
}

/// What the user has decided about the conversation of a message, or the first error that keeps this
/// from being known. In a direct conversation the decision about the person comes first, then that
/// about any conversation with the person, then that about the conversation itself.
pub open spec fn message_consent(facts: ConsentFacts) -> Result<ConsentState, SubscribeError> {
    match facts.group {
        Err(e) => Err(e),
        Ok(group) => if group is Some && group->0.conversation_type == ConversationType::Dm && group->0.dm_id is Some {
            match (facts.peer, facts.stitched, facts.direct) {
                (Err(e), _, _) => Err(e),
                (Ok(_), Err(e), _) => Err(e),
                (Ok(_), Ok(_), Err(e)) => Err(e),
                (Ok(peer), Ok(stitched), Ok(direct)) => Ok(first_state(peer, stitched, direct)),
            }
        } else {
            match facts.direct {
                Err(e) => Err(e),
                Ok(direct) => Ok(first_state(direct, None, None)),
            }
        },
    }
}

/// Whether a message goes into a stream that is for some of the user's decisions, or the error that keeps
/// this from being known. Where the stream is for all, it does.
pub open spec fn consent_answer(consent_states: Option<Vec<ConsentState>>, facts: ConsentFacts) -> Result<
    bool,
    SubscribeError,
> {
    match consent_states {
        None => Ok(true),
        Some(states) => match message_consent(facts) {
            Err(e) => Err(e),
            Ok(state) => Ok(states@.contains(state)),
        },
    }
}

/// A message of a conversation that is not a direct one passes a filter exactly if the filter lists what is on
/// record for the conversation, and where nothing is on record, exactly if it lists what is not decided.
pub proof fn undecided_conversations_count_as_unknown(wanted: Vec<ConsentState>, facts: ConsentFacts)
    requires
        facts.group matches Ok(group) && (group is None || group->0.conversation_type != ConversationType::Dm
            || group->0.dm_id is None),
    ensures
        facts.direct matches Err(e) ==> consent_answer(Some(wanted), facts) == Err::<bool, _>(e),
        facts.direct == Ok::<Option<ConsentState>, SubscribeError>(None) ==> consent_answer(Some(wanted), facts)
            == Ok::<_, SubscribeError>(wanted@.contains(ConsentState::Unknown)),
        facts.direct matches Ok(Some(state)) ==> consent_answer(Some(wanted), facts) == Ok::<_, SubscribeError>(
            wanted@.contains(state),
        ),
{
}

/// A message of a direct conversation passes a filter by what was decided about the person, if anything was;
/// else by what was decided about any conversation with the person; else by what was decided about this one;
/// and where nothing was decided, exactly if the filter lists what is not decided.
pub proof fn direct_conversations_follow_the_person(
    wanted: Vec<ConsentState>,
    facts: ConsentFacts,
    peer: Option<ConsentState>,
    stitched: Option<ConsentState>,
    direct: Option<ConsentState>,
)
    requires
        facts.group matches Ok(Some(group)) && group.conversation_type == ConversationType::Dm && group.dm_id is Some,
        facts.peer == Ok::<_, SubscribeError>(peer),
        facts.stitched == Ok::<_, SubscribeError>(stitched),
        facts.direct == Ok::<_, SubscribeError>(direct),
    ensures
        consent_answer(Some(wanted), facts) is Ok,
        peer matches Some(state) ==> consent_answer(Some(wanted), facts)->Ok_0 == wanted@.contains(state),
        (peer is None && stitched is Some) ==> consent_answer(Some(wanted), facts)->Ok_0 == wanted@.contains(
            stitched->0,
        ),
        (peer is None && stitched is None && direct is Some) ==> consent_answer(Some(wanted), facts)->Ok_0
            == wanted@.contains(direct->0),
        (peer is None && stitched is None && direct is None) ==> consent_answer(Some(wanted), facts)->Ok_0
            == wanted@.contains(ConsentState::Unknown),
{
}

/// A stream that is for some decisions of the user lets a message through only if one of them is on record, or
/// if it is for what is not decided; so one for allowed conversations never lets through what nobody allowed.
/// A stream that is for all lets everything through.
pub proof fn only_recorded_decisions_let_messages_through(wanted: Vec<ConsentState>, facts: ConsentFacts)
    ensures
        consent_answer(None, facts) == Ok::<_, SubscribeError>(true),
        (consent_answer(Some(wanted), facts) == Ok::<_, SubscribeError>(true) && !wanted@.contains(
            ConsentState::Unknown,
        )) ==> {
            ||| facts.direct matches Ok(Some(state)) && wanted@.contains(state)
            ||| facts.peer matches Ok(Some(state)) && wanted@.contains(state)
            ||| facts.stitched matches Ok(Some(state)) && wanted@.contains(state)
        },
        (consent_answer(Some(wanted), facts) == Ok::<_, SubscribeError>(true) && wanted@ == seq![
            ConsentState::Allowed,
        ]) ==> {
            ||| facts.direct == Ok::<_, SubscribeError>(Some(ConsentState::Allowed))
            ||| facts.peer == Ok::<_, SubscribeError>(Some(ConsentState::Allowed))
            ||| facts.stitched == Ok::<_, SubscribeError>(Some(ConsentState::Allowed))
        },
        facts.group matches Err(e) ==> consent_answer(Some(wanted), facts) == Err::<bool, _>(e),
{
    if wanted@ == seq![ConsentState::Allowed] {
        assert forall|state: ConsentState| wanted@.contains(state) implies state == ConsentState::Allowed by {
            let i = choose|i: int| 0 <= i < wanted@.len() && wanted@[i] == state;
            assert(wanted@[i] == seq![ConsentState::Allowed][i]);
        }
    }
}

fn first_of(a: Option<ConsentState>, b: Option<ConsentState>, c: Option<ConsentState>) -> (r: ConsentState)
    ensures
        r == first_state(a, b, c),
{
    match (a, b, c) {
        (Some(s), _, _) => s,
        (None, Some(s), _) => s,
        (None, None, Some(s)) => s,
        (None, None, None) => ConsentState::Unknown,
    }
}

/// Whether a message goes into a stream that is for some of the user's decisions. Where the stream is
/// for all, nothing is asked.
pub fn message_matches_consent_filter(consent_states: &Option<Vec<ConsentState>>, facts: ConsentFacts) -> (r: Result<
    bool,
    SubscribeError,
>)
    ensures
        r == consent_answer(*consent_states, facts),
{
    let states = match consent_states {
        None => return Ok(true),
        Some(states) => states,
    };
    let group = match facts.group {
        Err(e) => return Err(e),
        Ok(group) => group,
    };
    let is_dm: bool = match &group {
        Some(g) => g.conversation_type == ConversationType::Dm && g.dm_id.is_some(),
        None => false,
    };
    let mut peer: Option<ConsentState> = None;
    let mut stitched: Option<ConsentState> = None;
    if is_dm {
        match facts.peer {
            Err(e) => return Err(e),
            Ok(state) => {
                peer = state;
            },
        }
        match facts.stitched {
            Err(e) => return Err(e),
            Ok(state) => {
                stitched = state;
            },
        }
    }
    let direct: Option<ConsentState> = match facts.direct {
        Err(e) => return Err(e),
        Ok(state) => state,
    };
    let state = first_of(peer, stitched, direct);
    Ok(process_welcome::contains_state(states, state))
}

/// What the stream is doing.
#[derive(Debug)]
pub enum AllPhase {
    Idle,
    /// A repeated message is held against the user's decisions.
    CheckingReplay(StoredGroupMessage),
    PollingMessages,
    /// A new message is held against the user's decisions.
    CheckingLive(StoredGroupMessage),
    PollingConversations,
    /// The messages of a conversation that are repeated are loaded.
    LoadingReplay(MlsGroup),
    /// How far a conversation was read is loaded.
    LoadingCursor(MlsGroup),
}

/// What has happened outside.
#[derive(Debug)]
pub enum AllEvent {
    /// The stream is polled.
    Poll,
    /// What is on record about the conversation of the message.
    Consent(ConsentFacts),
    Message(Polled<Result<StoredGroupMessage, SubscribeError>>),
    Conversation(Polled<Result<MlsGroup, SubscribeError>>),
    Replay(Result<Vec<StoredGroupMessage>, SubscribeError>),
    Cursor(Result<Option<GlobalCursor>, SubscribeError>),
}

/// What is to be done next outside.
#[derive(Debug)]
pub enum AllAction {
    /// Find out what is on record about the conversation of the message.
    CheckConsent,
    PollMessages,
    PollConversations,
    /// Tell the worker that a message came between the devices of the user, and poll again.
    NotifySyncWorker,
    /// Load the application messages of a group that were sent after a time.
    LoadReplay { sent_after_ns: i64 },
    /// Load how far the conversation was read.
    LoadCursor,
    /// Let the stream of messages follow a conversation too, and poll again.
    Attach { group: MlsGroup, cursor: Option<GlobalCursor> },
    Yield(Result<StoredGroupMessage, SubscribeError>),
    Pending,
    Ended,
    Ignore,
}

/// The stream of all messages.
#[derive(Debug)]
pub struct StreamAllMessages {
    pub phase: AllPhase,
    /// The messages that are repeated before any other.
    pub replay_queue: VecDeque<StoredGroupMessage>,
    pub sync_groups: Vec<Vec<u8>>,
    pub conversation_type: Option<ConversationType>,
    pub consent_states: Option<Vec<ConsentState>>,
}

/// Whether a stream has the settings of another.
pub open spec fn same_settings(a: StreamAllMessages, b: StreamAllMessages) -> bool {
    &&& a.sync_groups == b.sync_groups
    &&& a.conversation_type == b.conversation_type
    &&& a.consent_states == b.consent_states
}

/// Whether a stream goes on with the next message: a repeated one first.
pub open spec fn takes_next(before: StreamAllMessages, after: StreamAllMessages, action: AllAction) -> bool {
    &&& same_settings(before, after)
    &&& if before.replay_queue@.len() > 0 {
        &&& after.phase == AllPhase::CheckingReplay(before.replay_queue@[0])
        &&& after.replay_queue@ == before.replay_queue@.skip(1)
        &&& action is CheckConsent
    } else {
        &&& after.phase is PollingMessages
        &&& after.replay_queue@ == before.replay_queue@
        &&& action is PollMessages
    }
}

/// Whether a stream rests with an action.
pub open spec fn rests(before: StreamAllMessages, after: StreamAllMessages) -> bool {
    &&& same_settings(before, after)
    &&& after.phase is Idle
    &&& after.replay_queue@ == before.replay_queue@
}

/// Whether a stream waits for something, with what repeats unchanged.
pub open spec fn waits(before: StreamAllMessages, after: StreamAllMessages, phase: AllPhase) -> bool {
    &&& same_settings(before, after)
    &&& after.phase == phase
    &&& after.replay_queue@ == before.replay_queue@
}

/// The transitions of the stream.
pub open spec fn is_all_step(
    before: StreamAllMessages,
    event: AllEvent,
    after: StreamAllMessages,
    action: AllAction,
) -> bool {
    match (before.phase, event) {
        (AllPhase::Idle, AllEvent::Poll) => takes_next(before, after, action),
        (AllPhase::CheckingReplay(message), AllEvent::Consent(facts)) => match consent_answer(
            before.consent_states,
            facts,
        ) {
            Ok(true) => rests(before, after) && action == AllAction::Yield(Ok(message)),
            Ok(false) => takes_next(before, after, action),
            Err(e) => rests(before, after) && action == AllAction::Yield(Err(e)),
        },
        (AllPhase::PollingMessages, AllEvent::Message(polled)) => match polled {
            Polled::Item(Ok(message)) => if bytes::byte_views(before.sync_groups@).contains(message.group_id@) {
                rests(before, after) && action is NotifySyncWorker
            } else {
                waits(before, after, AllPhase::CheckingLive(message)) && action is CheckConsent
            },
            Polled::Item(Err(e)) => rests(before, after) && action == AllAction::Yield(Err(e)),
            Polled::Ended => rests(before, after) && action is Ended,
            Polled::Pending => waits(before, after, AllPhase::PollingConversations) && action is PollConversations,
        },
        (AllPhase::CheckingLive(message), AllEvent::Consent(facts)) => match consent_answer(
            before.consent_states,
            facts,
        ) {
            Ok(true) => rests(before, after) && action == AllAction::Yield(Ok(message)),
            Ok(false) => takes_next(before, after, action),
            Err(e) => rests(before, after) && action == AllAction::Yield(Err(e)),
        },
        (AllPhase::PollingConversations, AllEvent::Conversation(polled)) => match polled {
            Polled::Item(Ok(group)) => match group.stream_replay_after_ns {
                Some(t) => {
                    &&& waits(before, after, AllPhase::LoadingReplay(group))
                    &&& action == (AllAction::LoadReplay { sent_after_ns: before_ns(t) })
                },
                None => match group.stream_seed_cursor {
                    Some(cursor) => {
                        &&& rests(before, after)
                        &&& action matches AllAction::Attach { group: attached, cursor: at }
                        &&& attached == group
                        &&& at is Some
                        &&& at->0.positions@ == cursor.positions@
                    },
                    None => waits(before, after, AllPhase::LoadingCursor(group)) && action is LoadCursor,
                },
            },
            Polled::Item(Err(e)) => rests(before, after) && action == AllAction::Yield(Err(e)),
            Polled::Ended => rests(before, after) && action is Pending,
            Polled::Pending => rests(before, after) && action is Pending,
        },
        (AllPhase::LoadingReplay(group), AllEvent::Replay(outcome)) => match outcome {
            Ok(messages) => {
                &&& same_settings(before, after)
                &&& after.phase == AllPhase::LoadingCursor(group)
                &&& after.replay_queue@ == before.replay_queue@ + messages@
                &&& action is LoadCursor
            },
            Err(e) => rests(before, after) && action == AllAction::Yield(Err(e)),
        },
        (AllPhase::LoadingCursor(group), AllEvent::Cursor(outcome)) => match outcome {
            Ok(cursor) => rests(before, after) && action == (AllAction::Attach { group, cursor }),
            Err(e) => rests(before, after) && action == AllAction::Yield(Err(e)),
        },
        _ => after == before && action is Ignore,
    }
}

/// The moment before a time, so that messages of that time come after it; the earliest of all has
/// none before it.
pub open spec fn before_ns(t: i64) -> i64 {
    if t == i64::MIN {
        t
    } else {
        (t - 1) as i64
    }
}

fn moment_before(t: i64) -> (r: i64)
    ensures
        r == before_ns(t),
{
    if t == i64::MIN {
        t
    } else {
        t - 1
    }
}

fn take_next(stream: StreamAllMessages) -> (r: (StreamAllMessages, AllAction))
    ensures
        takes_next(stream, r.0, r.1),
{
    let mut stream = stream;
    let ghost queue = stream.replay_queue@;
    match stream.replay_queue.pop_front() {
        Some(message) => {
            assert(stream.replay_queue@ =~= queue.skip(1));
            stream.phase = AllPhase::CheckingReplay(message);
            (stream, AllAction::CheckConsent)
        },
        None => {
            stream.phase = AllPhase::PollingMessages;
            (stream, AllAction::PollMessages)
        },
    }
}

/// Whether a stream of all messages is a new one.
pub open spec fn is_new_stream(
    bootstrap: StreamAllBootstrap,
    conversation_type: Option<ConversationType>,
    consent_states: Option<Vec<ConsentState>>,
    r: StreamAllMessages,
) -> bool {
    &&& r.phase is Idle
    &&& r.replay_queue@.len() == 0
    &&& r.sync_groups == bootstrap.sync_groups
    &&& r.conversation_type == conversation_type
    &&& r.consent_states == consent_states
}

/// A new stream filters as it was asked to, has nothing to repeat, and knows all groups between the devices of the user.
pub proof fn new_streams_filter_as_asked(
    groups: Seq<StoredGroup>,
    bootstrap: StreamAllBootstrap,
    conversation_type: Option<ConversationType>,
    consent_states: Option<Vec<ConsentState>>,
    r: StreamAllMessages,
    i: int,
)
    requires
        is_bootstrap(groups, bootstrap),
        is_new_stream(bootstrap, conversation_type, consent_states, r),
    ensures
        r.consent_states == consent_states && r.conversation_type == conversation_type && r.replay_queue@.len() == 0,
        0 <= i < groups.len() && groups[i].conversation_type == ConversationType::Sync ==> bytes::byte_views(
            r.sync_groups@,
        ).contains(groups[i].id@),
{
    if 0 <= i < groups.len() {
        streams_start_with_all_groups(groups, bootstrap, i, 0);
    }
}

impl StreamAllMessages {
    /// A stream of all messages.
    pub fn new(
        bootstrap: StreamAllBootstrap,
        conversation_type: Option<ConversationType>,
        consent_states: Option<Vec<ConsentState>>,
    ) -> (r: Self)
        ensures
            is_new_stream(bootstrap, conversation_type, consent_states, r),
    {
        StreamAllMessages {
            phase: AllPhase::Idle,
            replay_queue: VecDeque::new(),
            sync_groups: bootstrap.sync_groups,
            conversation_type,
            consent_states,
        }
    }

    /// Takes the stream one step further. Messages that are repeated come before new ones; messages
    /// between the devices of the user are never streamed; a conversation that joins is followed from
    /// where it was read, after its repeated messages are queued.
    pub fn poll_next(self, event: AllEvent) -> (r: (Self, AllAction))
        ensures
            is_all_step(self, event, r.0, r.1),
    {
        let ghost before = self;
        let StreamAllMessages { phase, replay_queue, sync_groups, conversation_type, consent_states } = self;
        let mut stream = StreamAllMessages {
            phase: AllPhase::Idle,
            replay_queue,
            sync_groups,
            conversation_type,
            consent_states,
        };
        match (phase, event) {
            (AllPhase::Idle, AllEvent::Poll) => take_next(stream),
            (AllPhase::CheckingReplay(message), AllEvent::Consent(facts)) => match message_matches_consent_filter(
                &stream.consent_states,
                facts,
            ) {
                Ok(true) => (stream, AllAction::Yield(Ok(message))),
                Ok(false) => take_next(stream),
                Err(e) => (stream, AllAction::Yield(Err(e))),
            },
            (AllPhase::PollingMessages, AllEvent::Message(polled)) => match polled {
                Polled::Item(Ok(message)) => {
                    if bytes::contains_bytes(stream.sync_groups.as_slice(), message.group_id.as_slice()) {
                        (stream, AllAction::NotifySyncWorker)
                    } else {
                        stream.phase = AllPhase::CheckingLive(message);
                        (stream, AllAction::CheckConsent)
                    }
                },
                Polled::Item(Err(e)) => (stream, AllAction::Yield(Err(e))),
                Polled::Ended => (stream, AllAction::Ended),
                Polled::Pending => {
                    stream.phase = AllPhase::PollingConversations;
                    (stream, AllAction::PollConversations)
                },
            },
            (AllPhase::CheckingLive(message), AllEvent::Consent(facts)) => match message_matches_consent_filter(
                &stream.consent_states,
                facts,
            ) {
                Ok(true) => (stream, AllAction::Yield(Ok(message))),
                Ok(false) => take_next(stream),
                Err(e) => (stream, AllAction::Yield(Err(e))),
            },
            (AllPhase::PollingConversations, AllEvent::Conversation(polled)) => match polled {
                Polled::Item(Ok(group)) => match group.stream_replay_after_ns {
                    Some(t) => {
                        stream.phase = AllPhase::LoadingReplay(group);
                        (stream, AllAction::LoadReplay { sent_after_ns: moment_before(t) })
                    },
                    None => {
                        let seed = group.stream_seed_cursor();
                        match seed {
                            Some(cursor) => (stream, AllAction::Attach { group, cursor: Some(cursor) }),
                            None => {
                                stream.phase = AllPhase::LoadingCursor(group);
                                (stream, AllAction::LoadCursor)
                            },
                        }
                    },
                },
                Polled::Item(Err(e)) => (stream, AllAction::Yield(Err(e))),
                Polled::Ended => (stream, AllAction::Pending),
                Polled::Pending => (stream, AllAction::Pending),
            },
            (AllPhase::LoadingReplay(group), AllEvent::Replay(outcome)) => match outcome {
                Ok(messages) => {
                    append_messages(&mut stream.replay_queue, messages);
                    stream.phase = AllPhase::LoadingCursor(group);
                    (stream, AllAction::LoadCursor)
                },
                Err(e) => (stream, AllAction::Yield(Err(e))),
            },
            (AllPhase::LoadingCursor(group), AllEvent::Cursor(outcome)) => match outcome {
                Ok(cursor) => (stream, AllAction::Attach { group, cursor }),
                Err(e) => (stream, AllAction::Yield(Err(e))),
            },
            (phase, _) => {
                stream.phase = phase;
                (stream, AllAction::Ignore)
            },
        }
    }
}

fn append_messages(queue: &mut VecDeque<StoredGroupMessage>, messages: Vec<StoredGroupMessage>)
    ensures
        final(queue)@ == old(queue)@ + messages@,
{
    let ghost before = queue@;
    let ghost all = messages@;
    let mut rest = messages;
    let total: usize = rest.len();
    let mut i: usize = 0;
    assert(all.skip(0) =~= all);
    assert(before + all.take(0) =~= before);
    while i < total
        invariant
            i <= total,
            total == all.len(),
            rest@ == all.skip(i as int),
            queue@ == before + all.take(i as int),
        decreases total - i,
    {
        let next = rest.remove(0);
        assert(rest@ =~= all.skip(i + 1));
        queue.push_back(next);
        assert(queue@ =~= before + all.take(i + 1));
        i += 1;
    }
    assert(all.take(i as int) =~= all);
}

/// A message is streamed only right after it was found to be one that the user wants. A new message between
/// the devices of the user is never even asked about: the worker is told of it. New messages are looked at
/// only once no repeated one waits. The stream ends exactly where that of new messages does.
pub proof fn only_wanted_messages_are_streamed(
    before: StreamAllMessages,
    event: AllEvent,
    after: StreamAllMessages,
    action: AllAction,
)
    requires
        is_all_step(before, event, after, action),
    ensures
        action matches AllAction::Yield(Ok(message)) ==> {
            &&& event matches AllEvent::Consent(facts) && consent_answer(before.consent_states, facts) == Ok::<
                bool,
                SubscribeError,
            >(true)
            &&& before.phase == AllPhase::CheckingReplay(message) || before.phase == AllPhase::CheckingLive(message)
        },
        (before.phase is PollingMessages && (event matches AllEvent::Message(Polled::Item(Ok(message)))
            && bytes::byte_views(before.sync_groups@).contains(message.group_id@))) ==> action is NotifySyncWorker
            && after.phase is Idle,
        (after.phase is CheckingLive && before.phase is PollingMessages) ==> !bytes::byte_views(
            before.sync_groups@,
        ).contains((after.phase->CheckingLive_0).group_id@),
        action is PollMessages ==> before.replay_queue@.len() == 0,
        action is Ended <==> before.phase is PollingMessages && event == AllEvent::Message(Polled::Ended),
{
}

/// Repeated messages are taken in the order in which they were queued, and queued behind those that
/// wait already.
pub proof fn repeated_messages_keep_their_order(
    before: StreamAllMessages,
    event: AllEvent,
    after: StreamAllMessages,
    action: AllAction,
)
    requires
        is_all_step(before, event, after, action),
    ensures
        after.replay_queue@ == before.replay_queue@ || (before.replay_queue@.len() > 0 && after.replay_queue@
            == before.replay_queue@.skip(1) && after.phase == AllPhase::CheckingReplay(before.replay_queue@[0])) || (
        event matches AllEvent::Replay(Ok(messages)) && after.replay_queue@ == before.replay_queue@ + messages@),
{
}

/// A conversation that joins goes this way: where its messages are to be repeated from some time on, those are
/// loaded and queued behind the ones that wait, and it is followed from where it was read; else it is followed
/// from where the event said, or from where it was read if the event said nothing.
pub proof fn joining_conversations_are_followed(
    before: StreamAllMessages,
    group: MlsGroup,
    after: StreamAllMessages,
    action: AllAction,
)
    requires
        before.phase is PollingConversations,
        is_all_step(before, AllEvent::Conversation(Polled::Item(Ok(group))), after, action),
    ensures
        group.stream_replay_after_ns matches Some(t) ==> (action matches AllAction::LoadReplay { sent_after_ns } && (t
            > i64::MIN ==> sent_after_ns == t - 1) && sent_after_ns <= t),
        (group.stream_replay_after_ns is None && group.stream_seed_cursor is Some) ==> (action matches AllAction::Attach {
            group: attached,
            cursor: Some(at),
        } && attached == group && at.positions@ == group.stream_seed_cursor->0.positions@),
        (group.stream_replay_after_ns is None && group.stream_seed_cursor is None) ==> action is LoadCursor,
        forall|messages: Vec<StoredGroupMessage>, then: StreamAllMessages, next: AllAction|
            #![trigger is_all_step(after, AllEvent::Replay(Ok(messages)), then, next)]
            group.stream_replay_after_ns is Some && is_all_step(after, AllEvent::Replay(Ok(messages)), then, next)
                ==> next is LoadCursor && then.replay_queue@ == before.replay_queue@ + messages@,
        forall|cursor: Option<GlobalCursor>, then: StreamAllMessages, next: AllAction|
            #![trigger is_all_step(after, AllEvent::Cursor(Ok(cursor)), then, next)]
            action is LoadCursor && is_all_step(after, AllEvent::Cursor(Ok(cursor)), then, next) ==> next
                == (AllAction::Attach { group, cursor }),
{
}

/// A message that may be streamed is yielded, one that may not is dropped and the stream goes on by itself, and
/// an error is yielded as that error. New messages are asked for only if none is to be repeated, and
/// conversations only if no new message is there.
pub proof fn wanted_messages_are_yielded(
    before: StreamAllMessages,
    event: AllEvent,
    after: StreamAllMessages,
    action: AllAction,
)
    requires
        is_all_step(before, event, after, action),
    ensures
        (before.phase matches AllPhase::CheckingLive(message) && (event matches AllEvent::Consent(facts) && consent_answer(
            before.consent_states,
            facts,
        ) == Ok::<_, SubscribeError>(true))) ==> (before.phase matches AllPhase::CheckingLive(message) && action
            == AllAction::Yield(Ok(message))),
        (before.phase matches AllPhase::CheckingReplay(message) && (event matches AllEvent::Consent(facts)
            && consent_answer(before.consent_states, facts) == Ok::<_, SubscribeError>(true))) ==> (
        before.phase matches AllPhase::CheckingReplay(message) && action == AllAction::Yield(Ok(message))),
        ((before.phase is CheckingLive || before.phase is CheckingReplay) && (event matches AllEvent::Consent(facts)
            && consent_answer(before.consent_states, facts) == Ok::<_, SubscribeError>(false))) ==> if before.replay_queue@.len()
            > 0 {
            action is CheckConsent && after.phase == AllPhase::CheckingReplay(before.replay_queue@[0])
        } else {
            action is PollMessages
        },
        (before.phase is Idle && event is Poll) ==> if before.replay_queue@.len() > 0 {
            action is CheckConsent && after.phase == AllPhase::CheckingReplay(before.replay_queue@[0])
        } else {
            action is PollMessages
        },
        (before.phase is PollingMessages && (event matches AllEvent::Message(Polled::Item(Ok(message)))
            && !bytes::byte_views(before.sync_groups@).contains(message.group_id@))) ==> (
        event matches AllEvent::Message(Polled::Item(Ok(message))) && action is CheckConsent && after.phase
            == AllPhase::CheckingLive(message)),
        (before.phase is PollingMessages && event == AllEvent::Message(Polled::Pending)) ==> action is PollConversations,
        (before.phase is PollingMessages && (event matches AllEvent::Message(Polled::Item(Err(e))))) ==> (
        event matches AllEvent::Message(Polled::Item(Err(e))) && action == AllAction::Yield(Err(e))),
        (before.phase is PollingConversations && (event matches AllEvent::Conversation(Polled::Item(Err(e))))) ==> (
        event matches AllEvent::Conversation(Polled::Item(Err(e))) && action == AllAction::Yield(Err(e))),
        (before.phase is PollingConversations && (event matches AllEvent::Conversation(polled) && (polled is Pending
            || polled is Ended))) ==> action is Pending,
        action is PollConversations ==> event == AllEvent::Message(Polled::Pending),
        after.sync_groups == before.sync_groups,
        after.consent_states == before.consent_states,
{
}

} // verus!
