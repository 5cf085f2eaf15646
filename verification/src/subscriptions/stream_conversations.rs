//! The stream of conversations: welcomes from the network and groups of this client, merged.

use std::collections::VecDeque;
use vstd::prelude::*;
use crate::byte_map::ByteMap;
use crate::error::ExternalError;
use crate::groups::group::MlsGroup;
use crate::records::{ConsentState, ConversationType, Cursor, GlobalCursor};
use crate::subscriptions::error::SubscribeError;
use crate::subscriptions::events::{LocalEvents, PreferenceUpdatesEvent};
use crate::subscriptions::process_welcome;
use crate::subscriptions::process_welcome::{
    ProcessWelcomeFuture, ProcessWelcomeResult, WelcomeAction, WelcomeMessage, WelcomeOrGroup,
};

verus! {

/// What polling a source gave.
#[derive(Debug)]
pub enum Polled<T> {
    Item(T),
    Ended,
    Pending,
}

/// The events of this client, as groups for the stream.
#[derive(Debug)]
pub struct BroadcastGroupStream {
    pub pending_events: VecDeque<WelcomeOrGroup>,
    /// Whether a change of preferences brings its conversations into the stream.
    pub include_preference_groups: bool,
}

/// What becomes of an event of this client.
#[derive(Debug)]
pub enum BroadcastStep {
    /// It is streamed.
    Yield(WelcomeOrGroup),
    /// It is of no interest: the next one is looked at.
    PollAgain,
    Pending,
    Ended,
}

/// The item of a group that was just created.
pub open spec fn is_new_group_item(item: WelcomeOrGroup, group_id: Vec<u8>) -> bool {
    item == (WelcomeOrGroup::Group {
        id: group_id,
        catch_up_before_stream: false,
        attach_cursor: None,
        replay_after_ns: None,
    })
}

/// Whether an item is that of a conversation whose preference changed.
pub open spec fn is_preference_item(
    item: WelcomeOrGroup,
    entry: (Vec<u8>, Option<GlobalCursor>),
    replay: Map<Seq<u8>, Option<i64>>,
) -> bool {
    &&& item matches WelcomeOrGroup::Group { id, catch_up_before_stream, attach_cursor, replay_after_ns }
    &&& id == entry.0
    &&& catch_up_before_stream
    &&& attach_cursor == entry.1
    &&& replay_after_ns == (if replay.dom().contains(entry.0@) {
        replay[entry.0@]
    } else {
        None
    })
}

/// Whether items are those of all conversations whose preference changed.
pub open spec fn are_preference_items(
    items: Seq<WelcomeOrGroup>,
    entries: Seq<(Vec<u8>, Option<GlobalCursor>)>,
    replay: Map<Seq<u8>, Option<i64>>,
) -> bool {
    &&& items.len() == entries.len()
    &&& forall|i: int| 0 <= i < items.len() ==> is_preference_item(#[trigger] items[i], entries[i], replay)
}

/// Whether what polling the events of this client gave is taken in.
pub open spec fn takes_event<M>(
    before: BroadcastGroupStream,
    event: Polled<Option<LocalEvents<M>>>,
    after: BroadcastGroupStream,
    r: BroadcastStep,
) -> bool {
    match event {
        Polled::Pending => r is Pending && after.pending_events@ == before.pending_events@,
        Polled::Ended => r is Ended && after.pending_events@ == before.pending_events@,
        Polled::Item(Some(LocalEvents::NewGroup(group_id))) => {
            &&& r matches BroadcastStep::Yield(item)
            &&& is_new_group_item(item, group_id)
            &&& after.pending_events@ == before.pending_events@
        },
        Polled::Item(Some(LocalEvents::PreferencesChanged(e))) => if before.include_preference_groups
            && e.conversation_cursors.entries@.len() > 0 {
            &&& r matches BroadcastStep::Yield(item)
            &&& after.pending_events@.len() >= before.pending_events@.len()
            &&& after.pending_events@.take(before.pending_events@.len() as int)
                == before.pending_events@
            &&& are_preference_items(
                seq![item] + after.pending_events@.skip(before.pending_events@.len() as int),
                e.conversation_cursors.entries@,
                e.conversation_replay_after_ns@,
            )
        } else {
            r is PollAgain && after.pending_events@ == before.pending_events@
        },
        Polled::Item(_) => r is PollAgain && after.pending_events@ == before.pending_events@,
    }
}

/// A group that was just created is streamed as it is. Where changes of preferences matter, each conversation of such a
/// change is streamed: the first at once, the others behind what waits already, each brought up to date, taken up where
/// the change says, and repeated from when the change says. Where they do not matter, and for deleted messages and missed
/// events, nothing is streamed.
pub proof fn events_bring_their_conversations<M>(
    before: BroadcastGroupStream,
    event: Polled<Option<LocalEvents<M>>>,
    after: BroadcastGroupStream,
    r: BroadcastStep,
    i: int,
)
    requires
        takes_event(before, event, after, r),
    ensures
        event matches Polled::Item(Some(LocalEvents::NewGroup(group_id))) ==> (r matches BroadcastStep::Yield(
            WelcomeOrGroup::Group { id, catch_up_before_stream, attach_cursor, replay_after_ns },
        ) && id == group_id && !catch_up_before_stream && attach_cursor is None && replay_after_ns is None),
        event matches Polled::Item(Some(LocalEvents::MessageDeleted(_))) ==> r is PollAgain,
        event matches Polled::Item(None) ==> r is PollAgain,
        event is Pending ==> r is Pending,
        event is Ended ==> r is Ended,
        event matches Polled::Item(Some(LocalEvents::PreferencesChanged(e))) ==> {
            let entries = e.conversation_cursors.entries@;
            &&& !before.include_preference_groups ==> r is PollAgain && after.pending_events@ == before.pending_events@
            &&& entries.len() == 0 ==> r is PollAgain && after.pending_events@ == before.pending_events@
            &&& before.include_preference_groups && entries.len() > 0 ==> {
                &&& after.pending_events@.len() == before.pending_events@.len() + entries.len() - 1
                &&& r matches BroadcastStep::Yield(item) && (item matches WelcomeOrGroup::Group {
                    id,
                    catch_up_before_stream,
                    attach_cursor,
                    replay_after_ns: _,
                } && id == entries[0].0 && catch_up_before_stream && attach_cursor == entries[0].1)
                &&& 0 <= i < before.pending_events@.len() ==> after.pending_events@[i] == before.pending_events@[i]
                &&& 1 <= i < entries.len() ==> (after.pending_events@[before.pending_events@.len() + i - 1] matches
                    WelcomeOrGroup::Group { id, catch_up_before_stream, attach_cursor, replay_after_ns } && id
                    == entries[i].0 && catch_up_before_stream && attach_cursor == entries[i].1 && (
                e.conversation_replay_after_ns@.dom().contains(entries[i].0@) ==> replay_after_ns
                    == e.conversation_replay_after_ns@[entries[i].0@]) && (!e.conversation_replay_after_ns@.dom().contains(
                    entries[i].0@,
                ) ==> replay_after_ns is None))
            }
        },
{
    if let Polled::Item(Some(LocalEvents::PreferencesChanged(e))) = event {
        let entries = e.conversation_cursors.entries@;
        if before.include_preference_groups && entries.len() > 0 {
            if let BroadcastStep::Yield(item) = r {
                let waiting = before.pending_events@;
                let items = seq![item] + after.pending_events@.skip(waiting.len() as int);
                assert(is_preference_item(items[0], entries[0], e.conversation_replay_after_ns@));
                if 0 <= i < waiting.len() {
                    assert(after.pending_events@.take(waiting.len() as int)[i] == waiting[i]);
                }
                if 1 <= i < entries.len() {
                    assert(is_preference_item(items[i], entries[i], e.conversation_replay_after_ns@));
                    assert(items[i] == after.pending_events@[waiting.len() + i - 1]);
                }
            }
        }
    }
}

/// Whether the next item that waits is taken.
pub open spec fn takes_pending(
    before: BroadcastGroupStream,
    after: BroadcastGroupStream,
    r: Option<WelcomeOrGroup>,
) -> bool {
    &&& after.include_preference_groups == before.include_preference_groups
    &&& match r {
        Some(item) => before.pending_events@.len() > 0 && item == before.pending_events@[0] && after.pending_events@
            == before.pending_events@.skip(1),
        None => before.pending_events@.len() == 0 && after.pending_events@ == before.pending_events@,
    }
}

/// What waits leaves in its order, the first first, and nothing is lost: what was taken and what still waits is what
/// waited before.
pub proof fn what_waits_leaves_in_its_order(
    before: BroadcastGroupStream,
    after: BroadcastGroupStream,
    r: Option<WelcomeOrGroup>,
)
    requires
        takes_pending(before, after, r),
    ensures
        r is Some <==> before.pending_events@.len() > 0,
        r matches Some(item) ==> before.pending_events@ == seq![item] + after.pending_events@,
        r is None ==> after.pending_events@.len() == 0,
{
    if let Some(item) = r {
        assert(before.pending_events@ =~= seq![item] + after.pending_events@);
    }
}

impl BroadcastGroupStream {
    /// A stream of the events of this client.
    pub fn new(include_preference_groups: bool) -> (r: Self)
        ensures
            r.pending_events@.len() == 0,
            r.include_preference_groups == include_preference_groups,
    {
        BroadcastGroupStream { pending_events: VecDeque::new(), include_preference_groups }
    }

    /// The next item that waits already.
    pub fn next_pending(&mut self) -> (r: Option<WelcomeOrGroup>)
        ensures
            takes_pending(*old(self), *final(self), r),
    {
        let ghost before = self.pending_events@;
        let item = self.pending_events.pop_front();
        proof {
            if before.len() > 0 {
                assert(self.pending_events@ =~= before.skip(1));
            }
        }
        item
    }

    /// Takes in what polling the events of this client gave; an event that was missed, because the
    /// stream was too slow, is passed over. The first conversation of a change of preferences is
    /// streamed, the others wait.
    pub fn poll_next<M>(&mut self, event: Polled<Option<LocalEvents<M>>>) -> (r: BroadcastStep)
        requires
            event matches Polled::Item(Some(LocalEvents::PreferencesChanged(e))) ==> e.wf(),
        ensures
            final(self).include_preference_groups == old(self).include_preference_groups,
            takes_event(*old(self), event, *final(self), r),
    {
        let event = match event {
            Polled::Pending => return BroadcastStep::Pending,
            Polled::Ended => return BroadcastStep::Ended,
            Polled::Item(None) => return BroadcastStep::PollAgain,
            Polled::Item(Some(event)) => event,
        };
        match event {
            LocalEvents::NewGroup(group_id) => BroadcastStep::Yield(
                WelcomeOrGroup::Group {
                    id: group_id,
                    catch_up_before_stream: false,
                    attach_cursor: None,
                    replay_after_ns: None,
                },
            ),
            LocalEvents::PreferencesChanged(event) => {
                if !self.include_preference_groups {
                    return BroadcastStep::PollAgain;
                }
                self.take_conversations(event)
            },
            LocalEvents::MessageDeleted(_) => BroadcastStep::PollAgain,
        }
    }

    fn take_conversations(&mut self, event: PreferenceUpdatesEvent) -> (r: BroadcastStep)
        requires
            event.wf(),
        ensures
            final(self).include_preference_groups == old(self).include_preference_groups,
            if event.conversation_cursors.entries@.len() > 0 {
                &&& r matches BroadcastStep::Yield(item)
                &&& final(self).pending_events@.len() >= old(self).pending_events@.len()
                &&& final(self).pending_events@.take(old(self).pending_events@.len() as int)
                    == old(self).pending_events@
                &&& are_preference_items(
                    seq![item] + final(self).pending_events@.skip(old(self).pending_events@.len() as int),
                    event.conversation_cursors.entries@,
                    event.conversation_replay_after_ns@,
                )
            } else {
                r is PollAgain && final(self).pending_events@ == old(self).pending_events@
            },
    {
        let ghost entries = event.conversation_cursors.entries@;
        let ghost waiting = self.pending_events@;
        let replay = event.conversation_replay_after_ns;
        let mut rest = event.conversation_cursors.entries;
        if rest.len() == 0 {
            return BroadcastStep::PollAgain;
        }
        let first = preference_item(rest.remove(0), &replay);
        assert(rest@ =~= entries.skip(1));
        let total: usize = rest.len();
        let mut i: usize = 0;
        while i < total
            invariant
                i <= total,
                total == entries.len() - 1,
                replay.wf(),
                rest@ == entries.skip(i + 1),
                self.include_preference_groups == old(self).include_preference_groups,
                self.pending_events@.len() == waiting.len() + i,
                forall|j: int| 0 <= j < waiting.len() ==> self.pending_events@[j] == waiting[j],
                forall|j: int|
                    0 <= j < i ==> is_preference_item(
                        #[trigger] self.pending_events@[waiting.len() + j],
                        entries[j + 1],
                        replay@,
                    ),
            decreases total - i,
        {
            let next = rest.remove(0);
            assert(rest@ =~= entries.skip(i + 2));
            self.pending_events.push_back(preference_item(next, &replay));
            i += 1;
        }
        proof {
            assert(self.pending_events@.take(waiting.len() as int) =~= waiting);
            let items = seq![first] + self.pending_events@.skip(waiting.len() as int);
            assert forall|k: int| 0 <= k < items.len() implies is_preference_item(#[trigger] items[k], entries[k], replay@) by {
                if k > 0 {
                    assert(items[k] == self.pending_events@[waiting.len() + (k - 1)]);
                }
            }
        }
        BroadcastStep::Yield(first)
    }
}

fn preference_item(entry: (Vec<u8>, Option<GlobalCursor>), replay: &ByteMap<Option<i64>>) -> (r: WelcomeOrGroup)
    requires
        replay.wf(),
    ensures
        is_preference_item(r, entry, replay@),
{
    let replay_after_ns: Option<i64> = match replay.get(entry.0.as_slice()) {
        Some(t) => *t,
        None => None,
    };
    WelcomeOrGroup::Group {
        id: entry.0,
        catch_up_before_stream: true,
        attach_cursor: entry.1,
        replay_after_ns,
    }
}

/// The welcomes of a subscription, as items of the stream; `E` is the subscription's error.
pub struct SubscriptionStream<S, E> {
    pub inner: S,
    pub _marker: std::marker::PhantomData<E>,
}

impl<S, E> SubscriptionStream<S, E> {
    /// A stream of the welcomes of a subscription.
    pub fn new(inner: S) -> (r: Self)
        ensures
            r.inner == inner,
    {
        SubscriptionStream { inner, _marker: std::marker::PhantomData }
    }
}

/// What polling a subscription means.
pub open spec fn as_item(polled: Polled<Result<WelcomeMessage, ExternalError>>) -> Polled<
    Result<WelcomeOrGroup, SubscribeError>,
> {
    match polled {
        Polled::Item(Ok(welcome)) => Polled::Item(Ok(WelcomeOrGroup::Welcome(welcome))),
        Polled::Item(Err(e)) => Polled::Item(Err(SubscribeError::BoxError(e))),
        Polled::Pending => Polled::Pending,
        Polled::Ended => Polled::Ended,
    }
}

/// Every welcome of a subscription goes into the stream as it is, and every error too; an error ends nothing.
pub proof fn subscriptions_are_passed_on(polled: Polled<Result<WelcomeMessage, ExternalError>>)
    ensures
        polled matches Polled::Item(Ok(welcome)) ==> as_item(polled) == Polled::Item(
            Ok::<_, SubscribeError>(WelcomeOrGroup::Welcome(welcome)),
        ),
        polled matches Polled::Item(Err(e)) ==> as_item(polled) == Polled::Item(
            Err::<WelcomeOrGroup, _>(SubscribeError::BoxError(e)),
        ),
        as_item(polled) is Ended <==> polled is Ended,
        as_item(polled) is Pending <==> polled is Pending,
{
}

/// What polling a subscription means for the stream.
pub fn subscription_item(polled: Polled<Result<WelcomeMessage, ExternalError>>) -> (r: Polled<
    Result<WelcomeOrGroup, SubscribeError>,
>)
    ensures
        r == as_item(polled),
{
    match polled {
        Polled::Item(Ok(welcome)) => Polled::Item(Ok(WelcomeOrGroup::Welcome(welcome))),
        Polled::Item(Err(e)) => Polled::Item(Err(SubscribeError::BoxError(e))),
        Polled::Pending => Polled::Pending,
        Polled::Ended => Polled::Ended,
    }
}

/// The stream of conversations.
#[derive(Debug)]
pub struct StreamConversations {
    pub conversation_type: Option<ConversationType>,
    /// The welcomes that are already known.
    pub known_welcome_ids: Vec<Cursor>,
    pub include_duplicated_dms: bool,
    pub consent_states: Option<Vec<ConsentState>>,
}

/// What the stream of conversations does next.
#[derive(Debug)]
pub enum ConversationStep {
    /// Begin to process what came in, and poll again.
    Spawn { future: ProcessWelcomeFuture, action: WelcomeAction, item: WelcomeOrGroup },
    Yield(Result<MlsGroup, SubscribeError>),
    Pending,
    Ended,
}

/// The welcome that a result makes known.
pub open spec fn known_by(result: ProcessWelcomeResult) -> Option<Cursor> {
    match result {
        ProcessWelcomeResult::New { group: _, id } => Some(id),
        ProcessWelcomeResult::NewStored { group: _, maybe_sequence_id, maybe_originator } => {
            process_welcome::cursor_of(maybe_sequence_id, maybe_originator)
        },
        ProcessWelcomeResult::IgnoreId { id } => Some(id),
        ProcessWelcomeResult::Ignore => None,
    }
}

/// The group that a result streams.
pub open spec fn streamed_by(result: ProcessWelcomeResult) -> Option<MlsGroup> {
    match result {
        ProcessWelcomeResult::New { group, id: _ } => Some(group),
        ProcessWelcomeResult::NewStored { group, maybe_sequence_id: _, maybe_originator: _ } => Some(group),
        _ => None,
    }
}

/// Whether a list of welcomes is another one with a welcome made known.
pub open spec fn makes_known(before: Seq<Cursor>, id: Option<Cursor>, after: Seq<Cursor>) -> bool {
    match id {
        Some(id) => if before.contains(id) {
            after == before
        } else {
            after == before.push(id)
        },
        None => after == before,
    }
}

/// Makes a welcome known.
pub fn make_known(list: &mut Vec<Cursor>, id: Option<Cursor>)
    ensures
        makes_known(old(list)@, id, final(list)@),
{
    if let Some(id) = id {
        if !process_welcome::contains_cursor(list, id) {
            list.push(id);
        }
    }
}

fn clone_states(states: &Option<Vec<ConsentState>>) -> (r: Option<Vec<ConsentState>>)
    ensures
        match (*states, r) {
            (Some(a), Some(b)) => a@ == b@,
            (None, None) => true,
            _ => false,
        },
{
    match states {
        None => None,
        Some(states) => {
            let mut out: Vec<ConsentState> = Vec::new();
            let mut i: usize = 0;
            while i < states.len()
                invariant
                    i <= states@.len(),
                    out@ == states@.take(i as int),
                decreases states@.len() - i,
            {
                out.push(states[i]);
                assert(out@ =~= states@.take(i + 1));
                i += 1;
            }
            assert(out@ =~= states@);
            Some(out)
        },
    }
}

fn clone_cursors(list: &Vec<Cursor>) -> (r: Vec<Cursor>)
    ensures
        r@ == list@,
{
    let mut out: Vec<Cursor> = Vec::new();
    let mut i: usize = 0;
    while i < list.len()
        invariant
            i <= list@.len(),
            out@ == list@.take(i as int),
        decreases list@.len() - i,
    {
        out.push(list[i]);
        assert(out@ =~= list@.take(i + 1));
        i += 1;
    }
    assert(out@ =~= list@);
    out
}

/// Whether a future has the settings of a stream.
pub open spec fn has_settings_of(future: ProcessWelcomeFuture, stream: StreamConversations) -> bool {
    &&& future.known_welcome_ids@ == stream.known_welcome_ids@
    &&& future.filters.conversation_type == stream.conversation_type
    &&& future.filters.include_duplicate_dms == stream.include_duplicated_dms
    &&& match (future.filters.consent_states, stream.consent_states) {
        (Some(a), Some(b)) => a@ == b@,
        (None, None) => true,
        _ => false,
    }
}

/// Whether what came of a welcome or group is taken in.
pub open spec fn takes_result(
    before: StreamConversations,
    welcome: Result<ProcessWelcomeResult, SubscribeError>,
    after: StreamConversations,
    r: Option<Result<MlsGroup, SubscribeError>>,
) -> bool {
    &&& after == (StreamConversations { known_welcome_ids: after.known_welcome_ids, ..before })
    &&& match welcome {
        Ok(result) => {
            &&& makes_known(before.known_welcome_ids@, known_by(result), after.known_welcome_ids@)
            &&& r == (match streamed_by(result) {
                Some(group) => Some(Ok::<_, SubscribeError>(group)),
                None => None,
            })
        },
        Err(e) => after.known_welcome_ids@ == before.known_welcome_ids@ && r == Some(Err::<MlsGroup, _>(e)),
    }
}

/// Whether a step is what one poll of the stream gives.
pub open spec fn is_poll(
    before: StreamConversations,
    finished: Option<Result<ProcessWelcomeResult, SubscribeError>>,
    incoming: Polled<Result<WelcomeOrGroup, SubscribeError>>,
    after: StreamConversations,
    r: ConversationStep,
) -> bool {
    &&& after == (StreamConversations { known_welcome_ids: after.known_welcome_ids, ..before })
    &&& match finished {
        Some(Ok(result)) => makes_known(before.known_welcome_ids@, known_by(result), after.known_welcome_ids@),
        _ => after.known_welcome_ids@ == before.known_welcome_ids@,
    }
    &&& match finished {
        Some(Err(e)) => r == ConversationStep::Yield(Err(e)),
        Some(Ok(result)) => match streamed_by(result) {
            Some(group) => r == ConversationStep::Yield(Ok(group)),
            None => is_incoming_step(after, incoming, r),
        },
        None => is_incoming_step(after, incoming, r),
    }
}

/// A welcome that was processed is streamed with its group, or passed over without one, and is known afterwards either
/// way; an error is streamed as it is and makes nothing known.
pub proof fn processed_welcomes_are_streamed(
    before: StreamConversations,
    welcome: Result<ProcessWelcomeResult, SubscribeError>,
    after: StreamConversations,
    r: Option<Result<MlsGroup, SubscribeError>>,
)
    requires
        takes_result(before, welcome, after, r),
    ensures
        welcome matches Ok(ProcessWelcomeResult::New { group, id }) ==> r == Some(Ok::<_, SubscribeError>(group))
            && after.known_welcome_ids@.contains(id),
        welcome matches Ok(ProcessWelcomeResult::NewStored { group, maybe_sequence_id, maybe_originator }) ==> r == Some(
            Ok::<_, SubscribeError>(group),
        ) && (maybe_sequence_id is Some && maybe_originator is Some ==> after.known_welcome_ids@.contains(
            (Cursor { sequence_id: maybe_sequence_id->0 as u64, originator_id: maybe_originator->0 as u32 }),
        )),
        welcome matches Ok(ProcessWelcomeResult::IgnoreId { id }) ==> r is None && after.known_welcome_ids@.contains(id),
        welcome matches Ok(ProcessWelcomeResult::Ignore) ==> r is None && after.known_welcome_ids@
            == before.known_welcome_ids@,
        welcome matches Err(e) ==> r == Some(Err::<MlsGroup, _>(e)) && after.known_welcome_ids@
            == before.known_welcome_ids@,
        after.conversation_type == before.conversation_type && after.consent_states == before.consent_states
            && after.include_duplicated_dms == before.include_duplicated_dms,
{
    if let Ok(result) = welcome {
        if let Some(id) = known_by(result) {
            let known = before.known_welcome_ids@;
            if !known.contains(id) {
                assert(after.known_welcome_ids@[known.len() as int] == id);
            }
        }
    }
}

/// A group that is ready is streamed before anything new is begun. Otherwise what comes in is processed with the filter of
/// the stream and with all that the stream knows; errors are streamed; and the stream ends only when nothing more comes.
pub proof fn polls_stream_what_is_ready(
    before: StreamConversations,
    finished: Option<Result<ProcessWelcomeResult, SubscribeError>>,
    incoming: Polled<Result<WelcomeOrGroup, SubscribeError>>,
    after: StreamConversations,
    r: ConversationStep,
)
    requires
        is_poll(before, finished, incoming, after, r),
    ensures
        finished matches Some(Ok(ProcessWelcomeResult::New { group, id: _ })) ==> r == ConversationStep::Yield(Ok(group)),
        finished matches Some(Ok(ProcessWelcomeResult::NewStored {
            group,
            maybe_sequence_id: _,
            maybe_originator: _,
        })) ==> r == ConversationStep::Yield(Ok(group)),
        finished matches Some(Err(e)) ==> r == ConversationStep::Yield(Err(e)),
        finished is None ==> {
            &&& after.known_welcome_ids@ == before.known_welcome_ids@
            &&& incoming matches Polled::Item(Ok(item)) ==> (r matches ConversationStep::Spawn {
                future,
                action: _,
                item: given,
            } && given == item && future.known_welcome_ids@ == before.known_welcome_ids@
                && future.filters.conversation_type == before.conversation_type && future.filters.include_duplicate_dms
                == before.include_duplicated_dms && (future.filters.consent_states is Some
                == before.consent_states is Some) && (before.consent_states is Some
                ==> future.filters.consent_states->0@ == before.consent_states->0@))
            &&& incoming matches Polled::Item(Err(e)) ==> r == ConversationStep::Yield(Err(e))
            &&& incoming is Ended <==> r is Ended
            &&& incoming is Pending <==> r is Pending
        },
        r is Ended ==> incoming is Ended,
{
}

/// Whether events of this client go with a stream.
pub open spec fn are_events_of(stream: StreamConversations, r: BroadcastGroupStream) -> bool {
    &&& r.pending_events@.len() == 0
    &&& r.include_preference_groups == (stream.consent_states is Some)
}

/// Changes of preferences bring their conversations into a stream exactly if the stream filters by the user's decisions.
pub proof fn preferences_matter_where_they_filter(stream: StreamConversations, r: BroadcastGroupStream)
    requires
        are_events_of(stream, r),
    ensures
        stream.consent_states is Some ==> r.include_preference_groups,
        stream.consent_states is None ==> !r.include_preference_groups,
        r.pending_events@.len() == 0,
{
}

impl StreamConversations {
    /// A stream of conversations; `known_welcome_ids` are the welcomes of the stored groups.
    pub fn new(
        known_welcome_ids: Vec<Cursor>,
        conversation_type: Option<ConversationType>,
        include_duplicated_dms: bool,
        consent_states: Option<Vec<ConsentState>>,
    ) -> (r: Self)
        ensures
            r == (StreamConversations {
                conversation_type,
                known_welcome_ids,
                include_duplicated_dms,
                consent_states,
            }),
    {
        StreamConversations { conversation_type, known_welcome_ids, include_duplicated_dms, consent_states }
    }

    /// The events of this client that go with the stream: changes of preferences matter only where
    /// the stream is for some of the user's decisions.
    pub fn events(&self) -> (r: BroadcastGroupStream)
        ensures
            are_events_of(*self, r),
    {
        BroadcastGroupStream::new(self.consent_states.is_some())
    }

    /// Takes in what came of a welcome or group: makes its welcome known, and gives what is streamed.
    pub fn filter_welcome(&mut self, welcome: Result<ProcessWelcomeResult, SubscribeError>) -> (r: Option<
        Result<MlsGroup, SubscribeError>,
    >)
        ensures
            takes_result(*old(self), welcome, *final(self), r),
    {
        match welcome {
            Ok(ProcessWelcomeResult::New { group, id }) => {
                make_known(&mut self.known_welcome_ids, Some(id));
                Some(Ok(group))
            },
            Ok(ProcessWelcomeResult::IgnoreId { id }) => {
                make_known(&mut self.known_welcome_ids, Some(id));
                None
            },
            Ok(ProcessWelcomeResult::Ignore) => None,
            Ok(ProcessWelcomeResult::NewStored { group, maybe_sequence_id, maybe_originator }) => {
                make_known(
                    &mut self.known_welcome_ids,
                    process_welcome::welcome_cursor(maybe_sequence_id, maybe_originator),
                );
                Some(Ok(group))
            },
            Err(e) => Some(Err(e)),
        }
    }

    /// One poll of the stream. `finished` is a welcome whose processing has ended, if one has; where
    /// it streams nothing, `incoming` decides.
    pub fn poll_next(
        &mut self,
        finished: Option<Result<ProcessWelcomeResult, SubscribeError>>,
        incoming: Polled<Result<WelcomeOrGroup, SubscribeError>>,
    ) -> (r: ConversationStep)
        ensures
            is_poll(*old(self), finished, incoming, *final(self), r),
    {
        if let Some(result) = finished {
            if let Some(item) = self.filter_welcome(result) {
                return ConversationStep::Yield(item);
            }
        }
        match incoming {
            Polled::Item(Ok(item)) => {
                let (future, action) = ProcessWelcomeFuture::new(
                    clone_cursors(&self.known_welcome_ids),
                    &item,
                    self.conversation_type,
                    self.include_duplicated_dms,
                    clone_states(&self.consent_states),
                );
                ConversationStep::Spawn { future, action, item }
            },
            Polled::Item(Err(e)) => ConversationStep::Yield(Err(e)),
            Polled::Ended => ConversationStep::Ended,
            Polled::Pending => ConversationStep::Pending,
        }
    }
}

/// What the stream does with what comes in.
pub open spec fn is_incoming_step(
    stream: StreamConversations,
    incoming: Polled<Result<WelcomeOrGroup, SubscribeError>>,
    r: ConversationStep,
) -> bool {
    match incoming {
        Polled::Item(Ok(item)) => {
            &&& r matches ConversationStep::Spawn { future, action, item: given }
            &&& given == item
            &&& has_settings_of(future, stream)
            &&& process_welcome::begins_with(future, action, item)
        },
        Polled::Item(Err(e)) => r == ConversationStep::Yield(Err(e)),
        Polled::Ended => r is Ended,
        Polled::Pending => r is Pending,
    }
}

/// Once a welcome has been taken in, it is known, whether or not it was streamed; no welcome is ever
/// forgotten.
pub proof fn welcomes_stay_known(before: Seq<Cursor>, result: ProcessWelcomeResult, after: Seq<Cursor>, other: Cursor)
    requires
        makes_known(before, known_by(result), after),
    ensures
        known_by(result) matches Some(id) ==> after.contains(id),
        before.contains(other) ==> after.contains(other),
{
    if let Some(id) = known_by(result) {
        if !before.contains(id) {
            assert(after[before.len() as int] == id);
        }
    }
    if before.contains(other) {
        let i = choose|i: int| 0 <= i < before.len() && before[i] == other;
        assert(after[i] == other);
    }
}

} // verus!
