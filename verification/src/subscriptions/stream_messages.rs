//! The stream of the messages of some groups.

use std::collections::VecDeque;
use vstd::prelude::*;
use crate::byte_map::ByteMap;
use crate::bytes;
use crate::error::ExternalError;
use crate::groups::group::MlsGroup;
use crate::records::{Cursor, GlobalCursor, StoredGroupMessage};
use crate::subscriptions::error::SubscribeError;
use crate::subscriptions::process_welcome;
use crate::subscriptions::stream_conversations::Polled;

verus! {

/// The groups of a stream, with how far each has been read.
#[derive(Debug)]
pub struct GroupList {
    pub positions: ByteMap<GlobalCursor>,
    /// Messages that were stored before the stream began.
    pub seen: Vec<Cursor>,
}

impl GroupList {
    pub open spec fn wf(self) -> bool {
        self.positions.wf()
    }

    /// Whether a message was stored before the stream began.
    pub fn has_seen(&self, cursor: Cursor) -> (r: bool)
        ensures
            r == self.seen@.contains(cursor),
    {
        process_welcome::contains_cursor(&self.seen, cursor)
    }

    /// Whether the stream follows a group.
    pub fn contains(&self, group_id: &[u8]) -> (r: bool)
        ensures
            r == self.positions@.dom().contains(group_id@),
    {
        self.positions.contains_key(group_id)
    }

    /// Follows a group from a place on.
    pub fn add(&mut self, group_id: &[u8], position: GlobalCursor)
        requires
            old(self).wf(),
        ensures
            final(self).wf(),
            final(self).seen == old(self).seen,
            final(self).positions@ == old(self).positions@.insert(group_id@, position),
    {
        self.positions.insert(bytes::clone_bytes(group_id), position);
    }

    /// Moves one originator of a group to a place.
    pub fn set(&mut self, group_id: &[u8], cursor: Cursor)
        requires
            old(self).wf(),
        ensures
            final(self).wf(),
            final(self).seen == old(self).seen,
            is_moved(old(self).positions@, group_id@, cursor, final(self).positions@),
    {
        let ghost before = self.positions@;
        let mut position: GlobalCursor = match self.positions.get(group_id) {
            Some(p) => p.duplicate(),
            None => GlobalCursor::new(),
        };
        position.set(cursor);
        self.positions.insert(bytes::clone_bytes(group_id), position);
    }

    /// How far a group has been read.
    pub fn position(&self, group_id: &[u8]) -> (r: GlobalCursor)
        requires
            self.wf(),
        ensures
            forall|o: u32| #[trigger] r.at(o) == position_of(self.positions@, group_id@, o),
    {
        match self.positions.get(group_id) {
            Some(p) => p.duplicate(),
            None => GlobalCursor::new(),
        }
    }
}

/// How far an originator of a group has been read; the start, where the stream does not follow it.
pub open spec fn position_of(positions: Map<Seq<u8>, GlobalCursor>, group_id: Seq<u8>, originator_id: u32) -> u64 {
    if positions.dom().contains(group_id) {
        positions[group_id].at(originator_id)
    } else {
        0
    }
}

/// Whether positions are others with one originator of one group moved.
pub open spec fn is_moved(
    before: Map<Seq<u8>, GlobalCursor>,
    group_id: Seq<u8>,
    cursor: Cursor,
    after: Map<Seq<u8>, GlobalCursor>,
) -> bool {
    &&& after.dom() == before.dom().insert(group_id)
    &&& forall|id: Seq<u8>| id != group_id && before.dom().contains(id) ==> #[trigger] after[id] == before[id]
    &&& forall|o: u32|
        #[trigger] position_of(after, group_id, o) == (if o == cursor.originator_id {
            cursor.sequence_id
        } else {
            position_of(before, group_id, o)
        })
}

/// What the stream is waiting for.
#[derive(Clone, Copy, Debug, PartialEq, Eq, Structural)]
pub enum StreamState {
    /// The next message from the network.
    Waiting,
    /// The processing of a message.
    Processing { message: Cursor },
    /// A subscription that has one more group.
    Adding,
}

/// A message as it comes from the network.
#[derive(Debug)]
pub struct IncomingMessage {
    pub cursor: Cursor,
    pub group_id: Vec<u8>,
}

/// What came of processing a message.
#[derive(Debug)]
pub struct ProcessedMessage {
    /// The message to be streamed, if one is.
    pub message: Option<StoredGroupMessage>,
    pub group_id: Vec<u8>,
    /// Where the group is read on.
    pub next_message: Cursor,
    pub tried_to_process: Cursor,
}

/// The stream of the messages of some groups.
#[derive(Debug)]
pub struct StreamGroupMessages {
    pub state: StreamState,
    pub groups: GroupList,
    /// The groups that are to be followed too, with where to begin.
    pub add_queue: VecDeque<(MlsGroup, Option<GlobalCursor>)>,
    /// The messages that were streamed after they were processed.
    pub returned: Vec<Cursor>,
    /// The messages that came from the network.
    pub got: Vec<Cursor>,
}

/// What the stream does next.
#[derive(Debug)]
pub enum StreamAction {
    /// Subscribe to all groups of the list anew, the given one among them.
    Subscribe { new_group: Vec<u8> },
    /// Poll the subscription.
    PollInner,
    /// Poll the processing of the current message.
    PollProcessing,
    /// Poll the new subscription.
    PollAdding,
    /// Look whether the message is already stored.
    Retrieve(IncomingMessage),
    /// Begin to process the message, and poll again.
    Process(IncomingMessage),
    /// Put the new subscription in the place of the old one, and poll again.
    UseSubscription,
    Yield(Result<StoredGroupMessage, SubscribeError>),
    /// Poll again.
    Wake,
    Pending,
    Ended,
}

/// Whether a group list is another one with a group followed, if it was not followed yet.
pub open spec fn is_followed(
    before: GroupList,
    group_id: Seq<u8>,
    cursor: Option<GlobalCursor>,
    after: GroupList,
) -> bool {
    &&& after.seen == before.seen
    &&& if before.positions@.dom().contains(group_id) {
        after.positions@ == before.positions@
    } else {
        &&& after.positions@.dom() == before.positions@.dom().insert(group_id)
        &&& forall|id: Seq<u8>| before.positions@.dom().contains(id) ==> #[trigger] after.positions@[id]
            == before.positions@[id]
        &&& match cursor {
            Some(c) => after.positions@[group_id] == c,
            None => after.positions@[group_id].positions@.len() == 0,
        }
    }
}

/// Whether a stream is a new one of the messages of groups.
pub open spec fn is_new_stream(
    groups: Seq<Vec<u8>>,
    cursors_by_group: Map<Seq<u8>, GlobalCursor>,
    seen: Vec<Cursor>,
    r: StreamGroupMessages,
) -> bool {
    &&& r.state == StreamState::Waiting
    &&& r.groups.seen == seen
    &&& r.add_queue@.len() == 0
    &&& r.returned@.len() == 0
    &&& r.got@.len() == 0
    &&& forall|id: Seq<u8>| #[trigger] r.groups.positions@.dom().contains(id) == bytes::byte_views(groups).contains(id)
    &&& forall|id: Seq<u8>, o: u32|
        r.groups.positions@.dom().contains(id) ==> #[trigger] position_of(r.groups.positions@, id, o) == position_of(
            cursors_by_group,
            id,
            o,
        )
}

/// Whether an action is what one poll of the stream asks for.
pub open spec fn is_stream_poll(before: StreamGroupMessages, after: StreamGroupMessages, r: StreamAction) -> bool {
    &&& after.returned == before.returned
    &&& after.got == before.got
    &&& match before.state {
        StreamState::Waiting => if before.add_queue@.len() > 0 {
            let (group, cursor) = before.add_queue@[0];
            &&& after.state == StreamState::Adding
            &&& after.add_queue@ == before.add_queue@.skip(1)
            &&& is_followed(before.groups, group.group_id@, cursor, after.groups)
            &&& r matches StreamAction::Subscribe { new_group }
            &&& new_group == group.group_id
        } else {
            after == before && r is PollInner
        },
        StreamState::Processing { message: _ } => after == before && r is PollProcessing,
        StreamState::Adding => after == before && r is PollAdding,
    }
}

/// Whether what polling the subscription gave is taken in.
pub open spec fn takes_next(
    before: StreamGroupMessages,
    next: Polled<Result<IncomingMessage, ExternalError>>,
    after: StreamGroupMessages,
    r: StreamAction,
) -> bool {
    &&& after == (StreamGroupMessages { got: after.got, ..before })
    &&& match next {
        Polled::Pending => r is Pending && after.got@ == before.got@,
        Polled::Ended => r is Ended && after.got@ == before.got@,
        Polled::Item(Err(e)) => r == StreamAction::Yield(Err(SubscribeError::BoxError(e)))
            && after.got@ == before.got@,
        Polled::Item(Ok(message)) => {
            &&& after.got@ == before.got@.push(message.cursor)
            &&& if before.groups.seen@.contains(message.cursor) {
                r is Wake
            } else {
                r == StreamAction::Retrieve(message)
            }
        },
    }
}

/// Whether it is taken in if a message is already stored.
pub open spec fn takes_stored(
    before: StreamGroupMessages,
    message: IncomingMessage,
    stored: Result<Option<StoredGroupMessage>, SubscribeError>,
    after: StreamGroupMessages,
    r: StreamAction,
) -> bool {
    &&& after == (StreamGroupMessages {
        groups: after.groups,
        state: after.state,
        ..before
    })
    &&& match stored {
        Err(e) => after == before && r == StreamAction::Yield(Err(e)),
        Ok(Some(m)) => {
            &&& after.state == before.state
            &&& after.groups.seen == before.groups.seen
            &&& is_moved(
                before.groups.positions@,
                message.group_id@,
                message.cursor,
                after.groups.positions@,
            )
            &&& r == StreamAction::Yield(Ok(m))
        },
        Ok(None) => {
            &&& after.groups == before.groups
            &&& after.state == StreamState::Processing { message: message.cursor }
            &&& r == StreamAction::Process(message)
        },
    }
}

/// Whether what came of processing a message is taken in.
pub open spec fn takes_processed(
    before: StreamGroupMessages,
    processed: Result<ProcessedMessage, SubscribeError>,
    after: StreamGroupMessages,
    r: StreamAction,
) -> bool {
    &&& after.state == StreamState::Waiting
    &&& after.add_queue == before.add_queue
    &&& after.got == before.got
    &&& after.groups.seen == before.groups.seen
    &&& match processed {
        Err(e) => {
            &&& after.groups == before.groups
            &&& after.returned@ == before.returned@
            &&& r == StreamAction::Yield(Err(e))
        },
        Ok(p) => match p.message {
            Some(m) => {
                &&& after.returned@ == before.returned@.push(
                    (Cursor { sequence_id: m.sequence_id as u64, originator_id: m.originator_id as u32 }),
                )
                &&& is_moved(
                    before.groups.positions@,
                    m.group_id@,
                    p.next_message,
                    after.groups.positions@,
                )
                &&& r == StreamAction::Yield(Ok(m))
            },
            None => {
                &&& after.returned@ == before.returned@
                &&& is_moved(
                    before.groups.positions@,
                    p.group_id@,
                    p.next_message,
                    after.groups.positions@,
                )
                &&& r is Wake
            },
        },
    }
}

/// Whether a new subscription is taken in.
pub open spec fn takes_subscription(
    before: StreamGroupMessages,
    subscribed: Result<(Vec<u8>, Option<Cursor>), SubscribeError>,
    after: StreamGroupMessages,
    r: StreamAction,
) -> bool {
    &&& after == (StreamGroupMessages {
        groups: after.groups,
        state: StreamState::Waiting,
        ..before
    })
    &&& match subscribed {
        Ok((group_id, Some(cursor))) => {
            &&& after.groups.seen == before.groups.seen
            &&& is_moved(
                before.groups.positions@,
                group_id@,
                cursor,
                after.groups.positions@,
            )
            &&& r is UseSubscription
        },
        Ok((_, None)) => after.groups == before.groups && r is UseSubscription,
        Err(_) => after.groups == before.groups && r is Wake,
    }
}

/// A new stream follows exactly the groups that it was given, each from where it was read to.
pub proof fn streams_follow_their_groups(
    groups: Seq<Vec<u8>>,
    cursors_by_group: Map<Seq<u8>, GlobalCursor>,
    seen: Vec<Cursor>,
    r: StreamGroupMessages,
    i: int,
    other: Seq<u8>,
    originator_id: u32,
)
    requires
        is_new_stream(groups, cursors_by_group, seen, r),
    ensures
        0 <= i < groups.len() ==> r.groups.positions@.dom().contains(groups[i]@) && position_of(
            r.groups.positions@,
            groups[i]@,
            originator_id,
        ) == position_of(cursors_by_group, groups[i]@, originator_id),
        (forall|k: int| 0 <= k < groups.len() ==> (#[trigger] groups[k])@ != other)
            ==> !r.groups.positions@.dom().contains(other),
        r.state == StreamState::Waiting && r.groups.seen == seen && r.returned@.len() == 0,
{
    let views = bytes::byte_views(groups);
    if 0 <= i < groups.len() {
        assert(views[i] == groups[i]@);
        assert(views.contains(groups[i]@));
    }
    if views.contains(other) {
        let k = choose|k: int| 0 <= k < views.len() && views[k] == other;
        assert(groups[k]@ == other);
    }
}

/// A group that is to be followed too comes before the next message: it is followed, the others stay where they are, and
/// the subscription is made anew. Nothing is followed while a message is being processed.
pub proof fn groups_are_followed_between_messages(
    before: StreamGroupMessages,
    after: StreamGroupMessages,
    r: StreamAction,
    other: Seq<u8>,
    originator_id: u32,
)
    requires
        is_stream_poll(before, after, r),
    ensures
        before.state == StreamState::Waiting && before.add_queue@.len() > 0 ==> {
            let (group, cursor) = before.add_queue@[0];
            &&& r == (StreamAction::Subscribe { new_group: group.group_id })
            &&& after.state == StreamState::Adding
            &&& after.add_queue@ == before.add_queue@.subrange(1, before.add_queue@.len() as int)
            &&& after.groups.positions@.dom().contains(group.group_id@)
            &&& !before.groups.positions@.dom().contains(group.group_id@) && cursor is Some ==> position_of(
                after.groups.positions@,
                group.group_id@,
                originator_id,
            ) == cursor->0.at(originator_id)
            &&& before.groups.positions@.dom().contains(other) ==> position_of(
                after.groups.positions@,
                other,
                originator_id,
            ) == position_of(before.groups.positions@, other, originator_id)
        },
        before.state == StreamState::Waiting && before.add_queue@.len() == 0 ==> r is PollInner && after == before,
        before.state is Processing ==> r is PollProcessing && after == before,
        before.state == StreamState::Adding ==> r is PollAdding && after == before,
        after.returned == before.returned && after.got == before.got && after.groups.seen == before.groups.seen,
{
}

/// Every message that comes and was not stored before the stream began is looked up; one that was stored before is passed
/// over. Nothing else of the stream changes.
pub proof fn new_messages_are_looked_up(
    before: StreamGroupMessages,
    next: Polled<Result<IncomingMessage, ExternalError>>,
    after: StreamGroupMessages,
    r: StreamAction,
)
    requires
        takes_next(before, next, after, r),
    ensures
        next matches Polled::Item(Ok(message)) ==> {
            &&& !before.groups.seen@.contains(message.cursor) ==> r == StreamAction::Retrieve(message)
            &&& before.groups.seen@.contains(message.cursor) ==> r is Wake
            &&& after.got@ == before.got@.push(message.cursor)
        },
        next matches Polled::Item(Err(e)) ==> r == StreamAction::Yield(Err(SubscribeError::BoxError(e))),
        next is Ended <==> r is Ended,
        next is Pending <==> r is Pending,
        after.groups == before.groups && after.state == before.state && after.returned == before.returned
            && after.add_queue == before.add_queue,
{
}

/// A message that is already stored is streamed as it is, and its group is read on behind it. One that is not stored is
/// processed, and its group stays where it is until then. A failure to look it up is streamed and changes nothing.
pub proof fn stored_messages_are_streamed(
    before: StreamGroupMessages,
    message: IncomingMessage,
    stored: Result<Option<StoredGroupMessage>, SubscribeError>,
    after: StreamGroupMessages,
    r: StreamAction,
)
    requires
        takes_stored(before, message, stored, after, r),
    ensures
        stored matches Ok(Some(m)) ==> r == StreamAction::Yield(Ok(m)) && position_of(
            after.groups.positions@,
            message.group_id@,
            message.cursor.originator_id,
        ) == message.cursor.sequence_id && after.state == before.state,
        stored matches Ok(None) ==> r == StreamAction::Process(message) && after.groups == before.groups && after.state == (
        StreamState::Processing { message: message.cursor }),
        stored matches Err(e) ==> r == StreamAction::Yield(Err(e)) && after == before,
        after.groups.seen == before.groups.seen && after.got == before.got && after.returned == before.returned
            && after.add_queue == before.add_queue,
{
}

/// A message that was processed is streamed and counted as returned, and its group is read on from where the processing
/// said. Where there is none the group is read on all the same; after a failure it is not. Either way the stream waits
/// for the next message.
pub proof fn processed_messages_are_streamed(
    before: StreamGroupMessages,
    processed: Result<ProcessedMessage, SubscribeError>,
    after: StreamGroupMessages,
    r: StreamAction,
    other: Seq<u8>,
    originator_id: u32,
)
    requires
        takes_processed(before, processed, after, r),
    ensures
        after.state == StreamState::Waiting,
        processed matches Ok(p) ==> {
            &&& p.message matches Some(m) ==> {
                &&& r == StreamAction::Yield(Ok(m))
                &&& after.returned@.len() == before.returned@.len() + 1
                &&& position_of(after.groups.positions@, m.group_id@, p.next_message.originator_id)
                    == p.next_message.sequence_id
                &&& other != m.group_id@ ==> position_of(after.groups.positions@, other, originator_id) == position_of(
                    before.groups.positions@,
                    other,
                    originator_id,
                )
            }
            &&& p.message is None ==> {
                &&& r is Wake
                &&& after.returned@ == before.returned@
                &&& position_of(after.groups.positions@, p.group_id@, p.next_message.originator_id)
                    == p.next_message.sequence_id
            }
        },
        processed matches Err(e) ==> r == StreamAction::Yield(Err(e)) && after.groups == before.groups && after.returned@
            == before.returned@,
        after.add_queue == before.add_queue && after.got == before.got && after.groups.seen == before.groups.seen,
        processed matches Ok(p) ==> (p.message matches Some(m) ==> (0 <= m.sequence_id && 0 <= m.originator_id
            <= u32::MAX ==> after.returned@.last() == (Cursor {
            sequence_id: m.sequence_id as u64,
            originator_id: m.originator_id as u32,
        }))),
{
    if let Ok(p) = processed {
        if let Some(m) = p.message {
            if other != m.group_id@ {
                streaming_moves_one_group(
                    before.groups.positions@,
                    m.group_id@,
                    p.next_message,
                    after.groups.positions@,
                    other,
                    originator_id,
                );
            }
        }
    }
}

/// A new subscription takes the place of the old one, and a group for which it says where to begin is read from there. One
/// that failed leaves everything as it was. Either way the stream goes on waiting for messages.
pub proof fn new_subscriptions_are_used(
    before: StreamGroupMessages,
    subscribed: Result<(Vec<u8>, Option<Cursor>), SubscribeError>,
    after: StreamGroupMessages,
    r: StreamAction,
)
    requires
        takes_subscription(before, subscribed, after, r),
    ensures
        after.state == StreamState::Waiting,
        subscribed is Ok <==> r is UseSubscription,
        subscribed is Err ==> r is Wake && after.groups == before.groups,
        subscribed matches Ok((group_id, Some(cursor))) ==> position_of(
            after.groups.positions@,
            group_id@,
            cursor.originator_id,
        ) == cursor.sequence_id,
        subscribed matches Ok((_, None)) ==> after.groups == before.groups,
        after.returned == before.returned && after.got == before.got && after.add_queue == before.add_queue
            && after.groups.seen == before.groups.seen,
{
}

impl StreamGroupMessages {
    pub open spec fn wf(self) -> bool {
        self.groups.wf()
    }

    /// A stream of the messages of groups; `cursors_by_group` tells how far each was read, and `seen`
    /// are the messages after that which are already stored.
    pub fn new_with_factory(groups: &Vec<Vec<u8>>, cursors_by_group: &ByteMap<GlobalCursor>, seen: Vec<Cursor>) -> (r:
        Self)
        requires
            cursors_by_group.wf(),
        ensures
            r.wf(),
            is_new_stream(groups@, cursors_by_group@, seen, r),
    {
        let mut positions: ByteMap<GlobalCursor> = ByteMap::new();
        let mut i: usize = 0;
        assert(bytes::byte_views(groups@.take(0)) =~= Seq::<Seq<u8>>::empty());
        while i < groups.len()
            invariant
                i <= groups@.len(),
                cursors_by_group.wf(),
                positions.wf(),
                forall|id: Seq<u8>|
                    #[trigger] positions@.dom().contains(id) == bytes::byte_views(groups@.take(i as int)).contains(id),
                forall|id: Seq<u8>, o: u32|
                    positions@.dom().contains(id) ==> #[trigger] position_of(positions@, id, o) == position_of(
                        cursors_by_group@,
                        id,
                        o,
                    ),
            decreases groups@.len() - i,
        {
            let id = groups[i].as_slice();
            let position: GlobalCursor = match cursors_by_group.get(id) {
                Some(c) => c.duplicate(),
                None => GlobalCursor::new(),
            };
            let ghost before = positions@;
            positions.insert(bytes::clone_bytes(id), position);
            proof {
                let shorter = bytes::byte_views(groups@.take(i as int));
                let longer = bytes::byte_views(groups@.take(i + 1));
                assert(longer =~= shorter.push(id@));
                assert forall|k: Seq<u8>| #[trigger] positions@.dom().contains(k) == longer.contains(k) by {
                    assert(before.dom().contains(k) == shorter.contains(k));
                    if shorter.contains(k) {
                        let j = choose|j: int| 0 <= j < shorter.len() && shorter[j] == k;
                        assert(longer[j] == k);
                    }
                    if longer.contains(k) {
                        let j = choose|j: int| 0 <= j < longer.len() && longer[j] == k;
                        if j < shorter.len() {
                            assert(shorter[j] == k);
                        }
                    }
                    assert(longer[i as int] == id@);
                }
                assert forall|k: Seq<u8>, o: u32| positions@.dom().contains(k) implies #[trigger] position_of(
                    positions@,
                    k,
                    o,
                ) == position_of(cursors_by_group@, k, o) by {
                    if k != id@ {
                        assert(position_of(before, k, o) == position_of(cursors_by_group@, k, o));
                    }
                }
            }
            i += 1;
        }
        assert(groups@.take(i as int) =~= groups@);
        StreamGroupMessages {
            state: StreamState::Waiting,
            groups: GroupList { positions, seen },
            add_queue: VecDeque::new(),
            returned: Vec::new(),
            got: Vec::new(),
        }
    }

    /// What the stream is waiting for, in a word.
    pub fn current_state(&self) -> (r: &'static str)
        ensures
            r@ == (match self.state {
                StreamState::Waiting => "waiting"@,
                StreamState::Processing { message: _ } => "processing"@,
                StreamState::Adding => "adding"@,
            }),
    {
        match self.state {
            StreamState::Waiting => "waiting",
            StreamState::Processing { message: _ } => "processing",
            StreamState::Adding => "adding",
        }
    }

    /// Lets the stream follow a group too, as soon as it comes to it.
    pub fn add_with_cursor(&mut self, group: MlsGroup, cursor: Option<GlobalCursor>)
        ensures
            *final(self) == (StreamGroupMessages { add_queue: final(self).add_queue, ..*old(self) }),
            final(self).add_queue@ == old(self).add_queue@.push((group, cursor)),
    {
        self.add_queue.push_back((group, cursor));
    }

    /// One poll of the stream: a group that is to be followed too comes first.
    pub fn poll_next(&mut self) -> (r: StreamAction)
        requires
            old(self).wf(),
        ensures
            final(self).wf(),
            is_stream_poll(*old(self), *final(self), r),
    {
        match self.state {
            StreamState::Waiting => {
                if self.add_queue.len() > 0 {
                    let ghost queue = self.add_queue@;
                    if let Some((group, cursor)) = self.add_queue.pop_front() {
                        assert(self.add_queue@ =~= queue.skip(1));
                        return self.resolve_group_additions(group, cursor);
                    }
                }
                StreamAction::PollInner
            },
            StreamState::Processing { message: _ } => StreamAction::PollProcessing,
            StreamState::Adding => StreamAction::PollAdding,
        }
    }

    /// Puts a group into the list, unless it is there, and subscribes anew.
    fn resolve_group_additions(&mut self, group: MlsGroup, cursor: Option<GlobalCursor>) -> (r: StreamAction)
        requires
            old(self).wf(),
        ensures
            final(self).wf(),
            final(self).state == StreamState::Adding,
            final(self).add_queue == old(self).add_queue,
            final(self).returned == old(self).returned,
            final(self).got == old(self).got,
            is_followed(old(self).groups, group.group_id@, cursor, final(self).groups),
            r matches StreamAction::Subscribe { new_group } && new_group == group.group_id,
    {
        if !self.groups.contains(group.group_id.as_slice()) {
            let position: GlobalCursor = match cursor {
                Some(c) => c,
                None => GlobalCursor::new(),
            };
            self.groups.add(group.group_id.as_slice(), position);
        }
        self.state = StreamState::Adding;
        StreamAction::Subscribe { new_group: group.group_id }
    }

    /// Takes in what polling the subscription gave. A message that was stored before the stream began
    /// is passed over.
    pub fn on_waiting(&mut self, next: Polled<Result<IncomingMessage, ExternalError>>) -> (r: StreamAction)
        requires
            old(self).wf(),
        ensures
            takes_next(*old(self), next, *final(self), r),
    {
        match next {
            Polled::Pending => StreamAction::Pending,
            Polled::Ended => StreamAction::Ended,
            Polled::Item(Err(e)) => StreamAction::Yield(Err(SubscribeError::BoxError(e))),
            Polled::Item(Ok(message)) => {
                self.got.push(message.cursor);
                if self.groups.has_seen(message.cursor) {
                    StreamAction::Wake
                } else {
                    StreamAction::Retrieve(message)
                }
            },
        }
    }

    /// Takes in whether a message is already stored: then it is streamed as it is; else it is
    /// processed.
    pub fn on_retrieved(
        &mut self,
        message: IncomingMessage,
        stored: Result<Option<StoredGroupMessage>, SubscribeError>,
    ) -> (r: StreamAction)
        requires
            old(self).wf(),
        ensures
            final(self).wf(),
            takes_stored(*old(self), message, stored, *final(self), r),
    {
        match stored {
            Err(e) => StreamAction::Yield(Err(e)),
            Ok(Some(m)) => {
                self.set_cursor(message.group_id.as_slice(), message.cursor);
                StreamAction::Yield(Ok(m))
            },
            Ok(None) => {
                self.state = StreamState::Processing { message: message.cursor };
                StreamAction::Process(message)
            },
        }
    }

    /// Takes in what came of processing a message. Its group is read on from where the processing
    /// said, whether or not there is a message to be streamed; after an error it is not.
    pub fn resolve_futures(&mut self, processed: Result<ProcessedMessage, SubscribeError>) -> (r: StreamAction)
        requires
            old(self).wf(),
            old(self).state is Processing,
        ensures
            final(self).wf(),
            takes_processed(*old(self), processed, *final(self), r),
    {
        self.state = StreamState::Waiting;
        let processed = match processed {
            Err(e) => return StreamAction::Yield(Err(e)),
            Ok(p) => p,
        };
        match processed.message {
            Some(m) => {
                self.returned.push(
                    Cursor { sequence_id: m.sequence_id as u64, originator_id: m.originator_id as u32 },
                );
                self.set_cursor(m.group_id.as_slice(), processed.next_message);
                StreamAction::Yield(Ok(m))
            },
            None => {
                self.set_cursor(processed.group_id.as_slice(), processed.next_message);
                StreamAction::Wake
            },
        }
    }

    /// Takes in a new subscription. One that failed leaves the old one in its place.
    pub fn on_subscribed(&mut self, subscribed: Result<(Vec<u8>, Option<Cursor>), SubscribeError>) -> (r: StreamAction)
        requires
            old(self).wf(),
        ensures
            final(self).wf(),
            takes_subscription(*old(self), subscribed, *final(self), r),
    {
        self.state = StreamState::Waiting;
        match subscribed {
            Ok((group_id, cursor)) => {
                if let Some(cursor) = cursor {
                    self.set_cursor(group_id.as_slice(), cursor);
                }
                StreamAction::UseSubscription
            },
            Err(_) => StreamAction::Wake,
        }
    }

    /// Moves one originator of a group to a place.
    fn set_cursor(&mut self, group_id: &[u8], new_cursor: Cursor)
        requires
            old(self).wf(),
        ensures
            final(self).wf(),
            *final(self) == (StreamGroupMessages { groups: final(self).groups, ..*old(self) }),
            final(self).groups.seen == old(self).groups.seen,
            is_moved(old(self).groups.positions@, group_id@, new_cursor, final(self).groups.positions@),
    {
        self.groups.set(group_id, new_cursor);
    }
}

/// Following a group that is already followed does not move it; following another one moves none.
pub proof fn following_moves_no_group(
    before: GroupList,
    group_id: Seq<u8>,
    cursor: Option<GlobalCursor>,
    after: GroupList,
    other: Seq<u8>,
    originator_id: u32,
)
    requires
        is_followed(before, group_id, cursor, after),
        before.positions@.dom().contains(other),
    ensures
        after.positions@.dom().contains(group_id),
        position_of(after.positions@, other, originator_id) == position_of(before.positions@, other, originator_id),
{
}

/// A message that is streamed moves its own group to where it is read on, and no other group.
pub proof fn streaming_moves_one_group(
    before: Map<Seq<u8>, GlobalCursor>,
    group_id: Seq<u8>,
    cursor: Cursor,
    after: Map<Seq<u8>, GlobalCursor>,
    other: Seq<u8>,
    originator_id: u32,
)
    requires
        is_moved(before, group_id, cursor, after),
        other != group_id,
    ensures
        position_of(after, group_id, cursor.originator_id) == cursor.sequence_id,
        position_of(after, other, originator_id) == position_of(before, other, originator_id),
{
    if before.dom().contains(other) {
        assert(after[other] == before[other]);
    }
}

} // verus!
