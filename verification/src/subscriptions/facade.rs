//! Welcomes that arrive outside a stream, as with a push notification.

use vstd::prelude::*;
use crate::groups::group::MlsGroup;
use crate::records::Cursor;
use crate::subscriptions::error::{ConversationStreamError, SubscribeError};
use crate::subscriptions::process_welcome::ProcessWelcomeResult;
use crate::subscriptions::stream_conversations;

verus! {

/// Welcomes that are processed one after the other.
#[derive(Debug)]
pub struct StreamedWelcomes {
    /// The welcomes that are already known.
    pub known_welcomes: Vec<Cursor>,
    /// The groups so far.
    pub groups: Vec<MlsGroup>,
}

/// Whether what came of a welcome is taken in.
pub open spec fn takes_welcome(
    before: StreamedWelcomes,
    welcome_id: Cursor,
    result: Result<ProcessWelcomeResult, SubscribeError>,
    after: StreamedWelcomes,
    r: Result<(), SubscribeError>,
) -> bool {
    match result {
        Err(e) => {
            &&& after.known_welcomes@ == before.known_welcomes@
            &&& after.groups@ == before.groups@
            &&& r == Err::<(), _>(e)
        },
        Ok(processed) => {
            &&& stream_conversations::makes_known(before.known_welcomes@, Some(welcome_id), after.known_welcomes@)
            &&& match stream_conversations::streamed_by(processed) {
                Some(group) => after.groups@ == before.groups@.push(group) && r == Ok::<(), SubscribeError>(()),
                None => after.groups@ == before.groups@ && r == Err::<(), _>(
                    SubscribeError::ConversationStream(ConversationStreamError::InvalidConversationType),
                ),
            }
        },
    }
}

/// A welcome that brings a group adds it behind the groups so far; one that brings none is an error, and adds nothing.
/// Either way it is known from then on. A failure adds nothing and makes nothing known.
pub proof fn every_welcome_adds_its_group(
    before: StreamedWelcomes,
    welcome_id: Cursor,
    result: Result<ProcessWelcomeResult, SubscribeError>,
    after: StreamedWelcomes,
    r: Result<(), SubscribeError>,
    other: Cursor,
)
    requires
        takes_welcome(before, welcome_id, result, after, r),
    ensures
        result matches Ok(ProcessWelcomeResult::New { group, id: _ }) ==> r is Ok && after.groups@ == before.groups@.push(
            group,
        ),
        result matches Ok(ProcessWelcomeResult::NewStored { group, maybe_sequence_id: _, maybe_originator: _ }) ==> r is Ok
            && after.groups@ == before.groups@.push(group),
        result matches Ok(ProcessWelcomeResult::IgnoreId { id: _ }) ==> after.groups@ == before.groups@ && r == Err::<
            (),
            _,
        >(SubscribeError::ConversationStream(ConversationStreamError::InvalidConversationType)),
        result matches Ok(ProcessWelcomeResult::Ignore) ==> after.groups@ == before.groups@ && r == Err::<(), _>(
            SubscribeError::ConversationStream(ConversationStreamError::InvalidConversationType),
        ),
        result matches Err(e) ==> r == Err::<(), _>(e) && after.groups@ == before.groups@ && after.known_welcomes@
            == before.known_welcomes@,
        result is Ok ==> after.known_welcomes@.contains(welcome_id),
        before.known_welcomes@.contains(other) ==> after.known_welcomes@.contains(other),
{
    let known = before.known_welcomes@;
    if result is Ok && !known.contains(welcome_id) {
        assert(after.known_welcomes@[known.len() as int] == welcome_id);
    }
    if known.contains(other) {
        let i = choose|i: int| 0 <= i < known.len() && known[i] == other;
        assert(after.known_welcomes@[i] == other);
    }
}

impl StreamedWelcomes {
    /// No welcome was processed yet; `known_welcomes` are those of the stored groups.
    pub fn new(known_welcomes: Vec<Cursor>) -> (r: Self)
        ensures
            r.known_welcomes == known_welcomes,
            r.groups@.len() == 0,
    {
        StreamedWelcomes { known_welcomes, groups: Vec::new() }
    }

    /// Takes in what came of a welcome. One that leads to no conversation is an error, though it is
    /// known from then on; an error ends the whole.
    pub fn process_streamed_welcome_message(
        &mut self,
        welcome_id: Cursor,
        result: Result<ProcessWelcomeResult, SubscribeError>,
    ) -> (r: Result<(), SubscribeError>)
        ensures
            takes_welcome(*old(self), welcome_id, result, *final(self), r),
    {
        match result {
            Err(e) => Err(e),
            Ok(processed) => {
                stream_conversations::make_known(&mut self.known_welcomes, Some(welcome_id));
                match processed {
                    ProcessWelcomeResult::New { group, id: _ } => {
                        self.groups.push(group);
                        Ok(())
                    },
                    ProcessWelcomeResult::NewStored { group, maybe_sequence_id: _, maybe_originator: _ } => {
                        self.groups.push(group);
                        Ok(())
                    },
                    _ => Err(
                        SubscribeError::ConversationStream(ConversationStreamError::InvalidConversationType),
                    ),
                }
            },
        }
    }
}

} // verus!
