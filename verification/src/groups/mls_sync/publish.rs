//! Publishing of local intents.
//!
//! Publishing is where an intent becomes visible to the network. What is sent and the commit that
//! was staged with it are kept aligned, so that the message is recognised when it comes back.

use vstd::prelude::*;
use crate::bytes;
use crate::crypto;
use crate::error::ExternalError;
use crate::groups::error::GroupError;
use crate::groups::group::MlsGroup;
use crate::groups::mls_sync::helpers;
use crate::groups::mls_sync::helpers::FailureRecord;
use crate::groups::mls_sync::types::PublishIntentData;
use crate::records::StoredGroupIntent;

verus! {

/// What is stored of an intent when it is published, before anything is sent.
#[derive(Debug)]
pub struct PublishedIntent {
    pub intent_id: i32,
    /// The digest of the last payload, by which the message is recognised when it comes back.
    pub payload_hash: Vec<u8>,
    pub post_commit_data: Option<Vec<u8>>,
    pub staged_commit: Option<Vec<u8>>,
    pub published_in_epoch: i64,
}

/// What a pass of publishing waits for.
#[derive(Debug)]
pub enum PublishPhase {
    /// The data of the current intent.
    Deriving,
    /// That the current intent is stored as published.
    Marking { payloads: Vec<Vec<u8>>, should_push: bool, has_staged_commit: bool },
    /// That the payloads of the current intent are sent.
    Sending { has_staged_commit: bool },
    /// That a failure is recorded.
    Recording { error: GroupError },
    /// That the current intent, which needs nothing, is stored as processed.
    Skipping,
    /// Nothing: the pass is over.
    Done,
}

/// A pass over the intents that are to be published, in their order.
#[derive(Debug)]
pub struct PublishPass {
    pub intents: Vec<StoredGroupIntent>,
    pub index: usize,
    pub phase: PublishPhase,
}

/// What has happened outside.
#[derive(Debug)]
pub enum PublishEvent {
    Derived(Result<Option<PublishIntentData>, GroupError>),
    Stored(Result<(), GroupError>),
    /// No messages could be made of the payloads, and nothing was sent.
    NotPrepared(GroupError),
    Sent(Result<(), ExternalError>),
}

/// What is to be done next outside.
#[derive(Debug)]
pub enum PublishAction {
    /// Derive the data of an intent.
    Derive { index: usize },
    /// Store an intent as published.
    MarkPublished(PublishedIntent),
    /// Send the payloads of an intent.
    Send { payloads: Vec<Vec<u8>>, should_push: bool },
    /// Record that an intent failed.
    RecordFailure { intent_id: i32, record: FailureRecord },
    /// Store an intent as processed.
    MarkProcessed { intent_id: i32 },
    /// Stop with an outcome.
    Finish(Result<(), GroupError>),
    /// Nothing: the event was not the one that the pass waits for.
    Ignore,
}

impl PublishPass {
    /// Whether a pass stands at one of its intents, and the attempts of all of them can be counted.
    pub open spec fn wf(self) -> bool {
        &&& self.phase !is Done ==> self.index < self.intents@.len()
        &&& forall|i: int|
            0 <= i < self.intents@.len() ==> (#[trigger] self.intents@[i]).publish_attempts < i32::MAX
    }

    /// The intent that a pass stands at.
    pub open spec fn current(self) -> StoredGroupIntent {
        self.intents@[self.index as int]
    }
}

/// What follows an intent that is dealt with: the next one, or the end.
pub open spec fn moves_on(before: PublishPass, after: PublishPass, action: PublishAction) -> bool {
    &&& after.intents == before.intents
    &&& if before.index + 1 < before.intents@.len() {
        after.index == before.index + 1 && after.phase == PublishPhase::Deriving && action == PublishAction::Derive {
            index: after.index,
        }
    } else {
        after.phase == PublishPhase::Done && action == PublishAction::Finish(Ok(()))
    }
}

/// What follows an error that ends a pass.
pub open spec fn stops(before: PublishPass, after: PublishPass, action: PublishAction, error: GroupError) -> bool {
    &&& after.intents == before.intents
    &&& after.phase == PublishPhase::Done
    &&& action == PublishAction::Finish(Err(error))
}

/// What follows when a failure is to be recorded before the pass ends with an error.
pub open spec fn records(
    before: PublishPass,
    after: PublishPass,
    action: PublishAction,
    error: GroupError,
    record: FailureRecord,
) -> bool {
    &&& after == (PublishPass { phase: PublishPhase::Recording { error }, ..before })
    &&& action == PublishAction::RecordFailure { intent_id: before.current().id, record }
}

/// Whether what is stored of an intent is what its data say.
pub open spec fn is_publication(p: PublishedIntent, intent: StoredGroupIntent, data: PublishIntentData) -> bool {
    &&& p.intent_id == intent.id
    &&& p.payload_hash@ == crypto::sha256_digest(data.payloads_to_publish@.last()@)
    &&& p.post_commit_data == data.post_commit_action
    &&& p.staged_commit == data.staged_commit
    &&& p.published_in_epoch == data.group_epoch as i64
}

/// The transitions of a pass of publishing.
pub open spec fn is_publish_step(
    before: PublishPass,
    event: PublishEvent,
    max_attempts: usize,
    after: PublishPass,
    action: PublishAction,
) -> bool {
    match (before.phase, event) {
        (PublishPhase::Deriving, PublishEvent::Derived(Err(error))) => records(
            before,
            after,
            action,
            error,
            if helpers::attempts_exhausted(before.current().publish_attempts, max_attempts) {
                FailureRecord::SetErrorAndFailMessage
            } else {
                FailureRecord::IncrementAttempts
            },
        ),
        (PublishPhase::Deriving, PublishEvent::Derived(Ok(None))) => {
            &&& after == (PublishPass { phase: PublishPhase::Skipping, ..before })
            &&& action == PublishAction::MarkProcessed { intent_id: before.current().id }
        },
        (PublishPhase::Deriving, PublishEvent::Derived(Ok(Some(data)))) => if data.payloads_to_publish@.len()
            == 0 {
            stops(before, after, action, GroupError::UninitializedResult)
        } else {
            &&& after == (PublishPass {
                phase: PublishPhase::Marking {
                    payloads: data.payloads_to_publish,
                    should_push: data.should_send_push_notification,
                    has_staged_commit: data.staged_commit is Some,
                },
                ..before
            })
            &&& action matches PublishAction::MarkPublished(p) && is_publication(p, before.current(), data)
        },
        (
            PublishPhase::Marking { payloads, should_push, has_staged_commit },
            PublishEvent::Stored(Ok(_)),
        ) => {
            &&& after == (PublishPass { phase: PublishPhase::Sending { has_staged_commit }, ..before })
            &&& action == PublishAction::Send { payloads, should_push }
        },
        (PublishPhase::Marking { payloads: _, should_push: _, has_staged_commit: _ }, PublishEvent::Stored(Err(error))) => stops(
            before,
            after,
            action,
            error,
        ),
        (PublishPhase::Sending { has_staged_commit }, PublishEvent::Sent(Ok(_))) => if has_staged_commit {
            &&& after == (PublishPass { phase: PublishPhase::Done, ..before })
            &&& action == PublishAction::Finish(Ok(()))
        } else {
            moves_on(before, after, action)
        },
        (PublishPhase::Sending { has_staged_commit: _ }, PublishEvent::NotPrepared(error)) => stops(
            before,
            after,
            action,
            error,
        ),
        (PublishPhase::Sending { has_staged_commit: _ }, PublishEvent::Sent(Err(error))) => records(
            before,
            after,
            action,
            GroupError::External(error),
            if !error.retryable || helpers::attempts_exhausted(before.current().publish_attempts, max_attempts) {
                FailureRecord::SetErrorAndFailMessage
            } else {
                FailureRecord::IncrementAttemptsAndRequeue
            },
        ),
        (PublishPhase::Recording { error }, PublishEvent::Stored(Ok(_))) => stops(before, after, action, error),
        (PublishPhase::Recording { error: _ }, PublishEvent::Stored(Err(error))) => stops(
            before,
            after,
            action,
            error,
        ),
        (PublishPhase::Skipping, PublishEvent::Stored(Ok(_))) => moves_on(before, after, action),
        (PublishPhase::Skipping, PublishEvent::Stored(Err(error))) => stops(before, after, action, error),
        _ => after == before && action == PublishAction::Ignore,
    }
}

/// How a pass over intents begins.
pub open spec fn begins_publishing(intents: Vec<StoredGroupIntent>, pass: PublishPass, action: PublishAction) -> bool {
    &&& pass.intents == intents
    &&& if intents@.len() == 0 {
        pass.phase == PublishPhase::Done && action == PublishAction::Finish(Ok(()))
    } else {
        pass.index == 0 && pass.phase == PublishPhase::Deriving && action == PublishAction::Derive { index: 0 }
    }
}

/// A pass begins with the first intent, and ends at once, and well, if there is none.
pub proof fn passes_begin_with_the_first_intent(
    intents: Vec<StoredGroupIntent>,
    pass: PublishPass,
    action: PublishAction,
)
    requires
        begins_publishing(intents, pass, action),
    ensures
        intents@.len() > 0 ==> action == (PublishAction::Derive { index: 0 }) && pass.current() == intents@[0],
        intents@.len() == 0 ==> (action matches PublishAction::Finish(Ok(_))),
{
}

/// Begins a pass over intents in their order.
pub fn publish_intents(intents: Vec<StoredGroupIntent>) -> (r: (PublishPass, PublishAction))
    requires
        forall|i: int| 0 <= i < intents@.len() ==> (#[trigger] intents@[i]).publish_attempts < i32::MAX,
    ensures
        r.0.wf(),
        begins_publishing(intents, r.0, r.1),
{
    if intents.len() == 0 {
        (PublishPass { intents, index: 0, phase: PublishPhase::Done }, PublishAction::Finish(Ok(())))
    } else {
        (PublishPass { intents, index: 0, phase: PublishPhase::Deriving }, PublishAction::Derive { index: 0 })
    }
}

fn move_on(intents: Vec<StoredGroupIntent>, index: usize) -> (r: (PublishPass, PublishAction))
    requires
        index < intents@.len(),
    ensures
        r.0.intents == intents,
        if index + 1 < intents@.len() {
            r.0.index == index + 1 && r.0.phase == PublishPhase::Deriving && r.1 == PublishAction::Derive {
                index: r.0.index,
            }
        } else {
            r.0.phase == PublishPhase::Done && r.1 == PublishAction::Finish(Ok(()))
        },
{
    if index < intents.len() - 1 {
        (
            PublishPass { intents, index: index + 1, phase: PublishPhase::Deriving },
            PublishAction::Derive { index: index + 1 },
        )
    } else {
        (PublishPass { intents, index, phase: PublishPhase::Done }, PublishAction::Finish(Ok(())))
    }
}

fn stop(intents: Vec<StoredGroupIntent>, index: usize, error: GroupError) -> (r: (PublishPass, PublishAction))
    ensures
        r.0.intents == intents,
        r.0.phase == PublishPhase::Done,
        r.1 == PublishAction::Finish(Err(error)),
{
    (PublishPass { intents, index, phase: PublishPhase::Done }, PublishAction::Finish(Err(error)))
}

fn publication(intent_id: i32, data: PublishIntentData) -> (r: (PublishedIntent, PublishPhase))
    requires
        data.payloads_to_publish@.len() > 0,
    ensures
        r.0.intent_id == intent_id,
        r.0.payload_hash@ == crypto::sha256_digest(data.payloads_to_publish@.last()@),
        r.0.post_commit_data == data.post_commit_action,
        r.0.staged_commit == data.staged_commit,
        r.0.published_in_epoch == data.group_epoch as i64,
        r.1 == (PublishPhase::Marking {
            payloads: data.payloads_to_publish,
            should_push: data.should_send_push_notification,
            has_staged_commit: data.staged_commit is Some,
        }),
{
    let has_staged_commit: bool = data.staged_commit.is_some();
    let last: usize = data.payloads_to_publish.len() - 1;
    let payload_hash = crypto::sha256(data.payloads_to_publish[last].as_slice());
    let published = PublishedIntent {
        intent_id,
        payload_hash,
        post_commit_data: data.post_commit_action,
        staged_commit: data.staged_commit,
        published_in_epoch: data.group_epoch as i64,
    };
    (
        published,
        PublishPhase::Marking {
            payloads: data.payloads_to_publish,
            should_push: data.should_send_push_notification,
            has_staged_commit,
        },
    )
}

/// Takes a pass one step further. An intent is stored as published before its payloads are sent. A
/// pass stops after the first commit that it has sent, and at the first error.
pub fn publish_step(pass: PublishPass, event: PublishEvent, max_attempts: usize) -> (r: (PublishPass, PublishAction))
    requires
        pass.wf(),
    ensures
        is_publish_step(pass, event, max_attempts, r.0, r.1),
        r.0.wf(),
{
    let PublishPass { intents, index, phase } = pass;
    match (phase, event) {
        (PublishPhase::Deriving, PublishEvent::Derived(Err(error))) => {
            let record = if helpers::is_last_attempt(intents[index].publish_attempts, max_attempts) {
                FailureRecord::SetErrorAndFailMessage
            } else {
                FailureRecord::IncrementAttempts
            };
            let intent_id: i32 = intents[index].id;
            (
                PublishPass { intents, index, phase: PublishPhase::Recording { error } },
                PublishAction::RecordFailure { intent_id, record },
            )
        },
        (PublishPhase::Deriving, PublishEvent::Derived(Ok(None))) => {
            let intent_id: i32 = intents[index].id;
            (
                PublishPass { intents, index, phase: PublishPhase::Skipping },
                PublishAction::MarkProcessed { intent_id },
            )
        },
        (PublishPhase::Deriving, PublishEvent::Derived(Ok(Some(data)))) => {
            if data.payloads_to_publish.len() == 0 {
                return stop(intents, index, GroupError::UninitializedResult);
            }
            let (published, phase) = publication(intents[index].id, data);
            (PublishPass { intents, index, phase }, PublishAction::MarkPublished(published))
        },
        (PublishPhase::Marking { payloads, should_push, has_staged_commit }, PublishEvent::Stored(Ok(_))) => (
            PublishPass { intents, index, phase: PublishPhase::Sending { has_staged_commit } },
            PublishAction::Send { payloads, should_push },
        ),
        (
            PublishPhase::Marking { payloads: _, should_push: _, has_staged_commit: _ },
            PublishEvent::Stored(Err(error)),
        ) => stop(intents, index, error),
        (PublishPhase::Sending { has_staged_commit }, PublishEvent::Sent(Ok(_))) => {
            if has_staged_commit {
                (PublishPass { intents, index, phase: PublishPhase::Done }, PublishAction::Finish(Ok(())))
            } else {
                move_on(intents, index)
            }
        },
        (PublishPhase::Sending { has_staged_commit: _ }, PublishEvent::NotPrepared(error)) => stop(
            intents,
            index,
            error,
        ),
        (PublishPhase::Sending { has_staged_commit: _ }, PublishEvent::Sent(Err(error))) => {
            let record = helpers::handle_published_intent_send_failure(
                &intents[index],
                error.retryable,
                max_attempts,
            );
            let intent_id: i32 = intents[index].id;
            (
                PublishPass {
                    intents,
                    index,
                    phase: PublishPhase::Recording { error: GroupError::External(error) },
                },
                PublishAction::RecordFailure { intent_id, record },
            )
        },
        (PublishPhase::Recording { error }, PublishEvent::Stored(Ok(_))) => stop(intents, index, error),
        (PublishPhase::Recording { error: _ }, PublishEvent::Stored(Err(error))) => stop(intents, index, error),
        (PublishPhase::Skipping, PublishEvent::Stored(Ok(_))) => move_on(intents, index),
        (PublishPhase::Skipping, PublishEvent::Stored(Err(error))) => stop(intents, index, error),
        (phase, _) => (PublishPass { intents, index, phase }, PublishAction::Ignore),
    }
}

/// A run of a pass: the states that it goes through, with the event and the action of each step.
pub open spec fn is_publish_run(
    states: Seq<PublishPass>,
    events: Seq<PublishEvent>,
    actions: Seq<PublishAction>,
    max_attempts: usize,
) -> bool {
    &&& states.len() == events.len() + 1
    &&& actions.len() == events.len()
    &&& states[0].wf()
    &&& states[0].phase is Deriving
    &&& forall|i: int|
        0 <= i < events.len() ==> is_publish_step(
            #[trigger] states[i],
            events[i],
            max_attempts,
            states[i + 1],
            actions[i],
        )
}

/// Whether the sending step `k` of a run comes after a step at which the same intent was stored as
/// published with the digest of the last payload that is sent, and the store has confirmed it.
pub open spec fn published_before(
    states: Seq<PublishPass>,
    events: Seq<PublishEvent>,
    actions: Seq<PublishAction>,
    k: int,
    m: int,
) -> bool {
    &&& 0 <= m < k
    &&& states[m].index == states[k].index
    &&& actions[m] matches PublishAction::MarkPublished(p)
    &&& p.intent_id == states[k].current().id
    &&& actions[k] matches PublishAction::Send { payloads, should_push: _ }
    &&& payloads@.len() > 0
    &&& p.payload_hash@ == crypto::sha256_digest(payloads@.last()@)
    &&& events[k] matches PublishEvent::Stored(Ok(_))
}

/// In every run, the intents are taken in their order: a step stays at its intent or goes on to the
/// next.
pub proof fn intents_are_taken_in_order(
    states: Seq<PublishPass>,
    events: Seq<PublishEvent>,
    actions: Seq<PublishAction>,
    max_attempts: usize,
    earlier: int,
    later: int,
)
    requires
        is_publish_run(states, events, actions, max_attempts),
        0 <= earlier <= later <= events.len(),
        states[later].phase !is Done,
    ensures
        states[earlier].phase !is Done,
        states[later].intents == states[earlier].intents,
        states[earlier].index <= states[later].index,
        later == earlier + 1 ==> states[later].index <= states[earlier].index + 1,
    decreases later - earlier,
{
    if earlier < later {
        assert(is_publish_step(
            states[later - 1],
            events[later - 1],
            max_attempts,
            states[later - 1 + 1],
            actions[later - 1],
        ));
        intents_are_taken_in_order(states, events, actions, max_attempts, earlier, later - 1);
    }
}

proof fn lemma_marking_was_marked(
    states: Seq<PublishPass>,
    events: Seq<PublishEvent>,
    actions: Seq<PublishAction>,
    max_attempts: usize,
    k: int,
) -> (m: int)
    requires
        is_publish_run(states, events, actions, max_attempts),
        0 <= k <= events.len(),
        states[k].phase is Marking,
    ensures
        0 <= m < k,
        states[m].index == states[k].index,
        actions[m] matches PublishAction::MarkPublished(p) && p.intent_id == states[k].current().id && {
            &&& states[k].phase matches PublishPhase::Marking { payloads, should_push: _, has_staged_commit: _ }
            &&& payloads@.len() > 0
            &&& p.payload_hash@ == crypto::sha256_digest(payloads@.last()@)
        },
    decreases k,
{
    assert(k > 0);
    assert(is_publish_step(states[k - 1], events[k - 1], max_attempts, states[k - 1 + 1], actions[k - 1]));
    if states[k - 1].phase is Marking {
        let m = lemma_marking_was_marked(states, events, actions, max_attempts, k - 1);
        m
    } else {
        k - 1
    }
}

/// In every run, payloads are sent only after their intent was stored as published with the digest
/// of the last of them.
pub proof fn intents_are_marked_before_they_are_sent(
    states: Seq<PublishPass>,
    events: Seq<PublishEvent>,
    actions: Seq<PublishAction>,
    max_attempts: usize,
    k: int,
)
    requires
        is_publish_run(states, events, actions, max_attempts),
        0 <= k < events.len(),
        actions[k] is Send,
    ensures
        exists|m: int| published_before(states, events, actions, k, m),
{
    assert(is_publish_step(states[k], events[k], max_attempts, states[k + 1], actions[k]));
    assert(states[k].phase is Marking);
    let m = lemma_marking_was_marked(states, events, actions, max_attempts, k);
    assert(published_before(states, events, actions, k, m));
}

/// In every run, nothing is sent after a commit that was sent: the pass ends there.
pub proof fn nothing_is_sent_after_a_commit(
    states: Seq<PublishPass>,
    events: Seq<PublishEvent>,
    actions: Seq<PublishAction>,
    max_attempts: usize,
    k: int,
    later: int,
)
    requires
        is_publish_run(states, events, actions, max_attempts),
        0 <= k < later < events.len(),
        states[k].phase matches PublishPhase::Sending { has_staged_commit } && has_staged_commit,
    ensures
        actions[later] !is Send,
        actions[later] !is MarkPublished,
    decreases later - k,
{
    lemma_after_commit(states, events, actions, max_attempts, k, later);
    assert(is_publish_step(states[later], events[later], max_attempts, states[later + 1], actions[later]));
}

proof fn lemma_after_commit(
    states: Seq<PublishPass>,
    events: Seq<PublishEvent>,
    actions: Seq<PublishAction>,
    max_attempts: usize,
    k: int,
    later: int,
)
    requires
        is_publish_run(states, events, actions, max_attempts),
        0 <= k <= later <= events.len(),
        states[k].phase matches PublishPhase::Sending { has_staged_commit } && has_staged_commit,
    ensures
        ({
            ||| states[later].phase is Done
            ||| states[later].phase is Recording
            ||| states[later].phase matches PublishPhase::Sending { has_staged_commit } && has_staged_commit
        }),
    decreases later - k,
{
    if k < later {
        lemma_after_commit(states, events, actions, max_attempts, k, later - 1);
        assert(is_publish_step(
            states[later - 1],
            events[later - 1],
            max_attempts,
            states[later - 1 + 1],
            actions[later - 1],
        ));
    }
}

/// Whether data that was derived at a step is what a later step sends, for the same intent.
pub open spec fn derived_before(
    states: Seq<PublishPass>,
    events: Seq<PublishEvent>,
    actions: Seq<PublishAction>,
    k: int,
    m: int,
) -> bool {
    &&& 0 <= m < k
    &&& states[m].index == states[k].index
    &&& states[m].intents == states[k].intents
    &&& events[m] matches PublishEvent::Derived(Ok(Some(data)))
    &&& actions[k] matches PublishAction::Send { payloads, should_push }
    &&& payloads == data.payloads_to_publish
    &&& should_push == data.should_send_push_notification
}

/// In every run, what is sent for an intent are exactly the payloads that were derived for it, all of them
/// and in their order, with the push that was asked for.
pub proof fn all_derived_payloads_are_sent(
    states: Seq<PublishPass>,
    events: Seq<PublishEvent>,
    actions: Seq<PublishAction>,
    max_attempts: usize,
    k: int,
)
    requires
        is_publish_run(states, events, actions, max_attempts),
        0 <= k < events.len(),
        actions[k] is Send,
    ensures
        exists|m: int| derived_before(states, events, actions, k, m),
{
    assert(is_publish_step(states[k], events[k], max_attempts, states[k + 1], actions[k]));
    let m = lemma_marking_was_derived(states, events, actions, max_attempts, k);
    assert(derived_before(states, events, actions, k, m));
}

proof fn lemma_marking_was_derived(
    states: Seq<PublishPass>,
    events: Seq<PublishEvent>,
    actions: Seq<PublishAction>,
    max_attempts: usize,
    k: int,
) -> (m: int)
    requires
        is_publish_run(states, events, actions, max_attempts),
        0 <= k <= events.len(),
        states[k].phase is Marking,
    ensures
        0 <= m < k,
        states[m].index == states[k].index,
        states[m].intents == states[k].intents,
        events[m] matches PublishEvent::Derived(Ok(Some(data))) && (
        states[k].phase matches PublishPhase::Marking { payloads, should_push, has_staged_commit } && payloads
            == data.payloads_to_publish && should_push == data.should_send_push_notification && has_staged_commit
            == data.staged_commit is Some),
    decreases k,
{
    assert(k > 0);
    assert(is_publish_step(states[k - 1], events[k - 1], max_attempts, states[k - 1 + 1], actions[k - 1]));
    if states[k - 1].phase is Marking {
        lemma_marking_was_derived(states, events, actions, max_attempts, k - 1)
    } else {
        k - 1
    }
}

/// An intent for which data was derived goes this way: it is stored as published with the digest of its
/// last payload, its commit, what is left to be done after the commit, and its epoch; then all its payloads
/// are sent; then the pass ends if that was a commit, and goes on with the next intent if not.
pub proof fn an_intent_is_published(
    max_attempts: usize,
    data: PublishIntentData,
    passes: Seq<PublishPass>,
    actions: Seq<PublishAction>,
)
    requires
        passes.len() == 4,
        actions.len() == 3,
        passes[0].wf(),
        passes[0].phase is Deriving,
        data.payloads_to_publish@.len() > 0,
        is_publish_step(passes[0], PublishEvent::Derived(Ok(Some(data))), max_attempts, passes[1], actions[0]),
        is_publish_step(passes[1], PublishEvent::Stored(Ok(())), max_attempts, passes[2], actions[1]),
        is_publish_step(passes[2], PublishEvent::Sent(Ok(())), max_attempts, passes[3], actions[2]),
    ensures
        actions[0] matches PublishAction::MarkPublished(p) && {
            &&& p.intent_id == passes[0].intents@[passes[0].index as int].id
            &&& p.payload_hash@ == crypto::sha256_digest(
                data.payloads_to_publish@[data.payloads_to_publish@.len() - 1]@,
            )
            &&& p.post_commit_data == data.post_commit_action
            &&& p.staged_commit == data.staged_commit
            &&& p.published_in_epoch == data.group_epoch as i64
        },
        actions[1] == (PublishAction::Send {
            payloads: data.payloads_to_publish,
            should_push: data.should_send_push_notification,
        }),
        data.staged_commit is Some ==> actions[2] == PublishAction::Finish(Ok(())),
        data.staged_commit is None && passes[0].index + 1 < passes[0].intents@.len() ==> actions[2]
            == (PublishAction::Derive { index: (passes[0].index + 1) as usize }),
        data.staged_commit is None && passes[0].index + 1 == passes[0].intents@.len() ==> actions[2]
            == PublishAction::Finish(Ok(())),
        passes[3].intents == passes[0].intents,
{
}

/// An intent for which nothing is to be published is stored as processed, and the pass goes on with the
/// next one.
pub proof fn met_intents_are_passed(
    max_attempts: usize,
    passes: Seq<PublishPass>,
    actions: Seq<PublishAction>,
)
    requires
        passes.len() == 3,
        actions.len() == 2,
        passes[0].wf(),
        passes[0].phase is Deriving,
        is_publish_step(passes[0], PublishEvent::Derived(Ok(None)), max_attempts, passes[1], actions[0]),
        is_publish_step(passes[1], PublishEvent::Stored(Ok(())), max_attempts, passes[2], actions[1]),
    ensures
        actions[0] == (PublishAction::MarkProcessed { intent_id: passes[0].intents@[passes[0].index as int].id }),
        passes[0].index + 1 < passes[0].intents@.len() ==> actions[1] == (PublishAction::Derive {
            index: (passes[0].index + 1) as usize,
        }),
        passes[0].index + 1 == passes[0].intents@.len() ==> actions[1] == PublishAction::Finish(Ok(())),
{
}

/// A failure to derive or to send is recorded for the very intent that failed, before the pass ends with that
/// failure: as final if no attempt is left or, for sending, if trying again cannot help; else as one more
/// attempt, after which an intent that was sent goes back to be published. A pass that cannot store what it
/// must ends with that error, and so does one whose messages could not be made.
pub proof fn publishing_failures_are_recorded(
    before: PublishPass,
    event: PublishEvent,
    max_attempts: usize,
    after: PublishPass,
    action: PublishAction,
    next: PublishPass,
    last: PublishAction,
)
    requires
        is_publish_step(before, event, max_attempts, after, action),
        is_publish_step(after, PublishEvent::Stored(Ok(())), max_attempts, next, last),
        before.wf(),
        before.phase !is Done,
        before.intents@[before.index as int].publish_attempts >= 0,
    ensures
        (before.phase is Deriving && (event matches PublishEvent::Derived(Err(e)))) ==> {
            let intent = before.intents@[before.index as int];
            &&& action matches PublishAction::RecordFailure { intent_id, record } && intent_id == intent.id && record == (
            if max_attempts - intent.publish_attempts <= 1 {
                FailureRecord::SetErrorAndFailMessage
            } else {
                FailureRecord::IncrementAttempts
            })
            &&& event matches PublishEvent::Derived(Err(e)) && last == PublishAction::Finish(Err(e))
        },
        (before.phase is Sending && (event matches PublishEvent::Sent(Err(e)))) ==> {
            let intent = before.intents@[before.index as int];
            &&& event matches PublishEvent::Sent(Err(e)) && last == PublishAction::Finish(Err(GroupError::External(e)))
                && (action matches PublishAction::RecordFailure { intent_id, record } && intent_id == intent.id
                && record == (if !e.retryable || max_attempts - intent.publish_attempts <= 1 {
                FailureRecord::SetErrorAndFailMessage
            } else {
                FailureRecord::IncrementAttemptsAndRequeue
            }))
        },
        (before.phase is Sending && (event matches PublishEvent::NotPrepared(e))) ==> (
        event matches PublishEvent::NotPrepared(e) && action == PublishAction::Finish(Err(e))),
        (event matches PublishEvent::Stored(Err(e)) && action !is Ignore) ==> (event matches PublishEvent::Stored(Err(e))
            && action == PublishAction::Finish(Err(e))),
        action is RecordFailure ==> match event {
            PublishEvent::Derived(outcome) => outcome is Err,
            PublishEvent::Sent(outcome) => outcome is Err,
            _ => false,
        },
{
}

/// What the work after commits waits for.
#[derive(Debug)]
pub enum PostCommitPhase {
    /// That the welcomes of the current intent are sent.
    Sending,
    /// That the current intent is stored as processed.
    Marking,
    Done,
}

/// The work that is left after commits have come back, for all intents whose commits have.
#[derive(Debug)]
pub struct PostCommitPass {
    pub intents: Vec<StoredGroupIntent>,
    pub index: usize,
    pub phase: PostCommitPhase,
}

/// What is to be done next outside.
#[derive(Debug)]
pub enum PostCommitAction {
    /// Decode what is left to be done for an intent, and send its welcomes.
    SendWelcomes { data: Vec<u8>, message_cursor: Option<i64> },
    MarkProcessed { intent_id: i32 },
    Finish(Result<(), GroupError>),
    Ignore,
}

impl PostCommitPass {
    /// Whether a pass stands at one of its intents.
    pub open spec fn wf(self) -> bool {
        self.phase !is Done ==> self.index < self.intents@.len()
    }
}

/// Whether a pass takes up an intent: its welcomes come first, where it has any.
pub open spec fn takes_up(pass: PostCommitPass, index: int, action: PostCommitAction) -> bool {
    if index < pass.intents@.len() {
        let intent = pass.intents@[index];
        &&& pass.index == index
        &&& match intent.post_commit_data {
            Some(data) => {
                &&& pass.phase is Sending
                &&& action matches PostCommitAction::SendWelcomes { data: sent, message_cursor }
                &&& sent@ == data@
                &&& message_cursor == intent.sequence_id
            },
            None => pass.phase is Marking && action == (PostCommitAction::MarkProcessed { intent_id: intent.id }),
        }
    } else {
        pass.phase is Done && action == PostCommitAction::Finish(Ok(()))
    }
}

/// The transitions of the work after commits. The first failure ends it.
pub open spec fn is_post_commit_step(
    before: PostCommitPass,
    outcome: Result<(), GroupError>,
    after: PostCommitPass,
    action: PostCommitAction,
) -> bool {
    &&& after.intents == before.intents
    &&& match (before.phase, outcome) {
        (PostCommitPhase::Done, _) => after == before && action is Ignore,
        (_, Err(e)) => after.phase is Done && action == PostCommitAction::Finish(Err(e)),
        (PostCommitPhase::Sending, Ok(_)) => {
            &&& after == (PostCommitPass { phase: PostCommitPhase::Marking, ..before })
            &&& action == (PostCommitAction::MarkProcessed { intent_id: before.intents@[before.index as int].id })
        },
        (PostCommitPhase::Marking, Ok(_)) => takes_up(after, before.index + 1, action),
    }
}

fn take_up(intents: Vec<StoredGroupIntent>, index: usize) -> (r: (PostCommitPass, PostCommitAction))
    requires
        index <= intents@.len(),
    ensures
        r.0.intents == intents,
        r.0.wf(),
        takes_up(r.0, index as int, r.1),
{
    if index >= intents.len() {
        return (
            PostCommitPass { intents, index, phase: PostCommitPhase::Done },
            PostCommitAction::Finish(Ok(())),
        );
    }
    let intent_id: i32 = intents[index].id;
    let message_cursor: Option<i64> = intents[index].sequence_id;
    let data: Option<Vec<u8>> = match &intents[index].post_commit_data {
        Some(data) => Some(bytes::clone_bytes(data.as_slice())),
        None => None,
    };
    match data {
        Some(data) => (
            PostCommitPass { intents, index, phase: PostCommitPhase::Sending },
            PostCommitAction::SendWelcomes { data, message_cursor },
        ),
        None => (
            PostCommitPass { intents, index, phase: PostCommitPhase::Marking },
            PostCommitAction::MarkProcessed { intent_id },
        ),
    }
}

/// Whether the work that is left after commits begins.
pub open spec fn begins_post_commit(
    intents: Vec<StoredGroupIntent>,
    pass: PostCommitPass,
    action: PostCommitAction,
) -> bool {
    pass.intents == intents && takes_up(pass, 0, action)
}

impl MlsGroup {
    /// Begins the work that is left after commits have come back.
    pub fn post_commit(&self, intents: Vec<StoredGroupIntent>) -> (r: (PostCommitPass, PostCommitAction))
        ensures
            begins_post_commit(intents, r.0, r.1),
            r.0.wf(),
    {
        take_up(intents, 0)
    }
}

/// Takes the work after commits one step further.
pub fn post_commit_step(pass: PostCommitPass, outcome: Result<(), GroupError>) -> (r: (
    PostCommitPass,
    PostCommitAction,
))
    requires
        pass.wf(),
    ensures
        is_post_commit_step(pass, outcome, r.0, r.1),
        r.0.wf(),
{
    let PostCommitPass { intents, index, phase } = pass;
    match (phase, outcome) {
        (PostCommitPhase::Done, _) => (
            PostCommitPass { intents, index, phase: PostCommitPhase::Done },
            PostCommitAction::Ignore,
        ),
        (_, Err(e)) => (
            PostCommitPass { intents, index, phase: PostCommitPhase::Done },
            PostCommitAction::Finish(Err(e)),
        ),
        (PostCommitPhase::Sending, Ok(_)) => {
            let intent_id: i32 = intents[index].id;
            (
                PostCommitPass { intents, index, phase: PostCommitPhase::Marking },
                PostCommitAction::MarkProcessed { intent_id },
            )
        },
        (PostCommitPhase::Marking, Ok(_)) => {
            assert(index < intents.len());
            take_up(intents, index + 1)
        },
    }
}

/// An intent whose commit brought in new members is stored as processed only after its welcomes were
/// sent.
pub proof fn welcomes_come_before_the_intent_is_done(
    before: PostCommitPass,
    outcome: Result<(), GroupError>,
    after: PostCommitPass,
    action: PostCommitAction,
)
    requires
        is_post_commit_step(before, outcome, after, action),
        before.wf(),
        action is MarkProcessed,
        after.intents@[after.index as int].post_commit_data is Some,
    ensures
        before.phase is Sending,
        before.index == after.index,
        outcome is Ok,
{
}

/// Whether the work after commits goes step by step, `actions[0]` being the first action and `actions[i + 1]`
/// the one that outcome `i` leads to.
pub open spec fn is_post_commit_run(
    intents: Vec<StoredGroupIntent>,
    passes: Seq<PostCommitPass>,
    outcomes: Seq<Result<(), GroupError>>,
    actions: Seq<PostCommitAction>,
) -> bool {
    &&& passes.len() == outcomes.len() + 1
    &&& actions.len() == outcomes.len() + 1
    &&& begins_post_commit(intents, passes[0], actions[0])
    &&& forall|i: int|
        0 <= i < outcomes.len() ==> is_post_commit_step(#[trigger] passes[i], outcomes[i], passes[i + 1], actions[i + 1])
}

/// Whether an intent was stored as processed in the first `n` actions, and that went well.
pub open spec fn was_marked(
    actions: Seq<PostCommitAction>,
    outcomes: Seq<Result<(), GroupError>>,
    intent_id: i32,
    n: int,
) -> bool {
    exists|i: int|
        0 <= i < n && #[trigger] actions[i] == (PostCommitAction::MarkProcessed { intent_id }) && outcomes[i] is Ok
}

/// Whether the welcomes of an intent were sent in the first `n` actions, and that went well.
pub open spec fn was_welcomed(
    actions: Seq<PostCommitAction>,
    outcomes: Seq<Result<(), GroupError>>,
    intent: StoredGroupIntent,
    n: int,
) -> bool {
    exists|i: int|
        0 <= i < n && ((#[trigger] actions[i]) matches PostCommitAction::SendWelcomes { data, message_cursor }
            && intent.post_commit_data is Some && data@ == intent.post_commit_data->0@ && message_cursor
            == intent.sequence_id) && outcomes[i] is Ok
}

/// Where the work after commits ends well, every intent had its welcomes sent, if it has any, with the cursor
/// of its own message, and was stored as processed.
pub proof fn every_committed_intent_is_finished(
    intents: Vec<StoredGroupIntent>,
    passes: Seq<PostCommitPass>,
    outcomes: Seq<Result<(), GroupError>>,
    actions: Seq<PostCommitAction>,
    n: int,
    k: int,
)
    requires
        is_post_commit_run(intents, passes, outcomes, actions),
        0 <= n <= outcomes.len(),
        actions[n] == PostCommitAction::Finish(Ok(())),
        0 <= k < intents@.len(),
    ensures
        was_marked(actions, outcomes, intents@[k].id, n),
        intents@[k].post_commit_data is Some ==> was_welcomed(actions, outcomes, intents@[k], n),
{
    lemma_finished(intents, passes, outcomes, actions, n, k);
}

proof fn lemma_finished(
    intents: Vec<StoredGroupIntent>,
    passes: Seq<PostCommitPass>,
    outcomes: Seq<Result<(), GroupError>>,
    actions: Seq<PostCommitAction>,
    n: int,
    k: int,
)
    requires
        is_post_commit_run(intents, passes, outcomes, actions),
        0 <= n <= outcomes.len(),
        0 <= k < intents@.len(),
    ensures
        passes[n].intents == intents,
        passes[n].phase !is Done ==> passes[n].index < intents@.len(),
        passes[n].phase is Sending ==> intents@[passes[n].index as int].post_commit_data is Some && (
        actions[n] matches PostCommitAction::SendWelcomes { data, message_cursor } && data@
            == intents@[passes[n].index as int].post_commit_data->0@ && message_cursor
            == intents@[passes[n].index as int].sequence_id),
        passes[n].phase is Marking ==> actions[n] == (PostCommitAction::MarkProcessed {
            intent_id: intents@[passes[n].index as int].id,
        }),
        (passes[n].phase is Marking && k == passes[n].index && intents@[k].post_commit_data is Some) ==> was_welcomed(
            actions,
            outcomes,
            intents@[k],
            n,
        ),
        ((passes[n].phase !is Done && k < passes[n].index) || actions[n] == PostCommitAction::Finish(Ok(()))) ==> (
        was_marked(actions, outcomes, intents@[k].id, n) && (intents@[k].post_commit_data is Some ==> was_welcomed(
            actions,
            outcomes,
            intents@[k],
            n,
        ))),
    decreases n,
{
    if n > 0 {
        lemma_finished(intents, passes, outcomes, actions, n - 1, k);
        assert(is_post_commit_step(passes[n - 1], outcomes[n - 1], passes[n - 1 + 1], actions[n - 1 + 1]));
        let intent = intents@[k];
        if was_marked(actions, outcomes, intent.id, n - 1) {
            let i = choose|i: int|
                0 <= i < n - 1 && #[trigger] actions[i] == (PostCommitAction::MarkProcessed { intent_id: intent.id })
                    && outcomes[i] is Ok;
            assert(0 <= i < n && actions[i] == (PostCommitAction::MarkProcessed { intent_id: intent.id }));
        }
        if was_welcomed(actions, outcomes, intent, n - 1) {
            let i = choose|i: int|
                0 <= i < n - 1 && ((#[trigger] actions[i]) matches PostCommitAction::SendWelcomes {
                    data,
                    message_cursor,
                } && intent.post_commit_data is Some && data@ == intent.post_commit_data->0@ && message_cursor
                    == intent.sequence_id) && outcomes[i] is Ok;
            assert(0 <= i < n && actions[i] is SendWelcomes);
        }
        if passes[n - 1].phase !is Done && passes[n - 1].index == k && outcomes[n - 1] is Ok {
            assert(actions[n - 1] is SendWelcomes || actions[n - 1] is MarkProcessed);
        }
    }
}

/// The first failure of the work after commits ends it with that failure.
pub proof fn post_commit_failures_are_reported(
    before: PostCommitPass,
    outcome: Result<(), GroupError>,
    after: PostCommitPass,
    action: PostCommitAction,
)
    requires
        is_post_commit_step(before, outcome, after, action),
        before.phase !is Done,
    ensures
        outcome matches Err(e) ==> action == PostCommitAction::Finish(Err(e)),
        outcome is Ok ==> !(action matches PostCommitAction::Finish(Err(_))),
{
}

/// Publishing that has come to its end does nothing more, and what does not fit the step that it waits for changes nothing.
pub proof fn finished_publishing_stays_finished(
    before: PublishPass,
    event: PublishEvent,
    max_attempts: usize,
    after: PublishPass,
    action: PublishAction,
)
    requires
        is_publish_step(before, event, max_attempts, after, action),
    ensures
        before.phase is Done ==> action is Ignore,
        action is Ignore ==> after == before,
{
}

} // verus!
