//! A whole pass of synchronization.
//!
//! Publishing, receiving and the work after commits are only loosely coupled: each is done whatever came
//! of the one before, and what went wrong in each is kept in the summary of the pass.

use vstd::prelude::*;
use crate::groups::error::GroupError;
use crate::groups::group;
use crate::groups::group::MlsGroup;
use crate::groups::summary::{ProcessSummary, SyncSummary};
use crate::records::StoredGroup;

verus! {

/// What a pass waits for.
#[derive(Clone, Copy, Debug, PartialEq, Eq, Structural)]
pub enum SyncPhase {
    /// Whether this client is active in the group.
    CheckingActive,
    /// Whether the group is paused.
    CheckingPause,
    Publishing,
    Receiving,
    PostCommit,
    Done,
}

/// A pass over one group.
#[derive(Debug)]
pub struct SyncPass {
    pub phase: SyncPhase,
    pub summary: SyncSummary,
}

/// What has happened outside.
#[derive(Debug)]
pub enum SyncEvent {
    Active(Result<bool, GroupError>),
    Pause(Result<(), GroupError>),
    Published(Result<(), GroupError>),
    Received(Result<ProcessSummary, GroupError>),
    PostCommitted(Result<(), GroupError>),
}

/// What is to be done next outside.
#[derive(Debug)]
pub enum SyncAction {
    CheckActive,
    CheckPause,
    Publish,
    Receive,
    PostCommit,
    Finish(Result<SyncSummary, SyncSummary>),
    Ignore,
}

/// Whether a pass is refused before it began.
pub open spec fn is_refused(after: SyncPass, action: SyncAction, error: GroupError) -> bool {
    &&& after.phase == SyncPhase::Done
    &&& action matches SyncAction::Finish(Err(summary))
    &&& summary.other@ == seq![error]
    &&& only_other(summary)
}

/// Whether a summary records nothing but an error outside the steps of a pass.
pub open spec fn only_other(s: SyncSummary) -> bool {
    &&& s.publish_errors@.len() == 0
    &&& s.post_commit_errors@.len() == 0
    &&& s.process.total_messages@.len() == 0
    &&& s.process.new_messages@.len() == 0
    &&& s.process.errored@.len() == 0
}

/// A list of errors with that of an outcome.
pub open spec fn with_error(errors: Seq<GroupError>, outcome: Result<(), GroupError>) -> Seq<GroupError> {
    match outcome {
        Ok(_) => errors,
        Err(e) => errors.push(e),
    }
}

/// Whether a summary is another one with what came of publishing.
pub open spec fn takes_published(before: SyncSummary, outcome: Result<(), GroupError>, after: SyncSummary) -> bool {
    &&& after == (SyncSummary { publish_errors: after.publish_errors, ..before })
    &&& after.publish_errors@ == with_error(before.publish_errors@, outcome)
}

/// Whether a summary is another one with what came of receiving.
pub open spec fn takes_received(
    before: SyncSummary,
    outcome: Result<ProcessSummary, GroupError>,
    after: SyncSummary,
) -> bool {
    match outcome {
        Ok(process) => {
            &&& after == (SyncSummary { process: after.process, ..before })
            &&& after.process.total_messages@ == before.process.total_messages@ + process.total_messages@
            &&& after.process.new_messages@ == before.process.new_messages@ + process.new_messages@
            &&& after.process.errored@ == before.process.errored@ + process.errored@
        },
        Err(e) => {
            &&& after == (SyncSummary { other: after.other, ..before })
            &&& after.other@ == before.other@.push(e)
        },
    }
}

/// Whether a pass ends with a summary: well, unless the summary records an error.
pub open spec fn is_reported(
    before: SyncSummary,
    outcome: Result<(), GroupError>,
    after: SyncPass,
    action: SyncAction,
) -> bool {
    &&& after.phase == SyncPhase::Done
    &&& action matches SyncAction::Finish(result)
    &&& {
        let summary = match result {
            Ok(summary) => summary,
            Err(summary) => summary,
        };
        &&& summary == (SyncSummary { post_commit_errors: summary.post_commit_errors, ..before })
        &&& summary.post_commit_errors@ == with_error(before.post_commit_errors@, outcome)
        &&& result is Err <==> summary.failed()
    }
}

/// The transitions of a pass.
pub open spec fn is_sync_step(before: SyncPass, event: SyncEvent, after: SyncPass, action: SyncAction) -> bool {
    match (before.phase, event) {
        (SyncPhase::CheckingActive, SyncEvent::Active(outcome)) => match outcome {
            Err(e) => is_refused(after, action, e),
            Ok(false) => is_refused(after, action, GroupError::GroupInactive),
            Ok(true) => {
                &&& after == (SyncPass { phase: SyncPhase::CheckingPause, ..before })
                &&& action is CheckPause
            },
        },
        (SyncPhase::CheckingPause, SyncEvent::Pause(outcome)) => match outcome {
            Err(GroupError::GroupPausedUntilUpdate(_)) => {
                &&& after.phase == SyncPhase::Done
                &&& action == SyncAction::Finish(Ok(before.summary))
            },
            Err(e) => is_refused(after, action, e),
            Ok(_) => {
                &&& after == (SyncPass { phase: SyncPhase::Publishing, ..before })
                &&& action is Publish
            },
        },
        (SyncPhase::Publishing, SyncEvent::Published(outcome)) => {
            &&& after.phase == SyncPhase::Receiving
            &&& takes_published(before.summary, outcome, after.summary)
            &&& action is Receive
        },
        (SyncPhase::Receiving, SyncEvent::Received(outcome)) => {
            &&& after.phase == SyncPhase::PostCommit
            &&& takes_received(before.summary, outcome, after.summary)
            &&& action is PostCommit
        },
        (SyncPhase::PostCommit, SyncEvent::PostCommitted(outcome)) => is_reported(
            before.summary,
            outcome,
            after,
            action,
        ),
        _ => after == before && action is Ignore,
    }
}

fn refuse(error: GroupError) -> (r: (SyncPass, SyncAction))
    ensures
        is_refused(r.0, r.1, error),
{
    (
        SyncPass { phase: SyncPhase::Done, summary: SyncSummary::new() },
        SyncAction::Finish(Err(SyncSummary::other(error))),
    )
}

/// Whether a pass over a group begins.
pub open spec fn begins_sync(pass: SyncPass, action: SyncAction) -> bool {
    &&& pass.phase == SyncPhase::CheckingActive
    &&& pass.summary.empty()
    &&& action is CheckActive
}

impl MlsGroup {
    /// Begins a pass over this group.
    pub fn sync_with_conn(&self) -> (r: (SyncPass, SyncAction))
        ensures
            begins_sync(r.0, r.1),
    {
        (SyncPass { phase: SyncPhase::CheckingActive, summary: SyncSummary::new() }, SyncAction::CheckActive)
    }
}

/// Takes a pass one step further. A group in which this client is not active is not synced, nor is one
/// that is paused until this client is updated; the latter is no error.
pub fn sync_step(pass: SyncPass, event: SyncEvent) -> (r: (SyncPass, SyncAction))
    ensures
        is_sync_step(pass, event, r.0, r.1),
{
    let SyncPass { phase, summary } = pass;
    match (phase, event) {
        (SyncPhase::CheckingActive, SyncEvent::Active(outcome)) => match outcome {
            Err(e) => refuse(e),
            Ok(false) => refuse(GroupError::GroupInactive),
            Ok(true) => (SyncPass { phase: SyncPhase::CheckingPause, summary }, SyncAction::CheckPause),
        },
        (SyncPhase::CheckingPause, SyncEvent::Pause(outcome)) => match outcome {
            Err(GroupError::GroupPausedUntilUpdate(_)) => (
                SyncPass { phase: SyncPhase::Done, summary: SyncSummary::new() },
                SyncAction::Finish(Ok(summary)),
            ),
            Err(e) => refuse(e),
            Ok(_) => (SyncPass { phase: SyncPhase::Publishing, summary }, SyncAction::Publish),
        },
        (SyncPhase::Publishing, SyncEvent::Published(outcome)) => {
            let mut summary = summary;
            if let Err(e) = outcome {
                summary.add_publish_err(e);
            }
            (SyncPass { phase: SyncPhase::Receiving, summary }, SyncAction::Receive)
        },
        (SyncPhase::Receiving, SyncEvent::Received(outcome)) => {
            let mut summary = summary;
            match outcome {
                Ok(process) => summary.add_process(process),
                Err(e) => summary.add_other(e),
            }
            (SyncPass { phase: SyncPhase::PostCommit, summary }, SyncAction::PostCommit)
        },
        (SyncPhase::PostCommit, SyncEvent::PostCommitted(outcome)) => {
            let mut summary = summary;
            if let Err(e) = outcome {
                summary.add_post_commit_err(e);
            }
            let result = if summary.is_errored() {
                Err(summary)
            } else {
                Ok(summary)
            };
            (SyncPass { phase: SyncPhase::Done, summary: SyncSummary::new() }, SyncAction::Finish(result))
        },
        (phase, _) => (SyncPass { phase, summary }, SyncAction::Ignore),
    }
}

/// A pass that has begun publishes, receives and does the work after commits whatever comes of each,
/// and its summary keeps what went wrong in every one of them.
pub proof fn a_failing_step_hides_no_other(
    start: SyncPass,
    published: Result<(), GroupError>,
    received: Result<ProcessSummary, GroupError>,
    post_commit: Result<(), GroupError>,
    p1: SyncPass,
    a1: SyncAction,
    p2: SyncPass,
    a2: SyncAction,
    p3: SyncPass,
    a3: SyncAction,
)
    requires
        start.phase == SyncPhase::Publishing,
        start.summary.empty(),
        is_sync_step(start, SyncEvent::Published(published), p1, a1),
        is_sync_step(p1, SyncEvent::Received(received), p2, a2),
        is_sync_step(p2, SyncEvent::PostCommitted(post_commit), p3, a3),
    ensures
        a1 is Receive,
        a2 is PostCommit,
        a3 matches SyncAction::Finish(result) && {
            let summary = match result {
                Ok(summary) => summary,
                Err(summary) => summary,
            };
            &&& summary.publish_errors@ == (match published {
                Ok(_) => seq![],
                Err(e) => seq![e],
            })
            &&& summary.post_commit_errors@ == (match post_commit {
                Ok(_) => seq![],
                Err(e) => seq![e],
            })
            &&& match received {
                Ok(process) => {
                    &&& summary.other@.len() == 0
                    &&& summary.process.total_messages@ == process.total_messages@
                    &&& summary.process.new_messages@ == process.new_messages@
                    &&& summary.process.errored@ == process.errored@
                },
                Err(e) => summary.other@ == seq![e] && summary.process.total_messages@.len() == 0,
            }
            &&& result is Err <==> published is Err || post_commit is Err || (match received {
                Ok(process) => process.errored@.len() > 0,
                Err(_) => true,
            })
        },
{
    assert(a3 is Finish);
    let summary = match a3->Finish_0 {
        Ok(summary) => summary,
        Err(summary) => summary,
    };
    assert(start.summary.publish_errors@ =~= Seq::<GroupError>::empty());
    assert(start.summary.post_commit_errors@ =~= Seq::<GroupError>::empty());
    if let Err(e) = published {
        assert(summary.publish_errors@ =~= seq![e]);
    }
    if let Err(e) = post_commit {
        assert(summary.post_commit_errors@ =~= seq![e]);
    }
    match received {
        Ok(process) => {
            assert(summary.process.total_messages@ =~= process.total_messages@);
            assert(summary.process.new_messages@ =~= process.new_messages@);
            assert(summary.process.errored@ =~= process.errored@);
        },
        Err(e) => {
            assert(summary.other@ =~= seq![e]);
        },
    }
}

/// A pass begins by seeing whether this client is active in the group and whether the group is paused, and then
/// publishes. Where this client is not active, it fails as such; where the group waits for a newer client, it
/// ends well with nothing done; any other error of these two is what it fails with.
pub proof fn passes_begin_with_their_checks(
    active: Result<bool, GroupError>,
    pause: Result<(), GroupError>,
    p: Seq<SyncPass>,
    a: Seq<SyncAction>,
)
    requires
        p.len() == 3,
        a.len() == 3,
        begins_sync(p[0], a[0]),
        is_sync_step(p[0], SyncEvent::Active(active), p[1], a[1]),
        is_sync_step(p[1], SyncEvent::Pause(pause), p[2], a[2]),
    ensures
        a[0] is CheckActive,
        active == Ok::<_, GroupError>(true) ==> a[1] is CheckPause,
        active == Ok::<_, GroupError>(false) ==> (a[1] matches SyncAction::Finish(Err(summary)) && summary.other@ == seq![
            GroupError::GroupInactive,
        ] && summary.process.total_messages@.len() == 0),
        active matches Err(e) ==> (a[1] matches SyncAction::Finish(Err(summary)) && summary.other@ == seq![e]
            && summary.process.total_messages@.len() == 0),
        (active == Ok::<_, GroupError>(true) && pause is Ok) ==> a[2] is Publish && p[2].summary.empty() && p[2].phase
            == SyncPhase::Publishing,
        (active == Ok::<_, GroupError>(true) && (pause matches Err(e) && e is GroupPausedUntilUpdate)) ==> (
        a[2] matches SyncAction::Finish(Ok(summary)) && summary.empty()),
        (active == Ok::<_, GroupError>(true) && (pause matches Err(e) && e !is GroupPausedUntilUpdate)) ==> (
        a[2] matches SyncAction::Finish(Err(summary)) && summary.other@ == seq![pause->Err_0]),
{
}

/// What a pass over a conversation and its duplicates waits for.
#[derive(Debug)]
pub enum ConversationSyncPhase {
    /// The epoch of the group.
    LoadingEpoch,
    /// The other direct conversations with the same person.
    ListingOthers,
    /// A pass over one of them, and its installations brought up to date.
    SyncingOther { others: Vec<MlsGroup>, index: usize },
    UpdatingOther { others: Vec<MlsGroup>, index: usize },
    /// A pass over the conversation itself, and its installations brought up to date.
    SyncingOwn,
    UpdatingOwn { summary: SyncSummary },
    Done,
}

/// What has happened outside.
#[derive(Debug)]
pub enum ConversationSyncEvent {
    Epoch(Result<u64, GroupError>),
    Others(Result<Vec<StoredGroup>, GroupError>),
    /// A pass over a group came to its end.
    Synced(Result<SyncSummary, SyncSummary>),
    InstallationsUpdated(Result<(), GroupError>),
}

/// What is to be done next outside.
#[derive(Debug)]
pub enum ConversationSyncAction {
    LoadEpoch,
    ListOthers,
    /// Make a pass over the conversation at a place among the others.
    SyncOther { index: usize },
    UpdateOther { index: usize },
    SyncOwn,
    UpdateOwn,
    Finish(Result<SyncSummary, GroupError>),
    Ignore,
}

/// Whether a pass goes on to the conversation at a place among the others, or to its own.
pub open spec fn takes_up(
    others: Seq<MlsGroup>,
    index: int,
    after: ConversationSyncPhase,
    action: ConversationSyncAction,
) -> bool {
    if index < others.len() {
        &&& after matches ConversationSyncPhase::SyncingOther { others: o, index: i }
        &&& o@ == others
        &&& i == index
        &&& action == (ConversationSyncAction::SyncOther { index: i })
    } else {
        after is SyncingOwn && action is SyncOwn
    }
}

/// Whether a pass fails.
pub open spec fn gives_up(error: GroupError, after: ConversationSyncPhase, action: ConversationSyncAction) -> bool {
    after is Done && action == ConversationSyncAction::Finish(Err(error))
}

/// The transitions of a pass over a conversation and its duplicates.
pub open spec fn is_conversation_step(
    before: ConversationSyncPhase,
    event: ConversationSyncEvent,
    after: ConversationSyncPhase,
    action: ConversationSyncAction,
) -> bool {
    match (before, event) {
        (ConversationSyncPhase::LoadingEpoch, ConversationSyncEvent::Epoch(outcome)) => match outcome {
            Err(e) => gives_up(e, after, action),
            Ok(_) => after is ListingOthers && action is ListOthers,
        },
        (ConversationSyncPhase::ListingOthers, ConversationSyncEvent::Others(outcome)) => match outcome {
            Err(e) => gives_up(e, after, action),
            Ok(rows) => exists|others: Seq<MlsGroup>|
                #[trigger] are_handles_of(others, rows@) && takes_up(others, 0, after, action),
        },
        (ConversationSyncPhase::SyncingOther { others, index }, ConversationSyncEvent::Synced(outcome)) => match outcome {
            Err(summary) => gives_up(GroupError::Sync(Box::new(summary)), after, action),
            Ok(_) => {
                &&& after == (ConversationSyncPhase::UpdatingOther { others, index })
                &&& action == (ConversationSyncAction::UpdateOther { index })
            },
        },
        (
            ConversationSyncPhase::UpdatingOther { others, index },
            ConversationSyncEvent::InstallationsUpdated(outcome),
        ) => match outcome {
            Err(e) => gives_up(e, after, action),
            Ok(_) => takes_up(others@, index + 1, after, action),
        },
        (ConversationSyncPhase::SyncingOwn, ConversationSyncEvent::Synced(outcome)) => match outcome {
            Err(summary) => gives_up(GroupError::Sync(Box::new(summary)), after, action),
            Ok(summary) => after == (ConversationSyncPhase::UpdatingOwn { summary }) && action is UpdateOwn,
        },
        (
            ConversationSyncPhase::UpdatingOwn { summary },
            ConversationSyncEvent::InstallationsUpdated(outcome),
        ) => match outcome {
            Err(e) => gives_up(e, after, action),
            Ok(_) => after is Done && action == ConversationSyncAction::Finish(Ok(summary)),
        },
        _ => after == before && action is Ignore,
    }
}

/// Whether groups are the handles of rows, in their order.
pub open spec fn are_handles_of(groups: Seq<MlsGroup>, rows: Seq<StoredGroup>) -> bool {
    &&& groups.len() == rows.len()
    &&& forall|i: int| 0 <= i < rows.len() ==> group::is_handle_of(#[trigger] groups[i], rows[i])
}

fn take_up(others: Vec<MlsGroup>, index: usize) -> (r: (ConversationSyncPhase, ConversationSyncAction))
    ensures
        takes_up(others@, index as int, r.0, r.1),
{
    if index < others.len() {
        (
            ConversationSyncPhase::SyncingOther { others, index },
            ConversationSyncAction::SyncOther { index },
        )
    } else {
        (ConversationSyncPhase::SyncingOwn, ConversationSyncAction::SyncOwn)
    }
}

fn give_up(error: GroupError) -> (r: (ConversationSyncPhase, ConversationSyncAction))
    ensures
        gives_up(error, r.0, r.1),
{
    (ConversationSyncPhase::Done, ConversationSyncAction::Finish(Err(error)))
}

/// Whether a pass over a conversation and its duplicates begins.
pub open spec fn begins_conversation(phase: ConversationSyncPhase, action: ConversationSyncAction) -> bool {
    phase is LoadingEpoch && action is LoadEpoch
}

impl MlsGroup {
    /// Begins a pass over this conversation and the other direct conversations with the same person.
    pub fn sync(&self) -> (r: (ConversationSyncPhase, ConversationSyncAction))
        ensures
            begins_conversation(r.0, r.1),
    {
        (ConversationSyncPhase::LoadingEpoch, ConversationSyncAction::LoadEpoch)
    }

    /// Takes a pass over this conversation and its duplicates one step further. The duplicates come
    /// first, and the first failure ends the pass.
    pub fn conversation_step(&self, phase: ConversationSyncPhase, event: ConversationSyncEvent) -> (r: (
        ConversationSyncPhase,
        ConversationSyncAction,
    ))
        ensures
            is_conversation_step(phase, event, r.0, r.1),
    {
        match (phase, event) {
            (ConversationSyncPhase::LoadingEpoch, ConversationSyncEvent::Epoch(outcome)) => match outcome {
                Err(e) => give_up(e),
                Ok(_) => (ConversationSyncPhase::ListingOthers, ConversationSyncAction::ListOthers),
            },
            (ConversationSyncPhase::ListingOthers, ConversationSyncEvent::Others(outcome)) => match outcome {
                Err(e) => give_up(e),
                Ok(rows) => {
                    let ghost stored = rows@;
                    let others = self.find_duplicate_dms(rows);
                    assert(are_handles_of(others@, stored));
                    take_up(others, 0)
                },
            },
            (ConversationSyncPhase::SyncingOther { others, index }, ConversationSyncEvent::Synced(outcome)) => {
                match outcome {
                    Err(summary) => give_up(GroupError::Sync(Box::new(summary))),
                    Ok(_) => (
                        ConversationSyncPhase::UpdatingOther { others, index },
                        ConversationSyncAction::UpdateOther { index },
                    ),
                }
            },
            (
                ConversationSyncPhase::UpdatingOther { others, index },
                ConversationSyncEvent::InstallationsUpdated(outcome),
            ) => match outcome {
                Err(e) => give_up(e),
                Ok(_) => {
                    if index < others.len() {
                        take_up(others, index + 1)
                    } else {
                        (ConversationSyncPhase::SyncingOwn, ConversationSyncAction::SyncOwn)
                    }
                },
            },
            (ConversationSyncPhase::SyncingOwn, ConversationSyncEvent::Synced(outcome)) => match outcome {
                Err(summary) => give_up(GroupError::Sync(Box::new(summary))),
                Ok(summary) => (ConversationSyncPhase::UpdatingOwn { summary }, ConversationSyncAction::UpdateOwn),
            },
            (
                ConversationSyncPhase::UpdatingOwn { summary },
                ConversationSyncEvent::InstallationsUpdated(outcome),
            ) => match outcome {
                Err(e) => give_up(e),
                Ok(_) => (ConversationSyncPhase::Done, ConversationSyncAction::Finish(Ok(summary))),
            },
            (phase, _) => (phase, ConversationSyncAction::Ignore),
        }
    }
}

/// A conversation is synced only once all its duplicates are: so what they bring is there when the
/// conversation takes in what it shares with them.
pub proof fn duplicates_are_synced_first(
    before: ConversationSyncPhase,
    event: ConversationSyncEvent,
    after: ConversationSyncPhase,
    action: ConversationSyncAction,
)
    requires
        is_conversation_step(before, event, after, action),
        action is SyncOwn,
    ensures
        match before {
            ConversationSyncPhase::ListingOthers => event matches ConversationSyncEvent::Others(Ok(rows))
                && rows@.len() == 0,
            ConversationSyncPhase::UpdatingOther { others, index } => {
                &&& index + 1 >= others@.len()
                &&& event matches ConversationSyncEvent::InstallationsUpdated(Ok(_))
            },
            _ => false,
        },
{
}

/// Whether a pass over a conversation goes step by step, `actions[0]` being the first action and
/// `actions[i + 1]` the one that event `i` leads to.
pub open spec fn is_conversation_run(
    phases: Seq<ConversationSyncPhase>,
    events: Seq<ConversationSyncEvent>,
    actions: Seq<ConversationSyncAction>,
) -> bool {
    &&& phases.len() == events.len() + 1
    &&& actions.len() == events.len() + 1
    &&& begins_conversation(phases[0], actions[0])
    &&& forall|i: int|
        0 <= i < events.len() ==> is_conversation_step(#[trigger] phases[i], events[i], phases[i + 1], actions[i + 1])
}

/// Whether everything that a pass over a conversation with some duplicates asks for goes well, each in its
/// place.
pub open spec fn all_goes_well(events: Seq<ConversationSyncEvent>, rows: Seq<StoredGroup>) -> bool {
    &&& events.len() == 2 * rows.len() + 4
    &&& events[0] matches ConversationSyncEvent::Epoch(Ok(_))
    &&& events[1] matches ConversationSyncEvent::Others(Ok(given)) && given@ == rows
    &&& forall|i: int|
        2 <= i < events.len() ==> if i % 2 == 0 {
            (#[trigger] events[i]) matches ConversationSyncEvent::Synced(Ok(_))
        } else {
            events[i] matches ConversationSyncEvent::InstallationsUpdated(Ok(_))
        }
}

/// Where all goes well, every duplicate of a conversation is synced and has its installations brought up to
/// date, in their order; then the conversation itself is, and what its own pass came to is reported.
pub proof fn all_duplicates_are_synced(
    phases: Seq<ConversationSyncPhase>,
    events: Seq<ConversationSyncEvent>,
    actions: Seq<ConversationSyncAction>,
    rows: Seq<StoredGroup>,
    k: int,
)
    requires
        is_conversation_run(phases, events, actions),
        all_goes_well(events, rows),
        rows.len() < usize::MAX,
        0 <= k < rows.len(),
    ensures
        actions[0] is LoadEpoch,
        actions[1] is ListOthers,
        actions[2 + 2 * k] == (ConversationSyncAction::SyncOther { index: k as usize }),
        phases[2 + 2 * k] matches ConversationSyncPhase::SyncingOther { others, index } && index == k && others@.len()
            == rows.len() && others@[k].group_id@ == rows[k].id@,
        actions[3 + 2 * k] == (ConversationSyncAction::UpdateOther { index: k as usize }),
        actions[(2 + 2 * rows.len()) as int] is SyncOwn,
        actions[(3 + 2 * rows.len()) as int] is UpdateOwn,
        actions[(4 + 2 * rows.len()) as int] matches ConversationSyncAction::Finish(Ok(summary)) && events[(2 + 2 * rows.len()) as int]
            == ConversationSyncEvent::Synced(Ok(summary)),
{
    lemma_other_synced(phases, events, actions, rows, k);
    lemma_own_synced(phases, events, actions, rows);
}

/// Where all goes well with a conversation without duplicates, it is synced and has its installations brought
/// up to date, and what its pass came to is reported.
pub proof fn a_conversation_is_synced(
    phases: Seq<ConversationSyncPhase>,
    events: Seq<ConversationSyncEvent>,
    actions: Seq<ConversationSyncAction>,
)
    requires
        is_conversation_run(phases, events, actions),
        all_goes_well(events, seq![]),
    ensures
        actions[0] is LoadEpoch,
        actions[1] is ListOthers,
        actions[2] is SyncOwn,
        actions[3] is UpdateOwn,
        actions[4] matches ConversationSyncAction::Finish(Ok(summary)) && events[2] == ConversationSyncEvent::Synced(
            Ok(summary),
        ),
{
    lemma_own_synced(phases, events, actions, seq![]);
}

proof fn lemma_own_synced(
    phases: Seq<ConversationSyncPhase>,
    events: Seq<ConversationSyncEvent>,
    actions: Seq<ConversationSyncAction>,
    rows: Seq<StoredGroup>,
)
    requires
        is_conversation_run(phases, events, actions),
        all_goes_well(events, rows),
        rows.len() < usize::MAX,
    ensures
        actions[0] is LoadEpoch,
        actions[1] is ListOthers,
        actions[(2 + 2 * rows.len()) as int] is SyncOwn,
        actions[(3 + 2 * rows.len()) as int] is UpdateOwn,
        actions[(4 + 2 * rows.len()) as int] matches ConversationSyncAction::Finish(Ok(summary)) && events[(2 + 2 * rows.len()) as int]
            == ConversationSyncEvent::Synced(Ok(summary)),
{
    let n = rows.len() as int;
    let own = 2 + 2 * n;
    assert(is_conversation_step(phases[0], events[0], phases[1], actions[1]));
    assert(is_conversation_step(phases[1], events[1], phases[2], actions[2]));
    if n > 0 {
        lemma_other_synced(phases, events, actions, rows, n - 1);
        assert(own - 1 == 3 + 2 * (n - 1));
        assert(is_conversation_step(phases[own - 1], events[own - 1], phases[own - 1 + 1], actions[own - 1 + 1]));
        assert((own - 1) % 2 == 1);
    }
    assert(own % 2 == 0);
    assert((own + 1) % 2 == 1);
    assert(is_conversation_step(phases[own], events[own], phases[own + 1], actions[own + 1]));
    assert(is_conversation_step(phases[own + 1], events[own + 1], phases[own + 1 + 1], actions[own + 1 + 1]));
}

proof fn lemma_other_synced(
    phases: Seq<ConversationSyncPhase>,
    events: Seq<ConversationSyncEvent>,
    actions: Seq<ConversationSyncAction>,
    rows: Seq<StoredGroup>,
    k: int,
)
    requires
        is_conversation_run(phases, events, actions),
        all_goes_well(events, rows),
        rows.len() < usize::MAX,
        0 <= k < rows.len(),
    ensures
        actions[2 + 2 * k] == (ConversationSyncAction::SyncOther { index: k as usize }),
        phases[2 + 2 * k] matches ConversationSyncPhase::SyncingOther { others, index } && index == k && are_handles_of(
            others@,
            rows,
        ),
        phases[3 + 2 * k] matches ConversationSyncPhase::UpdatingOther { others, index } && index == k
            && are_handles_of(others@, rows),
        actions[3 + 2 * k] == (ConversationSyncAction::UpdateOther { index: k as usize }),
    decreases k,
{
    let at = 2 + 2 * k;
    if k == 0 {
        assert(is_conversation_step(phases[0], events[0], phases[1], actions[1]));
        assert(is_conversation_step(phases[1], events[1], phases[2], actions[2]));
    } else {
        lemma_other_synced(phases, events, actions, rows, k - 1);
        assert(at - 1 == 3 + 2 * (k - 1));
        assert((at - 1) % 2 == 1);
        assert(is_conversation_step(phases[at - 1], events[at - 1], phases[at - 1 + 1], actions[at - 1 + 1]));
    }
    assert(at % 2 == 0);
    assert(is_conversation_step(phases[at], events[at], phases[at + 1], actions[at + 1]));
}

/// The first failure of a pass over a conversation and its duplicates ends it: a failed pass over one of them
/// with its summary, any other failure as it is.
pub proof fn conversation_failures_are_reported(
    before: ConversationSyncPhase,
    event: ConversationSyncEvent,
    after: ConversationSyncPhase,
    action: ConversationSyncAction,
)
    requires
        is_conversation_step(before, event, after, action),
        action !is Ignore,
    ensures
        event matches ConversationSyncEvent::Epoch(Err(e)) ==> action == ConversationSyncAction::Finish(Err(e)),
        event matches ConversationSyncEvent::Others(Err(e)) ==> action == ConversationSyncAction::Finish(Err(e)),
        event matches ConversationSyncEvent::InstallationsUpdated(Err(e)) ==> action == ConversationSyncAction::Finish(
            Err(e),
        ),
        event matches ConversationSyncEvent::Synced(Err(summary)) ==> action == ConversationSyncAction::Finish(
            Err(GroupError::Sync(Box::new(summary))),
        ),
        (action matches ConversationSyncAction::Finish(Err(_))) ==> match event {
            ConversationSyncEvent::Epoch(outcome) => outcome is Err,
            ConversationSyncEvent::Others(outcome) => outcome is Err,
            ConversationSyncEvent::Synced(outcome) => outcome is Err,
            ConversationSyncEvent::InstallationsUpdated(outcome) => outcome is Err,
        },
{
}

/// A pass that has come to its end does nothing more, and what does not fit the step that it waits for changes nothing.
pub proof fn finished_passes_stay_finished(
    before: SyncPass,
    event: SyncEvent,
    after: SyncPass,
    action: SyncAction,
)
    requires
        is_sync_step(before, event, after, action),
    ensures
        before.phase is Done ==> action is Ignore,
        action is Ignore ==> after == before,
{
}

/// A conversation that was synced does nothing more, and what does not fit the step that it waits for changes nothing.
pub proof fn finished_conversations_stay_finished(
    before: ConversationSyncPhase,
    event: ConversationSyncEvent,
    after: ConversationSyncPhase,
    action: ConversationSyncAction,
)
    requires
        is_conversation_step(before, event, after, action),
    ensures
        before is Done ==> action is Ignore,
        action is Ignore ==> after == before,
{
}

} // verus!
