//! What follows the processing of messages that were received.

use vstd::prelude::*;
use crate::groups::group::MlsGroup;
use crate::error::{CommitValidationError, GroupMessageProcessingError, MessageIdentifier};
use crate::groups::mls_sync::persistence;
use crate::groups::mls_sync::processing;
use crate::groups::summary::ProcessSummary;
use crate::records::{CommitResult, Cursor};

verus! {

/// What is done after a message was processed or failed.
#[derive(Debug)]
pub enum PostProcess {
    /// Clear away messages that waited for this one, then report it.
    PruneIcebox(MessageIdentifier),
    /// Pause the group until this client has a version.
    PauseGroup { min_version: String },
    /// Report an error, after what is done about it as far as it can be.
    Fail {
        error: GroupMessageProcessingError,
        /// Move the cursor past the message.
        advance_cursor: bool,
        /// Enter the failed commit in the log of commits, once the cursor is moved.
        log_failed_commit: Option<CommitResult>,
        /// Note that the group may have forked.
        fork_details: Option<String>,
    },
}

/// Whether something is what follows a message.
pub open spec fn is_follow_up(
    process_result: Result<MessageIdentifier, GroupMessageProcessingError>,
    is_active: bool,
    is_commit: bool,
    message_cursor: u64,
    message_epoch: u64,
    group_epoch: u64,
    max_past_epochs: usize,
    r: PostProcess,
) -> bool {
    match process_result {
        Ok(m) => r == PostProcess::PruneIcebox(m),
        Err(GroupMessageProcessingError::CommitValidation(CommitValidationError::ProtocolVersionTooLow(v))) => r
            == PostProcess::PauseGroup { min_version: v },
        Err(e) => {
            &&& r matches PostProcess::Fail { error, advance_cursor, log_failed_commit, fork_details }
            &&& error == e
            &&& advance_cursor == (!e.retryable() && is_active)
            &&& log_failed_commit is Some == (advance_cursor && is_commit)
            &&& log_failed_commit is Some ==> is_commit_result(e, log_failed_commit->0)
            &&& fork_details is Some == ({
                &&& e matches GroupMessageProcessingError::OpenMlsProcessMessage { wrong_epoch: true, error: _ }
                &&& !processing::is_old_epoch(group_epoch, message_epoch, max_past_epochs)
                &&& message_epoch > group_epoch
            })
            &&& fork_details is Some ==> fork_details->0@ == persistence::fork_details_text(
                message_cursor,
                message_epoch,
                group_epoch,
            )
        },
    }
}

/// A message that was processed is followed by clearing away what waited for it. A commit that needs a newer
/// client pauses the group until that version, and nothing is done to the cursor. Any other error is kept; the
/// cursor moves past the message exactly if trying again cannot help and this client is still in the group,
/// and the log tells of the failure exactly if the cursor moves past a commit. A fork is suspected exactly if
/// the engine refused the epoch of a message that lies ahead of the group.
pub proof fn messages_are_followed_up(
    process_result: Result<MessageIdentifier, GroupMessageProcessingError>,
    is_active: bool,
    is_commit: bool,
    message_cursor: u64,
    message_epoch: u64,
    group_epoch: u64,
    max_past_epochs: usize,
    r: PostProcess,
)
    requires
        is_follow_up(
            process_result,
            is_active,
            is_commit,
            message_cursor,
            message_epoch,
            group_epoch,
            max_past_epochs,
            r,
        ),
    ensures
        process_result matches Ok(m) ==> r == PostProcess::PruneIcebox(m),
        r is PruneIcebox <==> process_result is Ok,
        r is PauseGroup <==> (process_result matches Err(GroupMessageProcessingError::CommitValidation(e)) && e
            is ProtocolVersionTooLow),
        process_result matches Err(
            GroupMessageProcessingError::CommitValidation(CommitValidationError::ProtocolVersionTooLow(v)),
        ) ==> r == (PostProcess::PauseGroup { min_version: v }),
        r matches PostProcess::Fail { error, advance_cursor, log_failed_commit, fork_details } ==> {
            &&& process_result == Err::<MessageIdentifier, _>(error)
            &&& advance_cursor <==> is_active && !error.retryable()
            &&& log_failed_commit is Some <==> is_active && !error.retryable() && is_commit
            &&& fork_details is Some <==> message_epoch > group_epoch && (
            error matches GroupMessageProcessingError::OpenMlsProcessMessage { wrong_epoch, error: _ } && wrong_epoch)
            &&& log_failed_commit matches Some(result) ==> {
                &&& error is CommitValidation <==> result == CommitResult::Invalid
                &&& (error is OldEpoch || error is FutureEpoch) ==> result == CommitResult::WrongEpoch
                &&& error matches GroupMessageProcessingError::OpenMlsProcessMessage { wrong_epoch, error: _ } ==> (
                if wrong_epoch {
                    result == CommitResult::WrongEpoch
                } else {
                    result == CommitResult::Undecryptable
                })
                &&& result != CommitResult::Success
            }
        },
{
}

/// Decides what follows a message. Where a newer version is needed the cursor stays, and the group
/// is paused. The cursor moves past a message that cannot be processed by trying again, unless this
/// client was removed from the group: it may be added again.
pub fn post_process_message(
    process_result: Result<MessageIdentifier, GroupMessageProcessingError>,
    is_active: bool,
    is_commit: bool,
    message_cursor: u64,
    message_epoch: u64,
    group_epoch: u64,
    max_past_epochs: usize,
) -> (r: PostProcess)
    ensures
        is_follow_up(
            process_result,
            is_active,
            is_commit,
            message_cursor,
            message_epoch,
            group_epoch,
            max_past_epochs,
            r,
        ),
{
    match process_result {
        Ok(m) => PostProcess::PruneIcebox(m),
        Err(GroupMessageProcessingError::CommitValidation(CommitValidationError::ProtocolVersionTooLow(v))) => {
            PostProcess::PauseGroup { min_version: v }
        },
        Err(e) => {
            let advance_cursor: bool = !e.is_retryable() && is_active;
            let log_failed_commit: Option<CommitResult> = if advance_cursor && is_commit {
                Some(e.commit_result())
            } else {
                None
            };
            let check = persistence::process_group_message_error_for_fork_detection(
                message_cursor,
                message_epoch,
                &e,
                group_epoch,
                max_past_epochs,
            );
            PostProcess::Fail { error: e, advance_cursor, log_failed_commit, fork_details: check.fork_details }
        },
    }
}

/// How a failed commit is entered in the log.
pub open spec fn is_commit_result(e: GroupMessageProcessingError, c: CommitResult) -> bool {
    c == (match e {
        GroupMessageProcessingError::OpenMlsProcessMessage { wrong_epoch, error: _ } => if wrong_epoch {
            CommitResult::WrongEpoch
        } else {
            CommitResult::Undecryptable
        },
        GroupMessageProcessingError::OldEpoch(_, _) => CommitResult::WrongEpoch,
        GroupMessageProcessingError::FutureEpoch(_, _) => CommitResult::WrongEpoch,
        GroupMessageProcessingError::CommitValidation(_) => CommitResult::Invalid,
        _ => CommitResult::Unknown,
    })
}

/// What a message is reported as once its follow-up is done.
pub open spec fn report_of(post: PostProcess, outcome: Result<(), GroupMessageProcessingError>) -> Result<
    MessageIdentifier,
    GroupMessageProcessingError,
> {
    match post {
        PostProcess::PruneIcebox(m) => match outcome {
            Ok(_) => Ok(m),
            Err(e) => Err(e),
        },
        PostProcess::PauseGroup { min_version: _ } => match outcome {
            Ok(_) => Err(GroupMessageProcessingError::GroupPaused),
            Err(e) => Err(e),
        },
        PostProcess::Fail { error, advance_cursor: _, log_failed_commit: _, fork_details: _ } => Err(error),
    }
}

/// Where the follow-up goes well, a message that was processed is reported as it was, one that needs a newer
/// client as that its group is paused, and any other by the error that it met. A message counts as processed
/// only if it was, and that error is never lost.
pub proof fn messages_are_reported(
    process_result: Result<MessageIdentifier, GroupMessageProcessingError>,
    is_active: bool,
    is_commit: bool,
    message_cursor: u64,
    message_epoch: u64,
    group_epoch: u64,
    max_past_epochs: usize,
    post: PostProcess,
    outcome: Result<(), GroupMessageProcessingError>,
)
    requires
        is_follow_up(
            process_result,
            is_active,
            is_commit,
            message_cursor,
            message_epoch,
            group_epoch,
            max_past_epochs,
            post,
        ),
    ensures
        report_of(post, outcome) is Ok <==> process_result is Ok && outcome is Ok,
        report_of(post, outcome) is Ok ==> report_of(post, outcome) == process_result,
        (process_result matches Err(e) && !(e matches GroupMessageProcessingError::CommitValidation(v) && v
            is ProtocolVersionTooLow)) ==> report_of(post, outcome) == process_result,
        (outcome is Ok && (process_result matches Err(
            GroupMessageProcessingError::CommitValidation(CommitValidationError::ProtocolVersionTooLow(_)),
        ))) ==> report_of(post, outcome) == Err::<MessageIdentifier, _>(GroupMessageProcessingError::GroupPaused),
        (outcome matches Err(e) && process_result is Ok) ==> report_of(post, outcome) == Err::<MessageIdentifier, _>(
            outcome->Err_0,
        ),
{
}

/// What a message is reported as once its follow-up is done. A failure of what is done about an
/// error does not hide the error.
pub fn finish_post_process(post: PostProcess, outcome: Result<(), GroupMessageProcessingError>) -> (r: Result<
    MessageIdentifier,
    GroupMessageProcessingError,
>)
    ensures
        r == report_of(post, outcome),
{
    match post {
        PostProcess::PruneIcebox(m) => match outcome {
            Ok(_) => Ok(m),
            Err(e) => Err(e),
        },
        PostProcess::PauseGroup { min_version: _ } => match outcome {
            Ok(_) => Err(GroupMessageProcessingError::GroupPaused),
            Err(e) => Err(e),
        },
        PostProcess::Fail { error, advance_cursor: _, log_failed_commit: _, fork_details: _ } => Err(error),
    }
}

/// Whether the outcome of a message ends a pass: the group is paused, or trying again can help, and
/// going on without the message could fork the group.
pub open spec fn ends_pass(outcome: Result<MessageIdentifier, GroupMessageProcessingError>) -> bool {
    outcome matches Err(e) && (e is GroupPaused || e.retryable())
}

/// Whether a summary is another one with a message taken in.
pub open spec fn takes_in(
    before: ProcessSummary,
    cursor: Cursor,
    outcome: Result<MessageIdentifier, GroupMessageProcessingError>,
    after: ProcessSummary,
) -> bool {
    &&& after.total_messages@ == before.total_messages@.push(cursor)
    &&& after.new_messages@ == (match outcome {
        Ok(m) => before.new_messages@.push(m),
        Err(_) => before.new_messages@,
    })
    &&& after.errored@ == (match outcome {
        Ok(_) => before.errored@,
        Err(e) => if e is GroupPaused {
            before.errored@
        } else {
            before.errored@.push((cursor, e))
        },
    })
}

impl MlsGroup {
    /// Takes the outcome of a message into the summary of a pass; whether the pass goes on.
    pub fn process_messages(
        &self,
        summary: &mut ProcessSummary,
        cursor: Cursor,
        outcome: Result<MessageIdentifier, GroupMessageProcessingError>,
    ) -> (goes_on: bool)
        ensures
            takes_in(*old(summary), cursor, outcome, *final(summary)),
            goes_on == !ends_pass(outcome),
    {
        summary.add_id(cursor);
        match outcome {
            Ok(m) => {
                summary.add(m);
                true
            },
            Err(GroupMessageProcessingError::GroupPaused) => false,
            Err(e) => {
                let is_retryable: bool = e.is_retryable();
                summary.errored(cursor, e);
                !is_retryable
            },
        }
    }
}

/// A pass over messages: the summaries that it goes through, one more than the messages it tries.
pub open spec fn is_receive_run(
    summaries: Seq<ProcessSummary>,
    cursors: Seq<Cursor>,
    outcomes: Seq<Result<MessageIdentifier, GroupMessageProcessingError>>,
) -> bool {
    &&& summaries.len() == outcomes.len() + 1
    &&& outcomes.len() <= cursors.len()
    &&& summaries[0].total_messages@.len() == 0
    &&& forall|i: int|
        0 <= i < outcomes.len() ==> takes_in(#[trigger] summaries[i], cursors[i], outcomes[i], summaries[i + 1])
    &&& forall|i: int| 0 <= i < outcomes.len() - 1 ==> !ends_pass(#[trigger] outcomes[i])
}

/// A pass records every message that it tries, whatever came of it, in order, and tries none after a
/// message that ended it.
pub proof fn every_tried_message_is_recorded(
    summaries: Seq<ProcessSummary>,
    cursors: Seq<Cursor>,
    outcomes: Seq<Result<MessageIdentifier, GroupMessageProcessingError>>,
    n: int,
)
    requires
        is_receive_run(summaries, cursors, outcomes),
        0 <= n <= outcomes.len(),
    ensures
        summaries[n].total_messages@ == cursors.take(n),
        n < outcomes.len() - 1 ==> !ends_pass(outcomes[n]),
    decreases n,
{
    if n > 0 {
        every_tried_message_is_recorded(summaries, cursors, outcomes, n - 1);
        assert(takes_in(summaries[n - 1], cursors[n - 1], outcomes[n - 1], summaries[n - 1 + 1]));
        assert(cursors.take(n - 1).push(cursors[n - 1]) =~= cursors.take(n));
    } else {
        assert(summaries[0].total_messages@ =~= cursors.take(0));
    }
}

/// In every pass, a message that was processed is among the new ones, one that failed is among the failed ones
/// with its error, and none is in both; a pass goes on after a message exactly if it was processed, or failed
/// in a way that trying again cannot mend and that does not pause the group.
pub proof fn outcomes_are_sorted(
    summaries: Seq<ProcessSummary>,
    cursors: Seq<Cursor>,
    outcomes: Seq<Result<MessageIdentifier, GroupMessageProcessingError>>,
    i: int,
    n: int,
)
    requires
        is_receive_run(summaries, cursors, outcomes),
        summaries[0].new_messages@.len() == 0,
        summaries[0].errored@.len() == 0,
        0 <= i < n <= outcomes.len(),
    ensures
        outcomes[i] matches Ok(m) ==> summaries[n].new_messages@.contains(m),
        (outcomes[i] matches Err(e) && e !is GroupPaused) ==> summaries[n].errored@.contains(
            (cursors[i], outcomes[i]->Err_0),
        ),
        summaries[n].new_messages@.len() + summaries[n].errored@.len() <= n,
        summaries[n].new_messages@.len() + summaries[n].errored@.len() == n || (exists|k: int|
            0 <= k < n && ((#[trigger] outcomes[k]) matches Err(e) && e is GroupPaused)),
        i < outcomes.len() - 1 ==> (outcomes[i] is Ok || !(outcomes[i]->Err_0).retryable()),
        i < outcomes.len() - 1 ==> (outcomes[i] is Ok || outcomes[i]->Err_0 !is GroupPaused),
        outcomes[i] matches Ok(_) ==> !ends_pass(outcomes[i]),
        outcomes[i] matches Err(e) ==> (ends_pass(outcomes[i]) <==> e.retryable() || e
            == GroupMessageProcessingError::GroupPaused),
{
    if i < outcomes.len() - 1 {
        assert(!ends_pass(outcomes[i]));
    }
    lemma_sorted(summaries, cursors, outcomes, i, n);
}

proof fn lemma_sorted(
    summaries: Seq<ProcessSummary>,
    cursors: Seq<Cursor>,
    outcomes: Seq<Result<MessageIdentifier, GroupMessageProcessingError>>,
    i: int,
    n: int,
)
    requires
        is_receive_run(summaries, cursors, outcomes),
        summaries[0].new_messages@.len() == 0,
        summaries[0].errored@.len() == 0,
        0 <= i < outcomes.len(),
        0 <= n <= outcomes.len(),
    ensures
        (i < n && outcomes[i] is Ok) ==> summaries[n].new_messages@.contains(outcomes[i]->Ok_0),
        (i < n && outcomes[i] is Err && outcomes[i]->Err_0 !is GroupPaused) ==> summaries[n].errored@.contains(
            (cursors[i], outcomes[i]->Err_0),
        ),
        summaries[n].new_messages@.len() + summaries[n].errored@.len() <= n,
        summaries[n].new_messages@.len() + summaries[n].errored@.len() == n || (exists|k: int|
            0 <= k < n && ((#[trigger] outcomes[k]) matches Err(e) && e is GroupPaused)),
    decreases n,
{
    if n > 0 {
        lemma_sorted(summaries, cursors, outcomes, i, n - 1);
        let before = summaries[n - 1];
        let after = summaries[n];
        assert(takes_in(summaries[n - 1], cursors[n - 1], outcomes[n - 1], summaries[n - 1 + 1]));
        if outcomes[n - 1] is Ok {
            vstd::seq_lib::lemma_seq_contains_after_push(before.new_messages@, outcomes[n - 1]->Ok_0, outcomes[i]->Ok_0);
        } else if outcomes[n - 1]->Err_0 !is GroupPaused {
            vstd::seq_lib::lemma_seq_contains_after_push(
                before.errored@,
                (cursors[n - 1], outcomes[n - 1]->Err_0),
                (cursors[i], outcomes[i]->Err_0),
            );
        } else {
            assert(outcomes[n - 1] matches Err(e) && e is GroupPaused);
        }
        if exists|k: int| 0 <= k < n - 1 && ((#[trigger] outcomes[k]) matches Err(e) && e is GroupPaused) {
            let k = choose|k: int| 0 <= k < n - 1 && ((#[trigger] outcomes[k]) matches Err(e) && e is GroupPaused);
            assert(0 <= k < n && (outcomes[k] matches Err(e) && e is GroupPaused));
        }
    }
}

} // verus!
