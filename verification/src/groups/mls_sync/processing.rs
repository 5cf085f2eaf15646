//! Taking in what comes back from the network: the messages of this client and those of others.

use vstd::prelude::*;
use crate::bytes;
use crate::error::{CommitValidationError, ExternalError, GroupMessageProcessingError, MessageIdentifier};
use crate::groups::extensions::{Extension, Extensions, GroupMetadata, GroupMutableMetadata, PolicySet, ProposalType};
use crate::groups::group_config;
use crate::groups::message_fields::QueryableContentFields;
use crate::groups::mls_sync::helpers::SavepointEnd;
use crate::groups::mls_sync::persistence;
use crate::groups::mls_sync::types::IntentResolutionError;
use crate::groups::state_ops;
use crate::records::{
    ContentType, ConversationType, Cursor, DeliveryStatus, GroupMessageKind, IntentKind, IntentState, StoredGroup, StoredGroupIntent, StoredGroupMessage,
};

verus! {

/// Whether the epoch of a message is too far behind that of its group.
pub open spec fn is_old_epoch(group_epoch: u64, message_epoch: u64, max_past_epochs: usize) -> bool {
    message_epoch + max_past_epochs <= group_epoch
}

/// What is made of the epoch of a message.
pub open spec fn epoch_verdict(group_epoch: u64, message_epoch: u64, max_past_epochs: usize) -> Result<
    (),
    GroupMessageProcessingError,
> {
    if is_old_epoch(group_epoch, message_epoch, max_past_epochs) {
        Err(GroupMessageProcessingError::OldEpoch(message_epoch, group_epoch))
    } else if message_epoch > group_epoch {
        Err(GroupMessageProcessingError::FutureEpoch(message_epoch, group_epoch))
    } else {
        Ok(())
    }
}

/// Checks the epoch of a message: it may lie behind that of the group by less than the number of
/// epochs that are kept, and never ahead of it.
pub fn validate_message_epoch(group_epoch: u64, message_epoch: u64, max_past_epochs: usize) -> (r: Result<
    (),
    GroupMessageProcessingError,
>)
    ensures
        r == epoch_verdict(group_epoch, message_epoch, max_past_epochs),
{
    if group_epoch >= max_past_epochs as u64 && message_epoch <= group_epoch - max_past_epochs as u64 {
        Err(GroupMessageProcessingError::OldEpoch(message_epoch, group_epoch))
    } else if message_epoch > group_epoch {
        Err(GroupMessageProcessingError::FutureEpoch(message_epoch, group_epoch))
    } else {
        Ok(())
    }
}

/// Where epochs are kept at all, exactly the messages of the group's epoch and of the kept epochs
/// before it are accepted.
pub proof fn accepted_epochs(group_epoch: u64, message_epoch: u64, max_past_epochs: usize)
    requires
        max_past_epochs > 0,
    ensures
        (!is_old_epoch(group_epoch, message_epoch, max_past_epochs) && message_epoch <= group_epoch)
            <==> group_epoch - max_past_epochs < message_epoch <= group_epoch,
        epoch_verdict(group_epoch, message_epoch, max_past_epochs) is Ok <==> group_epoch - max_past_epochs
            < message_epoch <= group_epoch,
        group_epoch < message_epoch ==> epoch_verdict(group_epoch, message_epoch, max_past_epochs) == Err::<(), _>(
            GroupMessageProcessingError::FutureEpoch(message_epoch, group_epoch),
        ),
        message_epoch <= group_epoch - max_past_epochs ==> epoch_verdict(group_epoch, message_epoch, max_past_epochs)
            == Err::<(), _>(GroupMessageProcessingError::OldEpoch(message_epoch, group_epoch)),
{
}

/// An epoch that is accepted stays accepted where more epochs are kept, and one that is refused as too old
/// stays too old for every later epoch of the group.
pub proof fn epochs_age(group_epoch: u64, later_epoch: u64, message_epoch: u64, few: usize, more: usize)
    requires
        0 < few <= more,
        group_epoch <= later_epoch,
    ensures
        epoch_verdict(group_epoch, message_epoch, few) is Ok ==> epoch_verdict(group_epoch, message_epoch, more) is Ok,
        epoch_verdict(group_epoch, message_epoch, few) matches Err(GroupMessageProcessingError::OldEpoch(_, _))
            ==> epoch_verdict(later_epoch, message_epoch, few) is Err,
{
}

/// Whether an intent of a kind is published as a commit.
pub open spec fn publishes_commit(kind: IntentKind) -> bool {
    !(kind is SendMessage || kind is ProposeMemberUpdate || kind is ProposeGroupContextExtensions)
}

/// What has to be looked at before an own message is applied.
#[derive(Debug)]
pub enum StagedIntent {
    /// Nothing: the message carries no commit of the intent.
    NoCommit,
    /// The commit that was staged for the intent, as it was stored.
    Decode(Vec<u8>),
}

/// The error for a commit that came back in another epoch. Epochs are compared as signed numbers, as they
/// are stored.
pub open spec fn commit_epoch_error(group_epoch: u64, message_epoch: u64) -> GroupMessageProcessingError {
    if (message_epoch as i64) < (group_epoch as i64) {
        GroupMessageProcessingError::OldEpoch(message_epoch, group_epoch)
    } else {
        GroupMessageProcessingError::FutureEpoch(message_epoch, group_epoch)
    }
}

/// Whether an own message is staged with a result.
pub open spec fn is_staging(
    intent: StoredGroupIntent,
    group_epoch: u64,
    message_epoch: u64,
    max_past_epochs: usize,
    r: Result<StagedIntent, IntentResolutionError>,
) -> bool {
    let only_epoch = !publishes_commit(intent.kind) || (intent.kind is CommitPendingProposals
        && intent.staged_commit is None);
    if only_epoch {
        match r {
            Ok(staged) => staged is NoCommit && !is_old_epoch(group_epoch, message_epoch, max_past_epochs)
                && message_epoch <= group_epoch,
            Err(e) => {
                &&& e.next_intent_state == IntentState::ToPublish
                &&& if is_old_epoch(group_epoch, message_epoch, max_past_epochs) {
                    e.processing_error == GroupMessageProcessingError::OldEpoch(message_epoch, group_epoch)
                } else {
                    message_epoch > group_epoch && e.processing_error == GroupMessageProcessingError::FutureEpoch(
                        message_epoch,
                        group_epoch,
                    )
                }
            },
        }
    } else if intent.published_in_epoch is None {
        r == Ok::<_, IntentResolutionError>(StagedIntent::NoCommit)
    } else if message_epoch != group_epoch {
        r == Err::<StagedIntent, _>(
            IntentResolutionError {
                processing_error: commit_epoch_error(group_epoch, message_epoch),
                next_intent_state: IntentState::ToPublish,
            },
        )
    } else {
        match intent.staged_commit {
            None => r == Err::<StagedIntent, _>(
                IntentResolutionError {
                    processing_error: GroupMessageProcessingError::IntentMissingStagedCommit,
                    next_intent_state: IntentState::Error,
                },
            ),
            Some(commit) => r matches Ok(StagedIntent::Decode(b)) && b@ == commit@,
        }
    }
}

/// An own commit that was published is applied only in the epoch that the group is in, and then it is the
/// commit that was staged; in any other epoch it is published again, and without a staged commit it has
/// failed for good.
pub proof fn own_commits_are_applied_in_their_epoch(
    intent: StoredGroupIntent,
    group_epoch: u64,
    message_epoch: u64,
    max_past_epochs: usize,
    r: Result<StagedIntent, IntentResolutionError>,
)
    requires
        is_staging(intent, group_epoch, message_epoch, max_past_epochs, r),
    ensures
        r matches Ok(StagedIntent::Decode(b)) ==> message_epoch == group_epoch && intent.published_in_epoch is Some && (
        intent.staged_commit matches Some(commit) && b@ == commit@),
        (intent.published_in_epoch is Some && intent.staged_commit is Some && message_epoch == group_epoch && !(
        intent.kind is SendMessage || intent.kind is ProposeMemberUpdate || intent.kind
            is ProposeGroupContextExtensions)) ==> (r matches Ok(StagedIntent::Decode(_))),
        (intent.published_in_epoch is Some && intent.staged_commit is Some && message_epoch != group_epoch && !(
        intent.kind is SendMessage || intent.kind is ProposeMemberUpdate || intent.kind
            is ProposeGroupContextExtensions)) ==> (r matches Err(e) && e.next_intent_state
            == IntentState::ToPublish),
        r matches Err(e) ==> e.next_intent_state == IntentState::ToPublish || e.next_intent_state == IntentState::Error,
        (r matches Err(e) && e.next_intent_state == IntentState::Error) ==> message_epoch == group_epoch
            && intent.staged_commit is None && intent.published_in_epoch is Some,
        r matches Err(e) ==> match e.processing_error {
            GroupMessageProcessingError::OldEpoch(m, g) => m == message_epoch && g == group_epoch,
            GroupMessageProcessingError::FutureEpoch(m, g) => m == message_epoch && g == group_epoch,
            GroupMessageProcessingError::IntentMissingStagedCommit => e.next_intent_state == IntentState::Error,
            _ => false,
        },
{
}

/// Where epochs are kept, an own message or proposal is taken in exactly if its epoch is that of the group
/// or a kept one before it; else it is published again.
pub proof fn own_messages_are_taken_in_kept_epochs(
    intent: StoredGroupIntent,
    group_epoch: u64,
    message_epoch: u64,
    max_past_epochs: usize,
    r: Result<StagedIntent, IntentResolutionError>,
)
    requires
        is_staging(intent, group_epoch, message_epoch, max_past_epochs, r),
        intent.kind is SendMessage || intent.kind is ProposeMemberUpdate || intent.kind is ProposeGroupContextExtensions,
        max_past_epochs > 0,
    ensures
        r == Ok::<_, IntentResolutionError>(StagedIntent::NoCommit) <==> group_epoch - max_past_epochs < message_epoch
            <= group_epoch,
        r is Err <==> !(group_epoch - max_past_epochs < message_epoch <= group_epoch),
        r matches Err(e) ==> e.next_intent_state == IntentState::ToPublish,
{
}

/// Stages an own message. A commit must come back in the epoch of the group, or it is published
/// again; without its staged commit it cannot be applied. Everything else has its epoch checked. What
/// is to be decoded is validated afterwards.
pub fn stage_and_validate_intent(
    intent: &StoredGroupIntent,
    group_epoch: u64,
    message_epoch: u64,
    max_past_epochs: usize,
) -> (r: Result<StagedIntent, IntentResolutionError>)
    ensures
        is_staging(*intent, group_epoch, message_epoch, max_past_epochs, r),
{
    let only_epoch: bool = match intent.kind {
        IntentKind::SendMessage => true,
        IntentKind::ProposeMemberUpdate => true,
        IntentKind::ProposeGroupContextExtensions => true,
        IntentKind::CommitPendingProposals => intent.staged_commit.is_none(),
        _ => false,
    };
    if only_epoch {
        return match validate_message_epoch(group_epoch, message_epoch, max_past_epochs) {
            Ok(_) => Ok(StagedIntent::NoCommit),
            Err(e) => Err(
                IntentResolutionError { processing_error: e, next_intent_state: IntentState::ToPublish },
            ),
        };
    }
    if intent.published_in_epoch.is_none() {
        return Ok(StagedIntent::NoCommit);
    }
    if message_epoch != group_epoch {
        let processing_error = if (message_epoch as i64) < (group_epoch as i64) {
            GroupMessageProcessingError::OldEpoch(message_epoch, group_epoch)
        } else {
            GroupMessageProcessingError::FutureEpoch(message_epoch, group_epoch)
        };
        return Err(IntentResolutionError { processing_error, next_intent_state: IntentState::ToPublish });
    }
    match &intent.staged_commit {
        None => Err(
            IntentResolutionError {
                processing_error: GroupMessageProcessingError::IntentMissingStagedCommit,
                next_intent_state: IntentState::Error,
            },
        ),
        Some(commit) => Ok(StagedIntent::Decode(bytes::clone_bytes(commit.as_slice()))),
    }
}

/// A decoded commit, or the failure of its intent.
pub open spec fn decoded_or_failed<S>(decoded: Result<S, ExternalError>) -> Result<S, IntentResolutionError> {
    match decoded {
        Ok(staged) => Ok(staged),
        Err(e) => Err(
            IntentResolutionError {
                processing_error: GroupMessageProcessingError::Storage(e),
                next_intent_state: IntentState::Error,
            },
        ),
    }
}

/// A validated commit, or the failure of its intent.
pub open spec fn validated_or_failed<S, V>(staged: S, validated: Result<V, CommitValidationError>) -> Result<
    (S, V),
    IntentResolutionError,
> {
    match validated {
        Ok(validated) => Ok((staged, validated)),
        Err(e) => Err(
            IntentResolutionError {
                processing_error: GroupMessageProcessingError::CommitValidation(e),
                next_intent_state: IntentState::Error,
            },
        ),
    }
}

/// An own commit that cannot be decoded, or does not validate, has failed for good: it is never published again, and what
/// went wrong is what is reported. One that decodes and validates goes on as it is.
pub proof fn undecodable_and_invalid_commits_fail_for_good<S, V>(
    staged: S,
    decoded: Result<S, ExternalError>,
    validated: Result<V, CommitValidationError>,
)
    ensures
        decoded matches Ok(commit) ==> decoded_or_failed(decoded) == Ok::<_, IntentResolutionError>(commit),
        decoded matches Err(e) ==> (decoded_or_failed(decoded) matches Err(failed) && failed.next_intent_state
            == IntentState::Error && failed.processing_error == GroupMessageProcessingError::Storage(e)),
        validated matches Ok(v) ==> validated_or_failed(staged, validated) == Ok::<_, IntentResolutionError>((staged, v)),
        validated matches Err(e) ==> (validated_or_failed(staged, validated) matches Err(failed)
            && failed.next_intent_state == IntentState::Error && failed.processing_error
            == GroupMessageProcessingError::CommitValidation(e)),
{
}

/// Decoding the stored commit of an intent. Without it the intent has failed: whether other members
/// could apply the commit is not known.
pub fn decode_staged_commit<S>(decoded: Result<S, ExternalError>) -> (r: Result<S, IntentResolutionError>)
    ensures
        r == decoded_or_failed(decoded),
{
    match decoded {
        Ok(staged) => Ok(staged),
        Err(e) => Err(
            IntentResolutionError {
                processing_error: GroupMessageProcessingError::Storage(e),
                next_intent_state: IntentState::Error,
            },
        ),
    }
}

/// What is applied for an own message once its commit is decoded and validated. A commit of one's own
/// that does not validate has failed.
pub fn validate_staged_commit<S, V>(staged: S, validated: Result<V, CommitValidationError>) -> (r: Result<
    (S, V),
    IntentResolutionError,
>)
    ensures
        r == validated_or_failed(staged, validated),
{
    match validated {
        Ok(validated) => Ok((staged, validated)),
        Err(e) => Err(
            IntentResolutionError {
                processing_error: GroupMessageProcessingError::CommitValidation(e),
                next_intent_state: IntentState::Error,
            },
        ),
    }
}

/// What the processing of an own message waits for.
#[derive(Debug)]
pub enum OwnPhase {
    Merging,
    MarkingReadds,
    SavingTranscript,
    Identifying,
    SettingPublished { id: Vec<u8> },
    Done,
}

/// What has happened outside.
#[derive(Debug)]
pub enum OwnEvent {
    /// The staged commit was merged into the group.
    Merged(Result<(), GroupMessageProcessingError>),
    /// Requests to be added again were marked as answered.
    ReaddsMarked(Result<(), ExternalError>),
    /// The transcript message was stored; its id, if one was.
    TranscriptSaved(Result<Option<Vec<u8>>, GroupMessageProcessingError>),
    /// The id of the intent's message was worked out, if it has one.
    Identified(Result<Option<Vec<u8>>, ExternalError>),
    /// The message was stored as published.
    PublishedSet(Result<(), ExternalError>),
}

/// What is left to be done after an own message was applied.
#[derive(Clone, Copy, Debug, PartialEq, Eq, Structural)]
pub enum OwnFollowUp {
    Nothing,
    /// Take removed members off the list of pending removals, and react to a change of this client's
    /// being a super admin.
    CleanUpAfterCommit,
    /// React to an own request to leave or to delete.
    ReactToOwnMessage,
}

/// What is to be done next outside.
#[derive(Debug)]
pub enum OwnAction {
    MergeCommit,
    MarkReadds,
    SaveTranscript,
    CalculateMessageId,
    SetPublished { id: Vec<u8> },
    Finish { result: Result<Option<Vec<u8>>, IntentResolutionError>, follow_up: OwnFollowUp },
    Ignore,
}

/// An outcome that leaves an intent in a state.
pub open spec fn own_failure(action: OwnAction, error: GroupMessageProcessingError, state: IntentState) -> bool {
    action == OwnAction::Finish {
        result: Err(IntentResolutionError { processing_error: error, next_intent_state: state }),
        follow_up: OwnFollowUp::Nothing,
    }
}

fn own_fail(error: GroupMessageProcessingError, state: IntentState) -> (r: (OwnPhase, OwnAction))
    ensures
        r.0 is Done,
        own_failure(r.1, error, state),
{
    (
        OwnPhase::Done,
        OwnAction::Finish {
            result: Err(IntentResolutionError { processing_error: error, next_intent_state: state }),
            follow_up: OwnFollowUp::Nothing,
        },
    )
}

/// Whether the processing of an own message begins with an action.
pub open spec fn begins_own(
    state: IntentState,
    kind: IntentKind,
    has_commit: bool,
    phase: OwnPhase,
    action: OwnAction,
) -> bool {
    if state is Committed || state is Processed || state is Error {
        phase is Done && own_failure(action, GroupMessageProcessingError::IntentAlreadyProcessed, state)
    } else if kind is CommitPendingProposals && !has_commit {
        phase is Done && own_failure(
            action,
            GroupMessageProcessingError::PreCommitProposalPhaseComplete,
            IntentState::ToPublish,
        )
    } else if has_commit {
        phase is Merging && action is MergeCommit
    } else {
        phase is Identifying && action is CalculateMessageId
    }
}

/// Begins to process an own message. An intent that is already dealt with is skipped. A commit of
/// pending proposals that came back without a commit was only the proposal before it, and the
/// commit is still to be published.
pub fn process_own_message(state: IntentState, kind: IntentKind, has_commit: bool) -> (r: (OwnPhase, OwnAction))
    ensures
        begins_own(state, kind, has_commit, r.0, r.1),
{
    if state == IntentState::Committed || state == IntentState::Processed || state == IntentState::Error {
        return own_fail(GroupMessageProcessingError::IntentAlreadyProcessed, state);
    }
    if kind == IntentKind::CommitPendingProposals && !has_commit {
        return own_fail(GroupMessageProcessingError::PreCommitProposalPhaseComplete, IntentState::ToPublish);
    }
    if has_commit {
        (OwnPhase::Merging, OwnAction::MergeCommit)
    } else {
        (OwnPhase::Identifying, OwnAction::CalculateMessageId)
    }
}

/// The transitions of processing an own message.
pub open spec fn is_own_step(before: OwnPhase, event: OwnEvent, after: OwnPhase, action: OwnAction) -> bool {
    match (before, event) {
        (OwnPhase::Merging, OwnEvent::Merged(Ok(_))) => after is MarkingReadds && action is MarkReadds,
        (OwnPhase::Merging, OwnEvent::Merged(Err(e))) => after is Done && own_failure(
            action,
            e,
            IntentState::ToPublish,
        ),
        (OwnPhase::MarkingReadds, OwnEvent::ReaddsMarked(Ok(_))) => after is SavingTranscript
            && action is SaveTranscript,
        (OwnPhase::MarkingReadds, OwnEvent::ReaddsMarked(Err(e))) => after is Done && own_failure(
            action,
            GroupMessageProcessingError::Storage(e),
            IntentState::Error,
        ),
        (OwnPhase::SavingTranscript, OwnEvent::TranscriptSaved(Ok(id))) => after is Done && action
            == OwnAction::Finish { result: Ok(id), follow_up: OwnFollowUp::CleanUpAfterCommit },
        (OwnPhase::SavingTranscript, OwnEvent::TranscriptSaved(Err(e))) => after is Done && own_failure(
            action,
            e,
            IntentState::Error,
        ),
        (OwnPhase::Identifying, OwnEvent::Identified(Ok(None))) => after is Done && action
            == OwnAction::Finish { result: Ok(None), follow_up: OwnFollowUp::Nothing },
        (OwnPhase::Identifying, OwnEvent::Identified(Ok(Some(id)))) => {
            &&& after == OwnPhase::SettingPublished { id }
            &&& action matches OwnAction::SetPublished { id: copy } && copy@ == id@
        },
        (OwnPhase::Identifying, OwnEvent::Identified(Err(e))) => after is Done && own_failure(
            action,
            GroupMessageProcessingError::Intent(e),
            IntentState::Error,
        ),
        (OwnPhase::SettingPublished { id }, OwnEvent::PublishedSet(Ok(_))) => after is Done && action
            == OwnAction::Finish { result: Ok(Some(id)), follow_up: OwnFollowUp::ReactToOwnMessage },
        (OwnPhase::SettingPublished { id: _ }, OwnEvent::PublishedSet(Err(e))) => after is Done && own_failure(
            action,
            GroupMessageProcessingError::Db(e),
            IntentState::Error,
        ),
        _ => after == before && action is Ignore,
    }
}

/// Takes the processing of an own message one step further. A commit that cannot be merged is
/// published again; whatever fails after that leaves the intent failed.
pub fn own_message_step(phase: OwnPhase, event: OwnEvent) -> (r: (OwnPhase, OwnAction))
    ensures
        is_own_step(phase, event, r.0, r.1),
{
    match (phase, event) {
        (OwnPhase::Merging, OwnEvent::Merged(Ok(_))) => (OwnPhase::MarkingReadds, OwnAction::MarkReadds),
        (OwnPhase::Merging, OwnEvent::Merged(Err(e))) => own_fail(e, IntentState::ToPublish),
        (OwnPhase::MarkingReadds, OwnEvent::ReaddsMarked(Ok(_))) => (
            OwnPhase::SavingTranscript,
            OwnAction::SaveTranscript,
        ),
        (OwnPhase::MarkingReadds, OwnEvent::ReaddsMarked(Err(e))) => own_fail(
            GroupMessageProcessingError::Storage(e),
            IntentState::Error,
        ),
        (OwnPhase::SavingTranscript, OwnEvent::TranscriptSaved(Ok(id))) => (
            OwnPhase::Done,
            OwnAction::Finish { result: Ok(id), follow_up: OwnFollowUp::CleanUpAfterCommit },
        ),
        (OwnPhase::SavingTranscript, OwnEvent::TranscriptSaved(Err(e))) => own_fail(e, IntentState::Error),
        (OwnPhase::Identifying, OwnEvent::Identified(Ok(None))) => (
            OwnPhase::Done,
            OwnAction::Finish { result: Ok(None), follow_up: OwnFollowUp::Nothing },
        ),
        (OwnPhase::Identifying, OwnEvent::Identified(Ok(Some(id)))) => {
            let copy = bytes::clone_bytes(id.as_slice());
            (OwnPhase::SettingPublished { id }, OwnAction::SetPublished { id: copy })
        },
        (OwnPhase::Identifying, OwnEvent::Identified(Err(e))) => own_fail(
            GroupMessageProcessingError::Intent(e),
            IntentState::Error,
        ),
        (OwnPhase::SettingPublished { id }, OwnEvent::PublishedSet(Ok(_))) => (
            OwnPhase::Done,
            OwnAction::Finish { result: Ok(Some(id)), follow_up: OwnFollowUp::ReactToOwnMessage },
        ),
        (OwnPhase::SettingPublished { id: _ }, OwnEvent::PublishedSet(Err(e))) => own_fail(
            GroupMessageProcessingError::Db(e),
            IntentState::Error,
        ),
        (phase, _) => (phase, OwnAction::Ignore),
    }
}

/// An own commit that comes back for an intent that waits for it is merged, requests to be added again are
/// marked as answered, and its report is stored, in this order; then what is left after a commit is done.
pub proof fn own_commits_are_merged_and_reported(
    state: IntentState,
    kind: IntentKind,
    phases: Seq<OwnPhase>,
    first: OwnAction,
    second: OwnAction,
    third: OwnAction,
    last: OwnAction,
    report: Option<Vec<u8>>,
)
    requires
        state == IntentState::ToPublish || state == IntentState::Published,
        phases.len() == 4,
        begins_own(state, kind, true, phases[0], first),
        is_own_step(phases[0], OwnEvent::Merged(Ok(())), phases[1], second),
        is_own_step(phases[1], OwnEvent::ReaddsMarked(Ok(())), phases[2], third),
        is_own_step(phases[2], OwnEvent::TranscriptSaved(Ok(report)), phases[3], last),
    ensures
        first is MergeCommit,
        second is MarkReadds,
        third is SaveTranscript,
        last == (OwnAction::Finish { result: Ok(report), follow_up: OwnFollowUp::CleanUpAfterCommit }),
{
}

/// An own message that comes back for an intent that waits for it is stored as published under the id that
/// was worked out for it, and then it is reacted to; an intent without a message needs nothing more.
pub proof fn own_messages_are_stored_as_published(
    state: IntentState,
    kind: IntentKind,
    phases: Seq<OwnPhase>,
    first: OwnAction,
    second: OwnAction,
    last: OwnAction,
    id: Option<Vec<u8>>,
)
    requires
        state == IntentState::ToPublish || state == IntentState::Published,
        kind != IntentKind::CommitPendingProposals,
        phases.len() == 3,
        begins_own(state, kind, false, phases[0], first),
        is_own_step(phases[0], OwnEvent::Identified(Ok(id)), phases[1], second),
        id is Some ==> is_own_step(phases[1], OwnEvent::PublishedSet(Ok(())), phases[2], last),
    ensures
        first is CalculateMessageId,
        match id {
            Some(id) => {
                &&& second matches OwnAction::SetPublished { id: set } && set@ == id@
                &&& last == (OwnAction::Finish { result: Ok(Some(id)), follow_up: OwnFollowUp::ReactToOwnMessage })
            },
            None => second == (OwnAction::Finish { result: Ok(None), follow_up: OwnFollowUp::Nothing }),
        },
{
}

/// An intent that was dealt with before is left in its state, and nothing is done for its message. A commit
/// of pending proposals whose message is only the proposal before it is still to be published.
pub proof fn finished_intents_are_left_alone(
    state: IntentState,
    kind: IntentKind,
    has_commit: bool,
    phase: OwnPhase,
    action: OwnAction,
)
    requires
        begins_own(state, kind, has_commit, phase, action),
    ensures
        (state == IntentState::Committed || state == IntentState::Processed || state == IntentState::Error) <==> (
        action matches OwnAction::Finish { result: Err(e), follow_up: _ } && e.processing_error
            == GroupMessageProcessingError::IntentAlreadyProcessed),
        action matches OwnAction::Finish { result, follow_up } ==> follow_up == OwnFollowUp::Nothing && (
        result matches Err(e) && (e.processing_error == GroupMessageProcessingError::IntentAlreadyProcessed
            ==> e.next_intent_state == state) && (e.processing_error
            == GroupMessageProcessingError::PreCommitProposalPhaseComplete ==> e.next_intent_state
            == IntentState::ToPublish)),
        (kind == IntentKind::CommitPendingProposals && !has_commit && (state == IntentState::ToPublish || state
            == IntentState::Published)) <==> (action matches OwnAction::Finish { result: Err(e), follow_up: _ }
            && e.processing_error == GroupMessageProcessingError::PreCommitProposalPhaseComplete),
{
}

/// Whatever fails while an own message is applied is reported as that failure, and nothing follows it. A
/// commit that could not be merged is published again.
pub proof fn own_failures_are_reported(before: OwnPhase, event: OwnEvent, after: OwnPhase, action: OwnAction)
    requires
        is_own_step(before, event, after, action),
        action is Finish,
    ensures
        action matches OwnAction::Finish { result: Err(e), follow_up } ==> {
            &&& follow_up == OwnFollowUp::Nothing
            &&& match event {
                OwnEvent::Merged(Err(given)) => e.processing_error == given && e.next_intent_state
                    == IntentState::ToPublish,
                OwnEvent::ReaddsMarked(Err(given)) => e.processing_error == GroupMessageProcessingError::Storage(given),
                OwnEvent::TranscriptSaved(Err(given)) => e.processing_error == given,
                OwnEvent::Identified(Err(given)) => e.processing_error == GroupMessageProcessingError::Intent(given),
                OwnEvent::PublishedSet(Err(given)) => e.processing_error == GroupMessageProcessingError::Db(given),
                _ => false,
            }
        },
        action matches OwnAction::Finish { result: Ok(_), follow_up: _ } ==> match event {
            OwnEvent::Merged(outcome) => outcome is Ok,
            OwnEvent::ReaddsMarked(outcome) => outcome is Ok,
            OwnEvent::TranscriptSaved(outcome) => outcome is Ok,
            OwnEvent::Identified(outcome) => outcome is Ok,
            OwnEvent::PublishedSet(outcome) => outcome is Ok,
        },
{
}

/// A message that came back for an own intent leaves the intent to be published again only where
/// nothing of it was applied: every failure after the commit was merged leaves it failed.
pub proof fn failures_after_merging_are_final(before: OwnPhase, event: OwnEvent, after: OwnPhase, action: OwnAction)
    requires
        is_own_step(before, event, after, action),
        before is MarkingReadds || before is SavingTranscript || before is SettingPublished,
        action matches OwnAction::Finish { result: Err(_), follow_up: _ },
    ensures
        action matches OwnAction::Finish { result: Err(e), follow_up: _ } && e.next_intent_state == IntentState::Error,
{
}

/// What a message of another member carries.
#[derive(Clone, Copy, Debug, PartialEq, Eq, Structural)]
pub enum MessageContent {
    Application,
    Proposal(ProposalType),
    ExternalJoinProposal,
    StagedCommit,
}

/// What a proposal is validated against.
pub struct ProposalContext<'a> {
    pub policies: &'a PolicySet,
    pub metadata: &'a GroupMetadata,
    pub mutable_metadata: &'a GroupMutableMetadata,
}

/// Whether an outcome is what a proposal to a group is validated against.
pub open spec fn is_proposal_context<'a>(
    list: Seq<Extension>,
    r: Result<ProposalContext<'a>, CommitValidationError>,
) -> bool {
    match (group_config::permissions_of(list), state_ops::fixed_metadata_of(list), group_config::metadata_of(list)) {
        (Err(e), _, _) => r == Err::<ProposalContext<'a>, _>(CommitValidationError::MetadataPermissions(e)),
        (Ok(_), Err(e), _) => r == Err::<ProposalContext<'a>, _>(CommitValidationError::MetadataPermissions(e)),
        (Ok(_), Ok(_), Err(e)) => r == Err::<ProposalContext<'a>, _>(CommitValidationError::GroupMutableMetadata(e)),
        (Ok(policies), Ok(metadata), Ok(mutable_metadata)) => {
            &&& r matches Ok(context)
            &&& *context.policies == policies
            &&& *context.metadata == metadata
            &&& *context.mutable_metadata == mutable_metadata
        },
    }
}

/// A proposal is held against the policies and the metadata of its own group, and is invalid if one of them cannot be had.
pub proof fn proposals_are_held_against_their_group<'a>(
    list: Seq<Extension>,
    r: Result<ProposalContext<'a>, CommitValidationError>,
)
    requires
        is_proposal_context(list, r),
    ensures
        r is Ok <==> group_config::permissions_of(list) is Ok && state_ops::fixed_metadata_of(list) is Ok
            && group_config::metadata_of(list) is Ok,
        r matches Ok(context) ==> *context.policies == group_config::permissions_of(list)->Ok_0 && *context.metadata
            == state_ops::fixed_metadata_of(list)->Ok_0 && *context.mutable_metadata == group_config::metadata_of(
            list,
        )->Ok_0,
        group_config::permissions_of(list) matches Err(e) ==> r == Err::<ProposalContext<'a>, _>(
            CommitValidationError::MetadataPermissions(e),
        ),
        group_config::permissions_of(list) is Ok ==> (state_ops::fixed_metadata_of(list) matches Err(e) ==> r == Err::<
            ProposalContext<'a>,
            _,
        >(CommitValidationError::MetadataPermissions(e))),
{
}

/// What a proposal to a group is validated against: its permissions, its fixed and its mutable
/// metadata. The first of them that cannot be had makes the proposal invalid.
pub fn proposal_context<'a>(current: &'a Extensions) -> (r: Result<ProposalContext<'a>, CommitValidationError>)
    ensures
        is_proposal_context(current.list@, r),
{
    let policies = match state_ops::extract_group_permissions(current) {
        Ok(policies) => policies,
        Err(e) => return Err(CommitValidationError::MetadataPermissions(e)),
    };
    let metadata = match state_ops::extract_group_metadata(current) {
        Ok(metadata) => metadata,
        Err(e) => return Err(CommitValidationError::MetadataPermissions(e)),
    };
    match state_ops::extract_group_mutable_metadata(current) {
        Ok(mutable_metadata) => Ok(ProposalContext { policies, metadata, mutable_metadata }),
        Err(e) => Err(CommitValidationError::GroupMutableMetadata(e)),
    }
}

/// What the processing of another member's message waits for.
#[derive(Debug)]
pub enum ExternalPhase {
    /// A trial run that is rolled back, so that what the message needs can be fetched first.
    Trial,
    /// The group loaded again after the trial.
    Reloading,
    /// The sender of the message.
    Identifying,
    ValidatingCommit,
    /// The proposal held against what [`proposal_context`] gives.
    ValidatingProposal,
    /// The cursor moved past a message that is refused.
    Skipping { error: CommitValidationError },
    /// Whether the message is new.
    Claiming,
    /// The message processed for good.
    Applying,
    Done,
}

/// What has happened outside.
#[derive(Debug)]
pub enum ExternalEvent {
    /// The trial run ended, with what the message carries.
    Tried { savepoint: SavepointEnd, outcome: Result<MessageContent, GroupMessageProcessingError> },
    /// The group was loaded again; whether it takes proposals.
    Reloaded(Result<bool, GroupMessageProcessingError>),
    /// The sender was worked out.
    Identified(Result<(), GroupMessageProcessingError>),
    /// The commit was validated, with the group context that it leads to.
    CommitValidated(Result<Vec<u8>, CommitValidationError>),
    ProposalValidated(Result<(), CommitValidationError>),
    /// The cursor was moved past the message if it stood before it; whether it did.
    CursorMoved(Result<bool, ExternalError>),
    /// The cursor was read.
    CursorRead(Result<Cursor, ExternalError>),
    /// The message was processed for good.
    Applied(Result<MessageIdentifier, GroupMessageProcessingError>),
}

/// What is to be done next outside.
#[derive(Debug)]
pub enum ExternalAction {
    Try,
    Reload,
    Identify,
    ValidateCommit,
    ValidateProposal,
    MoveCursor,
    ReadCursor,
    Apply,
    /// Stop; `send_events` tells whether deferred events are sent.
    Finish { result: Result<MessageIdentifier, GroupMessageProcessingError>, send_events: bool },
    Ignore,
}

/// The processing of a message of another member.
#[derive(Debug)]
pub struct ExternalPass {
    pub phase: ExternalPhase,
    /// What the message carries, once it is known.
    pub content: MessageContent,
    pub cursor: Cursor,
    pub group_id: Vec<u8>,
    pub created_ns: i64,
    /// Whether the cursor of the group may be moved.
    pub allow_cursor_increment: bool,
    /// Whether the group takes proposals, once it is known.
    pub proposals_enabled: bool,
    /// The group context that a valid commit leads to.
    pub group_context: Option<Vec<u8>>,
}

/// What follows once a message is known to be acceptable: it is claimed by moving the cursor, or
/// compared with the cursor where that may not be moved.
pub open spec fn claims(before: ExternalPass, content: MessageContent, after: ExternalPass, action: ExternalAction) -> bool {
    &&& after == (ExternalPass { phase: ExternalPhase::Claiming, content, ..before })
    &&& if before.allow_cursor_increment {
        action is MoveCursor
    } else {
        action is ReadCursor
    }
}

/// What follows an error.
pub open spec fn fails(
    after: ExternalPass,
    action: ExternalAction,
    error: GroupMessageProcessingError,
) -> bool {
    &&& after.phase is Done
    &&& action == ExternalAction::Finish { result: Err(error), send_events: false }
}

/// What follows a refusal after which the message is not looked at again.
pub open spec fn skips(
    before: ExternalPass,
    content: MessageContent,
    after: ExternalPass,
    action: ExternalAction,
    error: CommitValidationError,
) -> bool {
    &&& after == (ExternalPass { phase: ExternalPhase::Skipping { error }, content, ..before })
    &&& action is MoveCursor
}

/// Whether a message was found to have been processed before.
pub open spec fn is_previously_processed(
    before: ExternalPass,
    after: ExternalPass,
    action: ExternalAction,
) -> bool {
    &&& after.phase is Done
    &&& action == (ExternalAction::Finish {
        result: Ok(
            MessageIdentifier {
                cursor: before.cursor,
                group_id: before.group_id,
                created_ns: before.created_ns,
                internal_id: None,
                intent_kind: None,
                group_context: before.group_context,
                previously_processed: true,
            },
        ),
        send_events: true,
    })
}

/// Whether a proposal is refused because the group does not take proposals. Proposals of extensions
/// are exempt: they are what turns the proposal flow on.
pub open spec fn is_unwelcome_proposal(content: MessageContent, proposals_enabled: bool) -> bool {
    content matches MessageContent::Proposal(t) && !proposals_enabled && t
        != ProposalType::GroupContextExtensions
}

/// The transitions of processing another member's message.
pub open spec fn is_external_step(
    before: ExternalPass,
    event: ExternalEvent,
    after: ExternalPass,
    action: ExternalAction,
) -> bool {
    match (before.phase, event) {
        (ExternalPhase::Trial, ExternalEvent::Tried { savepoint: SavepointEnd::Failed(e), outcome: _ }) => fails(
            after,
            action,
            GroupMessageProcessingError::Storage(e),
        ),
        (
            ExternalPhase::Trial,
            ExternalEvent::Tried { savepoint: SavepointEnd::IntentionalRollback, outcome: Err(e) },
        ) => fails(after, action, e),
        (
            ExternalPhase::Trial,
            ExternalEvent::Tried { savepoint: SavepointEnd::IntentionalRollback, outcome: Ok(content) },
        ) => {
            &&& after == (ExternalPass { phase: ExternalPhase::Reloading, content, ..before })
            &&& action is Reload
        },
        (ExternalPhase::Reloading, ExternalEvent::Reloaded(Err(e))) => fails(after, action, e),
        (ExternalPhase::Reloading, ExternalEvent::Reloaded(Ok(proposals_enabled))) => {
            &&& after == (ExternalPass { phase: ExternalPhase::Identifying, proposals_enabled, ..before })
            &&& action is Identify
        },
        (ExternalPhase::Identifying, ExternalEvent::Identified(Err(e))) => fails(after, action, e),
        (ExternalPhase::Identifying, ExternalEvent::Identified(Ok(_))) => if before.content is StagedCommit {
            &&& after == (ExternalPass { phase: ExternalPhase::ValidatingCommit, ..before })
            &&& action is ValidateCommit
        } else if is_unwelcome_proposal(before.content, before.proposals_enabled) {
            skips(before, before.content, after, action, CommitValidationError::ProposalsNotEnabled)
        } else if before.content is Proposal {
            &&& after == (ExternalPass { phase: ExternalPhase::ValidatingProposal, ..before })
            &&& action is ValidateProposal
        } else {
            claims(before, before.content, after, action)
        },
        (ExternalPhase::ValidatingCommit, ExternalEvent::CommitValidated(Ok(context))) => claims(
            ExternalPass { group_context: Some(context), ..before },
            before.content,
            after,
            action,
        ),
        (ExternalPhase::ValidatingCommit, ExternalEvent::CommitValidated(Err(e))) => if !e.retryable()
            && e !is ProtocolVersionTooLow {
            skips(before, before.content, after, action, e)
        } else {
            fails(after, action, GroupMessageProcessingError::CommitValidation(e))
        },
        (ExternalPhase::ValidatingProposal, ExternalEvent::ProposalValidated(Ok(_))) => claims(
            before,
            before.content,
            after,
            action,
        ),
        (ExternalPhase::ValidatingProposal, ExternalEvent::ProposalValidated(Err(e))) => skips(
            before,
            before.content,
            after,
            action,
            e,
        ),
        (ExternalPhase::Skipping { error }, ExternalEvent::CursorMoved(Ok(_))) => fails(
            after,
            action,
            GroupMessageProcessingError::CommitValidation(error),
        ),
        (ExternalPhase::Skipping { error: _ }, ExternalEvent::CursorMoved(Err(e))) => fails(
            after,
            action,
            GroupMessageProcessingError::Storage(e),
        ),
        (ExternalPhase::Claiming, ExternalEvent::CursorMoved(Ok(moved))) => if !before.allow_cursor_increment {
            after == before && action is Ignore
        } else if moved {
            &&& after == (ExternalPass { phase: ExternalPhase::Applying, ..before })
            &&& action is Apply
        } else {
            is_previously_processed(before, after, action)
        },
        (ExternalPhase::Claiming, ExternalEvent::CursorMoved(Err(e))) => if !before.allow_cursor_increment {
            after == before && action is Ignore
        } else {
            fails(after, action, GroupMessageProcessingError::Storage(e))
        },
        (ExternalPhase::Claiming, ExternalEvent::CursorRead(Ok(current))) => if before.allow_cursor_increment {
            after == before && action is Ignore
        } else if current.sequence_id < before.cursor.sequence_id {
            &&& after == (ExternalPass { phase: ExternalPhase::Applying, ..before })
            &&& action is Apply
        } else {
            is_previously_processed(before, after, action)
        },
        (ExternalPhase::Claiming, ExternalEvent::CursorRead(Err(e))) => if before.allow_cursor_increment {
            after == before && action is Ignore
        } else {
            fails(after, action, GroupMessageProcessingError::Storage(e))
        },
        (ExternalPhase::Applying, ExternalEvent::Applied(Err(e))) => fails(after, action, e),
        (ExternalPhase::Applying, ExternalEvent::Applied(Ok(id))) => {
            &&& after.phase is Done
            &&& action == ExternalAction::Finish { result: Ok(id), send_events: true }
        },
        _ => after == before && action is Ignore,
    }
}

/// Whether the processing of another member's message begins.
pub open spec fn begins_external(
    cursor: Cursor,
    group_id: Vec<u8>,
    created_ns: i64,
    allow_cursor_increment: bool,
    pass: ExternalPass,
    action: ExternalAction,
) -> bool {
    &&& pass.phase is Trial
    &&& pass.cursor == cursor
    &&& pass.group_id == group_id
    &&& pass.created_ns == created_ns
    &&& pass.allow_cursor_increment == allow_cursor_increment
    &&& pass.group_context is None
    &&& action is Try
}

/// Begins to process a message of another member, with a trial run.
pub fn validate_and_process_external_message(
    cursor: Cursor,
    group_id: Vec<u8>,
    created_ns: i64,
    allow_cursor_increment: bool,
) -> (r: (ExternalPass, ExternalAction))
    ensures
        begins_external(cursor, group_id, created_ns, allow_cursor_increment, r.0, r.1),
{
    (
        ExternalPass {
            phase: ExternalPhase::Trial,
            content: MessageContent::Application,
            cursor,
            group_id,
            created_ns,
            allow_cursor_increment,
            proposals_enabled: false,
            group_context: None,
        },
        ExternalAction::Try,
    )
}

fn fail(pass: ExternalPass, error: GroupMessageProcessingError) -> (r: (ExternalPass, ExternalAction))
    ensures
        fails(r.0, r.1, error),
{
    (
        ExternalPass { phase: ExternalPhase::Done, ..pass },
        ExternalAction::Finish { result: Err(error), send_events: false },
    )
}

fn skip(pass: ExternalPass, error: CommitValidationError) -> (r: (ExternalPass, ExternalAction))
    ensures
        skips(pass, pass.content, r.0, r.1, error),
{
    (ExternalPass { phase: ExternalPhase::Skipping { error }, ..pass }, ExternalAction::MoveCursor)
}

fn claim(pass: ExternalPass) -> (r: (ExternalPass, ExternalAction))
    ensures
        claims(pass, pass.content, r.0, r.1),
{
    let action = if pass.allow_cursor_increment {
        ExternalAction::MoveCursor
    } else {
        ExternalAction::ReadCursor
    };
    (ExternalPass { phase: ExternalPhase::Claiming, ..pass }, action)
}

fn after_claim(pass: ExternalPass, is_new: bool) -> (r: (ExternalPass, ExternalAction))
    ensures
        is_new ==> r.0 == (ExternalPass { phase: ExternalPhase::Applying, ..pass }) && r.1 is Apply,
        !is_new ==> is_previously_processed(pass, r.0, r.1),
{
    if is_new {
        return (ExternalPass { phase: ExternalPhase::Applying, ..pass }, ExternalAction::Apply);
    }
    let identifier = MessageIdentifier {
        cursor: pass.cursor,
        group_id: pass.group_id,
        created_ns: pass.created_ns,
        internal_id: None,
        intent_kind: None,
        group_context: pass.group_context,
        previously_processed: true,
    };
    (
        ExternalPass {
            phase: ExternalPhase::Done,
            content: pass.content,
            cursor: pass.cursor,
            group_id: Vec::new(),
            created_ns: pass.created_ns,
            allow_cursor_increment: pass.allow_cursor_increment,
            proposals_enabled: pass.proposals_enabled,
            group_context: None,
        },
        ExternalAction::Finish { result: Ok(identifier), send_events: true },
    )
}

/// Takes the processing of another member's message one step further.
///
/// What is refused for good has the cursor moved past it, except a commit that needs a newer version
/// of this client: that one waits. A message is applied at most once: only if the cursor stood
/// before it.
pub fn external_message_step(pass: ExternalPass, event: ExternalEvent) -> (r: (ExternalPass, ExternalAction))
    ensures
        is_external_step(pass, event, r.0, r.1),
{
    let ExternalPass {
        phase,
        content,
        cursor,
        group_id,
        created_ns,
        allow_cursor_increment,
        proposals_enabled,
        group_context,
    } = pass;
    let at = |phase: ExternalPhase, content: MessageContent| -> (p: ExternalPass)
        ensures
            p == (ExternalPass { phase, content, ..pass }),
        {
            ExternalPass {
                phase,
                content,
                cursor,
                group_id,
                created_ns,
                allow_cursor_increment,
                proposals_enabled,
                group_context,
            }
        };
    match (phase, event) {
        (ExternalPhase::Trial, ExternalEvent::Tried { savepoint, outcome }) => match savepoint {
            SavepointEnd::Failed(e) => fail(at(ExternalPhase::Trial, content), GroupMessageProcessingError::Storage(e)),
            SavepointEnd::IntentionalRollback => match outcome {
                Err(e) => fail(at(ExternalPhase::Trial, content), e),
                Ok(found) => (at(ExternalPhase::Reloading, found), ExternalAction::Reload),
            },
        },
        (ExternalPhase::Reloading, ExternalEvent::Reloaded(outcome)) => match outcome {
            Err(e) => fail(at(ExternalPhase::Reloading, content), e),
            Ok(enabled) => (
                ExternalPass { proposals_enabled: enabled, ..at(ExternalPhase::Identifying, content) },
                ExternalAction::Identify,
            ),
        },
        (ExternalPhase::Identifying, ExternalEvent::Identified(outcome)) => match outcome {
            Err(e) => fail(at(ExternalPhase::Identifying, content), e),
            Ok(_) => match content {
                MessageContent::StagedCommit => (
                    at(ExternalPhase::ValidatingCommit, content),
                    ExternalAction::ValidateCommit,
                ),
                MessageContent::Proposal(t) => {
                    if !proposals_enabled && t != ProposalType::GroupContextExtensions {
                        skip(at(ExternalPhase::Identifying, content), CommitValidationError::ProposalsNotEnabled)
                    } else {
                        (at(ExternalPhase::ValidatingProposal, content), ExternalAction::ValidateProposal)
                    }
                },
                _ => claim(at(ExternalPhase::Identifying, content)),
            },
        },
        (ExternalPhase::ValidatingCommit, ExternalEvent::CommitValidated(outcome)) => match outcome {
            Ok(context) => claim(
                ExternalPass { group_context: Some(context), ..at(ExternalPhase::ValidatingCommit, content) },
            ),
            Err(e) => {
                let waits: bool = match &e {
                    CommitValidationError::ProtocolVersionTooLow(_) => true,
                    _ => e.is_retryable(),
                };
                if waits {
                    fail(
                        at(ExternalPhase::ValidatingCommit, content),
                        GroupMessageProcessingError::CommitValidation(e),
                    )
                } else {
                    skip(at(ExternalPhase::ValidatingCommit, content), e)
                }
            },
        },
        (ExternalPhase::ValidatingProposal, ExternalEvent::ProposalValidated(outcome)) => match outcome {
            Ok(_) => claim(at(ExternalPhase::ValidatingProposal, content)),
            Err(e) => skip(at(ExternalPhase::ValidatingProposal, content), e),
        },
        (ExternalPhase::Skipping { error }, ExternalEvent::CursorMoved(outcome)) => match outcome {
            Ok(_) => fail(at(ExternalPhase::Done, content), GroupMessageProcessingError::CommitValidation(error)),
            Err(e) => fail(at(ExternalPhase::Done, content), GroupMessageProcessingError::Storage(e)),
        },
        (ExternalPhase::Claiming, ExternalEvent::CursorMoved(outcome)) => {
            let pass = at(ExternalPhase::Claiming, content);
            if !allow_cursor_increment {
                return (pass, ExternalAction::Ignore);
            }
            match outcome {
                Ok(moved) => after_claim(pass, moved),
                Err(e) => fail(pass, GroupMessageProcessingError::Storage(e)),
            }
        },
        (ExternalPhase::Claiming, ExternalEvent::CursorRead(outcome)) => {
            let pass = at(ExternalPhase::Claiming, content);
            if allow_cursor_increment {
                return (pass, ExternalAction::Ignore);
            }
            match outcome {
                Ok(current) => after_claim(pass, current.sequence_id < cursor.sequence_id),
                Err(e) => fail(pass, GroupMessageProcessingError::Storage(e)),
            }
        },
        (ExternalPhase::Applying, ExternalEvent::Applied(outcome)) => match outcome {
            Err(e) => fail(at(ExternalPhase::Applying, content), e),
            Ok(id) => (
                at(ExternalPhase::Done, content),
                ExternalAction::Finish { result: Ok(id), send_events: true },
            ),
        },
        (phase, _) => (at(phase, content), ExternalAction::Ignore),
    }
}

/// A message is applied only if the cursor of its originator stood before it.
pub proof fn only_new_messages_are_applied(
    before: ExternalPass,
    event: ExternalEvent,
    after: ExternalPass,
    action: ExternalAction,
)
    requires
        is_external_step(before, event, after, action),
        action is Apply,
    ensures
        match event {
            ExternalEvent::CursorMoved(outcome) => outcome == Ok::<_, ExternalError>(true),
            ExternalEvent::CursorRead(outcome) => outcome matches Ok(current) && current.sequence_id
                < before.cursor.sequence_id,
            _ => false,
        },
{
}

/// A commit or proposal that is refused for good is reported only once the cursor stands behind it;
/// one that waits for a newer version of this client, or for another try, does not move the cursor.
pub proof fn refused_messages_are_passed(
    before: ExternalPass,
    event: ExternalEvent,
    after: ExternalPass,
    action: ExternalAction,
)
    requires
        is_external_step(before, event, after, action),
        before.phase is ValidatingCommit || before.phase is ValidatingProposal || before.phase is Skipping,
        action matches ExternalAction::Finish {
            result: Err(GroupMessageProcessingError::CommitValidation(_)),
            send_events: _,
        },
    ensures
        before.phase is Skipping ==> event matches ExternalEvent::CursorMoved(Ok(_)),
        before.phase !is Skipping ==> (action matches ExternalAction::Finish {
            result: Err(GroupMessageProcessingError::CommitValidation(e)),
            send_events: _,
        } && (e.retryable() || e is ProtocolVersionTooLow)),
{
}

/// A message goes this way up to where it is looked at: it is tried, the group is loaded again, its sender
/// is identified. A commit is validated next; so is a proposal, unless the group does not take it and it is
/// refused; anything else is claimed at once.
pub proof fn messages_are_looked_at_first(
    cursor: Cursor,
    group_id: Vec<u8>,
    created_ns: i64,
    allow_cursor_increment: bool,
    content: MessageContent,
    proposals_enabled: bool,
    passes: Seq<ExternalPass>,
    actions: Seq<ExternalAction>,
)
    requires
        passes.len() == 4,
        actions.len() == 4,
        begins_external(cursor, group_id, created_ns, allow_cursor_increment, passes[0], actions[0]),
        is_external_step(
            passes[0],
            ExternalEvent::Tried { savepoint: SavepointEnd::IntentionalRollback, outcome: Ok(content) },
            passes[1],
            actions[1],
        ),
        is_external_step(passes[1], ExternalEvent::Reloaded(Ok(proposals_enabled)), passes[2], actions[2]),
        is_external_step(passes[2], ExternalEvent::Identified(Ok(())), passes[3], actions[3]),
    ensures
        actions[0] is Try,
        actions[1] is Reload,
        actions[2] is Identify,
        content is StagedCommit <==> actions[3] is ValidateCommit,
        (content matches MessageContent::Proposal(t) && (proposals_enabled || t == ProposalType::GroupContextExtensions))
            <==> actions[3] is ValidateProposal,
        (content matches MessageContent::Proposal(t) && !proposals_enabled && t != ProposalType::GroupContextExtensions)
            ==> actions[3] is MoveCursor && (passes[3].phase matches ExternalPhase::Skipping { error } && error
            == CommitValidationError::ProposalsNotEnabled),
        (content is Application || content is ExternalJoinProposal) ==> passes[3].phase is Claiming && (if allow_cursor_increment {
            actions[3] is MoveCursor
        } else {
            actions[3] is ReadCursor
        }),
        passes[3].cursor == cursor,
        passes[3].group_id == group_id,
        passes[3].created_ns == created_ns,
        passes[3].content == content,
        passes[3].allow_cursor_increment == allow_cursor_increment,
        passes[3].group_context is None,
{
}

/// What was found valid is claimed next, a commit with the group context that it leads to; what was found
/// invalid is never applied: the step leads to a refusal with that very reason.
pub proof fn only_valid_messages_are_claimed(
    before: ExternalPass,
    event: ExternalEvent,
    after: ExternalPass,
    action: ExternalAction,
)
    requires
        is_external_step(before, event, after, action),
    ensures
        (before.phase is ValidatingCommit && (event matches ExternalEvent::CommitValidated(Ok(context)))) ==> {
            &&& after.phase is Claiming
            &&& event matches ExternalEvent::CommitValidated(Ok(context)) && after.group_context == Some(context)
            &&& if before.allow_cursor_increment {
                action is MoveCursor
            } else {
                action is ReadCursor
            }
        },
        (before.phase is ValidatingProposal && (event matches ExternalEvent::ProposalValidated(Ok(_)))) ==> {
            &&& after.phase is Claiming
            &&& if before.allow_cursor_increment {
                action is MoveCursor
            } else {
                action is ReadCursor
            }
        },
        (before.phase is ValidatingCommit && (event matches ExternalEvent::CommitValidated(Err(e)))) ==> (
        event matches ExternalEvent::CommitValidated(Err(e)) && if e.retryable() || e is ProtocolVersionTooLow {
            action == (ExternalAction::Finish {
                result: Err(GroupMessageProcessingError::CommitValidation(e)),
                send_events: false,
            })
        } else {
            action is MoveCursor && after.phase == (ExternalPhase::Skipping { error: e })
        }),
        (before.phase is ValidatingProposal && (event matches ExternalEvent::ProposalValidated(Err(e)))) ==> (
        event matches ExternalEvent::ProposalValidated(Err(e)) && action is MoveCursor && after.phase
            == (ExternalPhase::Skipping { error: e })),
        (before.phase matches ExternalPhase::Skipping { error } && (event matches ExternalEvent::CursorMoved(Ok(_)))) ==> (
        before.phase matches ExternalPhase::Skipping { error } && action == (ExternalAction::Finish {
            result: Err(GroupMessageProcessingError::CommitValidation(error)),
            send_events: false,
        })),
        action is Apply ==> before.phase is Claiming,
        (after.phase is Claiming && before.phase !is Claiming) ==> before.phase is Identifying || before.phase
            is ValidatingCommit || before.phase is ValidatingProposal,
        (after.phase is Claiming && before.phase is Identifying) ==> before.content is Application || before.content
            is ExternalJoinProposal,
        (after.phase is Claiming && before.phase is ValidatingCommit) ==> (event matches ExternalEvent::CommitValidated(
            Ok(_),
        )),
        (after.phase is Claiming && before.phase is ValidatingProposal) ==> (
        event matches ExternalEvent::ProposalValidated(Ok(_))),
{
}

/// A message that is claimed is applied exactly if it is new; one that is not is reported as processed
/// before, by its own cursor and group. What applying it comes to is what is reported, and the events that
/// were kept back are sent then, and only where all went well.
pub proof fn claimed_messages_are_applied_once(
    before: ExternalPass,
    event: ExternalEvent,
    after: ExternalPass,
    action: ExternalAction,
)
    requires
        is_external_step(before, event, after, action),
    ensures
        (before.phase is Claiming && before.allow_cursor_increment && event == ExternalEvent::CursorMoved(Ok(true)))
            ==> action is Apply,
        (before.phase is Claiming && before.allow_cursor_increment && event == ExternalEvent::CursorMoved(Ok(false)))
            ==> (action matches ExternalAction::Finish { result: Ok(id), send_events: _ } && id.previously_processed
            && id.cursor == before.cursor && id.group_id == before.group_id && id.created_ns == before.created_ns
            && id.group_context == before.group_context && id.internal_id is None),
        (before.phase is Claiming && !before.allow_cursor_increment && (event matches ExternalEvent::CursorRead(
            Ok(current),
        ))) ==> (event matches ExternalEvent::CursorRead(Ok(current)) && if before.cursor.sequence_id
            > current.sequence_id {
            action is Apply
        } else {
            action matches ExternalAction::Finish { result: Ok(id), send_events: _ } && id.previously_processed
                && id.cursor == before.cursor && id.group_id == before.group_id
        }),
        before.phase is Applying ==> match event {
            ExternalEvent::Applied(Ok(id)) => action == (ExternalAction::Finish { result: Ok(id), send_events: true }),
            ExternalEvent::Applied(Err(e)) => action == (ExternalAction::Finish {
                result: Err(e),
                send_events: false,
            }),
            _ => action is Ignore && after == before,
        },
        action matches ExternalAction::Finish { result, send_events } ==> send_events == result is Ok,
{
}

/// A failure outside ends the processing with that failure.
pub proof fn external_failures_are_reported(
    before: ExternalPass,
    event: ExternalEvent,
    after: ExternalPass,
    action: ExternalAction,
)
    requires
        is_external_step(before, event, after, action),
    ensures
        action matches ExternalAction::Finish { result: Err(given), send_events: _ } ==> match event {
            ExternalEvent::Tried { savepoint: SavepointEnd::Failed(e), outcome: _ } => given
                == GroupMessageProcessingError::Storage(e),
            ExternalEvent::Tried { savepoint: SavepointEnd::IntentionalRollback, outcome } => outcome
                == Err::<MessageContent, _>(given),
            ExternalEvent::Reloaded(outcome) => outcome == Err::<bool, _>(given),
            ExternalEvent::Identified(outcome) => outcome == Err::<(), _>(given),
            ExternalEvent::CommitValidated(outcome) => outcome matches Err(e) && given
                == GroupMessageProcessingError::CommitValidation(e),
            ExternalEvent::ProposalValidated(_) => false,
            ExternalEvent::CursorMoved(Err(e)) => given == GroupMessageProcessingError::Storage(e),
            ExternalEvent::CursorMoved(Ok(_)) => before.phase matches ExternalPhase::Skipping { error } && given
                == GroupMessageProcessingError::CommitValidation(error),
            ExternalEvent::CursorRead(outcome) => outcome matches Err(e) && given
                == GroupMessageProcessingError::Storage(e),
            ExternalEvent::Applied(outcome) => outcome == Err::<MessageIdentifier, _>(given),
        },
        (before.phase is Trial && (event matches ExternalEvent::Tried { savepoint, outcome } && (savepoint is Failed
            || outcome is Err))) ==> (action matches ExternalAction::Finish { result: Err(_), send_events: _ }),
        (before.phase is Reloading && (event matches ExternalEvent::Reloaded(Err(_)))) ==> (
        action matches ExternalAction::Finish { result: Err(_), send_events: _ }),
        (before.phase is Identifying && (event matches ExternalEvent::Identified(Err(_)))) ==> (
        action matches ExternalAction::Finish { result: Err(_), send_events: _ }),
{
}

/// The plaintext of an application message.
pub enum Plaintext {
    /// Content with the key that keeps it apart from equal content, and what was read from it.
    V1 { content: Vec<u8>, message_id: Vec<u8>, fields: QueryableContentFields },
    /// A form that is no longer used.
    V2,
    /// No content.
    Missing,
}

/// What another member's message carries, decrypted.
pub enum ExternalContent {
    Application(Result<Plaintext, ExternalError>),
    Proposal,
    ExternalJoinProposal,
    /// A commit, with the group context that it leads to.
    StagedCommit(Vec<u8>),
}

/// What is done for another member's message, in order; the first failure ends it.
#[derive(Debug)]
pub enum ExternalEffect {
    StoreMessage(StoredGroupMessage),
    /// Tell the worker of a message in the sync group, if this group is one.
    NotifyIfSyncGroup,
    ProcessLeaveRequest,
    ProcessDeleteMessage,
    StorePendingProposal,
    MergeStagedCommit,
    MarkReadds,
    SaveTranscript,
    CleanPendingRemovals,
    HandleSuperAdminChange,
}

/// What is done for another member's message.
#[derive(Debug)]
pub struct ExternalPlan {
    pub effects: Vec<ExternalEffect>,
    /// What the message comes to, as far as it is known before.
    pub identifier: MessageIdentifier,
}

/// Whether an identifier is that of a message that is applied for the first time.
pub open spec fn is_fresh_identifier(
    id: MessageIdentifier,
    cursor: Cursor,
    group_id: Seq<u8>,
    created_ns: i64,
    internal_id: Option<Seq<u8>>,
    group_context: Option<Vec<u8>>,
) -> bool {
    &&& id.cursor == cursor
    &&& id.group_id@ == group_id
    &&& id.created_ns == created_ns
    &&& match (id.internal_id, internal_id) {
        (Some(given), Some(expected)) => given@ == expected,
        (None, None) => true,
        _ => false,
    }
    &&& id.intent_kind is None
    &&& id.group_context == group_context
    &&& !id.previously_processed
}

/// The effects of an application message after it was stored.
pub open spec fn application_follow_ups(is_own_inbox: bool, content_type: ContentType) -> Seq<ExternalEffect> {
    (if is_own_inbox {
        seq![ExternalEffect::NotifyIfSyncGroup]
    } else {
        seq![]
    }) + (if content_type == ContentType::LeaveRequest {
        seq![ExternalEffect::ProcessLeaveRequest]
    } else if content_type == ContentType::DeleteMessage {
        seq![ExternalEffect::ProcessDeleteMessage]
    } else {
        seq![]
    })
}

/// The effects of a commit, in order.
pub open spec fn commit_effects() -> Seq<ExternalEffect> {
    seq![
        ExternalEffect::MergeStagedCommit,
        ExternalEffect::MarkReadds,
        ExternalEffect::SaveTranscript,
        ExternalEffect::CleanPendingRemovals,
        ExternalEffect::HandleSuperAdminChange,
    ]
}

/// Whether a plan is that for another member's message, or an error is that of one that has none.
pub open spec fn is_external_plan(
    sender: Result<(String, Vec<u8>), GroupMessageProcessingError>,
    content: ExternalContent,
    group_id: Seq<u8>,
    own_inbox_id: Seq<char>,
    sent_at_ns: i64,
    created_ns: i64,
    cursor: Cursor,
    expire_at_ns: Option<i64>,
    r: Result<ExternalPlan, GroupMessageProcessingError>,
) -> bool {
    match sender {
        Err(e) => r == Err::<ExternalPlan, _>(e),
        Ok((inbox_id, installation_id)) => match content {
            ExternalContent::Application(Err(e)) => r == Err::<ExternalPlan, _>(
                GroupMessageProcessingError::DecodeProto(e),
            ),
            ExternalContent::Application(Ok(Plaintext::Missing)) => r == Err::<ExternalPlan, _>(
                GroupMessageProcessingError::InvalidPayload,
            ),
            ExternalContent::Application(Ok(Plaintext::V2)) => r matches Ok(plan) && plan.effects@.len() == 0
                && is_fresh_identifier(plan.identifier, cursor, group_id, created_ns, None, None),
            ExternalContent::Application(Ok(Plaintext::V1 { content, message_id, fields })) => {
                &&& r matches Ok(plan)
                &&& is_fresh_identifier(
                    plan.identifier,
                    cursor,
                    group_id,
                    created_ns,
                    Some(message_id@),
                    None,
                )
                &&& plan.effects@.len() > 0
                &&& plan.effects@[0] matches ExternalEffect::StoreMessage(m)
                &&& persistence::is_external_message(
                    m,
                    content,
                    sent_at_ns,
                    cursor,
                    installation_id@,
                    inbox_id@,
                    fields,
                    message_id,
                    group_id,
                    expire_at_ns,
                )
                &&& plan.effects@.skip(1) == application_follow_ups(
                    inbox_id@ == own_inbox_id,
                    fields.content_type,
                )
            },
            ExternalContent::Proposal => r matches Ok(plan) && plan.effects@ == seq![
                ExternalEffect::StorePendingProposal,
            ] && is_fresh_identifier(plan.identifier, cursor, group_id, created_ns, None, None),
            ExternalContent::ExternalJoinProposal => r matches Ok(plan) && plan.effects@.len() == 0
                && is_fresh_identifier(plan.identifier, cursor, group_id, created_ns, None, None),
            ExternalContent::StagedCommit(context) => r matches Ok(plan) && plan.effects@ == commit_effects()
                && is_fresh_identifier(plan.identifier, cursor, group_id, created_ns, None, Some(context)),
        },
    }
}

/// Plans what is done for another member's message. `created_ns` is when its envelope was made.
pub fn process_external_message(
    sender: Result<(String, Vec<u8>), GroupMessageProcessingError>,
    content: ExternalContent,
    group_id: &[u8],
    own_inbox_id: &str,
    sent_at_ns: i64,
    created_ns: i64,
    cursor: Cursor,
    expire_at_ns: Option<i64>,
) -> (r: Result<ExternalPlan, GroupMessageProcessingError>)
    ensures
        is_external_plan(
            sender,
            content,
            group_id@,
            own_inbox_id@,
            sent_at_ns,
            created_ns,
            cursor,
            expire_at_ns,
            r,
        ),
{
    let (inbox_id, installation_id) = match sender {
        Err(e) => return Err(e),
        Ok(sender) => sender,
    };
    let mut effects: Vec<ExternalEffect> = Vec::new();
    let mut identifier = MessageIdentifier {
        cursor,
        group_id: bytes::clone_bytes(group_id),
        created_ns,
        internal_id: None,
        intent_kind: None,
        group_context: None,
        previously_processed: false,
    };
    match content {
        ExternalContent::Application(Err(e)) => Err(GroupMessageProcessingError::DecodeProto(e)),
        ExternalContent::Application(Ok(Plaintext::Missing)) => Err(GroupMessageProcessingError::InvalidPayload),
        ExternalContent::Application(Ok(Plaintext::V2)) => Ok(ExternalPlan { effects, identifier }),
        ExternalContent::Application(Ok(Plaintext::V1 { content, message_id, fields })) => {
            identifier.internal_id = Some(bytes::clone_bytes(message_id.as_slice()));
            let content_type = fields.content_type;
            let message = persistence::persist_external_application_message(
                content,
                sent_at_ns,
                cursor,
                installation_id.as_slice(),
                inbox_id.as_str(),
                fields,
                message_id,
                group_id,
                expire_at_ns,
            );
            effects.push(ExternalEffect::StoreMessage(message));
            if bytes::text_equal(inbox_id.as_str(), own_inbox_id) {
                effects.push(ExternalEffect::NotifyIfSyncGroup);
            }
            if content_type == ContentType::LeaveRequest {
                effects.push(ExternalEffect::ProcessLeaveRequest);
            }
            if content_type == ContentType::DeleteMessage {
                effects.push(ExternalEffect::ProcessDeleteMessage);
            }
            assert(effects@.skip(1) =~= application_follow_ups(inbox_id@ == own_inbox_id@, content_type));
            Ok(ExternalPlan { effects, identifier })
        },
        ExternalContent::Proposal => {
            effects.push(ExternalEffect::StorePendingProposal);
            assert(effects@ =~= seq![ExternalEffect::StorePendingProposal]);
            Ok(ExternalPlan { effects, identifier })
        },
        ExternalContent::ExternalJoinProposal => Ok(ExternalPlan { effects, identifier }),
        ExternalContent::StagedCommit(context) => {
            identifier.group_context = Some(context);
            effects.push(ExternalEffect::MergeStagedCommit);
            effects.push(ExternalEffect::MarkReadds);
            effects.push(ExternalEffect::SaveTranscript);
            effects.push(ExternalEffect::CleanPendingRemovals);
            effects.push(ExternalEffect::HandleSuperAdminChange);
            assert(effects@ =~= commit_effects());
            Ok(ExternalPlan { effects, identifier })
        },
    }
}

/// A content that could be read is stored first, as a published message of this group from its sender, and
/// it is the only message that is stored. Whoever sent it, a request to leave is processed exactly if the
/// content is one, and so is a deletion. Only the sender decides whether the worker may have to know of it:
/// exactly if the sender is this user. Nothing else is done.
pub proof fn application_messages_are_stored_and_acted_on(
    inbox_id: String,
    installation_id: Vec<u8>,
    content: Vec<u8>,
    message_id: Vec<u8>,
    fields: QueryableContentFields,
    group_id: Seq<u8>,
    own_inbox_id: Seq<char>,
    sent_at_ns: i64,
    created_ns: i64,
    cursor: Cursor,
    expire_at_ns: Option<i64>,
    r: Result<ExternalPlan, GroupMessageProcessingError>,
)
    requires
        is_external_plan(
            Ok((inbox_id, installation_id)),
            ExternalContent::Application(Ok(Plaintext::V1 { content, message_id, fields })),
            group_id,
            own_inbox_id,
            sent_at_ns,
            created_ns,
            cursor,
            expire_at_ns,
            r,
        ),
    ensures
        r matches Ok(plan) && {
            &&& plan.effects@.len() > 0
            &&& plan.effects@[0] matches ExternalEffect::StoreMessage(m) && {
                &&& m.id == message_id
                &&& m.group_id@ == group_id
                &&& m.decrypted_message_bytes == content
                &&& m.sent_at_ns == sent_at_ns
                &&& m.kind == GroupMessageKind::Application
                &&& m.sender_inbox_id@ == inbox_id@
                &&& m.sender_installation_id@ == installation_id@
                &&& m.delivery_status == DeliveryStatus::Published
                &&& m.content_type == fields.content_type
                &&& m.version_major == fields.version_major
                &&& m.version_minor == fields.version_minor
                &&& m.authority_id == fields.authority_id
                &&& m.reference_id == fields.reference_id
                &&& m.sequence_id == cursor.sequence_id as i64
                &&& m.originator_id == cursor.originator_id
                &&& m.expire_at_ns == expire_at_ns
                &&& m.should_push
            }
            &&& forall|i: int|
                0 < i < plan.effects@.len() ==> !((#[trigger] plan.effects@[i]) is StoreMessage)
            &&& plan.effects@.contains(ExternalEffect::ProcessLeaveRequest) <==> fields.content_type
                == ContentType::LeaveRequest
            &&& plan.effects@.contains(ExternalEffect::ProcessDeleteMessage) <==> fields.content_type
                == ContentType::DeleteMessage
            &&& plan.effects@.contains(ExternalEffect::NotifyIfSyncGroup) <==> inbox_id@ == own_inbox_id
            &&& forall|i: int|
                0 <= i < plan.effects@.len() ==> match #[trigger] plan.effects@[i] {
                    ExternalEffect::StoreMessage(_) => true,
                    ExternalEffect::NotifyIfSyncGroup => true,
                    ExternalEffect::ProcessLeaveRequest => true,
                    ExternalEffect::ProcessDeleteMessage => true,
                    _ => false,
                }
            &&& forall|i: int, j: int|
                0 <= i < j < plan.effects@.len() ==> #[trigger] plan.effects@[i] != #[trigger] plan.effects@[j]
            &&& plan.identifier.internal_id matches Some(id) && id@ == message_id@
            &&& plan.identifier.cursor == cursor
            &&& plan.identifier.group_id@ == group_id
            &&& plan.identifier.created_ns == created_ns
            &&& plan.identifier.group_context is None
            &&& plan.identifier.intent_kind is None
            &&& !plan.identifier.previously_processed
        },
{
    let plan = r->Ok_0;
    let effects = plan.effects@;
    let rest = effects.skip(1);
    assert forall|i: int| 0 < i < effects.len() implies #[trigger] effects[i] == rest[i - 1] by {}
    assert forall|e: ExternalEffect| e !is StoreMessage implies #[trigger] effects.contains(e) == rest.contains(e) by {
        if effects.contains(e) {
            let i = choose|i: int| 0 <= i < effects.len() && effects[i] == e;
            assert(rest[i - 1] == e);
        }
        if rest.contains(e) {
            let i = choose|i: int| 0 <= i < rest.len() && rest[i] == e;
            assert(effects[i + 1] == e);
        }
    }
    let own = inbox_id@ == own_inbox_id;
    let t = fields.content_type;
    let told: Seq<ExternalEffect> = if own {
        seq![ExternalEffect::NotifyIfSyncGroup]
    } else {
        seq![]
    };
    let done: Seq<ExternalEffect> = if t == ContentType::LeaveRequest {
        seq![ExternalEffect::ProcessLeaveRequest]
    } else if t == ContentType::DeleteMessage {
        seq![ExternalEffect::ProcessDeleteMessage]
    } else {
        seq![]
    };
    assert(rest =~= told + done);
    if own {
        assert(rest[0] == ExternalEffect::NotifyIfSyncGroup);
    }
    if done.len() > 0 {
        assert(rest[told.len() as int] == done[0]);
    }
}

/// A commit of another member is merged, requests to be added again are marked, its report is stored, and
/// what is left after a commit is done: each once and in this order. A proposal is kept as pending, and
/// nothing else is done for it. Neither stores a message of its own, and nothing at all is done for what
/// carries nothing. A message whose sender or content cannot be read has no plan.
pub proof fn commits_and_proposals_have_their_plans(
    sender: Result<(String, Vec<u8>), GroupMessageProcessingError>,
    content: ExternalContent,
    group_id: Seq<u8>,
    own_inbox_id: Seq<char>,
    sent_at_ns: i64,
    created_ns: i64,
    cursor: Cursor,
    expire_at_ns: Option<i64>,
    r: Result<ExternalPlan, GroupMessageProcessingError>,
)
    requires
        is_external_plan(
            sender,
            content,
            group_id,
            own_inbox_id,
            sent_at_ns,
            created_ns,
            cursor,
            expire_at_ns,
            r,
        ),
    ensures
        sender matches Err(e) ==> r == Err::<ExternalPlan, _>(e),
        (sender is Ok && content matches ExternalContent::StagedCommit(context)) ==> (r matches Ok(plan) && {
            &&& plan.effects@.len() == 5
            &&& plan.effects@[0] is MergeStagedCommit
            &&& plan.effects@[1] is MarkReadds
            &&& plan.effects@[2] is SaveTranscript
            &&& plan.effects@[3] is CleanPendingRemovals
            &&& plan.effects@[4] is HandleSuperAdminChange
            &&& content matches ExternalContent::StagedCommit(context) && plan.identifier.group_context
                == Some(context)
            &&& plan.identifier.internal_id is None
            &&& !plan.identifier.previously_processed
            &&& plan.identifier.cursor == cursor
            &&& plan.identifier.group_id@ == group_id
            &&& plan.identifier.created_ns == created_ns
        }),
        (sender is Ok && content is Proposal) ==> (r matches Ok(plan) && {
            &&& plan.effects@.len() == 1
            &&& plan.effects@[0] is StorePendingProposal
            &&& plan.identifier.group_context is None
            &&& !plan.identifier.previously_processed
            &&& plan.identifier.cursor == cursor
        }),
        (sender is Ok && (content is ExternalJoinProposal || content == ExternalContent::Application(Ok(Plaintext::V2))))
            ==> (r matches Ok(plan) && plan.effects@.len() == 0 && plan.identifier.cursor == cursor
            && !plan.identifier.previously_processed),
        (sender is Ok && (content matches ExternalContent::Application(Err(e)))) ==> (
        content matches ExternalContent::Application(Err(e)) && r == Err::<ExternalPlan, _>(
            GroupMessageProcessingError::DecodeProto(e),
        )),
        (sender is Ok && content == ExternalContent::Application(Ok(Plaintext::Missing))) ==> r == Err::<ExternalPlan, _>(
            GroupMessageProcessingError::InvalidPayload,
        ),
        r is Err <==> sender is Err || (content matches ExternalContent::Application(given) && (given is Err
            || given->Ok_0 is Missing)),
{
}

/// What the carrying out of a plan waits for.
#[derive(Clone, Copy, Debug, PartialEq, Eq, Structural)]
pub enum ApplyPhase {
    /// An effect that is simply done.
    Doing,
    /// Whether the group is one between the devices of the user.
    LookingUp,
    /// The transcript message of a commit.
    SavingTranscript,
    Done,
}

/// A plan that is being carried out.
#[derive(Debug)]
pub struct ApplyPass {
    pub phase: ApplyPhase,
    /// The effects that are still to come.
    pub rest: Vec<ExternalEffect>,
    pub identifier: MessageIdentifier,
    /// Whether the worker is told of a message between the devices of the user.
    pub notify_worker: bool,
}

/// What has happened outside.
#[derive(Debug)]
pub enum ApplyEvent {
    Done(Result<(), GroupMessageProcessingError>),
    /// The row of the group.
    Found(Result<Option<StoredGroup>, GroupMessageProcessingError>),
    /// The transcript message was stored; its id, if one was.
    TranscriptSaved(Result<Option<Vec<u8>>, GroupMessageProcessingError>),
}

/// What is to be done next outside.
#[derive(Debug)]
pub enum ApplyAction {
    Perform(ExternalEffect),
    /// Stop; `notify_worker` tells whether the worker is told of the message once all is stored.
    Finish { result: Result<MessageIdentifier, GroupMessageProcessingError>, notify_worker: bool },
    Ignore,
}

/// What an effect is waited for as.
pub open spec fn phase_of(effect: ExternalEffect) -> ApplyPhase {
    match effect {
        ExternalEffect::NotifyIfSyncGroup => ApplyPhase::LookingUp,
        ExternalEffect::SaveTranscript => ApplyPhase::SavingTranscript,
        _ => ApplyPhase::Doing,
    }
}

/// Whether the next effect is taken up, or the end is reached.
pub open spec fn performs_next(
    rest: Seq<ExternalEffect>,
    identifier: MessageIdentifier,
    notify_worker: bool,
    after: ApplyPass,
    action: ApplyAction,
) -> bool {
    if rest.len() > 0 {
        &&& after.phase == phase_of(rest[0])
        &&& after.rest@ == rest.skip(1)
        &&& after.identifier == identifier
        &&& after.notify_worker == notify_worker
        &&& action == ApplyAction::Perform(rest[0])
    } else {
        &&& after.phase == ApplyPhase::Done
        &&& action == (ApplyAction::Finish { result: Ok(identifier), notify_worker })
    }
}

/// Whether a failure ends the carrying out of a plan.
pub open spec fn apply_fails(e: GroupMessageProcessingError, after: ApplyPass, action: ApplyAction) -> bool {
    &&& after.phase == ApplyPhase::Done
    &&& action == (ApplyAction::Finish { result: Err(e), notify_worker: false })
}

/// The transitions of carrying out a plan.
pub open spec fn is_apply_step(before: ApplyPass, event: ApplyEvent, after: ApplyPass, action: ApplyAction) -> bool {
    match (before.phase, event) {
        (ApplyPhase::Doing, ApplyEvent::Done(outcome)) => match outcome {
            Ok(_) => performs_next(before.rest@, before.identifier, before.notify_worker, after, action),
            Err(e) => apply_fails(e, after, action),
        },
        (ApplyPhase::LookingUp, ApplyEvent::Found(outcome)) => match outcome {
            Ok(found) => performs_next(
                before.rest@,
                before.identifier,
                before.notify_worker || (found matches Some(row) && row.conversation_type == ConversationType::Sync),
                after,
                action,
            ),
            Err(e) => apply_fails(e, after, action),
        },
        (ApplyPhase::SavingTranscript, ApplyEvent::TranscriptSaved(outcome)) => match outcome {
            Ok(id) => performs_next(
                before.rest@,
                MessageIdentifier {
                    internal_id: if id is Some {
                        id
                    } else {
                        before.identifier.internal_id
                    },
                    ..before.identifier
                },
                before.notify_worker,
                after,
                action,
            ),
            Err(e) => apply_fails(e, after, action),
        },
        _ => after == before && action is Ignore,
    }
}

fn perform_next(rest: Vec<ExternalEffect>, identifier: MessageIdentifier, notify_worker: bool) -> (r: (
    ApplyPass,
    ApplyAction,
))
    ensures
        performs_next(rest@, identifier, notify_worker, r.0, r.1),
{
    let ghost all = rest@;
    let mut rest = rest;
    if rest.len() == 0 {
        let result = MessageIdentifier {
            cursor: identifier.cursor,
            group_id: identifier.group_id,
            created_ns: identifier.created_ns,
            internal_id: identifier.internal_id,
            intent_kind: identifier.intent_kind,
            group_context: identifier.group_context,
            previously_processed: identifier.previously_processed,
        };
        let spent = MessageIdentifier {
            cursor: identifier.cursor,
            group_id: Vec::new(),
            created_ns: identifier.created_ns,
            internal_id: None,
            intent_kind: None,
            group_context: None,
            previously_processed: identifier.previously_processed,
        };
        return (
            ApplyPass { phase: ApplyPhase::Done, rest, identifier: spent, notify_worker },
            ApplyAction::Finish { result: Ok(result), notify_worker },
        );
    }
    let effect = rest.remove(0);
    assert(rest@ =~= all.skip(1));
    let phase = match &effect {
        ExternalEffect::NotifyIfSyncGroup => ApplyPhase::LookingUp,
        ExternalEffect::SaveTranscript => ApplyPhase::SavingTranscript,
        _ => ApplyPhase::Doing,
    };
    (ApplyPass { phase, rest, identifier, notify_worker }, ApplyAction::Perform(effect))
}

/// Begins to carry out a plan.
pub fn apply_external_message(plan: ExternalPlan) -> (r: (ApplyPass, ApplyAction))
    ensures
        performs_next(plan.effects@, plan.identifier, false, r.0, r.1),
{
    perform_next(plan.effects, plan.identifier, false)
}

/// Takes the carrying out of a plan one step further. Its effects are performed in their order, and the
/// first failure ends it.
pub fn apply_step(pass: ApplyPass, event: ApplyEvent) -> (r: (ApplyPass, ApplyAction))
    ensures
        is_apply_step(pass, event, r.0, r.1),
{
    let ApplyPass { phase, rest, identifier, notify_worker } = pass;
    match (phase, event) {
        (ApplyPhase::Doing, ApplyEvent::Done(outcome)) => match outcome {
            Ok(_) => perform_next(rest, identifier, notify_worker),
            Err(e) => (
                ApplyPass { phase: ApplyPhase::Done, rest, identifier, notify_worker },
                ApplyAction::Finish { result: Err(e), notify_worker: false },
            ),
        },
        (ApplyPhase::LookingUp, ApplyEvent::Found(outcome)) => match outcome {
            Ok(found) => {
                let is_sync: bool = match found {
                    Some(row) => row.conversation_type == ConversationType::Sync,
                    None => false,
                };
                perform_next(rest, identifier, notify_worker || is_sync)
            },
            Err(e) => (
                ApplyPass { phase: ApplyPhase::Done, rest, identifier, notify_worker },
                ApplyAction::Finish { result: Err(e), notify_worker: false },
            ),
        },
        (ApplyPhase::SavingTranscript, ApplyEvent::TranscriptSaved(outcome)) => match outcome {
            Ok(id) => {
                let mut identifier = identifier;
                if id.is_some() {
                    identifier.internal_id = id;
                }
                perform_next(rest, identifier, notify_worker)
            },
            Err(e) => (
                ApplyPass { phase: ApplyPhase::Done, rest, identifier, notify_worker },
                ApplyAction::Finish { result: Err(e), notify_worker: false },
            ),
        },
        _ => (ApplyPass { phase, rest, identifier, notify_worker }, ApplyAction::Ignore),
    }
}

/// A message counts as applied only after every effect of its plan was performed: as long as some are
/// to come, no step ends well.
pub proof fn messages_are_applied_in_full(
    before: ApplyPass,
    event: ApplyEvent,
    after: ApplyPass,
    action: ApplyAction,
)
    requires
        is_apply_step(before, event, after, action),
        action matches ApplyAction::Finish { result: Ok(_), notify_worker: _ },
    ensures
        before.rest@.len() == 0,
        !(event matches ApplyEvent::Done(Err(_))),
        !(event matches ApplyEvent::Found(Err(_))),
        !(event matches ApplyEvent::TranscriptSaved(Err(_))),
{
}

/// Whether an event answers the effect that is being performed, and well.
pub open spec fn answers(effect: ExternalEffect, event: ApplyEvent) -> bool {
    match effect {
        ExternalEffect::NotifyIfSyncGroup => event matches ApplyEvent::Found(Ok(_)),
        ExternalEffect::SaveTranscript => event matches ApplyEvent::TranscriptSaved(Ok(_)),
        _ => event matches ApplyEvent::Done(Ok(_)),
    }
}

/// Whether a plan is carried out step by step, `actions[0]` being the first action and `actions[i + 1]` the
/// one that event `i` leads to.
pub open spec fn is_apply_run(
    plan: ExternalPlan,
    passes: Seq<ApplyPass>,
    events: Seq<ApplyEvent>,
    actions: Seq<ApplyAction>,
) -> bool {
    &&& passes.len() == events.len() + 1
    &&& actions.len() == events.len() + 1
    &&& performs_next(plan.effects@, plan.identifier, false, passes[0], actions[0])
    &&& forall|i: int|
        0 <= i < events.len() ==> is_apply_step(#[trigger] passes[i], events[i], passes[i + 1], actions[i + 1])
}

/// Whether an event shows the group to be one between the devices of the user.
pub open spec fn shows_sync_group(event: ApplyEvent) -> bool {
    event matches ApplyEvent::Found(Ok(Some(row))) && row.conversation_type == ConversationType::Sync
}

/// A plan of which every effect succeeds is carried out in full and in its order, and then ends well: by
/// the identifier of the plan, with the id of the report where one was stored. The worker is told exactly
/// if the group was seen to be one between the devices of the user.
pub proof fn plans_are_carried_out_in_order(
    plan: ExternalPlan,
    passes: Seq<ApplyPass>,
    events: Seq<ApplyEvent>,
    actions: Seq<ApplyAction>,
    n: int,
)
    requires
        is_apply_run(plan, passes, events, actions),
        events.len() == plan.effects@.len(),
        forall|i: int| 0 <= i < events.len() ==> answers(plan.effects@[i], #[trigger] events[i]),
        0 <= n <= events.len(),
    ensures
        n < events.len() ==> actions[n] == ApplyAction::Perform(plan.effects@[n]),
        n == events.len() ==> (actions[n] matches ApplyAction::Finish { result: Ok(id), notify_worker } && {
            &&& id.cursor == plan.identifier.cursor
            &&& id.group_id == plan.identifier.group_id
            &&& id.created_ns == plan.identifier.created_ns
            &&& id.group_context == plan.identifier.group_context
            &&& id.previously_processed == plan.identifier.previously_processed
            &&& id.internal_id == plan.identifier.internal_id || exists|i: int|
                0 <= i < n && #[trigger] events[i] == ApplyEvent::TranscriptSaved(Ok(id.internal_id))
            &&& notify_worker == exists|i: int| 0 <= i < n && shows_sync_group(#[trigger] events[i])
        }),
{
    lemma_performed(plan, passes, events, actions, n);
    if n == 0 {
        assert(!exists|i: int| 0 <= i < n && shows_sync_group(#[trigger] events[i]));
    } else if n == events.len() {
        lemma_performed(plan, passes, events, actions, n - 1);
        lemma_identified(plan, passes, events, actions, n - 1);
        assert(is_apply_step(passes[n - 1], events[n - 1], passes[n - 1 + 1], actions[n - 1 + 1]));
        assert(answers(plan.effects@[n - 1], events[n - 1]));
        lemma_shown(events, n - 1);
        let before = passes[n - 1].identifier.internal_id;
        if before != plan.identifier.internal_id {
            let i = choose|i: int| 0 <= i < n - 1 && #[trigger] events[i] == ApplyEvent::TranscriptSaved(Ok(before));
            assert(0 <= i < n && events[i] == ApplyEvent::TranscriptSaved(Ok(before)));
        }
    }
}

proof fn lemma_shown(events: Seq<ApplyEvent>, n: int)
    requires
        0 <= n < events.len(),
    ensures
        (exists|i: int| 0 <= i < n + 1 && shows_sync_group(#[trigger] events[i])) == ((exists|i: int|
            0 <= i < n && shows_sync_group(#[trigger] events[i])) || shows_sync_group(events[n])),
{
    if exists|i: int| 0 <= i < n && shows_sync_group(#[trigger] events[i]) {
        let i = choose|i: int| 0 <= i < n && shows_sync_group(#[trigger] events[i]);
        assert(0 <= i < n + 1 && shows_sync_group(events[i]));
    }
    if exists|i: int| 0 <= i < n + 1 && shows_sync_group(#[trigger] events[i]) {
        let i = choose|i: int| 0 <= i < n + 1 && shows_sync_group(#[trigger] events[i]);
        if i < n {
            assert(0 <= i < n && shows_sync_group(events[i]));
        }
    }
}

#[verifier::rlimit(60)]
#[verifier::spinoff_prover]
proof fn lemma_performed(
    plan: ExternalPlan,
    passes: Seq<ApplyPass>,
    events: Seq<ApplyEvent>,
    actions: Seq<ApplyAction>,
    n: int,
)
    requires
        is_apply_run(plan, passes, events, actions),
        events.len() == plan.effects@.len(),
        forall|i: int| 0 <= i < events.len() ==> answers(plan.effects@[i], #[trigger] events[i]),
        0 <= n <= events.len(),
    ensures
        n < events.len() ==> passes[n].phase == phase_of(plan.effects@[n]) && passes[n].rest@ == plan.effects@.skip(
            n + 1,
        ) && actions[n] == ApplyAction::Perform(plan.effects@[n]),
        n == events.len() ==> (actions[n] matches ApplyAction::Finish { result: Ok(_), notify_worker: _ }),
    decreases n,
{
    if n > 0 {
        lemma_performed(plan, passes, events, actions, n - 1);
        assert(is_apply_step(passes[n - 1], events[n - 1], passes[n - 1 + 1], actions[n - 1 + 1]));
        assert(answers(plan.effects@[n - 1], events[n - 1]));
        if n < events.len() {
            assert(plan.effects@.skip(n)[0] == plan.effects@[n]);
            assert(plan.effects@.skip(n).skip(1) =~= plan.effects@.skip(n + 1));
        }
    }
}

proof fn lemma_identified(
    plan: ExternalPlan,
    passes: Seq<ApplyPass>,
    events: Seq<ApplyEvent>,
    actions: Seq<ApplyAction>,
    n: int,
)
    requires
        is_apply_run(plan, passes, events, actions),
        events.len() == plan.effects@.len(),
        forall|i: int| 0 <= i < events.len() ==> answers(plan.effects@[i], #[trigger] events[i]),
        0 <= n < events.len(),
    ensures
        passes[n].identifier.cursor == plan.identifier.cursor,
        passes[n].identifier.group_id == plan.identifier.group_id,
        passes[n].identifier.created_ns == plan.identifier.created_ns,
        passes[n].identifier.group_context == plan.identifier.group_context,
        passes[n].identifier.previously_processed == plan.identifier.previously_processed,
        passes[n].identifier.internal_id == plan.identifier.internal_id || exists|i: int|
            0 <= i < n && #[trigger] events[i] == ApplyEvent::TranscriptSaved(Ok(passes[n].identifier.internal_id)),
        passes[n].notify_worker == exists|i: int| 0 <= i < n && shows_sync_group(#[trigger] events[i]),
    decreases n,
{
    if n > 0 {
        lemma_identified(plan, passes, events, actions, n - 1);
        lemma_performed(plan, passes, events, actions, n - 1);
        assert(is_apply_step(passes[n - 1], events[n - 1], passes[n - 1 + 1], actions[n - 1 + 1]));
        assert(answers(plan.effects@[n - 1], events[n - 1]));
        assert(plan.effects@.skip(n).len() > 0);
        lemma_shown(events, n - 1);
        let before = passes[n - 1].identifier.internal_id;
        if before != plan.identifier.internal_id {
            let i = choose|i: int| 0 <= i < n - 1 && #[trigger] events[i] == ApplyEvent::TranscriptSaved(Ok(before));
            assert(0 <= i < n && events[i] == ApplyEvent::TranscriptSaved(Ok(before)));
        }
    }
}

/// The first failure ends the carrying out of a plan with that failure, and the worker is told of nothing.
pub proof fn the_first_failure_ends_a_plan(before: ApplyPass, event: ApplyEvent, after: ApplyPass, action: ApplyAction)
    requires
        is_apply_step(before, event, after, action),
        action !is Ignore,
    ensures
        event matches ApplyEvent::Done(Err(e)) ==> action == (ApplyAction::Finish {
            result: Err(e),
            notify_worker: false,
        }),
        event matches ApplyEvent::Found(Err(e)) ==> action == (ApplyAction::Finish {
            result: Err(e),
            notify_worker: false,
        }),
        event matches ApplyEvent::TranscriptSaved(Err(e)) ==> action == (ApplyAction::Finish {
            result: Err(e),
            notify_worker: false,
        }),
        (action matches ApplyAction::Finish { result: Err(_), notify_worker: _ }) ==> match event {
            ApplyEvent::Done(outcome) => outcome is Err,
            ApplyEvent::Found(outcome) => outcome is Err,
            ApplyEvent::TranscriptSaved(outcome) => outcome is Err,
        },
{
}

/// When messages of a group disappear.
#[derive(Clone, Copy, Debug, PartialEq, Eq, Structural)]
pub struct MessageDisappearingSettings {
    pub from_ns: i64,
    pub in_ns: i64,
}

impl MessageDisappearingSettings {
    /// Whether messages disappear at all.
    pub fn is_enabled(&self) -> (r: bool)
        ensures
            r == (self.from_ns > 0 && self.in_ns > 0),
    {
        self.from_ns > 0 && self.in_ns > 0
    }
}

/// When a message that comes in at a time disappears.
pub open spec fn expiry(settings: Option<MessageDisappearingSettings>, now_ns: i64) -> Option<i64> {
    match settings {
        Some(s) => if s.from_ns > 0 && s.in_ns > 0 {
            Some((now_ns + s.in_ns) as i64)
        } else {
            None
        },
        None => None,
    }
}

/// A message disappears exactly if the settings are there and on, and then so long after it came in as
/// they say: after it came in, and later the longer they say.
pub proof fn messages_disappear_after_their_time(settings: Option<MessageDisappearingSettings>, now_ns: i64)
    requires
        settings matches Some(s) ==> (s.from_ns > 0 && s.in_ns > 0 ==> now_ns + s.in_ns <= i64::MAX),
    ensures
        expiry(settings, now_ns) is None <==> settings is None || settings->0.from_ns <= 0 || settings->0.in_ns <= 0,
        expiry(settings, now_ns) matches Some(at) ==> at > now_ns && at - now_ns == settings->0.in_ns,
{
}

/// When a message that comes in now disappears; never, where the settings cannot be had or are off.
pub fn get_message_expire_at_ns(settings: Option<MessageDisappearingSettings>, now_ns: i64) -> (r: Option<i64>)
    requires
        settings matches Some(s) ==> (s.from_ns > 0 && s.in_ns > 0 ==> now_ns + s.in_ns <= i64::MAX),
    ensures
        r == expiry(settings, now_ns),
{
    match settings {
        Some(s) => {
            if s.is_enabled() {
                Some(now_ns + s.in_ns)
            } else {
                None
            }
        },
        None => None,
    }
}

/// An own message that was applied asks for nothing more, and what does not fit the step that is waited for changes nothing.
pub proof fn applied_own_messages_stay_applied(
    before: OwnPhase,
    event: OwnEvent,
    after: OwnPhase,
    action: OwnAction,
)
    requires
        is_own_step(before, event, after, action),
    ensures
        before is Done ==> action is Ignore,
        action is Ignore ==> after == before,
{
}

/// A message of another member that was processed asks for nothing more, and what does not fit the step that is waited for changes nothing.
pub proof fn processed_messages_stay_processed(
    before: ExternalPass,
    event: ExternalEvent,
    after: ExternalPass,
    action: ExternalAction,
)
    requires
        is_external_step(before, event, after, action),
    ensures
        before.phase is Done ==> action is Ignore,
        action is Ignore ==> after == before,
{
}

/// A plan that was carried out asks for nothing more, and what does not fit the effect that is waited for changes nothing.
pub proof fn finished_plans_stay_finished(
    before: ApplyPass,
    event: ApplyEvent,
    after: ApplyPass,
    action: ApplyAction,
)
    requires
        is_apply_step(before, event, after, action),
    ensures
        before.phase is Done ==> action is Ignore,
        action is Ignore ==> after == before,
{
}

} // verus!
