//! Own messages that come back, and messages of other members.

use xmtp_mls::error::{CommitValidationError, ExternalError, GroupMessageProcessingError, MessageIdentifier};
use xmtp_mls::groups::error::{GroupMutableMetadataError, MetadataPermissionsError};
use xmtp_mls::groups::extensions::{
    Decoded, Extension, Extensions, GroupMetadata, GroupMutableMetadata, Policy, PolicySet, ProposalType,
};
use xmtp_mls::groups::message_fields::QueryableContentFields;
use xmtp_mls::groups::mls_sync::helpers::SavepointEnd;
use xmtp_mls::groups::mls_sync::processing::{
    apply_external_message, apply_step, decode_staged_commit, external_message_step, own_message_step,
    process_external_message, process_own_message, proposal_context, stage_and_validate_intent,
    validate_and_process_external_message, validate_staged_commit, ApplyAction, ApplyEvent, ApplyPass,
    ExternalAction, ExternalContent, ExternalEffect, ExternalEvent, ExternalPass, MessageContent, OwnAction, OwnEvent,
    OwnFollowUp, OwnPhase, Plaintext, StagedIntent,
};
use xmtp_mls::records::{
    CommitResult, ContentType, ConversationType, Cursor, GroupMembershipState, IntentKind, IntentState, StoredGroup,
    StoredGroupIntent,
};
use xmtp_mls::text_map::TextMap;

fn failure(retryable: bool) -> ExternalError {
    ExternalError { retryable, message: "failed".to_string() }
}

fn intent(kind: IntentKind, staged_commit: Option<Vec<u8>>, published_in_epoch: Option<i64>) -> StoredGroupIntent {
    StoredGroupIntent {
        id: 3,
        kind,
        group_id: vec![9; 16],
        data: Vec::new(),
        state: IntentState::Published,
        payload_hash: None,
        post_commit_data: None,
        publish_attempts: 0,
        staged_commit,
        published_in_epoch,
        should_push: true,
        sequence_id: None,
        originator_id: None,
    }
}

#[test]
fn own_commits_must_come_back_in_the_epoch_of_the_group() {
    let commit = intent(IntentKind::MetadataUpdate, Some(vec![1, 2]), Some(5));
    match stage_and_validate_intent(&commit, 5, 5, 3) {
        Ok(StagedIntent::Decode(bytes)) => assert_eq!(bytes, vec![1, 2]),
        other => panic!("{other:?}"),
    }
    match stage_and_validate_intent(&commit, 6, 5, 3) {
        Err(e) => {
            assert!(matches!(e.processing_error, GroupMessageProcessingError::OldEpoch(5, 6)));
            assert_eq!(e.next_intent_state, IntentState::ToPublish);
        }
        other => panic!("{other:?}"),
    }
    match stage_and_validate_intent(&commit, 5, 6, 3) {
        Err(e) => {
            assert!(matches!(e.processing_error, GroupMessageProcessingError::FutureEpoch(6, 5)));
            assert_eq!(e.next_intent_state, IntentState::ToPublish);
        }
        other => panic!("{other:?}"),
    }
    let lost = intent(IntentKind::KeyUpdate, None, Some(5));
    match stage_and_validate_intent(&lost, 5, 5, 3) {
        Err(e) => {
            assert!(matches!(e.processing_error, GroupMessageProcessingError::IntentMissingStagedCommit));
            assert_eq!(e.next_intent_state, IntentState::Error);
        }
        other => panic!("{other:?}"),
    }
    let unpublished = intent(IntentKind::KeyUpdate, None, None);
    assert!(matches!(stage_and_validate_intent(&unpublished, 9, 2, 3), Ok(StagedIntent::NoCommit)));
}

#[test]
fn own_messages_and_proposals_only_have_their_epoch_checked() {
    for kind in [
        IntentKind::SendMessage,
        IntentKind::ProposeMemberUpdate,
        IntentKind::ProposeGroupContextExtensions,
        IntentKind::CommitPendingProposals,
    ] {
        let message = intent(kind, None, Some(1));
        assert!(matches!(stage_and_validate_intent(&message, 5, 3, 3), Ok(StagedIntent::NoCommit)));
        match stage_and_validate_intent(&message, 5, 2, 3) {
            Err(e) => {
                assert!(matches!(e.processing_error, GroupMessageProcessingError::OldEpoch(2, 5)));
                assert_eq!(e.next_intent_state, IntentState::ToPublish);
            }
            other => panic!("{other:?}"),
        }
    }
    // With a staged commit it is the commit that comes back.
    let commit = intent(IntentKind::CommitPendingProposals, Some(vec![7]), Some(5));
    assert!(matches!(stage_and_validate_intent(&commit, 5, 5, 3), Ok(StagedIntent::Decode(_))));
    assert!(stage_and_validate_intent(&commit, 5, 4, 3).is_err());
}

#[test]
fn own_commits_that_cannot_be_applied_have_failed() {
    assert_eq!(decode_staged_commit(Ok(4)).unwrap(), 4);
    match decode_staged_commit::<u8>(Err(failure(false))) {
        Err(e) => assert_eq!(e.next_intent_state, IntentState::Error),
        Ok(_) => panic!("decoded"),
    }
    assert_eq!(validate_staged_commit(1, Ok('v')).unwrap(), (1, 'v'));
    match validate_staged_commit::<u8, u8>(1, Err(CommitValidationError::ProposalsNotEnabled)) {
        Err(e) => {
            assert_eq!(e.next_intent_state, IntentState::Error);
            assert!(matches!(
                e.processing_error,
                GroupMessageProcessingError::CommitValidation(CommitValidationError::ProposalsNotEnabled)
            ));
        }
        Ok(_) => panic!("validated"),
    }
}

#[test]
fn intents_that_are_dealt_with_are_skipped() {
    for state in [IntentState::Committed, IntentState::Processed, IntentState::Error] {
        match process_own_message(state, IntentKind::SendMessage, false) {
            (OwnPhase::Done, OwnAction::Finish { result: Err(e), follow_up: OwnFollowUp::Nothing }) => {
                assert!(matches!(e.processing_error, GroupMessageProcessingError::IntentAlreadyProcessed));
                assert_eq!(e.next_intent_state, state);
            }
            other => panic!("{other:?}"),
        }
    }
    match process_own_message(IntentState::Published, IntentKind::CommitPendingProposals, false) {
        (OwnPhase::Done, OwnAction::Finish { result: Err(e), .. }) => {
            assert!(matches!(e.processing_error, GroupMessageProcessingError::PreCommitProposalPhaseComplete));
            assert_eq!(e.next_intent_state, IntentState::ToPublish);
        }
        other => panic!("{other:?}"),
    }
}

#[test]
fn an_own_commit_is_merged_and_written_down() {
    let (phase, action) = process_own_message(IntentState::Published, IntentKind::KeyUpdate, true);
    assert!(matches!(action, OwnAction::MergeCommit));
    let (phase, action) = own_message_step(phase, OwnEvent::Merged(Ok(())));
    assert!(matches!(action, OwnAction::MarkReadds));
    // An event that is not waited for changes nothing.
    let (phase, action) = own_message_step(phase, OwnEvent::PublishedSet(Ok(())));
    assert!(matches!(action, OwnAction::Ignore));
    let (phase, action) = own_message_step(phase, OwnEvent::ReaddsMarked(Ok(())));
    assert!(matches!(action, OwnAction::SaveTranscript));
    match own_message_step(phase, OwnEvent::TranscriptSaved(Ok(Some(vec![8])))) {
        (OwnPhase::Done, OwnAction::Finish { result: Ok(id), follow_up: OwnFollowUp::CleanUpAfterCommit }) => {
            assert_eq!(id, Some(vec![8]))
        }
        other => panic!("{other:?}"),
    }
    match own_message_step(OwnPhase::Merging, OwnEvent::Merged(Err(GroupMessageProcessingError::InvalidPayload))) {
        (_, OwnAction::Finish { result: Err(e), .. }) => assert_eq!(e.next_intent_state, IntentState::ToPublish),
        other => panic!("{other:?}"),
    }
    match own_message_step(OwnPhase::MarkingReadds, OwnEvent::ReaddsMarked(Err(failure(true)))) {
        (_, OwnAction::Finish { result: Err(e), .. }) => assert_eq!(e.next_intent_state, IntentState::Error),
        other => panic!("{other:?}"),
    }
}

#[test]
fn an_own_message_is_stored_as_published() {
    let (phase, action) = process_own_message(IntentState::Published, IntentKind::SendMessage, false);
    assert!(matches!(action, OwnAction::CalculateMessageId));
    let (phase, action) = own_message_step(phase, OwnEvent::Identified(Ok(Some(vec![6, 6]))));
    match action {
        OwnAction::SetPublished { id } => assert_eq!(id, vec![6, 6]),
        other => panic!("{other:?}"),
    }
    match own_message_step(phase, OwnEvent::PublishedSet(Ok(()))) {
        (_, OwnAction::Finish { result: Ok(id), follow_up: OwnFollowUp::ReactToOwnMessage }) => {
            assert_eq!(id, Some(vec![6, 6]))
        }
        other => panic!("{other:?}"),
    }
    // A legacy envelope has no message of its own.
    match own_message_step(OwnPhase::Identifying, OwnEvent::Identified(Ok(None))) {
        (_, OwnAction::Finish { result: Ok(None), follow_up: OwnFollowUp::Nothing }) => {}
        other => panic!("{other:?}"),
    }
    match own_message_step(OwnPhase::Identifying, OwnEvent::Identified(Err(failure(false)))) {
        (_, OwnAction::Finish { result: Err(e), .. }) => {
            assert!(matches!(e.processing_error, GroupMessageProcessingError::Intent(_)));
            assert_eq!(e.next_intent_state, IntentState::Error);
        }
        other => panic!("{other:?}"),
    }
}

fn begin(allow_cursor_increment: bool) -> ExternalPass {
    let (pass, action) = validate_and_process_external_message(
        Cursor { sequence_id: 40, originator_id: 10 },
        vec![9],
        5,
        allow_cursor_increment,
    );
    assert!(matches!(action, ExternalAction::Try));
    pass
}

fn identified(content: MessageContent, proposals_enabled: bool, allow: bool) -> (ExternalPass, ExternalAction) {
    let (pass, action) = external_message_step(
        begin(allow),
        ExternalEvent::Tried { savepoint: SavepointEnd::IntentionalRollback, outcome: Ok(content) },
    );
    assert!(matches!(action, ExternalAction::Reload));
    let (pass, action) = external_message_step(pass, ExternalEvent::Reloaded(Ok(proposals_enabled)));
    assert!(matches!(action, ExternalAction::Identify));
    external_message_step(pass, ExternalEvent::Identified(Ok(())))
}

fn fresh(sequence_id: u64) -> MessageIdentifier {
    MessageIdentifier {
        cursor: Cursor { sequence_id, originator_id: 10 },
        group_id: vec![9],
        created_ns: 5,
        internal_id: Some(vec![1]),
        intent_kind: None,
        group_context: None,
        previously_processed: false,
    }
}

#[test]
fn a_message_is_tried_before_it_is_applied() {
    match external_message_step(
        begin(true),
        ExternalEvent::Tried {
            savepoint: SavepointEnd::Failed(failure(true)),
            outcome: Ok(MessageContent::Application),
        },
    ) {
        (_, ExternalAction::Finish { result: Err(GroupMessageProcessingError::Storage(e)), send_events: false }) => {
            assert!(e.retryable)
        }
        other => panic!("{other:?}"),
    }
    let (pass, action) = identified(MessageContent::Application, false, true);
    assert!(matches!(action, ExternalAction::MoveCursor));
    let (pass, action) = external_message_step(pass, ExternalEvent::CursorMoved(Ok(true)));
    assert!(matches!(action, ExternalAction::Apply));
    match external_message_step(pass, ExternalEvent::Applied(Ok(fresh(40)))) {
        (_, ExternalAction::Finish { result: Ok(id), send_events: true }) => assert_eq!(id.cursor.sequence_id, 40),
        other => panic!("{other:?}"),
    }
}

#[test]
fn a_message_is_applied_once() {
    let (pass, _) = identified(MessageContent::Application, false, true);
    match external_message_step(pass, ExternalEvent::CursorMoved(Ok(false))) {
        (_, ExternalAction::Finish { result: Ok(id), send_events: true }) => {
            assert!(id.previously_processed);
            assert_eq!(id.group_id, vec![9]);
            assert_eq!(id.cursor, Cursor { sequence_id: 40, originator_id: 10 });
            assert_eq!(id.internal_id, None);
        }
        other => panic!("{other:?}"),
    }
    let (pass, action) = identified(MessageContent::Application, false, false);
    assert!(matches!(action, ExternalAction::ReadCursor));
    let current = Cursor { sequence_id: 39, originator_id: 10 };
    let (_, action) = external_message_step(pass, ExternalEvent::CursorRead(Ok(current)));
    assert!(matches!(action, ExternalAction::Apply));
    let (pass, _) = identified(MessageContent::Application, false, false);
    let current = Cursor { sequence_id: 40, originator_id: 10 };
    match external_message_step(pass, ExternalEvent::CursorRead(Ok(current))) {
        (_, ExternalAction::Finish { result: Ok(id), .. }) => assert!(id.previously_processed),
        other => panic!("{other:?}"),
    }
}

#[test]
fn refused_commits_are_passed_unless_a_newer_client_may_take_them() {
    let (pass, action) = identified(MessageContent::StagedCommit, false, true);
    assert!(matches!(action, ExternalAction::ValidateCommit));
    let refusal = CommitValidationError::Other(failure(false));
    let (pass, action) = external_message_step(pass, ExternalEvent::CommitValidated(Err(refusal)));
    assert!(matches!(action, ExternalAction::MoveCursor));
    match external_message_step(pass, ExternalEvent::CursorMoved(Ok(true))) {
        (_, ExternalAction::Finish { result: Err(e), send_events: false }) => {
            assert!(matches!(e, GroupMessageProcessingError::CommitValidation(CommitValidationError::Other(_))))
        }
        other => panic!("{other:?}"),
    }
    for waiting in [
        CommitValidationError::ProtocolVersionTooLow("2.0.0".to_string()),
        CommitValidationError::Other(failure(true)),
    ] {
        let (pass, _) = identified(MessageContent::StagedCommit, false, true);
        match external_message_step(pass, ExternalEvent::CommitValidated(Err(waiting))) {
            (_, ExternalAction::Finish { result: Err(GroupMessageProcessingError::CommitValidation(_)), .. }) => {}
            other => panic!("{other:?}"),
        }
    }
    // A valid commit that was processed before is known by its group context.
    let (pass, _) = identified(MessageContent::StagedCommit, false, true);
    let (pass, action) = external_message_step(pass, ExternalEvent::CommitValidated(Ok(vec![4, 4])));
    assert!(matches!(action, ExternalAction::MoveCursor));
    match external_message_step(pass, ExternalEvent::CursorMoved(Ok(false))) {
        (_, ExternalAction::Finish { result: Ok(id), .. }) => assert_eq!(id.group_context, Some(vec![4, 4])),
        other => panic!("{other:?}"),
    }
}

#[test]
fn proposals_need_a_group_that_takes_them() {
    let (pass, action) = identified(MessageContent::Proposal(ProposalType::Add), false, false);
    assert!(matches!(action, ExternalAction::MoveCursor));
    match external_message_step(pass, ExternalEvent::CursorMoved(Ok(true))) {
        (_, ExternalAction::Finish { result: Err(e), .. }) => assert!(matches!(
            e,
            GroupMessageProcessingError::CommitValidation(CommitValidationError::ProposalsNotEnabled)
        )),
        other => panic!("{other:?}"),
    }
    // Extensions may always be proposed: they turn the flow on.
    let (pass, action) =
        identified(MessageContent::Proposal(ProposalType::GroupContextExtensions), false, true);
    assert!(matches!(action, ExternalAction::ValidateProposal));
    let (_, action) = external_message_step(pass, ExternalEvent::ProposalValidated(Ok(())));
    assert!(matches!(action, ExternalAction::MoveCursor));
    let (pass, action) = identified(MessageContent::Proposal(ProposalType::Remove), true, true);
    assert!(matches!(action, ExternalAction::ValidateProposal));
    let refusal = CommitValidationError::Other(failure(true));
    let (_, action) = external_message_step(pass, ExternalEvent::ProposalValidated(Err(refusal)));
    assert!(matches!(action, ExternalAction::MoveCursor));
}

fn policies() -> Extension {
    Extension::GroupPermissions(Decoded::Valid(PolicySet {
        add_member_policy: Policy::Allow,
        remove_member_policy: Policy::AdminOnly,
        update_metadata_policy: TextMap::new(),
        add_admin_policy: Policy::SuperAdminOnly,
        remove_admin_policy: Policy::SuperAdminOnly,
        update_permissions_policy: Policy::SuperAdminOnly,
    }))
}

fn fixed_metadata() -> Extension {
    Extension::ImmutableMetadata(Decoded::Valid(GroupMetadata {
        conversation_type: ConversationType::Group,
        creator_inbox_id: "alix".to_string(),
        dm_members: None,
        oneshot_message: None,
    }))
}

fn mutable_metadata() -> Extension {
    Extension::MutableMetadata(Decoded::Valid(GroupMutableMetadata {
        attributes: TextMap::new(),
        admin_list: vec!["alix".to_string()],
        super_admin_list: Vec::new(),
    }))
}

#[test]
fn proposals_are_held_against_permissions_and_metadata() {
    let whole = Extensions { list: vec![mutable_metadata(), fixed_metadata(), policies()] };
    match proposal_context(&whole) {
        Ok(context) => {
            assert!(context.policies.remove_member_policy.same_as(&Policy::AdminOnly));
            assert_eq!(context.metadata.creator_inbox_id, "alix");
            assert!(context.mutable_metadata.is_admin("alix"));
        }
        Err(e) => panic!("{e:?}"),
    }
    assert!(matches!(
        proposal_context(&Extensions { list: Vec::new() }),
        Err(CommitValidationError::MetadataPermissions(MetadataPermissionsError::MissingPermissions))
    ));
    assert!(matches!(
        proposal_context(&Extensions { list: vec![policies()] }),
        Err(CommitValidationError::MetadataPermissions(MetadataPermissionsError::MissingMetadata))
    ));
    assert!(matches!(
        proposal_context(&Extensions { list: vec![policies(), fixed_metadata()] }),
        Err(CommitValidationError::GroupMutableMetadata(GroupMutableMetadataError::MissingExtension))
    ));
}

fn row(conversation_type: ConversationType) -> StoredGroup {
    StoredGroup {
        id: vec![9],
        created_at_ns: 1,
        membership_state: GroupMembershipState::Allowed,
        added_by_inbox_id: "bo".to_string(),
        conversation_type,
        dm_id: None,
        message_disappear_from_ns: None,
        message_disappear_in_ns: None,
        should_publish_commit_log: false,
        sequence_id: None,
        originator_id: None,
        maybe_forked: false,
        fork_details: String::new(),
        is_commit_log_forked: None,
    }
}

fn application(sender: &str, content_type: ContentType) -> (ApplyPass, ApplyAction) {
    let fields = QueryableContentFields { content_type, ..QueryableContentFields::default() };
    let plan = process_external_message(
        Ok((sender.to_string(), vec![3, 3])),
        ExternalContent::Application(Ok(Plaintext::V1 { content: vec![5], message_id: vec![1, 1], fields })),
        &[9],
        "alix",
        70,
        71,
        Cursor { sequence_id: 40, originator_id: 10 },
        Some(900),
    )
    .unwrap();
    apply_external_message(plan)
}

#[test]
fn application_messages_are_stored_with_their_sender() {
    let (pass, action) = application("bo", ContentType::Text);
    match action {
        ApplyAction::Perform(ExternalEffect::StoreMessage(message)) => {
            assert_eq!(message.id, vec![1, 1]);
            assert_eq!(message.group_id, vec![9]);
            assert_eq!(message.decrypted_message_bytes, vec![5]);
            assert_eq!(message.sender_inbox_id, "bo");
            assert_eq!(message.sender_installation_id, vec![3, 3]);
            assert_eq!(message.sent_at_ns, 70);
            assert_eq!(message.sequence_id, 40);
            assert_eq!(message.originator_id, 10);
            assert_eq!(message.expire_at_ns, Some(900));
            assert_eq!(message.inserted_at_ns, 0);
            assert!(message.should_push);
        }
        other => panic!("{other:?}"),
    }
    match apply_step(pass, ApplyEvent::Done(Ok(()))) {
        (_, ApplyAction::Finish { result: Ok(id), notify_worker: false }) => {
            assert_eq!(id.internal_id, Some(vec![1, 1]));
            assert_eq!(id.created_ns, 71);
            assert!(!id.previously_processed);
        }
        other => panic!("{other:?}"),
    }
}

#[test]
fn messages_between_devices_reach_the_worker() {
    for (conversation_type, told) in [(ConversationType::Sync, true), (ConversationType::Group, false)] {
        let (pass, _) = application("alix", ContentType::LeaveRequest);
        let (pass, action) = apply_step(pass, ApplyEvent::Done(Ok(())));
        assert!(matches!(action, ApplyAction::Perform(ExternalEffect::NotifyIfSyncGroup)));
        let (pass, action) = apply_step(pass, ApplyEvent::Found(Ok(Some(row(conversation_type)))));
        assert!(matches!(action, ApplyAction::Perform(ExternalEffect::ProcessLeaveRequest)));
        match apply_step(pass, ApplyEvent::Done(Ok(()))) {
            (_, ApplyAction::Finish { result: Ok(_), notify_worker }) => assert_eq!(notify_worker, told),
            other => panic!("{other:?}"),
        }
    }
    let (pass, _) = application("bo", ContentType::DeleteMessage);
    let (pass, action) = apply_step(pass, ApplyEvent::Done(Ok(())));
    assert!(matches!(action, ApplyAction::Perform(ExternalEffect::ProcessDeleteMessage)));
    match apply_step(pass, ApplyEvent::Done(Err(GroupMessageProcessingError::InvalidPayload))) {
        (_, ApplyAction::Finish { result: Err(_), notify_worker: false }) => {}
        other => panic!("{other:?}"),
    }
}

fn plan_of(content: ExternalContent) -> Result<(ApplyPass, ApplyAction), GroupMessageProcessingError> {
    process_external_message(
        Ok(("bo".to_string(), vec![3])),
        content,
        &[9],
        "alix",
        70,
        71,
        Cursor { sequence_id: 40, originator_id: 10 },
        None,
    )
    .map(apply_external_message)
}

#[test]
fn commits_of_others_are_merged_and_written_down() {
    let (mut pass, mut action) = plan_of(ExternalContent::StagedCommit(vec![2, 2])).unwrap();
    let mut seen: Vec<String> = Vec::new();
    let result = loop {
        let event = match &action {
            ApplyAction::Perform(ExternalEffect::SaveTranscript) => ApplyEvent::TranscriptSaved(Ok(Some(vec![7]))),
            ApplyAction::Perform(_) => ApplyEvent::Done(Ok(())),
            _ => break action,
        };
        if let ApplyAction::Perform(effect) = &action {
            seen.push(format!("{effect:?}"));
        }
        let next = apply_step(pass, event);
        pass = next.0;
        action = next.1;
    };
    assert_eq!(
        seen,
        vec!["MergeStagedCommit", "MarkReadds", "SaveTranscript", "CleanPendingRemovals", "HandleSuperAdminChange"]
    );
    match result {
        ApplyAction::Finish { result: Ok(id), .. } => {
            assert_eq!(id.group_context, Some(vec![2, 2]));
            assert_eq!(id.internal_id, Some(vec![7]));
        }
        other => panic!("{other:?}"),
    }
}

#[test]
fn other_messages_leave_little_behind() {
    let (_, action) = plan_of(ExternalContent::Proposal).unwrap();
    assert!(matches!(action, ApplyAction::Perform(ExternalEffect::StorePendingProposal)));
    let (_, action) = plan_of(ExternalContent::ExternalJoinProposal).unwrap();
    assert!(matches!(action, ApplyAction::Finish { result: Ok(_), .. }));
    let (_, action) = plan_of(ExternalContent::Application(Ok(Plaintext::V2))).unwrap();
    assert!(matches!(action, ApplyAction::Finish { result: Ok(_), .. }));
    assert!(matches!(
        plan_of(ExternalContent::Application(Ok(Plaintext::Missing))),
        Err(GroupMessageProcessingError::InvalidPayload)
    ));
    assert!(matches!(
        plan_of(ExternalContent::Application(Err(failure(false)))),
        Err(GroupMessageProcessingError::DecodeProto(_))
    ));
}

#[test]
fn failed_commits_are_logged_by_their_error() {
    let refused = |wrong_epoch| GroupMessageProcessingError::OpenMlsProcessMessage {
        wrong_epoch,
        error: ExternalError { retryable: false, message: "refused".to_string() },
    };
    assert_eq!(refused(true).commit_result(), CommitResult::WrongEpoch);
    assert_eq!(refused(false).commit_result(), CommitResult::Undecryptable);
    assert_eq!(GroupMessageProcessingError::OldEpoch(1, 2).commit_result(), CommitResult::WrongEpoch);
    assert_eq!(GroupMessageProcessingError::FutureEpoch(2, 1).commit_result(), CommitResult::WrongEpoch);
    let invalid = GroupMessageProcessingError::CommitValidation(CommitValidationError::ProposalsNotEnabled);
    assert_eq!(invalid.commit_result(), CommitResult::Invalid);
    assert_eq!(GroupMessageProcessingError::GroupPaused.commit_result(), CommitResult::Unknown);
}
