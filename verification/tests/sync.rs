//! Publishing, receiving and waiting.

use hmac::Mac;
use sha2::Digest;
use xmtp_mls::error::{CommitValidationError, ExternalError, GroupMessageProcessingError, MessageIdentifier};
use xmtp_mls::groups::error::GroupError;
use xmtp_mls::groups::group::MlsGroup;
use xmtp_mls::groups::mls_sync::events::{DeferredEvent, DeferredEvents};
use xmtp_mls::groups::mls_sync::helpers::{
    extract_message_sender, handle_published_intent_send_failure, FailureRecord, GroupMember, Sender, SenderClaim,
};
use xmtp_mls::groups::mls_sync::membership::{
    calculate_membership_changes_with_keypackages, get_removed_leaf_nodes, membership_update,
};
use xmtp_mls::groups::mls_sync::orchestration::{
    sync_step, ConversationSyncAction, ConversationSyncEvent, ConversationSyncPhase, SyncAction, SyncEvent, SyncPass,
};
use xmtp_mls::groups::mls_sync::persistence::{
    duplicate_step, handle_metadata_update_from_commit, handle_metadata_update_from_intent, mark_probable_fork,
    process_group_message_error_for_fork_detection, DuplicateAction, DuplicateEvent, MetadataFieldChange,
    MetadataMirror, TranscriptAction, TranscriptEvent, TranscriptPass, TranscriptPayload,
};
use xmtp_mls::groups::mls_sync::processing::{
    get_message_expire_at_ns, validate_message_epoch, MessageDisappearingSettings,
};
use xmtp_mls::groups::mls_sync::publish::{publish_intents, publish_step, PublishAction, PublishEvent};
use xmtp_mls::groups::mls_sync::receive::{finish_post_process, post_process_message, PostProcess};
use xmtp_mls::groups::mls_sync::resolution::{
    intent_resolution_status, latest_resolvable_intent_id, resolve_paused_group, sync_until_intent_resolved,
    sync_until_intent_resolved_inner, wait_outcome, IntentResolutionStatus, LibXMTPVersion, PauseResolution,
    WaitAction, WaitEvent,
};
use xmtp_mls::groups::mls_sync::types::PublishIntentData;
use xmtp_mls::groups::mls_sync::welcomes::{
    send_welcomes_step, Installation, SharedWelcome, WelcomeAction, WelcomeEvent, WelcomeForm, WelcomeLimits,
    WelcomeMessageInput, WelcomePass,
};
use xmtp_mls::groups::summary::{ProcessSummary, SyncSummary};
use xmtp_mls::records::{
    CommitResult, ContentType, ContentTypeId, ConversationType, Cursor, DeliveryStatus, GroupMembershipState,
    GroupMessageKind, IntentKind, IntentState, StoredGroup, StoredGroupIntent, UpdateMetadataIntentData,
};
use xmtp_mls::subscriptions::events::{LocalEvents, SyncWorkerEvent};
use xmtp_mls::text_map::TextMap;

fn group() -> MlsGroup {
    MlsGroup::new(vec![1, 2, 3, 4], None, ConversationType::Group, 17)
}

fn intent(id: i32, kind: IntentKind, publish_attempts: i32) -> StoredGroupIntent {
    StoredGroupIntent {
        id,
        kind,
        group_id: vec![9; 16],
        data: Vec::new(),
        state: IntentState::ToPublish,
        payload_hash: None,
        post_commit_data: None,
        publish_attempts,
        staged_commit: None,
        published_in_epoch: None,
        should_push: true,
        sequence_id: None,
        originator_id: None,
    }
}

fn failure(retryable: bool) -> ExternalError {
    ExternalError { retryable, message: "failed".to_string() }
}

fn cursor(sequence_id: u64) -> Cursor {
    Cursor { sequence_id, originator_id: 10 }
}

fn identifier(sequence_id: u64) -> MessageIdentifier {
    MessageIdentifier {
        cursor: cursor(sequence_id),
        group_id: vec![9],
        created_ns: 5,
        internal_id: None,
        intent_kind: None,
        group_context: None,
        previously_processed: false,
    }
}

#[test]
fn hmac_keys_work_as_expected() {
    let current_epoch: i64 = 700;
    let user_key = [5u8; 42];
    let salt = b"libXMTP HKDF salt!";
    let hmac_keys = group().hmac_keys(salt, &user_key, current_epoch, -1, 1);
    let current_hmac_key = group().hmac_keys(salt, &user_key, current_epoch, 0, 0).pop().unwrap();
    assert_eq!(hmac_keys.len(), 3);
    assert_eq!(hmac_keys[1].key, current_hmac_key.key);
    assert_eq!(hmac_keys[1].epoch, current_hmac_key.epoch);

    assert_ne!(hmac_keys[0].key, hmac_keys[1].key);
    assert_ne!(hmac_keys[0].key, hmac_keys[2].key);
    assert_ne!(hmac_keys[1].key, hmac_keys[2].key);

    assert_eq!(hmac_keys[0].epoch, current_epoch - 1);
    assert_eq!(hmac_keys[1].epoch, current_epoch);
    assert_eq!(hmac_keys[2].epoch, current_epoch + 1);
}

#[test]
fn hmac_keys_are_derived_from_user_group_and_epoch() {
    let user_key = [5u8; 42];
    let salt = b"salt";
    let epoch: i64 = 0x0102_0304;
    let key = group().hmac_keys(salt, &user_key, epoch, 0, 0).pop().unwrap();
    let mut ikm = user_key.to_vec();
    ikm.extend([1, 2, 3, 4]);
    let mut info = vec![1, 2, 3, 4];
    info.extend(epoch.to_le_bytes());
    let mut expected = [0u8; 42];
    hkdf::Hkdf::<sha2::Sha256>::new(Some(salt), &ikm).expand(&info, &mut expected).unwrap();
    assert_eq!(key.key, expected);
    assert_eq!(info[4..], [4, 3, 2, 1, 0, 0, 0, 0]);
    assert!(group().hmac_keys(salt, &user_key, epoch, 1, 0).is_empty());
}

#[test]
fn group_messages_carry_the_code_of_their_sender() {
    let user_key = [5u8; 42];
    let prepared = group().prepare_group_messages(&vec![(vec![1, 2], true), (vec![], false)], b"salt", &user_key, 3);
    let key = group().hmac_keys(b"salt", &user_key, 3, 0, 0).pop().unwrap();
    assert_eq!(prepared.len(), 2);
    assert_eq!(prepared[0].data, vec![1, 2]);
    assert!(prepared[0].should_push);
    assert!(!prepared[1].should_push);
    let mut mac = hmac::Hmac::<sha2::Sha256>::new_from_slice(&key.key).unwrap();
    mac.update(&[1, 2]);
    assert_eq!(prepared[0].sender_hmac, mac.finalize().into_bytes().to_vec());
    assert_ne!(prepared[0].sender_hmac, prepared[1].sender_hmac);
}

#[test]
fn send_failures_for_published_intents_revert_to_to_publish() {
    let intent = StoredGroupIntent {
        id: 42,
        kind: IntentKind::SendMessage,
        group_id: vec![3; 16],
        data: Vec::new(),
        state: IntentState::Published,
        payload_hash: Some(vec![4; 32]),
        post_commit_data: None,
        publish_attempts: 0,
        staged_commit: None,
        published_in_epoch: Some(7),
        should_push: false,
        sequence_id: None,
        originator_id: None,
    };
    let result = handle_published_intent_send_failure(&intent, true, 3);
    assert_eq!(result, FailureRecord::IncrementAttemptsAndRequeue);
}

#[test]
fn send_failures_that_stay_are_final() {
    assert_eq!(
        handle_published_intent_send_failure(&intent(1, IntentKind::SendMessage, 0), false, 3),
        FailureRecord::SetErrorAndFailMessage
    );
    assert_eq!(
        handle_published_intent_send_failure(&intent(1, IntentKind::SendMessage, 2), true, 3),
        FailureRecord::SetErrorAndFailMessage
    );
}

#[test]
fn a_sender_is_the_member_with_the_credential_of_the_message() {
    let member = || GroupMember {
        index: 2,
        credential: vec![1, 1],
        inbox_id: Ok("alix".to_string()),
        signature_key: vec![7],
    };
    let claim = |credential: Vec<u8>| SenderClaim { sender: Sender::Member(2), credential, identity: Ok(vec![8]) };
    let (inbox, installation) = extract_message_sender(claim(vec![1, 1]), Some(member()), 5).unwrap();
    assert_eq!(inbox, "alix");
    assert_eq!(installation, vec![7]);
    let err = extract_message_sender(claim(vec![1, 2]), Some(member()), 5).unwrap_err();
    assert!(matches!(err, GroupMessageProcessingError::InvalidSender { message_time_ns: 5, credential } if credential == vec![8]));
    assert!(extract_message_sender(claim(vec![1, 1]), None, 5).is_err());
}

#[test]
fn intents_are_marked_before_they_are_sent_and_a_commit_ends_the_pass() {
    let (pass, action) =
        publish_intents(vec![intent(1, IntentKind::KeyUpdate, 0), intent(2, IntentKind::SendMessage, 0)]);
    assert!(matches!(action, PublishAction::Derive { index: 0 }));
    let data = PublishIntentData {
        payloads_to_publish: vec![vec![5, 6]],
        staged_commit: Some(vec![1]),
        post_commit_action: None,
        should_send_push_notification: true,
        group_epoch: 4,
    };
    let (pass, action) = publish_step(pass, PublishEvent::Derived(Ok(Some(data))), 3);
    match action {
        PublishAction::MarkPublished(p) => {
            assert_eq!(p.intent_id, 1);
            assert_eq!(p.published_in_epoch, 4);
            assert_eq!(p.staged_commit, Some(vec![1]));
            assert_eq!(p.payload_hash, sha2::Sha256::digest([5, 6]).to_vec());
        }
        other => panic!("unexpected {other:?}"),
    }
    let (pass, action) = publish_step(pass, PublishEvent::Stored(Ok(())), 3);
    assert!(matches!(action, PublishAction::Send { .. }));
    let (_, action) = publish_step(pass, PublishEvent::Sent(Ok(())), 3);
    assert!(matches!(action, PublishAction::Finish(Ok(()))));
}

#[test]
fn payloads_that_cannot_be_prepared_are_no_failed_attempt() {
    let (pass, _) = publish_intents(vec![intent(1, IntentKind::SendMessage, 0)]);
    let data = PublishIntentData {
        payloads_to_publish: vec![vec![5]],
        staged_commit: None,
        post_commit_action: None,
        should_send_push_notification: false,
        group_epoch: 4,
    };
    let (pass, _) = publish_step(pass, PublishEvent::Derived(Ok(Some(data))), 3);
    let (pass, action) = publish_step(pass, PublishEvent::Stored(Ok(())), 3);
    assert!(matches!(action, PublishAction::Send { .. }));
    let (_, action) = publish_step(pass, PublishEvent::NotPrepared(GroupError::GroupInactive), 3);
    assert!(matches!(action, PublishAction::Finish(Err(GroupError::GroupInactive))));
}

#[test]
fn failed_and_removed_installations_are_kept_apart() {
    let diff = calculate_membership_changes_with_keypackages(
        &vec![vec![1]],
        &vec![vec![2], vec![3]],
        &vec![vec![3], vec![4]],
    );
    assert_eq!(diff.removed_installations, vec![vec![4]]);
    assert_eq!(diff.failed_installations.len(), 2);
    assert!(diff.failed_installations.contains(&vec![1]));
    assert!(diff.failed_installations.contains(&vec![2]));
}

#[test]
fn a_membership_update_needs_an_installation_that_works() {
    let add = vec!["bo".to_string()];
    let err = membership_update(TextMap::new(), &add, &[], 0, vec![vec![1]]);
    assert!(matches!(err, Err(GroupError::FailedToVerifyInstallations)));
    assert!(membership_update(TextMap::new(), &add, &[], 1, vec![vec![1]]).is_ok());
}

#[test]
fn removed_installations_are_found_in_the_tree() {
    let member = |index: u32, key: u8| GroupMember {
        index,
        credential: vec![],
        inbox_id: Ok("x".to_string()),
        signature_key: vec![key],
    };
    let leaves = get_removed_leaf_nodes(&vec![member(0, 1), member(1, 2), member(5, 3)], &vec![vec![3], vec![1]]);
    assert_eq!(leaves, vec![0, 5]);
}

#[test]
fn epochs_are_accepted_within_the_window() {
    assert!(validate_message_epoch(10, 10, 3).is_ok());
    assert!(validate_message_epoch(10, 8, 3).is_ok());
    assert!(matches!(
        validate_message_epoch(10, 11, 3),
        Err(GroupMessageProcessingError::FutureEpoch(11, 10))
    ));
    assert!(matches!(validate_message_epoch(10, 2, 3), Err(GroupMessageProcessingError::OldEpoch(2, 10))));
    assert!(matches!(
        validate_message_epoch(10, u64::MAX, 3),
        Err(GroupMessageProcessingError::FutureEpoch(u64::MAX, 10))
    ));
    assert!(validate_message_epoch(1, 0, 3).is_ok());
}

#[test]
fn messages_expire_only_where_settings_are_on() {
    let on = MessageDisappearingSettings { from_ns: 10, in_ns: 20 };
    assert_eq!(get_message_expire_at_ns(Some(on), 1000), Some(1020));
    let off = MessageDisappearingSettings { from_ns: 0, in_ns: 20 };
    assert_eq!(get_message_expire_at_ns(Some(off), 1000), None);
    assert_eq!(get_message_expire_at_ns(None, 1000), None);
}

#[test]
fn probable_forks_are_described() {
    assert_eq!(
        mark_probable_fork(31, 9, 7),
        "Message cursor [31] epoch [9] is greater than group epoch [7], your group may be forked"
    );
    let wrong_epoch = GroupMessageProcessingError::OpenMlsProcessMessage { wrong_epoch: true, error: failure(false) };
    let check = process_group_message_error_for_fork_detection(31, 9, &wrong_epoch, 7, 3);
    assert!(check.fork_details.is_some());
    assert!(matches!(check.result, Err(GroupMessageProcessingError::FutureEpoch(9, 7))));
    let check = process_group_message_error_for_fork_detection(31, 7, &wrong_epoch, 7, 3);
    assert!(check.fork_details.is_none());
    assert!(check.result.is_ok());
    let other = GroupMessageProcessingError::InvalidPayload;
    assert!(process_group_message_error_for_fork_detection(31, 9, &other, 7, 3).fork_details.is_none());
}

fn change(field_name: &str, new_value: Option<&str>) -> MetadataFieldChange {
    MetadataFieldChange {
        field_name: field_name.to_string(),
        old_value: None,
        new_value: new_value.map(|v| v.to_string()),
    }
}

#[test]
fn disappearing_settings_are_mirrored_into_the_group_row() {
    let from = xmtp_mls::groups::app_data::component_source::MetadataField::MessageDisappearFromNS.as_str();
    let in_ns = xmtp_mls::groups::app_data::component_source::MetadataField::MessageDisappearInNS.as_str();
    let changes = vec![change(from, Some("10")), change("group_name", Some("x")), change(in_ns, Some("+20")), change(in_ns, Some("no"))];
    assert_eq!(
        handle_metadata_update_from_commit(&changes),
        vec![
            MetadataMirror::DisappearFromNs(Some(10)),
            MetadataMirror::DisappearInNs(Some(20)),
            MetadataMirror::DisappearInNs(None),
        ]
    );
    let data = || UpdateMetadataIntentData { field_name: from.to_string(), field_value: "-7".to_string() };
    assert_eq!(
        handle_metadata_update_from_intent(IntentKind::MetadataUpdate, Ok(data())).unwrap(),
        Some(MetadataMirror::DisappearFromNs(Some(-7)))
    );
    assert_eq!(handle_metadata_update_from_intent(IntentKind::KeyUpdate, Ok(data())).unwrap(), None);
    assert!(handle_metadata_update_from_intent(IntentKind::MetadataUpdate, Err(failure(false))).is_err());
}

fn payload(content_type: Option<ContentTypeId>, changes: Vec<MetadataFieldChange>) -> TranscriptPayload {
    TranscriptPayload {
        bytes: vec![1, 2],
        message_id: vec![3],
        content_type,
        actor_installation_id: vec![4],
        actor_inbox_id: "alix".to_string(),
        metadata_field_changes: changes,
        added_inboxes: 2,
    }
}

fn encoded(payload: TranscriptPayload) -> (TranscriptPass, TranscriptAction) {
    let (pass, action) = group().save_transcript_message(false, 99, cursor(5));
    assert!(matches!(action, TranscriptAction::LoadRemovals));
    let (pass, action) = group().transcript_step(pass, TranscriptEvent::RemovalsLoaded(Ok(())));
    assert!(matches!(action, TranscriptAction::Encode { idempotency_key } if idempotency_key == "99"));
    group().transcript_step(pass, TranscriptEvent::Encoded(Ok(payload)))
}

#[test]
fn transcripts_mirror_metadata_even_where_they_repeat() {
    let in_ns = xmtp_mls::groups::app_data::component_source::MetadataField::MessageDisappearInNS.as_str();
    let (pass, action) = encoded(payload(None, vec![change("group_name", Some("x")), change(in_ns, Some("20"))]));
    assert!(matches!(action, TranscriptAction::Mirror(MetadataMirror::DisappearInNs(Some(20)))));
    let (pass, action) = group().transcript_step(pass, TranscriptEvent::Mirrored(Ok(())));
    assert!(matches!(action, TranscriptAction::Search { added_inboxes: 2 }));
    let (_, action) = group().transcript_step(pass, TranscriptEvent::Searched(Ok(true)));
    assert!(matches!(action, TranscriptAction::Finish(Ok(None))));

    let (_, action) = group().save_transcript_message(true, 99, cursor(5));
    assert!(matches!(action, TranscriptAction::Finish(Ok(None))));
    let (pass, _) = group().save_transcript_message(false, 99, cursor(5));
    let failed = TranscriptEvent::RemovalsLoaded(Err(GroupMessageProcessingError::Db(failure(true))));
    let (_, action) = group().transcript_step(pass, failed);
    assert!(matches!(action, TranscriptAction::Finish(Err(GroupMessageProcessingError::Db(_)))));
}

#[test]
fn reports_of_commits_are_stored() {
    let (pass, action) = encoded(payload(None, Vec::new()));
    assert!(matches!(action, TranscriptAction::Search { .. }));
    let (pass, action) = group().transcript_step(pass, TranscriptEvent::Searched(Ok(false)));
    let TranscriptAction::Store(message) = action else { panic!("not stored") };
    assert_eq!(message.id, vec![3]);
    assert_eq!(message.group_id, vec![1, 2, 3, 4]);
    assert_eq!(message.content_type, ContentType::Unknown);
    assert_eq!(message.authority_id, "unknown");
    assert_eq!(message.kind, GroupMessageKind::MembershipChange);
    assert_eq!(message.delivery_status, DeliveryStatus::Published);
    assert_eq!(message.sequence_id, 5);
    assert_eq!(message.originator_id, 10);
    assert_eq!(message.sent_at_ns, 99);
    assert!(message.should_push);
    let (_, action) = group().transcript_step(pass, TranscriptEvent::Stored(Ok(())));
    assert!(matches!(action, TranscriptAction::Finish(Ok(Some(id))) if id == vec![3]));

    let typed = ContentTypeId {
        authority_id: "xmtp.org".to_string(),
        content_type: ContentType::GroupUpdated,
        version_major: 1,
        version_minor: 2,
    };
    let (pass, _) = encoded(payload(Some(typed), Vec::new()));
    let (_, action) = group().transcript_step(pass, TranscriptEvent::Searched(Ok(false)));
    let TranscriptAction::Store(message) = action else { panic!("not stored") };
    assert_eq!(message.content_type, ContentType::GroupUpdated);
    assert_eq!((message.version_major, message.version_minor), (1, 2));
}

#[test]
fn repeated_reports_are_looked_for_page_by_page() {
    let (_, action) = group().update_already_exists(1);
    assert!(matches!(action, DuplicateAction::Finish(Ok(false))));
    let stitched = MlsGroup::new(vec![1], Some("dm".to_string()), ConversationType::Dm, 17);
    let (_, action) = stitched.update_already_exists(0);
    assert!(matches!(action, DuplicateAction::Finish(Ok(false))));
    let (phase, action) = stitched.update_already_exists(1);
    assert!(matches!(action, DuplicateAction::LoadPage { inserted_after_ns: None, limit: 100 }));
    let (phase, action) = duplicate_step(phase, DuplicateEvent::Page(Ok(vec![3, 8])));
    assert!(matches!(action, DuplicateAction::LoadPage { inserted_after_ns: Some(8), limit: 100 }));
    let (phase, action) = duplicate_step(phase, DuplicateEvent::Page(Ok(vec![])));
    assert!(matches!(action, DuplicateAction::Compare));
    let (_, action) = duplicate_step(phase, DuplicateEvent::Compared(true));
    assert!(matches!(action, DuplicateAction::Finish(Ok(true))));
}

#[test]
fn failures_move_the_cursor_only_where_trying_again_is_useless() {
    let refused = || GroupMessageProcessingError::CommitValidation(CommitValidationError::ProposalsNotEnabled);
    match post_process_message(Err(refused()), true, true, 5, 3, 3, 3) {
        PostProcess::Fail { advance_cursor, log_failed_commit, fork_details, .. } => {
            assert!(advance_cursor);
            assert_eq!(log_failed_commit, Some(CommitResult::Invalid));
            assert!(fork_details.is_none());
        }
        other => panic!("unexpected {other:?}"),
    }
    match post_process_message(Err(refused()), false, true, 5, 3, 3, 3) {
        PostProcess::Fail { advance_cursor, log_failed_commit, .. } => {
            assert!(!advance_cursor);
            assert_eq!(log_failed_commit, None);
        }
        other => panic!("unexpected {other:?}"),
    }
    match post_process_message(Err(GroupMessageProcessingError::Storage(failure(true))), true, false, 5, 3, 3, 3) {
        PostProcess::Fail { advance_cursor, .. } => assert!(!advance_cursor),
        other => panic!("unexpected {other:?}"),
    }
}

#[test]
fn a_version_that_is_too_low_pauses_the_group() {
    let too_low =
        GroupMessageProcessingError::CommitValidation(CommitValidationError::ProtocolVersionTooLow("2.0.0".to_string()));
    let post = post_process_message(Err(too_low), true, true, 5, 3, 3, 3);
    assert!(matches!(&post, PostProcess::PauseGroup { min_version } if min_version == "2.0.0"));
    assert!(matches!(finish_post_process(post, Ok(())), Err(GroupMessageProcessingError::GroupPaused)));
    let post = post_process_message(Ok(identifier(1)), true, true, 5, 3, 3, 3);
    assert!(finish_post_process(post, Ok(())).is_ok());
}

#[test]
fn every_tried_message_is_recorded() {
    let mut summary = ProcessSummary::new();
    assert!(group().process_messages(&mut summary, cursor(1), Ok(identifier(1))));
    assert!(group().process_messages(&mut summary, cursor(2), Err(GroupMessageProcessingError::InvalidPayload)));
    assert!(!group().process_messages(&mut summary, cursor(3), Err(GroupMessageProcessingError::Storage(failure(true)))));
    assert_eq!(summary.total_messages, vec![cursor(1), cursor(2), cursor(3)]);
    assert_eq!(summary.new_messages.len(), 1);
    assert_eq!(summary.errored.len(), 2);
    let mut paused = ProcessSummary::new();
    assert!(!group().process_messages(&mut paused, cursor(1), Err(GroupMessageProcessingError::GroupPaused)));
    assert_eq!(paused.total_messages, vec![cursor(1)]);
    assert!(!paused.is_errored());
}

fn version(major: u32, minor: u32, patch: u32, suffix: Option<&str>) -> LibXMTPVersion {
    LibXMTPVersion { major, minor, patch, suffix: suffix.map(|s| s.to_string()) }
}

#[test]
fn a_suffix_makes_a_version_higher() {
    assert!(version(1, 0, 0, None).is_met_by(&version(1, 0, 0, Some("alpha"))));
    assert!(!version(1, 0, 0, Some("alpha")).is_met_by(&version(1, 0, 0, None)));
    assert!(version(1, 0, 0, Some("alpha")).is_met_by(&version(1, 0, 0, Some("beta"))));
    assert!(version(1, 0, 0, Some("a")).is_met_by(&version(1, 0, 0, Some("ab"))));
    assert!(!version(1, 0, 0, Some("b")).is_met_by(&version(1, 0, 0, Some("ab"))));
    assert!(version(1, 9, 9, None).is_met_by(&version(2, 0, 0, None)));
    assert!(!version(1, 2, 0, None).is_met_by(&version(1, 1, 9, None)));
}

#[test]
fn paused_groups_wait_for_their_version() {
    assert!(matches!(
        resolve_paused_group(None, Ok(version(1, 0, 0, None)), Ok(version(9, 0, 0, None))),
        Ok(PauseResolution::NotPaused)
    ));
    assert!(matches!(
        resolve_paused_group(Some("1.0.0".to_string()), Ok(version(1, 0, 0, None)), Ok(version(1, 0, 0, None))),
        Ok(PauseResolution::Unpause)
    ));
    assert!(matches!(
        resolve_paused_group(Some("1.1.0".to_string()), Ok(version(1, 0, 0, None)), Ok(version(1, 1, 0, None))),
        Err(GroupError::GroupPausedUntilUpdate(v)) if v == "1.1.0"
    ));
}

#[test]
fn waiting_ends_with_the_intent() {
    assert_eq!(intent_resolution_status(None), IntentResolutionStatus::Deleted);
    assert_eq!(
        intent_resolution_status(Some((IntentState::Committed, IntentKind::KeyUpdate))),
        IntentResolutionStatus::Pending { state: IntentState::Committed, kind: IntentKind::KeyUpdate }
    );
    assert_eq!(latest_resolvable_intent_id(&vec![4, 9]), Some(9));
    assert_eq!(latest_resolvable_intent_id(&vec![]), None);

    let (wait, action) = sync_until_intent_resolved(2);
    assert!(matches!(action, WaitAction::Sync { attempt: 0 }));
    let (wait, action) = sync_until_intent_resolved_inner(wait, WaitEvent::Synced(Ok(SyncSummary::new())), 2);
    assert!(matches!(action, WaitAction::Check));
    let (wait, action) = sync_until_intent_resolved_inner(wait, WaitEvent::Checked(Err(failure(true))), 2);
    assert!(matches!(action, WaitAction::Sleep));
    let (wait, action) = sync_until_intent_resolved_inner(wait, WaitEvent::Slept, 2);
    assert!(matches!(action, WaitAction::Sync { attempt: 1 }));
    let (wait, _) = sync_until_intent_resolved_inner(wait, WaitEvent::Synced(Err(SyncSummary::new())), 2);
    let pending = IntentResolutionStatus::Pending { state: IntentState::ToPublish, kind: IntentKind::KeyUpdate };
    let (wait, action) = sync_until_intent_resolved_inner(wait, WaitEvent::Checked(Ok(pending)), 2);
    let WaitAction::Finish(finished) = action else { panic!("unfinished") };
    assert_eq!(wait.summary.other.len(), 1);
    assert!(matches!(wait_outcome(finished, wait.summary), Err(GroupError::SyncFailedToWait(_))));

    let (wait, _) = sync_until_intent_resolved(1);
    let (wait, _) = sync_until_intent_resolved_inner(wait, WaitEvent::Synced(Ok(SyncSummary::new())), 1);
    let (wait, action) =
        sync_until_intent_resolved_inner(wait, WaitEvent::Checked(Ok(IntentResolutionStatus::Processed)), 1);
    let WaitAction::Finish(finished) = action else { panic!("unfinished") };
    assert!(wait_outcome(finished, wait.summary).is_ok());
    assert!(matches!(sync_until_intent_resolved(0).1, WaitAction::Finish(Err(_))));
}

fn publishing() -> SyncPass {
    let (pass, action) = group().sync_with_conn();
    assert!(matches!(action, SyncAction::CheckActive));
    let (pass, action) = sync_step(pass, SyncEvent::Active(Ok(true)));
    assert!(matches!(action, SyncAction::CheckPause));
    let (pass, action) = sync_step(pass, SyncEvent::Pause(Ok(())));
    assert!(matches!(action, SyncAction::Publish));
    pass
}

#[test]
fn a_pass_keeps_what_went_wrong_in_each_step() {
    let (pass, action) = sync_step(publishing(), SyncEvent::Published(Ok(())));
    assert!(matches!(action, SyncAction::Receive));
    let (pass, action) = sync_step(pass, SyncEvent::Received(Ok(ProcessSummary::new())));
    assert!(matches!(action, SyncAction::PostCommit));
    let (_, action) = sync_step(pass, SyncEvent::PostCommitted(Ok(())));
    assert!(matches!(action, SyncAction::Finish(Ok(_))));

    let (pass, action) = sync_step(publishing(), SyncEvent::Published(Err(GroupError::MissingPendingCommit)));
    assert!(matches!(action, SyncAction::Receive));
    let (pass, action) = sync_step(pass, SyncEvent::Received(Err(GroupError::InvalidGroupMembership)));
    assert!(matches!(action, SyncAction::PostCommit));
    let (_, action) = sync_step(pass, SyncEvent::PostCommitted(Err(GroupError::NoWelcomesToSend)));
    let SyncAction::Finish(Err(summary)) = action else { panic!("no failure") };
    assert_eq!(summary.publish_errors.len(), 1);
    assert_eq!(summary.other.len(), 1);
    assert_eq!(summary.post_commit_errors.len(), 1);
}

#[test]
fn inactive_and_paused_groups_are_not_synced() {
    let (pass, _) = group().sync_with_conn();
    let (_, action) = sync_step(pass, SyncEvent::Active(Ok(false)));
    let SyncAction::Finish(Err(inactive)) = action else { panic!("synced") };
    assert!(matches!(inactive.other[0], GroupError::GroupInactive));
    let (pass, _) = group().sync_with_conn();
    let (pass, _) = sync_step(pass, SyncEvent::Active(Ok(true)));
    let paused = GroupError::GroupPausedUntilUpdate("2".to_string());
    let (_, action) = sync_step(pass, SyncEvent::Pause(Err(paused)));
    let SyncAction::Finish(Ok(summary)) = action else { panic!("failed") };
    assert!(!summary.is_errored());
    let (pass, _) = group().sync_with_conn();
    let (pass, _) = sync_step(pass, SyncEvent::Active(Ok(true)));
    let (_, action) = sync_step(pass, SyncEvent::Pause(Err(GroupError::LockUnavailable)));
    assert!(matches!(action, SyncAction::Finish(Err(_))));
}

fn stitched_row(id: u8) -> StoredGroup {
    StoredGroup {
        id: vec![id],
        created_at_ns: 1,
        membership_state: GroupMembershipState::Allowed,
        added_by_inbox_id: "bo".to_string(),
        conversation_type: ConversationType::Dm,
        dm_id: Some("dm".to_string()),
        message_disappear_from_ns: None,
        message_disappear_in_ns: None,
        should_publish_commit_log: false,
        sequence_id: None,
        originator_id: None,
        maybe_forked: false,
        fork_details: String::new(),
        is_commit_log_forked: None,
    }
}

#[test]
fn stitched_conversations_are_synced_first() {
    let dm = group();
    let (phase, action) = dm.sync();
    assert!(matches!(action, ConversationSyncAction::LoadEpoch));
    let (phase, action) = dm.conversation_step(phase, ConversationSyncEvent::Epoch(Ok(4)));
    assert!(matches!(action, ConversationSyncAction::ListOthers));
    let rows = vec![stitched_row(5)];
    let (phase, action) = dm.conversation_step(phase, ConversationSyncEvent::Others(Ok(rows)));
    assert!(matches!(action, ConversationSyncAction::SyncOther { index: 0 }));
    match &phase {
        ConversationSyncPhase::SyncingOther { others, .. } => assert_eq!(others[0].group_id, vec![5]),
        other => panic!("{other:?}"),
    }
    let (phase, action) = dm.conversation_step(phase, ConversationSyncEvent::Synced(Ok(SyncSummary::new())));
    assert!(matches!(action, ConversationSyncAction::UpdateOther { index: 0 }));
    let (phase, action) = dm.conversation_step(phase, ConversationSyncEvent::InstallationsUpdated(Ok(())));
    assert!(matches!(action, ConversationSyncAction::SyncOwn));
    let (phase, action) = dm.conversation_step(phase, ConversationSyncEvent::Synced(Ok(SyncSummary::new())));
    assert!(matches!(action, ConversationSyncAction::UpdateOwn));
    let (_, action) = dm.conversation_step(phase, ConversationSyncEvent::InstallationsUpdated(Ok(())));
    assert!(matches!(action, ConversationSyncAction::Finish(Ok(_))));
    let failed = SyncSummary::other(GroupError::GroupInactive);
    let (_, action) =
        dm.conversation_step(ConversationSyncPhase::SyncingOwn, ConversationSyncEvent::Synced(Err(failed)));
    assert!(matches!(action, ConversationSyncAction::Finish(Err(GroupError::Sync(_)))));
}

#[test]
fn deferred_events_leave_in_order() {
    let mut events: DeferredEvents<u8> = DeferredEvents::new();
    events.add_local_event(LocalEvents::NewGroup(vec![1]));
    events.add_worker_event(SyncWorkerEvent::NewSyncGroupMsg);
    events.add_worker_event(SyncWorkerEvent::CycleHMAC);
    let sent = events.send_all();
    assert_eq!(sent.len(), 3);
    assert!(matches!(sent[0], DeferredEvent::Worker(SyncWorkerEvent::NewSyncGroupMsg)));
    assert!(matches!(sent[1], DeferredEvent::Worker(SyncWorkerEvent::CycleHMAC)));
    assert!(matches!(&sent[2], DeferredEvent::Local(LocalEvents::NewGroup(id)) if *id == vec![1]));
    assert!(events.send_all().is_empty());
}

fn installation(key: u8, follows_pointers: bool) -> Installation {
    Installation {
        installation_key: vec![key],
        hpke_public_key: vec![key, key],
        welcome_wrapper_algorithm: 1,
        follows_pointers,
    }
}

fn limits(pointer_threshold: usize, payload_limit: usize) -> WelcomeLimits {
    WelcomeLimits { pointer_threshold, payload_limit, max_group_size: 10, symmetric_algorithm: 3 }
}

/// Wraps a welcome of seven bytes for each installation, and gives the requests and the forms used.
fn wrap_all(start: (WelcomePass, WelcomeAction)) -> (Vec<Vec<WelcomeMessageInput>>, Vec<WelcomeForm>) {
    let (mut pass, mut action) = start;
    let mut forms: Vec<WelcomeForm> = Vec::new();
    loop {
        match action {
            WelcomeAction::Wrap { form, .. } => {
                forms.push(form);
                let next = send_welcomes_step(pass, WelcomeEvent::Wrapped(Ok((vec![0; 7], vec![]))));
                pass = next.0;
                action = next.1;
            }
            WelcomeAction::Send(requests) => return (requests, forms),
            other => panic!("{other:?}"),
        }
    }
}

fn direct(n: u8, payload_limit: usize) -> Vec<usize> {
    let installations: Vec<Installation> = (0..n).map(|i| installation(i, false)).collect();
    let (pass, action) = group().send_welcomes(installations, Some(7), limits(5, payload_limit));
    assert!(matches!(action, WelcomeAction::CheckRemoval));
    assert_eq!(pass.metadata.message_cursor, 7);
    let start = send_welcomes_step(pass, WelcomeEvent::RemovalChecked(Ok(false)));
    let (requests, forms) = wrap_all(start);
    assert!(forms.iter().all(|f| *f == WelcomeForm::Direct));
    requests.iter().map(|r| r.len()).collect()
}

#[test]
fn pointers_are_used_above_the_threshold() {
    let installations = || vec![installation(1, true), installation(2, false), installation(3, true)];
    let (pass, _) = group().send_welcomes(installations(), None, limits(1, 1000));
    assert!(pass.uses_pointer);
    assert_eq!(pass.metadata.message_cursor, 0);
    let (pass, action) = send_welcomes_step(pass, WelcomeEvent::RemovalChecked(Ok(true)));
    assert!(matches!(action, WelcomeAction::DrawSecrets));
    assert!(pass.metadata.added_by_inbox_is_pending_remove);
    let same = WelcomeEvent::SecretsDrawn { data_nonce: vec![1], metadata_nonce: vec![1] };
    let (pass, action) = send_welcomes_step(pass, same);
    assert!(matches!(action, WelcomeAction::RedrawNonce));
    let (pass, action) = send_welcomes_step(pass, WelcomeEvent::NonceDrawn(vec![1]));
    assert!(matches!(action, WelcomeAction::RedrawNonce));
    let (pass, action) = send_welcomes_step(pass, WelcomeEvent::NonceDrawn(vec![2]));
    assert!(matches!(action, WelcomeAction::WrapShared));
    let shared = SharedWelcome { destination: vec![9], data: vec![1], welcome_metadata: vec![2] };
    let (requests, forms) = wrap_all(send_welcomes_step(pass, WelcomeEvent::SharedWrapped(Ok(shared))));
    assert_eq!(forms, vec![WelcomeForm::Pointer, WelcomeForm::Direct, WelcomeForm::Pointer]);
    assert_eq!(requests.len(), 1);
    assert_eq!(requests[0].len(), 4);
    match &requests[0][0] {
        WelcomeMessageInput::V1 { installation_key, hpke_public_key, wrapper_algorithm, .. } => {
            assert_eq!(*installation_key, vec![9]);
            assert!(hpke_public_key.is_empty());
            assert_eq!(*wrapper_algorithm, 3);
        }
        other => panic!("{other:?}"),
    }
    assert!(matches!(
        &requests[0][1],
        WelcomeMessageInput::WelcomePointer { installation_key, .. } if *installation_key == vec![1]
    ));
    assert!(matches!(&requests[0][2], WelcomeMessageInput::V1 { installation_key, .. } if *installation_key == vec![2]));
    let (pass, _) = group().send_welcomes(installations(), None, limits(2, 1000));
    assert!(!pass.uses_pointer);
}

#[test]
fn welcomes_are_sent_in_requests_that_fit() {
    // each welcome takes 1 + 7 + 2 bytes
    assert_eq!(direct(5, 25), vec![2, 2, 1]);
    assert_eq!(direct(120, 1_000_000), vec![50, 50, 20]);
    assert_eq!(direct(2, 1), vec![1, 1]);
    let (pass, _) = group().send_welcomes(Vec::new(), None, limits(1, 1000));
    let (_, action) = send_welcomes_step(pass, WelcomeEvent::RemovalChecked(Ok(false)));
    assert!(matches!(action, WelcomeAction::Finish(Err(GroupError::NoWelcomesToSend))));
    let (pass, _) = group().send_welcomes(vec![installation(1, false)], None, limits(1, 1000));
    let (pass, _) = send_welcomes_step(pass, WelcomeEvent::RemovalChecked(Ok(false)));
    let failed = WelcomeEvent::Wrapped(Err(GroupError::External(failure(false))));
    let (_, action) = send_welcomes_step(pass, failed);
    assert!(matches!(action, WelcomeAction::Finish(Err(GroupError::External(_)))));
}
