//! Keeping the devices of a user in step.

use xmtp_mls::device_sync::archive_receive::{process_archive_step, ArchiveAction};
use xmtp_mls::device_sync::catalog::{find_requested_archive_reply, ArchiveSearch, NS_IN_DAY};
use xmtp_mls::device_sync::client::DeviceSyncClient;
use xmtp_mls::device_sync::content::{iter_with_content, DeviceSyncReply, DeviceSyncRequest, SyncContent};
use xmtp_mls::device_sync::error::{ClientError, ConversionError, DeviceSyncError};
use xmtp_mls::device_sync::inbound::{
    process_message_step, process_sync_group_messages_step, InboundAction, InboundEvent, MessageRecord,
    MessagesAction, MessagesEvent,
};
use xmtp_mls::device_sync::lifecycle::{SyncMetric, SyncWorker, WorkerAction, WorkerEvent, WorkerStep};
use xmtp_mls::device_sync::outbound::{
    send_archive_step, send_sync_archive_step, send_sync_request_step, ArchiveSendAction, ArchiveSendEvent,
    BackupElementSelection, OutboundAction, OutboundEvent,
};
use xmtp_mls::device_sync::sync_group::{
    add_new_installation_step, get_sync_group_step, send_device_sync_message_step, NewDeviceAction, NewDeviceEvent,
    SendSyncAction, SendSyncEvent, SyncGroupAction, SyncGroupEvent,
};
use xmtp_mls::error::ExternalError;
use xmtp_mls::groups::error::GroupError;
use xmtp_mls::groups::group::MlsGroup;
use xmtp_mls::groups::message_fields::QueryableContentFields;
use xmtp_mls::groups::summary::SyncSummary;
use xmtp_mls::records::{
    ConsentState, ConsentType, ConversationType, GroupMembershipState, PreferenceUpdate, StoredConsentRecord,
    StoredGroup, StoredGroupMessage,
};
use xmtp_mls::subscriptions::events::SyncWorkerEvent;

fn client() -> DeviceSyncClient {
    DeviceSyncClient::new("alix".to_string(), vec![1])
}

fn message(installation: u8, sent_at_ns: i64) -> StoredGroupMessage {
    let sync_group = MlsGroup::new(vec![7], None, ConversationType::Sync, 0);
    let fields = QueryableContentFields::default();
    sync_group.prepare_message_for_later_publish(b"x", vec![2], sent_at_ns, fields, &[installation], "alix", 10, false)
}

fn request(pin: &str) -> SyncContent {
    SyncContent::Request(DeviceSyncRequest {
        pin: pin.to_string(),
        options: Some(vec![5]),
        server_url: "http://host".to_string(),
    })
}

fn reply(pin: &str) -> DeviceSyncReply {
    DeviceSyncReply {
        request_id: pin.to_string(),
        url: "http://host/files/f1".to_string(),
        encryption_key: Some(vec![8]),
        metadata: Some(vec![9]),
        has_kind: false,
    }
}

#[test]
fn requests_of_other_devices_are_scheduled() {
    let (phase, action) = client().process_message(&message(2, 0), request("12345"));
    match action {
        InboundAction::Schedule(task) => {
            assert_eq!(task.pin, "12345");
            assert_eq!(task.sync_group_id, vec![7]);
            assert_eq!(task.originator_id, 10);
            assert_eq!(task.server_url, "http://host");
        }
        other => panic!("unexpected {other:?}"),
    }
    let (phase, action) = process_message_step(phase, InboundEvent::Passed(Ok(())));
    assert!(matches!(action, InboundAction::MarkProcessed));
    let (_, action) = process_message_step(phase, InboundEvent::Passed(Ok(())));
    assert!(matches!(
        action,
        InboundAction::Finish { result: Ok(()), metric: Some(SyncMetric::PayloadTaskScheduled), announce: None }
    ));
    let (_, action) = client().process_message(&message(1, 0), request("12345"));
    assert!(matches!(action, InboundAction::Finish { result: Ok(()), metric: None, announce: None }));
}

#[test]
fn only_requested_archives_are_imported() {
    let own = vec![(message(1, 0), request("12345")), (message(2, 0), request("99999"))];
    assert!(client().is_reply_requested_by_installation(&own, &reply("12345")));
    assert!(!client().is_reply_requested_by_installation(&own, &reply("99999")));
    let (phase, action) = client().process_message(&message(2, 0), SyncContent::Reply(reply("12345")));
    assert!(matches!(action, InboundAction::CheckRequested));
    let (phase, action) = process_message_step(phase, InboundEvent::Requested(Ok(true)));
    assert!(matches!(action, InboundAction::Import(r) if r.request_id == "12345"));
    let (_, action) = process_message_step(phase, InboundEvent::Passed(Ok(())));
    assert!(matches!(action, InboundAction::Finish { metric: Some(SyncMetric::PayloadProcessed), .. }));
    let (phase, _) = client().process_message(&message(2, 0), SyncContent::Reply(reply("12345")));
    let (_, action) = process_message_step(phase, InboundEvent::Requested(Ok(false)));
    assert!(matches!(action, InboundAction::Finish { result: Ok(()), metric: Some(SyncMetric::PayloadProcessed), .. }));
}

#[test]
fn changed_preferences_are_announced() {
    let (phase, action) = client().process_message(&message(1, 0), SyncContent::PreferenceUpdates(vec![vec![3]]));
    assert!(matches!(action, InboundAction::StorePreferences(u) if u == vec![vec![3]]));
    let updates = vec![PreferenceUpdate::Hmac { key: vec![1], cycled_at_ns: 2 }];
    let (_, action) = process_message_step(phase, InboundEvent::Stored(Ok(updates)));
    assert!(matches!(action, InboundAction::Finish { announce: Some(u), .. } if u.len() == 1));
    let (phase, _) = client().process_message(&message(1, 0), SyncContent::PreferenceUpdates(vec![]));
    let (_, action) = process_message_step(phase, InboundEvent::Stored(Ok(vec![])));
    assert!(matches!(action, InboundAction::Finish { announce: None, .. }));
}

#[test]
fn a_message_that_fails_is_tried_again_later() {
    let messages = vec![
        (message(2, 1), Some(SyncContent::Acknowledge)),
        (message(2, 2), None),
        (message(2, 3), Some(SyncContent::Acknowledge)),
    ];
    let (pass, action) = client().process_sync_group_messages(messages);
    assert!(matches!(action, MessagesAction::Process { message, .. } if message.sent_at_ns == 1));
    let failed = MessagesEvent::Processed(Err(DeviceSyncError::NoPendingRequest));
    let (pass, action) = process_sync_group_messages_step(pass, failed);
    match action {
        MessagesAction::Record { message_id, record } => {
            assert_eq!(message_id, vec![2]);
            assert_eq!(record, MessageRecord::Attempted { max_attempts: 3 });
        }
        other => panic!("{other:?}"),
    }
    let (pass, action) = process_sync_group_messages_step(pass, MessagesEvent::Recorded(Ok(())));
    assert!(matches!(action, MessagesAction::Process { message, .. } if message.sent_at_ns == 3));
    let (pass, action) = process_sync_group_messages_step(pass, MessagesEvent::Processed(Ok(())));
    assert!(matches!(action, MessagesAction::Record { record: MessageRecord::Processed, .. }));
    let (_, action) = process_sync_group_messages_step(pass, MessagesEvent::Recorded(Ok(())));
    assert!(matches!(action, MessagesAction::Finish(Ok(()))));
    let (pass, _) = client().process_sync_group_messages(vec![(message(2, 1), Some(SyncContent::Acknowledge))]);
    let (pass, _) = process_sync_group_messages_step(pass, MessagesEvent::Processed(Ok(())));
    let failed = MessagesEvent::Recorded(Err(DeviceSyncError::MissingSyncGroup));
    let (_, action) = process_sync_group_messages_step(pass, failed);
    assert!(matches!(action, MessagesAction::Finish(Err(DeviceSyncError::MissingSyncGroup))));
}

#[test]
fn archives_are_downloaded_and_opened_with_their_key() {
    let (phase, action) = client().process_archive(reply("1"));
    assert!(matches!(action, ArchiveAction::SyncWelcomes));
    let (phase, action) = process_archive_step(phase, Ok(()));
    assert!(matches!(action, ArchiveAction::Download { url } if url == "http://host/files/f1"));
    let (phase, action) = process_archive_step(phase, Ok(()));
    assert!(matches!(action, ArchiveAction::Import { key } if key == vec![8]));
    let (phase, action) = process_archive_step(phase, Ok(()));
    assert!(matches!(action, ArchiveAction::Finish(Ok(()))));
    assert!(matches!(process_archive_step(phase, Ok(())).1, ArchiveAction::Ignore));

    let mut keyless = reply("1");
    keyless.encryption_key = None;
    let (phase, _) = client().process_archive(keyless);
    let (phase, _) = process_archive_step(phase, Ok(()));
    assert!(matches!(
        process_archive_step(phase, Ok(())).1,
        ArchiveAction::Finish(Err(DeviceSyncError::ProtoConversion(ConversionError::Unspecified(f)))) if f == "encryption_key"
    ));
    let mut earlier = reply("1");
    earlier.has_kind = true;
    assert!(matches!(client().process_archive(earlier).1, ArchiveAction::Finish(Ok(()))));
}

#[test]
fn archives_are_found_page_by_page() {
    let page = || {
        vec![
            (message(2, 50), None),
            (message(2, 40), Some(request("1"))),
            (message(2, 30), Some(SyncContent::Reply(reply("1")))),
            (message(2, 20), Some(SyncContent::Reply(reply("2")))),
        ]
    };
    assert!(matches!(find_requested_archive_reply(page(), 0, None), ArchiveSearch::Found(m, _) if m.sent_at_ns == 30));
    assert!(matches!(find_requested_archive_reply(page(), 0, Some("2")), ArchiveSearch::Found(m, _) if m.sent_at_ns == 20));
    let missing = find_requested_archive_reply(page(), 100, Some("3"));
    assert!(matches!(missing, ArchiveSearch::NextPage(104)));
    assert!(matches!(find_requested_archive_reply(vec![], 104, Some("3")), ArchiveSearch::NotFound));
    assert!(matches!(
        client().process_archive_with_pin(ArchiveSearch::NotFound, Some("3")),
        Err(DeviceSyncError::MissingPayload(Some(pin))) if pin == "3"
    ));
    assert_eq!(iter_with_content(page()).len(), 3);

    let mut listing = client().list_available_archives(2 * NS_IN_DAY + 25, 2);
    assert_eq!(listing.cutoff, 25);
    assert!(!listing.list_available_archives_from_db(page()));
    assert_eq!(listing.archives.len(), 1);
    assert_eq!(listing.archives[0].pin, "1");
    assert_eq!(listing.archives[0].sent_by_installation, vec![2]);
    assert_eq!(listing.offset, 4);
    let mut all = client().list_available_archives(0, 0);
    assert!(all.list_available_archives_from_db(page()));
    assert_eq!(all.archives.len(), 2);
    assert!(!all.list_available_archives_from_db(vec![]));
}

#[test]
fn searches_and_lists_go_over_all_pages() {
    let stored = |at: usize| {
        let content = match at {
            120 => Some(SyncContent::Reply(reply("1"))),
            130 | 215 => Some(SyncContent::Reply(reply("2"))),
            _ => None,
        };
        (message(2, 1000 - at as i64), content)
    };
    let page = |offset: i64| (offset as usize..220.min(offset as usize + 100)).map(stored).collect::<Vec<_>>();
    let search = |pin: Option<&str>| {
        let mut offset = 0;
        loop {
            match find_requested_archive_reply(page(offset), offset, pin) {
                ArchiveSearch::NextPage(next) => offset = next,
                ArchiveSearch::Found(m, _) => return Some(m.sent_at_ns),
                ArchiveSearch::NotFound => return None,
            }
        }
    };
    assert_eq!(search(None), Some(880));
    assert_eq!(search(Some("2")), Some(870));
    assert_eq!(search(Some("3")), None);
    let list = |cutoff: i64| {
        let mut listing = client().list_available_archives(cutoff, 0);
        while listing.list_available_archives_from_db(page(listing.offset)) {}
        listing.archives.iter().map(|a| a.pin.clone()).collect::<Vec<_>>()
    };
    assert_eq!(list(0), vec!["1", "2", "2"]);
    assert_eq!(list(800), vec!["1", "2"]);
}

#[test]
fn archives_are_uploaded_and_counted() {
    let elements = vec![BackupElementSelection::Messages, BackupElementSelection::Consent];
    let host = || "http://host".to_string();
    let (phase, action) = client().send_archive(elements, "1".to_string(), host(), vec![8], vec![9]);
    assert!(matches!(action, ArchiveSendAction::Upload { url } if url == "http://host/upload"));
    let (phase, action) = send_archive_step(phase, ArchiveSendEvent::Uploaded(Ok("f1".to_string())));
    match action {
        ArchiveSendAction::Send(r) => {
            assert_eq!(r.request_id, "1");
            assert_eq!(r.url, "http://host/files/f1");
            assert_eq!(r.encryption_key, Some(vec![8]));
            assert_eq!(r.metadata, Some(vec![9]));
            assert!(!r.has_kind);
        }
        other => panic!("{other:?}"),
    }
    match send_archive_step(phase, ArchiveSendEvent::Sent(Ok(()))).1 {
        ArchiveSendAction::Finish { result: Ok(()), metrics } => assert_eq!(
            metrics,
            vec![SyncMetric::ConsentPayloadSent, SyncMetric::MessagesPayloadSent, SyncMetric::PayloadSent]
        ),
        other => panic!("{other:?}"),
    }
    let (phase, _) =
        client().send_archive(vec![BackupElementSelection::Event], "1".to_string(), host(), vec![8], vec![9]);
    let (phase, _) = send_archive_step(phase, ArchiveSendEvent::Uploaded(Ok("f1".to_string())));
    match send_archive_step(phase, ArchiveSendEvent::Sent(Err(DeviceSyncError::MissingSyncGroup))).1 {
        ArchiveSendAction::Finish { result: Err(_), metrics } => assert!(metrics.is_empty()),
        other => panic!("{other:?}"),
    }
}

#[test]
fn requests_are_sent_to_a_synced_group() {
    let (phase, action) = client().send_sync_request("12345".to_string(), vec![1], "http://host".to_string());
    assert!(matches!(action, OutboundAction::GetGroup));
    let (phase, action) = send_sync_request_step(phase, OutboundEvent::Got(Ok(())));
    assert!(matches!(action, OutboundAction::Sync));
    let (phase, action) = send_sync_request_step(phase, OutboundEvent::Synced(Ok(SyncSummary::new())));
    match action {
        OutboundAction::Send(asked) => {
            assert_eq!(asked.pin, "12345");
            assert_eq!(asked.options, Some(vec![1]));
            assert_eq!(asked.server_url, "http://host");
        }
        other => panic!("{other:?}"),
    }
    let (_, action) = send_sync_request_step(phase, OutboundEvent::Sent(Ok(())));
    assert!(matches!(action, OutboundAction::Finish { result: Ok(()), metric: Some(SyncMetric::RequestSent) }));

    let (phase, _) = client().send_sync_archive(vec![1], "http://host".to_string(), "5".to_string());
    let (phase, _) = send_sync_archive_step(phase, OutboundEvent::Got(Ok(())));
    let (phase, action) = send_sync_archive_step(phase, OutboundEvent::Synced(Ok(SyncSummary::new())));
    assert!(matches!(action, OutboundAction::Send(order) if order.pin == "5"));
    let (_, action) = send_sync_archive_step(phase, OutboundEvent::Sent(Err(DeviceSyncError::MissingSyncGroup)));
    assert!(matches!(
        action,
        OutboundAction::Finish { result: Err(ClientError::Group(GroupError::DeviceSync(_))), metric: None }
    ));
}

fn sync_group() -> MlsGroup {
    MlsGroup::new(vec![7], None, ConversationType::Sync, 0)
}

#[test]
fn messages_between_devices_are_not_pushed() {
    let (phase, action) = client().send_device_sync_message(SyncContent::PreferenceUpdates(vec![vec![3]]));
    assert!(matches!(action, SendSyncAction::GetGroup));
    let (phase, action) = send_device_sync_message_step(phase, SendSyncEvent::Got(Ok(sync_group())));
    assert!(matches!(
        action,
        SendSyncAction::Encode(SyncContent::PreferenceUpdates(updates)) if updates == vec![vec![3]]
    ));
    let (phase, action) = send_device_sync_message_step(phase, SendSyncEvent::Encoded(Ok(vec![1])));
    match action {
        SendSyncAction::Prepare { group, content_type, content, should_push } => {
            assert_eq!(group.group_id, vec![7]);
            assert_eq!(content_type.authority_id, "xmtp.org");
            assert_eq!(content_type.type_id, "application/x-protobuf");
            assert_eq!((content_type.version_major, content_type.version_minor), (1, 0));
            assert_eq!(content, vec![1]);
            assert!(!should_push);
        }
        other => panic!("{other:?}"),
    }
    let (phase, action) = send_device_sync_message_step(phase, SendSyncEvent::Prepared(Ok(vec![4])));
    assert!(matches!(action, SendSyncAction::Wait));
    let (_, action) = send_device_sync_message_step(phase, SendSyncEvent::Resolved(Ok(SyncSummary::new())));
    match action {
        SendSyncAction::Finish { result: Ok(id), announce: Some(SyncWorkerEvent::NewSyncGroupMsg) } => {
            assert_eq!(id, vec![4])
        }
        other => panic!("{other:?}"),
    }
    let (phase, _) = client().send_device_sync_message(SyncContent::PreferenceUpdates(vec![vec![3]]));
    let (phase, _) = send_device_sync_message_step(phase, SendSyncEvent::Got(Ok(sync_group())));
    let (_, action) = send_device_sync_message_step(phase, SendSyncEvent::Encoded(Err("full".to_string())));
    assert!(matches!(
        action,
        SendSyncAction::Finish { result: Err(ClientError::Generic(text)), announce: None } if text == "full"
    ));
}

fn row(id: u8) -> StoredGroup {
    StoredGroup {
        id: vec![id],
        created_at_ns: 1,
        membership_state: GroupMembershipState::Allowed,
        added_by_inbox_id: "alix".to_string(),
        conversation_type: ConversationType::Sync,
        dm_id: None,
        message_disappear_from_ns: None,
        message_disappear_in_ns: None,
        should_publish_commit_log: false,
        sequence_id: None,
        originator_id: None,
        maybe_forked: false,
        fork_details: String::new(),
        is_commit_log_forked: None,
    }
}

#[test]
fn the_group_between_devices_is_created_once() {
    let (phase, action) = client().get_sync_group();
    assert!(matches!(action, SyncGroupAction::LookUp));
    let (phase, action) = get_sync_group_step(phase, SyncGroupEvent::Found(Ok(Some(row(7)))));
    assert!(matches!(action, SyncGroupAction::Load { group_id } if group_id == vec![7]));
    let (_, action) = get_sync_group_step(phase, SyncGroupEvent::Got(Ok(sync_group())));
    assert!(matches!(action, SyncGroupAction::Finish { result: Ok(_), metric: None }));
    let (phase, _) = client().get_sync_group();
    let (phase, action) = get_sync_group_step(phase, SyncGroupEvent::Found(Ok(None)));
    assert!(matches!(action, SyncGroupAction::Create { conversation_type: ConversationType::Sync }));
    let (phase, action) = get_sync_group_step(phase, SyncGroupEvent::Got(Ok(sync_group())));
    assert!(matches!(action, SyncGroupAction::AddDevices));
    let (phase, action) = get_sync_group_step(phase, SyncGroupEvent::DevicesAdded(Ok(())));
    assert!(matches!(action, SyncGroupAction::Sync));
    let (_, action) = get_sync_group_step(phase, SyncGroupEvent::Synced(Ok(SyncSummary::new())));
    assert!(matches!(
        action,
        SyncGroupAction::Finish { result: Ok(_), metric: Some(SyncMetric::SyncGroupCreated) }
    ));
}

fn listening() -> SyncWorker {
    let step = SyncWorker::new(client()).run();
    assert!(matches!(step.action, WorkerAction::LookUpPrimary));
    let step = step.worker.run_internal(WorkerEvent::PrimaryFound(Ok(Some(row(7)))));
    assert_eq!(step.counted, vec![SyncMetric::Init]);
    assert!(matches!(step.action, WorkerAction::Receive));
    step.worker
}

fn receive(event: SyncWorkerEvent) -> WorkerStep {
    listening().run_internal(WorkerEvent::Received(Some(event)))
}

#[test]
fn the_worker_has_a_job_for_every_event() {
    let step = receive(SyncWorkerEvent::NewSyncGroupFromWelcome(vec![1]));
    assert!(matches!(step.action, WorkerAction::AddDeviceToGroups));
    let step = step.worker.run_internal(WorkerEvent::DeviceAdded(Ok(())));
    assert_eq!(step.counted, vec![SyncMetric::SyncGroupWelcomesProcessed]);
    assert!(matches!(step.action, WorkerAction::CycleHmac));
    let step = step.worker.run_internal(WorkerEvent::HmacCycled(Ok(())));
    assert!(matches!(step.action, WorkerAction::Receive));

    for event in [SyncWorkerEvent::NewSyncGroupMsg, SyncWorkerEvent::Tick] {
        let step = receive(event);
        assert!(matches!(step.action, WorkerAction::LoadMessages));
        let step = step.worker.run_internal(WorkerEvent::MessagesLoaded(Ok(vec![(message(2, 1), None)])));
        assert!(matches!(step.action, WorkerAction::ProcessMessages(m) if m.len() == 1));
        let step = step.worker.run_internal(WorkerEvent::MessagesProcessed(Err(DeviceSyncError::MissingSyncGroup)));
        assert!(matches!(step.action, WorkerAction::Finish(Err(DeviceSyncError::MissingSyncGroup))));
    }

    assert!(matches!(receive(SyncWorkerEvent::CycleHMAC).action, WorkerAction::CycleHmac));
    let record = StoredConsentRecord {
        entity_type: ConsentType::InboxId,
        state: ConsentState::Allowed,
        entity: "bo".to_string(),
        consented_at_ns: 1,
    };
    let updates =
        vec![PreferenceUpdate::Hmac { key: vec![], cycled_at_ns: 0 }, PreferenceUpdate::Consent(record)];
    let step = receive(SyncWorkerEvent::SyncPreferences(Vec::new()));
    assert!(matches!(step.action, WorkerAction::SyncPreferences(_)));
    let step = step.worker.run_internal(WorkerEvent::PreferencesSynced(Ok(updates)));
    assert_eq!(step.counted, vec![SyncMetric::HmacSent, SyncMetric::ConsentSent]);
    let step = step.worker.run_internal(WorkerEvent::Received(None));
    assert!(matches!(step.action, WorkerAction::Finish(Ok(()))));
}

#[test]
fn the_worker_gets_a_group_between_devices_first() {
    let step = SyncWorker::new(client()).run();
    let step = step.worker.run_internal(WorkerEvent::PrimaryFound(Ok(None)));
    assert!(matches!(step.action, WorkerAction::GetSyncGroup));
    assert!(!step.worker.initialized);
    let step = step.worker.run_internal(WorkerEvent::GroupGot(Ok(())));
    assert_eq!(step.counted, vec![SyncMetric::Init]);
    assert!(step.worker.initialized);
    let again = step.worker.run();
    assert!(matches!(again.action, WorkerAction::Receive));
}

#[test]
fn new_devices_join_recent_groups() {
    let (phase, action) = client().add_new_installation_to_groups(100 * NS_IN_DAY);
    match action {
        NewDeviceAction::FindGroups(selection) => {
            assert_eq!(selection.last_activity_after_ns, 10 * NS_IN_DAY);
            assert_eq!(selection.consent_states, vec![ConsentState::Allowed, ConsentState::Unknown]);
        }
        other => panic!("{other:?}"),
    }
    let group = |id| MlsGroup::new(vec![id], None, ConversationType::Group, 40 + id as i64);
    let found = NewDeviceEvent::Found(Ok(vec![group(1), group(2), group(1)]));
    let (phase, action) = add_new_installation_step(phase, found);
    assert!(matches!(
        action,
        NewDeviceAction::QueueUpdates(groups)
            if groups.len() == 2 && groups.iter().all(|g| g.created_at_ns == 40 + g.group_id[0] as i64)
    ));
    let (phase, action) = add_new_installation_step(phase, NewDeviceEvent::Queued(Ok(Vec::new())));
    assert!(matches!(action, NewDeviceAction::SyncIntents { at_a_time: 10, .. }));
    let (_, action) = add_new_installation_step(phase, NewDeviceEvent::Synced(Ok(())));
    assert!(matches!(action, NewDeviceAction::Finish(Ok(()))));
    assert_eq!(client().inbox_id(), "alix");
    assert_eq!(client().installation_id(), vec![1]);
}

#[test]
fn some_failures_are_final() {
    assert!(!DeviceSyncError::AlreadyAcknowledged.is_retryable());
    assert!(!DeviceSyncError::MissingSyncGroup.is_retryable());
    assert!(DeviceSyncError::InvalidPayload.is_retryable());
    let error = ExternalError { retryable: false, message: String::new() };
    assert!(DeviceSyncError::Client { error, db_needs_connection: true }.needs_db_reconnect());
    assert!(!DeviceSyncError::AesGcm.needs_db_reconnect());
}
