//! Streams of conversations and messages, and the events that feed them.

use xmtp_mls::byte_map::ByteMap;
use xmtp_mls::error::ExternalError;
use xmtp_mls::groups::group::MlsGroup;
use xmtp_mls::records::{
    ConsentState, ConsentType, ContentType, ConversationType, Cursor, DeliveryStatus, GlobalCursor,
    GroupMembershipState, GroupMessageKind, PreferenceUpdate, StoredConsentRecord, StoredGroup, StoredGroupMessage,
};
use xmtp_mls::subscriptions::error::{ConversationStreamError, MessageStreamError, SubscribeError};
use xmtp_mls::subscriptions::events::{
    affected_conversation_ids_for_preference, affected_conversations, preference_lookup, preference_updates_event,
    FoundConversation, LocalEventError, LocalEvents, PreferenceLookup,
};
use xmtp_mls::subscriptions::facade::StreamedWelcomes;
use xmtp_mls::subscriptions::process_welcome::{
    load_from_store, welcome_cursor, GroupFacts, ProcessWelcomeFuture, ProcessWelcomeResult, WelcomeAction,
    WelcomeEvent, WelcomeFilterConfig, WelcomeMessage, WelcomeOrGroup, WelcomeOutcome,
};
use xmtp_mls::subscriptions::stream_all::{
    include_sync_groups, load_stream_bootstrap, message_matches_consent_filter, AllAction, AllEvent, ConsentFacts,
    StreamAllMessages,
};
use xmtp_mls::subscriptions::stream_conversations::{
    subscription_item, BroadcastGroupStream, BroadcastStep, ConversationStep, Polled, StreamConversations,
};
use xmtp_mls::subscriptions::stream_messages::{
    IncomingMessage, ProcessedMessage, StreamAction, StreamGroupMessages, StreamState,
};

fn row(id: &[u8], conversation_type: ConversationType, dm_id: Option<&str>) -> StoredGroup {
    StoredGroup {
        id: id.to_vec(),
        created_at_ns: 1,
        membership_state: GroupMembershipState::Allowed,
        added_by_inbox_id: "bo".to_string(),
        conversation_type,
        dm_id: dm_id.map(|d| d.to_string()),
        message_disappear_from_ns: None,
        message_disappear_in_ns: None,
        should_publish_commit_log: false,
        sequence_id: Some(4),
        originator_id: Some(11),
        maybe_forked: false,
        fork_details: String::new(),
        is_commit_log_forked: None,
    }
}

fn record(entity_type: ConsentType, state: ConsentState, entity: &str) -> StoredConsentRecord {
    StoredConsentRecord { entity_type, state, entity: entity.to_string(), consented_at_ns: 77 }
}

fn cursor(sequence_id: u64) -> Cursor {
    Cursor { sequence_id, originator_id: 11 }
}

fn group(id: u8, conversation_type: ConversationType) -> MlsGroup {
    MlsGroup::new(vec![id], None, conversation_type, 0)
}

fn facts(t: ConversationType, has_duplicate: bool, consent: ConsentState) -> GroupFacts {
    GroupFacts { conversation_type: Ok(t), has_duplicate_dm: Ok(has_duplicate), consent_state: Ok(consent) }
}

fn message(group_id: u8, sequence_id: i64, content: &[u8]) -> StoredGroupMessage {
    StoredGroupMessage {
        id: vec![group_id, sequence_id as u8],
        group_id: vec![group_id],
        decrypted_message_bytes: content.to_vec(),
        sent_at_ns: 100,
        kind: GroupMessageKind::Application,
        sender_installation_id: vec![1],
        sender_inbox_id: "bo".to_string(),
        delivery_status: DeliveryStatus::Published,
        content_type: ContentType::Text,
        version_major: 1,
        version_minor: 0,
        authority_id: "xmtp.org".to_string(),
        reference_id: None,
        sequence_id,
        originator_id: 10,
        expire_at_ns: None,
        inserted_at_ns: 0,
        should_push: true,
    }
}

fn failure() -> ExternalError {
    ExternalError { retryable: false, message: "no".to_string() }
}

/// Takes an item through a stream of conversations, and tells the groups that come out.
fn streamed(
    stream: &mut StreamConversations,
    item: WelcomeOrGroup,
    row: StoredGroup,
    facts: GroupFacts,
) -> Vec<Vec<u8>> {
    let step = stream.poll_next(None, Polled::Item(Ok(item)));
    let ConversationStep::Spawn { future, action, item: _ } = step else { panic!("nothing begun") };
    let loaded = MlsGroup::new(row.id.clone(), row.dm_id.clone(), row.conversation_type, row.created_at_ns);
    let event = match action {
        WelcomeAction::Process => WelcomeEvent::Processed(WelcomeOutcome::Processed(Some(loaded))),
        WelcomeAction::LoadByWelcome(_) => WelcomeEvent::Loaded(Ok(Some(loaded))),
        WelcomeAction::LoadGroup { .. } => WelcomeEvent::GroupLoaded(Ok((loaded, row))),
        other => panic!("unexpected {other:?}"),
    };
    let (future, action) = future.process(event);
    assert!(matches!(action, WelcomeAction::AskFacts));
    let (_, action) = future.process(WelcomeEvent::Facts(facts));
    let WelcomeAction::Finish(result) = action else { panic!("unfinished") };
    match stream.poll_next(Some(result), Polled::Pending) {
        ConversationStep::Yield(Ok(group)) => vec![group.group_id],
        ConversationStep::Pending => vec![],
        other => panic!("unexpected {other:?}"),
    }
}

fn welcome(sequence_id: u64) -> WelcomeOrGroup {
    WelcomeOrGroup::Welcome(WelcomeMessage { cursor: cursor(sequence_id), data: vec![] })
}

fn own_group(id: &[u8]) -> WelcomeOrGroup {
    let mut events = BroadcastGroupStream::new(false);
    match events.poll_next::<()>(Polled::Item(Some(LocalEvents::NewGroup(id.to_vec())))) {
        BroadcastStep::Yield(item) => item,
        other => panic!("unexpected {other:?}"),
    }
}

fn found(group: Option<StoredGroup>, peer: &str) -> FoundConversation {
    FoundConversation { group, peer_inbox_id: peer.to_string() }
}

#[test]
fn test_preference_updates_event_maps_dm_inbox_consent_to_active_conversation() {
    let dm = row(b"dm", ConversationType::Dm, Some("dm:alix:bo"));
    let record = record(ConsentType::InboxId, ConsentState::Allowed, "bo");
    assert!(matches!(preference_lookup(&record), PreferenceLookup::ActiveDm));
    let found = vec![found(Some(dm), "bo")];
    assert_eq!(affected_conversation_ids_for_preference(&record, &found[0]), Some(&b"dm".to_vec()));
    let mut current: ByteMap<GlobalCursor> = ByteMap::new();
    current.insert(b"dm".to_vec(), GlobalCursor::new());
    let consented_at_ns = record.consented_at_ns;
    let updates = vec![PreferenceUpdate::Consent(record)];
    assert_eq!(affected_conversations(&updates, &found), vec![b"dm".to_vec()]);
    let event = preference_updates_event(updates, &found, Ok(current));

    assert_eq!(event.conversation_cursors.len(), 1);
    assert_eq!(event.conversation_replay_after_ns.get(b"dm"), Some(&Some(consented_at_ns)));
    assert!(
        event.conversation_cursors.get(b"dm").is_some_and(|cursor| cursor.is_some()),
        "DM inbox-id consent should snapshot the active DM cursor for replay gating"
    );
}

#[test]
fn test_preference_updates_event_dedupes_dm_conversation_and_peer_updates() {
    let dm = || row(b"dm", ConversationType::Dm, Some("dm:alix:bo"));
    let conversation_record = record(ConsentType::ConversationId, ConsentState::Denied, &hex::encode(b"dm"));
    let inbox_record = record(ConsentType::InboxId, ConsentState::Denied, "bo");
    match preference_lookup(&conversation_record) {
        PreferenceLookup::Stitched(id) => assert_eq!(id, b"dm"),
        other => panic!("unexpected {other:?}"),
    }
    let found = vec![found(Some(dm()), "bo"), found(Some(dm()), "bo")];
    let event = preference_updates_event(
        vec![PreferenceUpdate::Consent(conversation_record), PreferenceUpdate::Consent(inbox_record)],
        &found,
        Ok(ByteMap::new()),
    );

    assert_eq!(
        event.conversation_cursors.len(),
        1,
        "dual-written DM consent records should normalize to one logical conversation"
    );
    assert_eq!(
        event.conversation_replay_after_ns.get(b"dm"),
        Some(&None),
        "denied DM consent should not request backlog replay"
    );
}

#[test]
fn test_preference_updates_event_ignores_sync_group_conversation_consent() {
    let sync_group = row(b"sync", ConversationType::Sync, None);
    let sync_record = record(ConsentType::ConversationId, ConsentState::Allowed, &hex::encode(b"sync"));
    let found = vec![found(Some(sync_group), "")];
    let event = preference_updates_event(vec![PreferenceUpdate::Consent(sync_record)], &found, Ok(ByteMap::new()));

    assert!(
        event.conversation_cursors.len() == 0,
        "sync-group consent should not become a user-facing conversation replay event"
    );
    assert!(
        event.conversation_replay_after_ns.len() == 0,
        "sync-group consent should not request replay state for conversation streams"
    );
}

#[test]
fn test_preference_updates_event_ignores_inbox_consent_without_active_dm() {
    let inbox_record = record(ConsentType::InboxId, ConsentState::Allowed, "bo");
    let found = vec![found(None, "")];
    let event = preference_updates_event(vec![PreferenceUpdate::Consent(inbox_record)], &found, Ok(ByteMap::new()));

    assert!(
        event.conversation_cursors.len() == 0,
        "peer inbox consent without an active DM should not fabricate a conversation event"
    );
    assert!(
        event.conversation_replay_after_ns.len() == 0,
        "peer inbox consent without an active DM should not request replay state"
    );
}

#[test]
fn the_last_allowance_decides_from_when_on_messages_repeat() {
    let allowed = |at| StoredConsentRecord {
        consented_at_ns: at,
        ..record(ConsentType::ConversationId, ConsentState::Allowed, &hex::encode(b"g"))
    };
    let denied = record(ConsentType::ConversationId, ConsentState::Denied, &hex::encode(b"g"));
    let found: Vec<FoundConversation> =
        (0..4).map(|_| found(Some(row(b"g", ConversationType::Group, None)), "")).collect();
    let event = preference_updates_event(
        vec![
            PreferenceUpdate::Consent(allowed(5)),
            PreferenceUpdate::Consent(allowed(9)),
            PreferenceUpdate::Consent(denied),
            PreferenceUpdate::Hmac { key: vec![1], cycled_at_ns: 3 },
        ],
        &found,
        Err(ExternalError { retryable: true, message: "locked".to_string() }),
    );
    assert_eq!(event.conversation_replay_after_ns.get(b"g"), Some(&Some(9)));
    assert!(matches!(event.conversation_cursors.get(b"g"), Some(None)));
    assert_eq!(LocalEvents::<()>::PreferencesChanged(event).consent_filter().unwrap().len(), 3);
}

#[test]
fn records_that_name_no_conversation_are_not_looked_up() {
    let odd = record(ConsentType::ConversationId, ConsentState::Allowed, "abc");
    assert!(matches!(preference_lookup(&odd), PreferenceLookup::Nothing));
    let upper = record(ConsentType::ConversationId, ConsentState::Allowed, "0AfF");
    match preference_lookup(&upper) {
        PreferenceLookup::Stitched(id) => assert_eq!(id, vec![0x0a, 0xff]),
        other => panic!("unexpected {other:?}"),
    }
    assert!(LocalEvents::<()>::NewGroup(vec![1]).preference_filter().is_none());
    assert_eq!(LocalEvents::MessageDeleted(Box::new(5u8)).message_deletion_filter(), Some(Box::new(5u8)));
    assert!(LocalEventError::Send("x".to_string()).is_retryable());
}

#[test]
fn stream_welcomes() {
    for group_size in [2u64, 5] {
        let mut groups: Vec<Vec<u8>> = vec![];
        let mut stream = StreamConversations::new(vec![], None, false, None);
        for i in 0..group_size {
            groups.push(vec![i as u8]);
        }
        let mut received = vec![];
        for i in 0..group_size {
            received.extend(streamed(
                &mut stream,
                welcome(i + 1),
                row(&[i as u8], ConversationType::Group, None),
                facts(ConversationType::Group, false, ConsentState::Unknown),
            ));
        }
        for got in received {
            let index = groups.iter().position(|group_id| got == *group_id).expect("group must be found");
            groups.remove(index);
        }
        assert!(groups.is_empty(), "Groups must have all been received");
    }
}

#[test]
fn test_sync_groups_are_not_streamed() {
    let mut stream = StreamConversations::new(vec![], None, false, None);
    let result = streamed(
        &mut stream,
        welcome(1),
        row(b"sync", ConversationType::Sync, None),
        facts(ConversationType::Sync, false, ConsentState::Unknown),
    );
    assert!(result.is_empty(), "Sync group should not stream");
    assert_eq!(stream.known_welcome_ids, vec![cursor(1)]);
}

#[test]
fn test_dm_stream_filter() {
    for (conversation_type, id, expected) in [
        (ConversationType::Dm, b"dm".to_vec(), "Unexpectedly received a Group"),
        (ConversationType::Group, b"gr".to_vec(), "Unexpectedly received a DM"),
    ] {
        let mut stream = StreamConversations::new(vec![], Some(conversation_type), false, None);
        let mut received = streamed(
            &mut stream,
            own_group(b"dm"),
            row(b"dm", ConversationType::Dm, Some("dm:alix:bo")),
            facts(ConversationType::Dm, false, ConsentState::Allowed),
        );
        received.extend(streamed(
            &mut stream,
            own_group(b"gr"),
            row(b"gr", ConversationType::Group, None),
            facts(ConversationType::Group, false, ConsentState::Allowed),
        ));
        assert_eq!(received[0], id, "{}", expected);
        assert_eq!(received.len(), 1, "should only be one item in the stream");
    }
}

#[test]
fn test_dm_stream_all_conversation_types() {
    let mut stream = StreamConversations::new(vec![], None, false, None);
    let mut groups = streamed(
        &mut stream,
        own_group(b"d1"),
        row(b"d1", ConversationType::Dm, Some("dm:alix:davon")),
        facts(ConversationType::Dm, false, ConsentState::Allowed),
    );
    groups.extend(streamed(
        &mut stream,
        welcome(1),
        row(b"d2", ConversationType::Dm, Some("dm:alix:eri")),
        facts(ConversationType::Dm, false, ConsentState::Unknown),
    ));
    groups.extend(streamed(
        &mut stream,
        own_group(b"gr"),
        row(b"gr", ConversationType::Group, None),
        facts(ConversationType::Group, false, ConsentState::Allowed),
    ));
    assert_eq!(groups.len(), 3);
}

#[test]
fn test_self_group_creation() {
    let mut stream = StreamConversations::new(vec![], Some(ConversationType::Group), false, None);
    let mut received = streamed(
        &mut stream,
        own_group(b"own"),
        row(b"own", ConversationType::Group, None),
        facts(ConversationType::Group, false, ConsentState::Allowed),
    );
    received.extend(streamed(
        &mut stream,
        welcome(8),
        row(b"bo", ConversationType::Group, None),
        facts(ConversationType::Group, false, ConsentState::Unknown),
    ));
    assert_eq!(2, received.len());
}

#[test]
fn test_add_remove_re_add() {
    let mut stream = StreamConversations::new(vec![cursor(1)], Some(ConversationType::Group), false, None);
    let received = streamed(
        &mut stream,
        welcome(2),
        row(b"alix", ConversationType::Group, None),
        facts(ConversationType::Group, false, ConsentState::Unknown),
    );
    assert_eq!(received, vec![b"alix".to_vec()]);
}

#[test]
fn test_duplicate_dm_not_streamed() {
    let mut stream = StreamConversations::new(vec![], None, false, None);
    let dm1 = streamed(
        &mut stream,
        own_group(b"dm1"),
        row(b"dm1", ConversationType::Dm, Some("dm:a:b")),
        facts(ConversationType::Dm, false, ConsentState::Allowed),
    );
    assert_eq!(dm1, vec![b"dm1".to_vec()]);
    let result = streamed(
        &mut stream,
        welcome(9),
        row(b"dm2", ConversationType::Dm, Some("dm:a:b")),
        facts(ConversationType::Dm, true, ConsentState::Unknown),
    );
    assert!(result.is_empty(), "Duplicate DM was unexpectedly streamed");
    let mut with_duplicates = StreamConversations::new(vec![], None, true, None);
    let result = streamed(
        &mut with_duplicates,
        welcome(9),
        row(b"dm2", ConversationType::Dm, Some("dm:a:b")),
        facts(ConversationType::Dm, true, ConsentState::Unknown),
    );
    assert_eq!(result.len(), 1);
}

#[test]
fn test_process_streamed_welcome_message_v3() {
    let mut welcomes = StreamedWelcomes::new(vec![]);
    let result = ProcessWelcomeResult::New { group: group(3, ConversationType::Group), id: cursor(6) };
    assert!(welcomes.process_streamed_welcome_message(cursor(6), Ok(result)).is_ok());
    assert_eq!(welcomes.groups.len(), 1, "Should have exactly one group");
    assert_eq!(welcomes.groups[0].group_id, vec![3]);
    assert_eq!(welcomes.known_welcomes, vec![cursor(6)]);
}

#[test]
fn welcomes_without_a_conversation_are_refused() {
    let mut welcomes = StreamedWelcomes::new(vec![]);
    let refused = welcomes
        .process_streamed_welcome_message(cursor(6), Ok(ProcessWelcomeResult::IgnoreId { id: cursor(6) }))
        .unwrap_err();
    assert!(matches!(
        refused,
        SubscribeError::ConversationStream(ConversationStreamError::InvalidConversationType)
    ));
    assert_eq!(welcomes.known_welcomes, vec![cursor(6)]);
    assert!(welcomes.process_streamed_welcome_message(cursor(7), Err(SubscribeError::BoxError(failure()))).is_err());
    assert_eq!(welcomes.known_welcomes, vec![cursor(6)]);
}

#[test]
fn known_welcomes_are_loaded_before_they_are_processed() {
    let (future, action) = ProcessWelcomeFuture::new(vec![cursor(1)], &welcome(1), None, false, None);
    assert!(matches!(action, WelcomeAction::LoadByWelcome(c) if c == cursor(1)));
    let (future, action) = future.process(WelcomeEvent::Loaded(Ok(None)));
    assert!(matches!(action, WelcomeAction::Process));
    let (future, action) = future.process(WelcomeEvent::Processed(WelcomeOutcome::AlreadyProcessed));
    assert!(matches!(action, WelcomeAction::LoadByWelcome(_)));
    let found = load_from_store(Ok(Some(row(b"g", ConversationType::Group, None))));
    let (future, action) = future.process(WelcomeEvent::Loaded(found));
    assert!(matches!(action, WelcomeAction::AskFacts));
    let facts = facts(ConversationType::Group, false, ConsentState::Allowed);
    let (future, action) = future.process(WelcomeEvent::Facts(facts));
    match action {
        WelcomeAction::Finish(Ok(ProcessWelcomeResult::New { group, id })) => {
            assert_eq!(group.group_id, b"g");
            assert_eq!(id, cursor(1));
        }
        other => panic!("unexpected {other:?}"),
    }
    assert!(matches!(future.process(WelcomeEvent::Loaded(Ok(None))).1, WelcomeAction::Ignore));

    let (future, _) = ProcessWelcomeFuture::new(vec![], &welcome(1), None, false, None);
    let (_, action) = future.process(WelcomeEvent::Processed(WelcomeOutcome::Processed(None)));
    assert!(matches!(action, WelcomeAction::Finish(Ok(ProcessWelcomeResult::IgnoreId { .. }))));
}

#[test]
fn consent_decides_which_conversations_are_streamed() {
    let config = WelcomeFilterConfig::new(None, false, Some(vec![ConsentState::Allowed]));
    let stored = |state| {
        config.filter_processed(
            ProcessWelcomeResult::NewStored {
                group: group(1, ConversationType::Group),
                maybe_sequence_id: Some(4),
                maybe_originator: Some(11),
            },
            facts(ConversationType::Group, false, state),
        )
    };
    assert!(matches!(stored(ConsentState::Allowed), Ok(ProcessWelcomeResult::NewStored { .. })));
    assert!(matches!(stored(ConsentState::Denied), Ok(ProcessWelcomeResult::IgnoreId { id }) if id == cursor(4)));
    let without_welcome = config.filter_processed(
        ProcessWelcomeResult::NewStored {
            group: group(1, ConversationType::Group),
            maybe_sequence_id: Some(4),
            maybe_originator: None,
        },
        facts(ConversationType::Group, false, ConsentState::Unknown),
    );
    assert!(matches!(without_welcome, Ok(ProcessWelcomeResult::Ignore)));
    assert_eq!(welcome_cursor(Some(4), None), None);
    assert!(load_from_store(Ok(None)).unwrap().is_none());
}

#[test]
fn changed_preferences_bring_their_conversations_into_the_stream() {
    let allowed = record(ConsentType::ConversationId, ConsentState::Allowed, "00");
    let event = || {
        preference_updates_event(
            vec![PreferenceUpdate::Consent(allowed.duplicate()), PreferenceUpdate::Consent(allowed.duplicate())],
            &vec![
                found(Some(row(&[1], ConversationType::Group, None)), ""),
                found(Some(row(&[2], ConversationType::Group, None)), ""),
            ],
            Ok(ByteMap::new()),
        )
    };
    let mut events = StreamConversations::new(vec![], None, false, Some(vec![ConsentState::Allowed])).events();
    let first = events.poll_next::<()>(Polled::Item(Some(LocalEvents::PreferencesChanged(event()))));
    assert!(matches!(
        first,
        BroadcastStep::Yield(WelcomeOrGroup::Group { ref id, catch_up_before_stream: true, replay_after_ns: Some(77), .. })
            if *id == vec![1]
    ));
    assert!(matches!(events.next_pending(), Some(WelcomeOrGroup::Group { ref id, .. }) if *id == vec![2]));
    assert!(events.next_pending().is_none());
    let mut unfiltered = StreamConversations::new(vec![], None, false, None).events();
    let step = unfiltered.poll_next::<()>(Polled::Item(Some(LocalEvents::PreferencesChanged(event()))));
    assert!(matches!(step, BroadcastStep::PollAgain));
    assert!(matches!(unfiltered.poll_next::<()>(Polled::Item(None)), BroadcastStep::PollAgain));
    assert!(matches!(unfiltered.poll_next::<()>(Polled::Ended), BroadcastStep::Ended));
    assert!(matches!(
        subscription_item(Polled::Item(Err(failure()))),
        Polled::Item(Err(SubscribeError::BoxError(_)))
    ));
}

#[test]
fn test_stream_messages() {
    let mut stream = StreamGroupMessages::new_with_factory(&vec![vec![1]], &ByteMap::new(), vec![]);
    for (n, text) in [(1u64, &b"hello"[..]), (2, b"hello2")] {
        assert!(matches!(stream.poll_next(), StreamAction::PollInner));
        let incoming =
            IncomingMessage { cursor: Cursor { sequence_id: n, originator_id: 10 }, group_id: vec![1] };
        let StreamAction::Retrieve(incoming) = stream.on_waiting(Polled::Item(Ok(incoming))) else {
            panic!("not retrieved")
        };
        let StreamAction::Process(incoming) = stream.on_retrieved(incoming, Ok(None)) else { panic!("not processed") };
        assert_eq!(stream.current_state(), "processing");
        assert!(matches!(stream.poll_next(), StreamAction::PollProcessing));
        let processed = ProcessedMessage {
            message: Some(message(1, n as i64, text)),
            group_id: vec![1],
            next_message: incoming.cursor,
            tried_to_process: incoming.cursor,
        };
        let StreamAction::Yield(Ok(m)) = stream.resolve_futures(Ok(processed)) else { panic!("not streamed") };
        assert_eq!(m.decrypted_message_bytes, text);
        assert_eq!(stream.groups.position(&[1]).positions, vec![Cursor { sequence_id: n, originator_id: 10 }]);
    }
    assert_eq!(stream.returned.len(), 2);
    assert_eq!(stream.got.len(), 2);
}

#[test]
fn groups_are_followed_from_where_they_were_read() {
    let mut at = GlobalCursor::new();
    at.set(cursor(7));
    let mut stream = StreamGroupMessages::new_with_factory(&vec![], &ByteMap::new(), vec![cursor(3)]);
    stream.add_with_cursor(group(5, ConversationType::Group), Some(at));
    assert!(matches!(stream.poll_next(), StreamAction::Subscribe { new_group } if new_group == vec![5]));
    assert_eq!(stream.state, StreamState::Adding);
    assert!(matches!(stream.poll_next(), StreamAction::PollAdding));
    assert!(matches!(stream.on_subscribed(Ok((vec![5], None))), StreamAction::UseSubscription));
    assert_eq!(stream.groups.position(&[5]).positions, vec![cursor(7)]);
    stream.add_with_cursor(group(5, ConversationType::Group), None);
    assert!(matches!(stream.poll_next(), StreamAction::Subscribe { .. }));
    assert_eq!(stream.groups.position(&[5]).positions, vec![cursor(7)]);
    assert!(matches!(stream.on_subscribed(Err(SubscribeError::BoxError(failure()))), StreamAction::Wake));
    let seen = IncomingMessage { cursor: cursor(3), group_id: vec![5] };
    assert!(matches!(stream.on_waiting(Polled::Item(Ok(seen))), StreamAction::Wake));
    let stored = IncomingMessage { cursor: cursor(9), group_id: vec![5] };
    assert!(matches!(stream.on_retrieved(stored, Ok(Some(message(5, 9, b"x")))), StreamAction::Yield(Ok(_))));
    assert_eq!(stream.groups.position(&[5]).positions, vec![cursor(9)]);
}

#[test]
fn repeated_messages_come_first_and_are_filtered() {
    let bootstrap = load_stream_bootstrap(&vec![
        row(b"g", ConversationType::Group, None),
        row(b"s", ConversationType::Sync, None),
    ]);
    assert_eq!(bootstrap.active_conversations, vec![b"g".to_vec(), b"s".to_vec()]);
    assert_eq!(bootstrap.sync_groups, vec![b"s".to_vec()]);
    assert!(include_sync_groups(None));
    assert!(!include_sync_groups(Some(ConversationType::Dm)));

    let stream = StreamAllMessages::new(bootstrap, None, Some(vec![ConsentState::Allowed]));
    let (stream, action) = stream.poll_next(AllEvent::Poll);
    assert!(matches!(action, AllAction::PollMessages));
    let (stream, action) = stream.poll_next(AllEvent::Message(Polled::Pending));
    assert!(matches!(action, AllAction::PollConversations));
    let joined = group(b'g', ConversationType::Group).with_stream_replay_after_ns(Some(50));
    let (stream, action) = stream.poll_next(AllEvent::Conversation(Polled::Item(Ok(joined))));
    assert!(matches!(action, AllAction::LoadReplay { sent_after_ns: 49 }));
    let (stream, action) =
        stream.poll_next(AllEvent::Replay(Ok(vec![message(b'g', 1, b"one"), message(b'g', 2, b"two")])));
    assert!(matches!(action, AllAction::LoadCursor));
    let (stream, action) = stream.poll_next(AllEvent::Cursor(Ok(None)));
    assert!(matches!(action, AllAction::Attach { cursor: None, .. }));
    let (stream, action) = stream.poll_next(AllEvent::Poll);
    assert!(matches!(action, AllAction::CheckConsent));
    let on_record = |state| ConsentFacts { direct: Ok(Some(state)), ..ConsentFacts::unasked() };
    let (stream, action) = stream.poll_next(AllEvent::Consent(on_record(ConsentState::Denied)));
    assert!(matches!(action, AllAction::CheckConsent));
    let (stream, action) = stream.poll_next(AllEvent::Consent(on_record(ConsentState::Allowed)));
    assert!(matches!(action, AllAction::Yield(Ok(m)) if m.decrypted_message_bytes == b"two"));
    let (stream, _) = stream.poll_next(AllEvent::Poll);
    let (stream, action) = stream.poll_next(AllEvent::Message(Polled::Item(Ok(message(b's', 3, b"sync")))));
    assert!(matches!(action, AllAction::NotifySyncWorker));
    let (stream, _) = stream.poll_next(AllEvent::Poll);
    let (stream, action) = stream.poll_next(AllEvent::Message(Polled::Item(Ok(message(b'g', 4, b"new")))));
    assert!(matches!(action, AllAction::CheckConsent));
    let unknown = ConsentFacts { direct: Err(SubscribeError::BoxError(failure())), ..ConsentFacts::unasked() };
    let (stream, action) = stream.poll_next(AllEvent::Consent(unknown));
    assert!(matches!(action, AllAction::Yield(Err(SubscribeError::BoxError(_)))));
    let (stream, _) = stream.poll_next(AllEvent::Poll);
    let (_, action) = stream.poll_next(AllEvent::Message(Polled::Ended));
    assert!(matches!(action, AllAction::Ended));
}

#[test]
fn the_decision_about_a_person_comes_first() {
    let states = Some(vec![ConsentState::Allowed]);
    let consent = |dm_id: Option<&str>, peer, stitched, direct| {
        message_matches_consent_filter(
            &states,
            ConsentFacts {
                group: Ok(Some(row(b"d", ConversationType::Dm, dm_id))),
                peer: Ok(peer),
                stitched: Ok(stitched),
                direct: Ok(direct),
            },
        )
        .unwrap()
    };
    let (yes, no) = (Some(ConsentState::Allowed), Some(ConsentState::Denied));
    assert!(consent(Some("dm"), yes, no, no));
    assert!(!consent(Some("dm"), no, yes, yes));
    assert!(consent(Some("dm"), None, yes, no));
    assert!(consent(Some("dm"), None, None, yes));
    assert!(!consent(Some("dm"), None, None, None));
    assert!(consent(None, no, no, yes));
    let unknown = ConsentFacts {
        group: Err(SubscribeError::BoxError(failure())),
        peer: Ok(None),
        stitched: Ok(None),
        direct: Ok(None),
    };
    assert!(message_matches_consent_filter(&None, unknown).unwrap());
}

#[test]
fn retryable_stream_errors_are_told_apart() {
    assert!(!SubscribeError::BoxError(failure()).is_retryable());
    assert!(SubscribeError::MessageStream(MessageStreamError::InvalidPayload).is_retryable());
}

#[test]
fn errors_of_others_end_up_in_streams() {
    let error = |retryable| SubscribeError::dyn_err(ExternalError { retryable, message: "other".to_string() });
    assert!(matches!(error(true), SubscribeError::BoxError(e) if e.message == "other"));
    assert!(error(true).is_retryable());
    assert!(!error(false).is_retryable());
}
