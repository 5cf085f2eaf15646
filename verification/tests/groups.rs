//! Groups: their metadata, their permissions, what the user decided about them, and their messages.

use xmtp_mls::bindings::{node, wasm};
use xmtp_mls::error::{ExternalError, NotFound};
use xmtp_mls::groups::app_data::component_source::{
    merge_app_data_into_mutable_metadata, read_component_bytes, AppDataDictionary, ComponentId, ComponentSourceError,
    MetadataField,
};
use xmtp_mls::groups::creation::{new_dm_config, new_group_config, validate_dm_group};
use xmtp_mls::groups::error::{
    DeleteMessageError, DmValidationError, GroupError, GroupMutableMetadataError, MetadataPermissionsError,
};
use xmtp_mls::groups::extensions::{
    Decoded, DmMembers, Extension, ExtensionType, Extensions, GroupMetadata, GroupMutableMetadata, Policy, PolicySet,
    RequiredCapabilities,
};
use xmtp_mls::groups::group::{MlsGroup, UpdateAdminListType};
use xmtp_mls::groups::group_config::{
    build_extensions_for_admin_lists_update, build_extensions_for_membership_update,
    build_extensions_for_metadata_update, build_extensions_for_permissions_update, build_group_config,
    build_proposals_enabled_extension, check_proposals_enabled, filter_inbox_ids_needing_updates,
    update_required_capabilities_for_proposals, AdminListActionType, PermissionUpdateType,
    UpdateAdminListIntentData, UpdatePermissionIntentData,
};
use xmtp_mls::groups::group_membership::GroupMembership;
use xmtp_mls::groups::message_fields::{
    extract_queryable_content_fields, reference_codec, QueryableContentFields, ReferenceCodec,
};
use xmtp_mls::groups::message_ops::{into_envelope, send_step, SendAction, SendEvent, SendMessageOpts};
use xmtp_mls::groups::metadata_ops::conversation_entity;
use xmtp_mls::groups::mls_sync::processing::MessageDisappearingSettings;
use xmtp_mls::groups::proposal_ops::{
    enable_proposals_step, key_packages_take_proposals, EnableAction, EnableEvent, KeyPackageSupport, SupportCheck,
};
use xmtp_mls::messages::DeletedBy;
use xmtp_mls::records::{
    ConsentState, ConsentType, ContentType, ContentTypeId, ConversationType, DeliveryStatus, GroupMembershipState,
    GroupMessageKind, PreferenceUpdate, StoredGroup, StoredGroupMessage,
};
use xmtp_mls::text_map::TextMap;

fn group() -> MlsGroup {
    MlsGroup::new(vec![0xab, 0x01], None, ConversationType::Group, 17)
}

fn failure() -> ExternalError {
    ExternalError { retryable: false, message: "no".to_string() }
}

fn row(conversation_type: ConversationType, dm_id: Option<&str>) -> StoredGroup {
    let mut row = MlsGroup::insert(
        vec![0xab, 0x01],
        false,
        17,
        GroupMembershipState::Allowed,
        ConversationType::Group,
        "alix",
        None,
    );
    row.conversation_type = conversation_type;
    row.dm_id = dm_id.map(|d| d.to_string());
    row
}

fn policies(option: fn() -> Policy) -> PolicySet {
    PolicySet {
        add_member_policy: option(),
        remove_member_policy: option(),
        update_metadata_policy: TextMap::new(),
        add_admin_policy: option(),
        remove_admin_policy: option(),
        update_permissions_policy: option(),
    }
}

fn metadata(admins: &[&str], super_admins: &[&str]) -> GroupMutableMetadata {
    let mut attributes = TextMap::new();
    attributes.insert(MetadataField::GroupName.as_str().to_string(), "fun".to_string());
    GroupMutableMetadata {
        attributes,
        admin_list: admins.iter().map(|a| a.to_string()).collect(),
        super_admin_list: super_admins.iter().map(|a| a.to_string()).collect(),
    }
}

fn extensions(admins: &[&str], super_admins: &[&str]) -> Extensions {
    Extensions { list: vec![Extension::MutableMetadata(Decoded::Valid(metadata(admins, super_admins)))] }
}

fn message(sender: &str, group_id: Vec<u8>) -> StoredGroupMessage {
    let fields = QueryableContentFields::default();
    let mut m = group().prepare_message_for_later_publish(b"hi", vec![9], 40, fields, &[7], sender, 10, true);
    m.group_id = group_id;
    m
}

#[test]
fn test_dm_consent_falls_back_to_peer_inbox_record() {
    let dm = group();
    let dm_row = || Some(row(ConversationType::Dm, Some("dm:alix:bo")));
    let conversation_record = dm.quietly_update_consent_state(ConsentState::Denied, 5);
    let inbox_record = dm.peer_consent_record(&dm_row(), "bo".to_string(), ConsentState::Denied, 5);
    assert_eq!(conversation_record.entity, hex::encode(&dm.group_id));
    assert_eq!(conversation_record.entity_type, ConsentType::ConversationId);
    assert_eq!(conversation_record.state, ConsentState::Denied);
    assert_eq!(inbox_record.as_ref().map(|record| record.state), Some(ConsentState::Denied));
    assert_eq!(inbox_record.as_ref().map(|record| record.entity_type), Some(ConsentType::InboxId));

    let peer = inbox_record.map(|record| record.state);
    assert_eq!(dm.consent_state(Ok(dm_row()), Ok(None), Ok(peer)).unwrap(), ConsentState::Denied);
}

#[test]
fn test_auto_consent_to_own_group() {
    let unwanted = group();
    let stored = || Ok(Some(row(ConversationType::Group, None)));
    assert_eq!(unwanted.consent_state(stored(), Ok(None), Ok(None)).unwrap(), ConsentState::Unknown);
    let own = MlsGroup::insert(
        vec![5],
        false,
        17,
        GroupMembershipState::Allowed,
        ConversationType::Group,
        "alix",
        None,
    );
    let (g, consent) = MlsGroup::create_and_insert(own, ConversationType::Group);
    assert_eq!(g.group_id, vec![5]);
    assert_eq!(g.consent_state(stored(), Ok(consent), Ok(None)).unwrap(), ConsentState::Allowed);
    // What is on record for the group is announced, and read by any other handle of it.
    let record = g.quietly_update_consent_state(consent.unwrap(), 18);
    let announced = g.update_consent_state(vec![record.duplicate()]).unwrap();
    assert!(matches!(&announced[0], PreferenceUpdate::Consent(r) if r.entity == record.entity));
    let other = MlsGroup::new(vec![5], None, ConversationType::Group, 17);
    assert_eq!(record.entity, conversation_entity(&other.group_id));
    assert_eq!(other.consent_state(stored(), Ok(Some(record.state)), Ok(None)).unwrap(), ConsentState::Allowed);
}

#[test]
fn a_conversation_is_on_record_by_the_text_of_its_id() {
    assert_eq!(conversation_entity(&[0x0f, 0xa0]), "0fa0");
    let peer = Ok(Some(ConsentState::Allowed));
    let stored = Ok(Some(row(ConversationType::Group, None)));
    assert_eq!(group().consent_state(stored, Ok(None), peer).unwrap(), ConsentState::Unknown);
    assert!(matches!(
        group().consent_state(Ok(None), Ok(None), Ok(None)),
        Err(GroupError::NotFound(NotFound::GroupById(id))) if id == vec![0xab, 0x01]
    ));
    assert!(group().update_consent_state(vec![]).is_none());
    let record = group().quietly_update_consent_state(ConsentState::Allowed, 5);
    let updates = group().update_consent_state(vec![record]).unwrap();
    assert!(matches!(&updates[0], PreferenceUpdate::Consent(r) if r.entity == "ab01"));
}

#[test]
fn values_that_are_too_long_are_refused() {
    let update = |name: String| group().update_group_name(Ok(()), Ok(ConversationType::Group), name);
    let data = update("a".repeat(100)).unwrap();
    assert_eq!(data.field_name, MetadataField::GroupName.as_str());
    assert!(matches!(update("a".repeat(101)), Err(GroupError::TooManyCharacters { length: 100 })));
    // lengths are in bytes
    assert!(matches!(update("é".repeat(51)), Err(GroupError::TooManyCharacters { length: 100 })));
    let long = "a".repeat(8193);
    assert!(matches!(
        group().update_app_data(Ok(()), Ok(ConversationType::Group), long.clone()),
        Err(GroupError::TooManyCharacters { length: 8192 })
    ));
    assert!(matches!(
        group().update_group_description(Ok(()), Ok(ConversationType::Group), long.clone()),
        Err(GroupError::TooManyCharacters { length: 1000 })
    ));
    assert!(matches!(
        group().update_group_image_url_square(Ok(()), Ok(ConversationType::Group), long),
        Err(GroupError::TooManyCharacters { length: 2048 })
    ));
}

#[test]
fn direct_conversations_have_no_metadata_of_their_own() {
    let forbidden = |e: GroupError| {
        matches!(e, GroupError::MetadataPermissions(MetadataPermissionsError::DmGroupMetadataForbidden))
    };
    let g = group();
    let dm = || Ok(ConversationType::Dm);
    assert!(forbidden(g.update_group_name(Ok(()), dm(), "x".to_string()).unwrap_err()));
    assert!(forbidden(g.update_commit_log_signer(Ok(()), dm(), "x".to_string()).unwrap_err()));
    assert!(forbidden(g.update_admin_list(dm(), UpdateAdminListType::Add, "x".to_string()).unwrap_err()));
    assert!(forbidden(
        g.update_permission_policy(Ok(()), dm(), PermissionUpdateType::AddMember, Policy::Allow, None).unwrap_err()
    ));
    assert!(g.update_group_min_version(Ok(()), "1.2.3").is_ok());
    let paused = Err(GroupError::GroupPausedUntilUpdate("2".to_string()));
    assert!(matches!(g.update_group_min_version(paused, "1"), Err(GroupError::GroupPausedUntilUpdate(_))));
    assert!(matches!(
        g.update_permission_policy(
            Ok(()),
            Ok(ConversationType::Group),
            PermissionUpdateType::UpdateMetadata,
            Policy::Allow,
            None
        ),
        Err(GroupError::MetadataPermissions(MetadataPermissionsError::InvalidPermissionUpdate))
    ));
}

#[test]
fn attributes_are_read_from_the_extensions() {
    let g = group();
    let current = extensions(&["bo"], &["alix"]);
    assert_eq!(g.group_name(&current).unwrap(), "fun");
    assert!(matches!(
        g.app_data(&current),
        Err(GroupError::MetadataPermissions(MetadataPermissionsError::Mutable(
            GroupMutableMetadataError::MissingExtension
        )))
    ));
    assert!(g.is_admin(&current, "bo").unwrap());
    assert!(!g.is_admin(&current, "alix").unwrap());
    assert!(g.is_super_admin(&current, "alix").unwrap());
    assert!(g.is_super_admin_without_lock(&current, "alix").unwrap());
    assert!(!g.is_super_admin_without_lock(&current, "bo").unwrap());
    assert!(matches!(
        g.is_super_admin_without_lock(&Extensions { list: vec![] }, "alix"),
        Err(GroupMutableMetadataError::MissingExtension)
    ));
    assert_eq!(g.super_admin_list(&current).unwrap(), vec!["alix".to_string()]);
    assert!(g.metadata(&current).is_err());
    assert!(MlsGroup::min_protocol_version_from_extensions(&metadata(&[], &[])).is_none());
}

#[test]
fn one_attribute_changes_and_the_rest_stays() {
    let new =
        build_extensions_for_metadata_update(extensions(&["bo"], &[]), "topic".to_string(), "x".to_string()).unwrap();
    let [Extension::MutableMetadata(Decoded::Valid(m))] = new.list.as_slice() else { panic!("other list") };
    assert_eq!(m.attributes.get("topic"), Some(&"x".to_string()));
    assert_eq!(m.attributes.get(MetadataField::GroupName.as_str()), Some(&"fun".to_string()));
    assert_eq!(m.admin_list, vec!["bo".to_string()]);
    assert!(matches!(
        build_extensions_for_metadata_update(Extensions { list: vec![] }, "a".to_string(), "b".to_string()),
        Err(MetadataPermissionsError::Mutable(GroupMutableMetadataError::MissingExtension))
    ));
}

#[test]
fn admins_come_and_go() {
    let update = |list: Extensions, action_type, inbox: &str| {
        build_extensions_for_admin_lists_update(
            list,
            UpdateAdminListIntentData { action_type, inbox_id: inbox.to_string() },
        )
        .unwrap()
    };
    let g = group();
    let list = update(extensions(&["bo"], &["alix"]), AdminListActionType::Add, "caro");
    let list = update(list, AdminListActionType::Add, "caro");
    assert_eq!(g.admin_list(&list).unwrap(), vec!["bo".to_string(), "caro".to_string()]);
    let list = update(list, AdminListActionType::Remove, "bo");
    assert_eq!(g.admin_list(&list).unwrap(), vec!["caro".to_string()]);
    let list = update(list, AdminListActionType::AddSuper, "caro");
    let list = update(list, AdminListActionType::RemoveSuper, "alix");
    assert_eq!(g.super_admin_list(&list).unwrap(), vec!["caro".to_string()]);
}

#[test]
fn one_policy_changes_and_the_rest_stays() {
    let current = || Extensions { list: vec![Extension::GroupPermissions(Decoded::Valid(policies(|| Policy::Allow)))] };
    let update = |update_type, name: Option<&str>| {
        build_extensions_for_permissions_update(
            current(),
            UpdatePermissionIntentData {
                update_type,
                policy_option: Policy::AdminOnly,
                metadata_field_name: name.map(|n| n.to_string()),
            },
        )
    };
    let new = update(PermissionUpdateType::RemoveMember, None).unwrap();
    let p = group().permissions(&new).map(|p| (p.remove_member_policy.same_as(&Policy::AdminOnly), p.add_member_policy.same_as(&Policy::Allow)));
    assert_eq!(p.unwrap(), (true, true));
    let new = update(PermissionUpdateType::UpdateMetadata, Some("topic")).unwrap();
    let p = group().permissions(&new).unwrap().update_metadata_policy.get("topic").unwrap().same_as(&Policy::AdminOnly);
    assert!(p);
    assert!(matches!(
        update(PermissionUpdateType::UpdateMetadata, None),
        Err(MetadataPermissionsError::Mutable(GroupMutableMetadataError::MissingMetadataField))
    ));
}

#[test]
fn new_groups_start_with_their_creator() {
    let config = new_group_config(
        "alix",
        ConversationType::Group,
        policies(|| Policy::Allow),
        metadata(&[], &["alix"]),
        None,
        true,
        3,
    )
    .unwrap();
    assert_eq!(config.extensions.list.len(), 5);
    assert!(config.creator_extensions.contains(&ExtensionType::ProposalSupport));
    assert_eq!(config.max_past_epochs, 3);
    match config.extensions.find(ExtensionType::GroupMembership) {
        Some(Extension::GroupMembership(Decoded::Valid(m))) => assert_eq!(m.get("alix"), Some(0)),
        _ => panic!("no membership"),
    }
    let repeated = build_group_config(
        Extension::ProposalSupport(Decoded::Valid(1)),
        Extension::ProposalSupport(Decoded::Valid(1)),
        Extension::GroupMembership(Decoded::Valid(GroupMembership::new())),
        Extension::GroupPermissions(Decoded::Valid(policies(|| Policy::Allow))),
        false,
        3,
    );
    assert!(matches!(repeated, Err(GroupError::DuplicateExtension)));
}

#[test]
fn new_rows_tell_who_publishes_the_log() {
    let settings = Some(MessageDisappearingSettings { from_ns: 10, in_ns: 20 });
    let restored = MlsGroup::insert(
        vec![1],
        true,
        5,
        GroupMembershipState::Restored,
        ConversationType::Group,
        "alix",
        settings,
    );
    assert!(!restored.should_publish_commit_log);
    assert_eq!(restored.message_disappear_from_ns, Some(10));
    assert_eq!(restored.message_disappear_in_ns, Some(20));
    assert_eq!(group().is_active(Ok(Some(restored)), Ok(true)).unwrap(), false);
    assert!(group().is_active(Ok(Some(row(ConversationType::Group, None))), Ok(true)).unwrap());
    let (dm_row, dm, consent) = MlsGroup::create_dm_and_insert(
        vec![2],
        5,
        GroupMembershipState::Allowed,
        "alix",
        None,
        "dm:alix:bo".to_string(),
    );
    assert_eq!(dm.dm_id, Some("dm:alix:bo".to_string()));
    assert!(!dm_row.should_publish_commit_log);
    assert_eq!(consent, ConsentState::Allowed);
    let sync = MlsGroup::create_and_insert(row(ConversationType::Sync, None), ConversationType::Sync);
    assert_eq!(sync.1, None);
    assert!(MlsGroup::check_should_publish_commit_log("alix", Some(&metadata(&[], &["alix"]))));
    assert!(!MlsGroup::check_should_publish_commit_log("alix", None));
}

#[test]
fn direct_conversations_are_accepted_from_their_sender_alone() {
    let dm = |target: &str, m| {
        new_dm_config("bo", target.to_string(), policies(|| Policy::Deny), m, false, 3).unwrap().extensions
    };
    let expected = policies(|| Policy::Deny);
    assert!(validate_dm_group(&dm("alix", metadata(&[], &[])), "alix", "bo", &expected).is_ok());
    let refused = |list: Extensions, inbox: &str, added_by: &str| {
        match validate_dm_group(&list, inbox, added_by, &policies(|| Policy::Deny)) {
            Err(MetadataPermissionsError::DmValidation(e)) => e,
            other => panic!("unexpected {other:?}"),
        }
    };
    assert_eq!(
        refused(dm("caro", metadata(&[], &[])), "alix", "bo"),
        DmValidationError::ExpectedInboxesDoNotMatch
    );
    assert_eq!(refused(dm("caro", metadata(&[], &[])), "alix", "alix"), DmValidationError::OurInboxMustBeMember);
    assert_eq!(
        refused(dm("alix", metadata(&["bo"], &[])), "alix", "bo"),
        DmValidationError::MustHaveEmptyAdminAndSuperAdmin
    );
    assert!(matches!(
        validate_dm_group(&dm("alix", metadata(&[], &[])), "alix", "bo", &policies(|| Policy::Allow)),
        Err(MetadataPermissionsError::DmValidation(DmValidationError::InvalidPermissions))
    ));
    let with = |given: PolicySet| {
        new_dm_config("bo", "alix".to_string(), given, metadata(&[], &[]), false, 3).unwrap().extensions
    };
    let deny = || policies(|| Policy::Deny);
    for given in [
        PolicySet { add_member_policy: Policy::Allow, ..deny() },
        PolicySet { remove_member_policy: Policy::Allow, ..deny() },
        PolicySet { add_admin_policy: Policy::Allow, ..deny() },
        PolicySet { remove_admin_policy: Policy::Allow, ..deny() },
        PolicySet { update_permissions_policy: Policy::Allow, ..deny() },
    ] {
        assert_eq!(refused(with(given), "alix", "bo"), DmValidationError::InvalidPermissions);
    }
    let fixed = |conversation_type, dm_members| Extensions {
        list: vec![Extension::ImmutableMetadata(Decoded::Valid(GroupMetadata {
            conversation_type,
            creator_inbox_id: "bo".to_string(),
            dm_members,
            oneshot_message: None,
        }))],
    };
    assert_eq!(
        refused(fixed(ConversationType::Group, None), "alix", "bo"),
        DmValidationError::InvalidConversationType
    );
    assert_eq!(refused(fixed(ConversationType::Dm, None), "alix", "bo"), DmValidationError::MustHaveMembersSet);
    let members = DmMembers { member_one_inbox_id: "alix".to_string(), member_two_inbox_id: "bo".to_string() };
    assert!(validate_dm_group(&fixed(ConversationType::Dm, Some(members)), "alix", "alix", &expected).is_ok());
    assert!(matches!(
        validate_dm_group(&Extensions { list: vec![] }, "alix", "bo", &expected),
        Err(MetadataPermissionsError::MissingMetadata)
    ));
}

#[test]
fn proposals_are_turned_on_and_off() {
    let required = |types: Vec<ExtensionType>| {
        Extension::RequiredCapabilities(RequiredCapabilities {
            extension_types: types,
            proposal_types: vec![],
            credential_types: vec![],
        })
    };
    let types_of = |list: &Extensions| match list.find(ExtensionType::RequiredCapabilities) {
        Some(Extension::RequiredCapabilities(r)) => r.extension_types.clone(),
        _ => panic!("nothing demanded"),
    };
    let list = Extensions { list: vec![required(vec![ExtensionType::LastResort])] };
    let on = update_required_capabilities_for_proposals(list, true);
    assert_eq!(types_of(&on), vec![ExtensionType::LastResort, ExtensionType::ProposalSupport]);
    let off = update_required_capabilities_for_proposals(on, false);
    assert_eq!(types_of(&off), vec![ExtensionType::LastResort]);
    assert!(!check_proposals_enabled(&off));
    assert!(check_proposals_enabled(&Extensions { list: vec![build_proposals_enabled_extension()] }));
    assert!(!check_proposals_enabled(&Extensions { list: vec![Extension::ProposalSupport(Decoded::Malformed(failure()))] }));

    let (phase, action) = group().enable_proposals();
    assert!(matches!(action, EnableAction::CheckSupport));
    let (phase, action) = enable_proposals_step(phase, EnableEvent::Support { supported: Ok(true), current: off });
    let EnableAction::Propose(new) = action else { panic!("nothing proposed") };
    assert!(check_proposals_enabled(&new));
    assert!(types_of(&new).contains(&ExtensionType::ProposalSupport));
    let (phase, action) = enable_proposals_step(phase, EnableEvent::Proposed(Ok(())));
    assert!(matches!(action, EnableAction::CheckSupportAgain));
    let (phase, action) = enable_proposals_step(phase, EnableEvent::SupportAgain(Ok(true)));
    assert!(matches!(action, EnableAction::Commit));
    let (phase, _) = enable_proposals_step(phase, EnableEvent::Committed(Ok(())));
    let (_, action) = enable_proposals_step(phase, EnableEvent::Enabled(Ok(true)));
    assert!(matches!(action, EnableAction::Finish(Ok(()))));
    let (phase, _) = group().enable_proposals();
    let current = Extensions { list: vec![] };
    let (_, action) = enable_proposals_step(phase, EnableEvent::Support { supported: Ok(false), current });
    assert!(matches!(action, EnableAction::Finish(Err(GroupError::ProposalsNotSupported(_)))));
}

#[test]
fn support_is_asked_of_other_installations() {
    let g = group();
    assert!(matches!(
        g.all_members_support_proposals(false, &vec![vec![1], vec![2]], &[1]),
        SupportCheck::Fetch(ids) if ids == vec![vec![2]]
    ));
    assert!(matches!(g.all_members_support_proposals(false, &vec![vec![1]], &[1]), SupportCheck::Known(true)));
    assert!(matches!(g.all_members_support_proposals(true, &vec![vec![2]], &[1]), SupportCheck::Known(true)));
    let with = KeyPackageSupport { extensions: Some(vec![ExtensionType::ProposalSupport]) };
    assert!(key_packages_take_proposals(&vec![with]));
    assert!(!key_packages_take_proposals(&vec![KeyPackageSupport { extensions: None }]));
    assert!(g.validate_key_packages_support_proposals(&vec![vec![ExtensionType::LastResort]]).is_err());
}

#[test]
fn components_are_read_from_the_place_that_is_in_use() {
    let mut current = extensions(&[], &["01".repeat(32).as_str()]);
    current.list.push(Extension::AppDataDictionary(AppDataDictionary {
        entries: vec![(ComponentId::GroupName, b"new".to_vec())],
    }));
    let read = |proposals_enabled| read_component_bytes(ComponentId::GroupName, &current, proposals_enabled).unwrap();
    assert_eq!(read(false), Some(b"fun".to_vec()));
    assert_eq!(read(true), Some(b"new".to_vec()));
    assert_eq!(
        read_component_bytes(ComponentId::SuperAdminList, &current, false).unwrap(),
        Some([vec![32u8], vec![1u8; 32]].concat())
    );
    let mut base = metadata(&[], &[]);
    merge_app_data_into_mutable_metadata(&mut base, &current).unwrap();
    assert_eq!(base.attributes.get(MetadataField::GroupName.as_str()), Some(&"new".to_string()));
    let malformed = Extensions {
        list: vec![Extension::AppDataDictionary(AppDataDictionary {
            entries: vec![(ComponentId::GroupName, vec![0xff])],
        })],
    };
    assert!(matches!(
        merge_app_data_into_mutable_metadata(&mut base, &malformed),
        Err(ComponentSourceError::MalformedComponentValue { component_id: ComponentId::GroupName, reason })
            if reason == "non-UTF-8 bytes: invalid utf-8 sequence of 1 bytes from index 0"
    ));
}

#[test]
fn the_dictionary_takes_precedence_over_the_metadata() {
    let g = group();
    let with = |entries: Vec<(ComponentId, Vec<u8>)>| {
        let mut current = extensions(&["bo"], &["alix"]);
        current.list.push(Extension::AppDataDictionary(AppDataDictionary { entries }));
        current
    };
    let current = with(vec![
        (ComponentId::GroupName, b"new".to_vec()),
        (ComponentId::AppData, b"data".to_vec()),
        (ComponentId::AdminList, vec![0]),
    ]);
    assert_eq!(g.group_name(&current).unwrap(), "new");
    assert_eq!(g.app_data(&current).unwrap(), "data");
    assert!(g.group_description(&current).is_err());
    assert_eq!(g.admin_list(&current).unwrap(), vec!["bo".to_string()]);
    assert_eq!(g.group_name(&with(vec![])).unwrap(), "fun");
    assert!(matches!(
        g.group_name(&with(vec![(ComponentId::AppData, vec![0xff])])),
        Err(GroupError::ComponentSource(ComponentSourceError::MalformedComponentValue {
            component_id: ComponentId::AppData,
            ..
        }))
    ));
}

#[test]
fn memberships_replace_each_other() {
    let mut membership = GroupMembership::new();
    membership.add("bo".to_string(), 4);
    let list = build_extensions_for_membership_update(extensions(&[], &[]), &membership);
    let list = build_extensions_for_membership_update(list, &membership);
    assert_eq!(list.list.len(), 2);
    let mut existing = TextMap::new();
    existing.insert("bo".to_string(), 4i64);
    let needed = filter_inbox_ids_needing_updates(
        &existing,
        &vec![("bo".to_string(), 4), ("bo".to_string(), 5), ("caro".to_string(), 1)],
    );
    assert_eq!(needed, vec!["bo".to_string(), "caro".to_string()]);
}

#[test]
fn only_senders_and_super_admins_delete_messages() {
    let g = group();
    let delete = |sender: &str, own_group: bool, is_super_admin| {
        let m = message(sender, if own_group { vec![0xab, 0x01] } else { vec![1] });
        g.delete_message(&[0x0f], Ok(Some(m)), Ok(false), "alix", Ok(is_super_admin), true)
    };
    let plan = delete("alix", true, false).unwrap();
    assert_eq!(plan.message_id, "0f");
    assert!(!plan.is_super_admin_deletion);
    assert!(delete("bo", true, true).unwrap().is_super_admin_deletion);
    let not_authorized =
        |r: Result<_, GroupError>| matches!(r, Err(GroupError::DeleteMessage(DeleteMessageError::NotAuthorized)));
    assert!(not_authorized(delete("bo", true, false)));
    assert!(not_authorized(delete("alix", false, true)));
    assert!(matches!(
        g.delete_message(&[0x0f], Ok(None), Ok(false), "alix", Ok(true), true),
        Err(GroupError::DeleteMessage(DeleteMessageError::MessageNotFound(id))) if id == "0f"
    ));
    let own = || Ok(Some(message("alix", vec![0xab, 0x01])));
    assert!(matches!(
        g.delete_message(&[0x0f], own(), Ok(true), "alix", Ok(true), true),
        Err(GroupError::DeleteMessage(DeleteMessageError::MessageAlreadyDeleted))
    ));
    assert!(matches!(
        g.delete_message(&[0x0f], own(), Ok(false), "alix", Ok(true), false),
        Err(GroupError::DeleteMessage(DeleteMessageError::NonDeletableMessage))
    ));
    let record = g.deletion_record(vec![3], vec![0x0f], "alix", false, 8);
    assert_eq!(record.group_id, vec![0xab, 0x01]);
    assert_eq!(record.deleted_at_ns, 8);
}

#[test]
fn messages_wait_before_they_are_published() {
    let m = message("alix", vec![0xab, 0x01]);
    assert_eq!(m.delivery_status, DeliveryStatus::Unpublished);
    assert_eq!(m.kind, GroupMessageKind::Application);
    assert_eq!(into_envelope(b"hi", -12).idempotency_key, "-12");
    assert_eq!(into_envelope(b"hi", i64::MIN).idempotency_key, "-9223372036854775808");
    let queued = group().prepare_message(b"hi", &[9], Ok(Some(m))).unwrap();
    assert_eq!(queued.envelope.content, b"hi");
    assert_eq!(queued.envelope.idempotency_key, "40");
    assert!(queued.should_push);
    assert!(matches!(
        group().prepare_message(b"hi", &[9], Ok(None)),
        Err(GroupError::NotFound(NotFound::MessageById(id))) if id == vec![9]
    ));
}

#[test]
fn nothing_is_sent_to_a_paused_group() {
    let (pass, action) = group().send_message(b"hi", SendMessageOpts { should_push: true });
    assert!(matches!(action, SendAction::CheckActivity));
    let (pass, action) = send_step(pass, SendEvent::Checked(Ok(true)));
    assert!(matches!(action, SendAction::CheckPause));
    let paused = GroupError::GroupPausedUntilUpdate("9".to_string());
    let (pass, action) = send_step(pass, SendEvent::Passed(Err(paused)));
    assert!(matches!(action, SendAction::Finish(Err(GroupError::GroupPausedUntilUpdate(_)))));
    assert!(matches!(send_step(pass, SendEvent::Passed(Ok(()))).1, SendAction::Ignore));
    let (pass, _) = group().send_message(b"hi", SendMessageOpts { should_push: true });
    assert!(matches!(
        send_step(pass, SendEvent::Checked(Ok(false))).1,
        SendAction::Finish(Err(GroupError::GroupInactive))
    ));
}

#[test]
fn a_message_is_sent_after_pending_proposals() {
    let (pass, _) = group().send_message(b"hi", SendMessageOpts { should_push: true });
    let (pass, _) = send_step(pass, SendEvent::Checked(Ok(true)));
    let (pass, action) = send_step(pass, SendEvent::Passed(Ok(())));
    assert!(matches!(action, SendAction::UpdateInstallations));
    let (pass, action) = send_step(pass, SendEvent::Passed(Ok(())));
    assert!(matches!(action, SendAction::CheckProposals));
    let (pass, action) = send_step(pass, SendEvent::Checked(Ok(true)));
    assert!(matches!(action, SendAction::CommitProposals));
    let (pass, action) = send_step(pass, SendEvent::Passed(Ok(())));
    assert!(matches!(action, SendAction::Prepare { content, should_push } if content == b"hi" && should_push));
    let (pass, action) = send_step(pass, SendEvent::Prepared(Ok(vec![4])));
    assert!(matches!(action, SendAction::Sync));
    let (pass, action) = send_step(pass, SendEvent::Passed(Ok(())));
    assert!(matches!(action, SendAction::AllowConsent));
    let (pass, action) = send_step(pass, SendEvent::Passed(Ok(())));
    assert!(matches!(action, SendAction::Finish(Ok(()))));
    assert_eq!(pass.message_id, vec![4]);
}

#[test]
fn the_given_message_is_sent() {
    let (pass, _) = group().send_message(b"quiet", SendMessageOpts { should_push: false });
    assert_eq!((pass.content.as_slice(), pass.should_push), (b"quiet".as_slice(), false));
    assert!(pass.message_id.is_empty());
    let (pass, _) = send_step(pass, SendEvent::Checked(Ok(true)));
    let (pass, _) = send_step(pass, SendEvent::Passed(Ok(())));
    let (pass, _) = send_step(pass, SendEvent::Passed(Ok(())));
    let (_, action) = send_step(pass, SendEvent::Checked(Ok(false)));
    assert!(matches!(action, SendAction::Prepare { content, should_push } if content == b"quiet" && !should_push));
}

#[test]
fn published_messages_are_not_published_again() {
    let looked_up = || {
        let (pass, _) = group().publish_stored_message(vec![9]);
        let (pass, _) = send_step(pass, SendEvent::Checked(Ok(true)));
        let (pass, action) = send_step(pass, SendEvent::Passed(Ok(())));
        assert!(matches!(action, SendAction::LookUp));
        pass
    };
    let mut published = message("alix", vec![0xab, 0x01]);
    published.delivery_status = DeliveryStatus::Published;
    let (_, action) = send_step(looked_up(), SendEvent::Found(Ok(Some(published))));
    assert!(matches!(action, SendAction::Finish(Ok(()))));
    let (_, action) = send_step(looked_up(), SendEvent::Found(Ok(Some(message("alix", vec![0xab, 0x01])))));
    assert!(matches!(action, SendAction::Queue(q) if q.envelope.idempotency_key == "40" && q.should_push));
    let (_, action) = send_step(looked_up(), SendEvent::Found(Ok(None)));
    assert!(matches!(action, SendAction::Finish(Err(GroupError::NotFound(NotFound::MessageById(_))))));
    let (pass, action) = group().publish_messages();
    assert!(matches!(action, SendAction::CheckPause));
    let (pass, _) = send_step(pass, SendEvent::Passed(Ok(())));
    let (_, action) = send_step(pass, SendEvent::Passed(Ok(())));
    assert!(matches!(action, SendAction::Sync));
}

#[test]
fn references_are_kept_as_message_ids() {
    let id = |content_type, version_major| {
        Some(ContentTypeId {
            authority_id: "xmtp.org".to_string(),
            content_type,
            version_major,
            version_minor: 3,
        })
    };
    assert_eq!(reference_codec(&id(ContentType::Reply, 1), 1), Some(ReferenceCodec::Reply));
    assert_eq!(reference_codec(&id(ContentType::Reply, 2), 1), None);
    assert_eq!(reference_codec(&id(ContentType::Reaction, 1), 1), Some(ReferenceCodec::LegacyReaction));
    assert_eq!(reference_codec(&id(ContentType::Reaction, 2), 1), Some(ReferenceCodec::ReactionV2));
    assert_eq!(reference_codec(&id(ContentType::DeleteMessage, 1), 1), Some(ReferenceCodec::DeleteMessage));
    assert_eq!(reference_codec(&None, 1), None);
    let fields = QueryableContentFields::try_from(id(ContentType::Reply, 1), Some("00ff".to_string()), 1);
    assert_eq!(fields.reference_id, Some(vec![0x00, 0xff]));
    assert_eq!(fields.version_minor, 3);
    let fields = QueryableContentFields::try_from(id(ContentType::Reply, 1), Some("zz".to_string()), 1);
    assert_eq!(fields.reference_id, None);
    let fields = extract_queryable_content_fields(Some((id(ContentType::Reply, 1), Some("00ff".to_string()))), 1);
    assert_eq!((fields.content_type, fields.reference_id), (ContentType::Reply, Some(vec![0x00, 0xff])));
    let fields = extract_queryable_content_fields(None, 1);
    assert_eq!((fields.content_type, fields.version_major), (ContentType::Unknown, 0));
    assert_eq!(fields.reference_id, None);
}

#[test]
fn handles_are_made_from_stored_rows() {
    let (g, stored) = MlsGroup::new_cached(&[3], Ok(Some(row(ConversationType::Dm, Some("d"))))).unwrap();
    assert_eq!(g.group_id, vec![3]);
    assert_eq!(g.dm_id, stored.dm_id);
    assert!(matches!(MlsGroup::new_cached(&[3], Ok(None)), Err(GroupError::NotFound(NotFound::GroupById(_)))));
    assert!(matches!(MlsGroup::new_cached(&[3], Err(failure())), Err(GroupError::External(_))));
    assert!(g.is_same_group(&MlsGroup::new(vec![3], None, ConversationType::Group, 0)));
    let duplicates = g.find_duplicate_dms(vec![row(ConversationType::Dm, Some("d"))]);
    assert_eq!(duplicates[0].group_id, vec![0xab, 0x01]);
    let info = g
        .debug_info(Ok(4), Ok(vec![]), Ok("l".to_string()), Ok("r".to_string()), Ok(Some(row(ConversationType::Dm, None))))
        .unwrap();
    assert_eq!((info.epoch, info.maybe_forked), (4, false));
}

#[test]
fn errors_are_told_to_javascript_with_their_code() {
    assert_eq!(node::error_reason("GroupError::NotFound", "no group"), "[GroupError::NotFound] no group");
}

#[test]
fn deletions_are_told_to_other_languages() {
    let from_admin = || DeletedBy::Admin("alix".to_string());
    let message: node::DeletedMessage = from_admin().into();
    assert_eq!(message.deleted_by, node::DeletedBy::Admin);
    assert_eq!(message.admin_inbox_id, Some("alix".to_string()));
    assert_eq!(node::DeletedBy::from(DeletedBy::Sender), node::DeletedBy::Sender);
    let message: wasm::DeletedMessage = DeletedBy::Sender.into();
    assert_eq!(message.deleted_by.number(), 0);
    assert_eq!(message.admin_inbox_id, None);
    assert_eq!(wasm::DeletedMessage::from(from_admin()).deleted_by.number(), 1);
}
