//! Components of a group: their types, their updates and how updates are applied.

use sha2::Digest;
use xmtp_mls::groups::app_data::component_source::{
    apply_app_data_update_payload, component_id_to_metadata_field, component_type, encode_app_data_update_payload,
    encode_inbox_id_set, expand_app_data_update_to_changes, inbox_id_bytes_to_string, inbox_id_str_to_bytes,
    metadata_field_to_component_id, AppDataUpdateOperation, ComponentId, ComponentMutation, ComponentOp,
    ComponentSourceError, ComponentType, MetadataField,
};
use xmtp_mls::groups::app_data::tls_set::{TlsSet, TlsSetDelta, TlsSetMutation, INBOX_ID_BYTE_LEN};

fn fake_inbox_id(tag: u8) -> String {
    hex::encode([tag; INBOX_ID_BYTE_LEN])
}

#[test]
fn test_inbox_id_round_trip() {
    let original = fake_inbox_id(0xAB);
    let bytes = inbox_id_str_to_bytes(&original).unwrap();
    assert_eq!(bytes, [0xAB; 32]);
    assert_eq!(inbox_id_bytes_to_string(&bytes), original);
}

#[test]
fn test_inbox_id_invalid_hex() {
    let err = inbox_id_str_to_bytes("not_hex").unwrap_err();
    assert!(matches!(err, ComponentSourceError::InvalidInboxIdHex(_)), "got {err:?}");
}

#[test]
fn test_inbox_id_wrong_length() {
    let err = inbox_id_str_to_bytes(&"ab".repeat(16)).unwrap_err();
    assert!(
        matches!(err, ComponentSourceError::InvalidInboxIdLength { expected: INBOX_ID_BYTE_LEN, actual: 16 }),
        "got {err:?}"
    );
}

#[test]
fn test_component_type_bytes_family() {
    for id in [
        ComponentId::GroupName,
        ComponentId::GroupDescription,
        ComponentId::GroupImageUrl,
        ComponentId::MessageDisappearFromNs,
        ComponentId::MessageDisappearInNs,
        ComponentId::AppData,
        ComponentId::MinSupportedProtocolVersion,
        ComponentId::CommitLogSigner,
    ] {
        assert_eq!(component_type(id), Some(ComponentType::Bytes));
    }
}

#[test]
fn test_component_type_set_inbox_id_family() {
    for id in [ComponentId::AdminList, ComponentId::SuperAdminList, ComponentId::DmMembers] {
        assert_eq!(component_type(id), Some(ComponentType::SetInboxId));
    }
}

#[test]
fn test_component_type_group_membership() {
    assert_eq!(component_type(ComponentId::GroupMembership), Some(ComponentType::TlsMapInboxIdBytes));
}

#[test]
fn test_component_type_app_range_is_none() {
    assert_eq!(component_type(ComponentId::new(0xC000)), None);
    assert_eq!(component_type(ComponentId::new(0xFDAB)), None);
}

#[test]
fn test_metadata_field_round_trip() {
    for field in [
        MetadataField::GroupName,
        MetadataField::Description,
        MetadataField::GroupImageUrlSquare,
        MetadataField::MessageDisappearFromNS,
        MetadataField::MessageDisappearInNS,
        MetadataField::MinimumSupportedProtocolVersion,
        MetadataField::CommitLogSigner,
        MetadataField::AppData,
    ] {
        let id = metadata_field_to_component_id(field.as_str()).expect("every MetadataField has a ComponentId");
        let back = component_id_to_metadata_field(id).expect("every mapped ComponentId has a MetadataField");
        assert_eq!(back, field, "round-trip mismatch for {field:?}");
    }
}

#[test]
fn test_metadata_field_unknown_name_returns_none() {
    assert!(metadata_field_to_component_id("nonexistent_field").is_none());
}

#[test]
fn test_component_id_to_metadata_field_non_gmm_returns_none() {
    assert!(component_id_to_metadata_field(ComponentId::AdminList).is_none());
    assert!(component_id_to_metadata_field(ComponentId::GroupMembership).is_none());
    assert!(component_id_to_metadata_field(ComponentId::new(0xC000)).is_none());
}

#[test]
fn test_encode_bytes_payload_passthrough() {
    let value = b"hello world";
    let payload = encode_app_data_update_payload(&ComponentMutation::Bytes {
        component_id: ComponentId::GroupName,
        new_value: value,
    })
    .unwrap();
    assert_eq!(payload, value);
}

#[test]
fn test_encode_bytes_payload_rejects_non_bytes_component() {
    let err = encode_app_data_update_payload(&ComponentMutation::Bytes {
        component_id: ComponentId::GroupMembership,
        new_value: b"x",
    })
    .unwrap_err();
    assert!(matches!(err, ComponentSourceError::MismatchedMutation(_)));
}

#[test]
fn test_encode_admin_list_insert_delta() {
    let inbox = fake_inbox_id(0x11);
    let payload = encode_app_data_update_payload(&ComponentMutation::AdminListAdd { inbox_id: &inbox }).unwrap();
    let delta = TlsSetDelta::tls_deserialize_exact(&payload).unwrap();
    assert_eq!(delta.mutations.len(), 1);
    match &delta.mutations[0] {
        TlsSetMutation::Insert(k) => assert_eq!(*k, [0x11; 32]),
        other => panic!("expected Insert, got {other:?}"),
    }
}

#[test]
fn test_encode_admin_list_remove_delta() {
    let inbox = fake_inbox_id(0x22);
    let payload = encode_app_data_update_payload(&ComponentMutation::AdminListRemove { inbox_id: &inbox }).unwrap();
    let delta = TlsSetDelta::tls_deserialize_exact(&payload).unwrap();
    assert_eq!(delta.mutations.len(), 1);
    match &delta.mutations[0] {
        TlsSetMutation::Remove(k) => assert_eq!(*k, [0x22; 32]),
        other => panic!("expected Remove, got {other:?}"),
    }
}

#[test]
fn test_encode_super_admin_list_delta() {
    let inbox = fake_inbox_id(0x33);
    let add = encode_app_data_update_payload(&ComponentMutation::SuperAdminListAdd { inbox_id: &inbox }).unwrap();
    let remove = encode_app_data_update_payload(&ComponentMutation::SuperAdminListRemove { inbox_id: &inbox }).unwrap();
    let add_delta = TlsSetDelta::tls_deserialize_exact(&add).unwrap();
    let remove_delta = TlsSetDelta::tls_deserialize_exact(&remove).unwrap();
    assert!(matches!(&add_delta.mutations[0], TlsSetMutation::Insert(_)));
    assert!(matches!(&remove_delta.mutations[0], TlsSetMutation::Remove(_)));
}

#[test]
fn test_encode_admin_list_invalid_inbox_id() {
    let err = encode_app_data_update_payload(&ComponentMutation::AdminListAdd { inbox_id: "not-a-real-inbox-id" })
        .unwrap_err();
    assert!(matches!(err, ComponentSourceError::InvalidInboxIdHex(_)), "got {err:?}");
}

#[test]
fn test_apply_bytes_payload_returns_payload_verbatim() {
    let payload = b"new_name";
    let new_value = apply_app_data_update_payload(ComponentId::GroupName, payload, None).unwrap();
    assert_eq!(new_value, payload);
}

#[test]
fn test_apply_bytes_payload_ignores_old_value() {
    let new_value =
        apply_app_data_update_payload(ComponentId::GroupDescription, b"replacement", Some(b"old_description")).unwrap();
    assert_eq!(new_value, b"replacement");
}

#[test]
fn test_apply_admin_list_insert_against_none() {
    let inbox = fake_inbox_id(0x44);
    let insert_payload = encode_app_data_update_payload(&ComponentMutation::AdminListAdd { inbox_id: &inbox }).unwrap();
    let new_bytes = apply_app_data_update_payload(ComponentId::AdminList, &insert_payload, None).unwrap();
    let set = TlsSet::tls_deserialize_exact(&new_bytes).unwrap();
    assert_eq!(set.len(), 1);
    assert!(set.contains(&[0x44; 32]));
}

#[test]
fn test_apply_admin_list_insert_against_existing_set() {
    let alice = fake_inbox_id(0x01);
    let bob = fake_inbox_id(0x02);
    let prior = encode_inbox_id_set(std::slice::from_ref(&alice)).unwrap();
    let insert_payload = encode_app_data_update_payload(&ComponentMutation::AdminListAdd { inbox_id: &bob }).unwrap();
    let new_bytes = apply_app_data_update_payload(ComponentId::AdminList, &insert_payload, Some(&prior)).unwrap();
    let set = TlsSet::tls_deserialize_exact(&new_bytes).unwrap();
    assert_eq!(set.len(), 2);
    assert!(set.contains(&[0x01; 32]));
    assert!(set.contains(&[0x02; 32]));
}

#[test]
fn test_apply_admin_list_remove_against_existing_set() {
    let alice = fake_inbox_id(0x01);
    let bob = fake_inbox_id(0x02);
    let prior = encode_inbox_id_set(&[alice.clone(), bob.clone()]).unwrap();
    let remove_payload =
        encode_app_data_update_payload(&ComponentMutation::AdminListRemove { inbox_id: &alice }).unwrap();
    let new_bytes = apply_app_data_update_payload(ComponentId::AdminList, &remove_payload, Some(&prior)).unwrap();
    let set = TlsSet::tls_deserialize_exact(&new_bytes).unwrap();
    assert_eq!(set.len(), 1);
    assert!(set.contains(&[0x02; 32]));
    assert!(!set.contains(&[0x01; 32]));
}

#[test]
fn admin_updates_undo_each_other() {
    let prior = encode_inbox_id_set(&[fake_inbox_id(0x01), fake_inbox_id(0x03)]).unwrap();
    let bob = fake_inbox_id(0x02);
    let add = encode_app_data_update_payload(&ComponentMutation::AdminListAdd { inbox_id: &bob }).unwrap();
    let remove = encode_app_data_update_payload(&ComponentMutation::AdminListRemove { inbox_id: &bob }).unwrap();
    let added = apply_app_data_update_payload(ComponentId::AdminList, &add, Some(&prior)).unwrap();
    assert_eq!(TlsSet::tls_deserialize_exact(&added).unwrap().len(), 3);
    let restored = apply_app_data_update_payload(ComponentId::AdminList, &remove, Some(&added)).unwrap();
    assert_eq!(restored, prior);
    let first = apply_app_data_update_payload(ComponentId::SuperAdminList, &add, None).unwrap();
    let emptied = apply_app_data_update_payload(ComponentId::SuperAdminList, &remove, Some(&first)).unwrap();
    assert_eq!(TlsSet::tls_deserialize_exact(&emptied).unwrap().len(), 0);
}

#[test]
fn test_apply_super_admin_list_delta() {
    let owner = fake_inbox_id(0xAA);
    let new_sa = fake_inbox_id(0xBB);
    let prior = encode_inbox_id_set(std::slice::from_ref(&owner)).unwrap();
    let add_payload =
        encode_app_data_update_payload(&ComponentMutation::SuperAdminListAdd { inbox_id: &new_sa }).unwrap();
    let new_bytes = apply_app_data_update_payload(ComponentId::SuperAdminList, &add_payload, Some(&prior)).unwrap();
    let set = TlsSet::tls_deserialize_exact(&new_bytes).unwrap();
    assert_eq!(set.len(), 2);
    assert!(set.contains(&[0xAA; 32]));
    assert!(set.contains(&[0xBB; 32]));
}

#[test]
fn test_apply_admin_list_malformed_payload_returns_tls_codec_error() {
    let err = apply_app_data_update_payload(ComponentId::AdminList, &[0xff, 0xff, 0xff, 0xff], None).unwrap_err();
    assert!(matches!(err, ComponentSourceError::TlsCodec(_)), "got {err:?}");
}

#[test]
fn test_apply_admin_list_malformed_old_value_returns_tls_codec_error() {
    let inbox = fake_inbox_id(0x55);
    let payload = encode_app_data_update_payload(&ComponentMutation::AdminListAdd { inbox_id: &inbox }).unwrap();
    let err =
        apply_app_data_update_payload(ComponentId::AdminList, &payload, Some(&[0xde, 0xad, 0xbe, 0xef])).unwrap_err();
    assert!(matches!(err, ComponentSourceError::TlsCodec(_)), "got {err:?}");
}

#[test]
fn test_apply_immutable_update_rejected() {
    let err = apply_app_data_update_payload(ComponentId::ConversationType, b"junk", None).unwrap_err();
    assert!(matches!(err, ComponentSourceError::ImmutableUpdate(_)));
}

#[test]
fn test_apply_group_membership_not_implemented() {
    let err = apply_app_data_update_payload(ComponentId::GroupMembership, b"x", None).unwrap_err();
    assert!(matches!(err, ComponentSourceError::NotImplemented(_)));
}

#[test]
fn test_apply_app_range_component_unknown() {
    let err = apply_app_data_update_payload(ComponentId::new(0xC123), b"x", None).unwrap_err();
    assert!(matches!(err, ComponentSourceError::UnknownComponent(_)));
}

#[test]
fn a_key_is_removed_by_its_digest() {
    let mut set = TlsSet::new();
    set.insert([7; 32]);
    set.insert([8; 32]);
    let digest: [u8; 32] = sha2::Sha256::digest([7u8; 32]).into();
    set.remove_by_hash(&digest);
    assert!(!set.contains(&[7; 32]));
    assert!(set.contains(&[8; 32]));
    assert_eq!(set.len(), 1);
}

#[test]
fn a_list_of_admins_has_a_length_before_its_keys() {
    let encoded = encode_inbox_id_set(&[fake_inbox_id(0x09)]).unwrap();
    assert_eq!(encoded.len(), 33);
    assert_eq!(encoded[0], 32);
    assert_eq!(&encoded[1..], &[9u8; 32]);
}

#[test]
fn updates_are_expanded_entry_by_entry() {
    let inbox = fake_inbox_id(0x11);
    let payload = encode_app_data_update_payload(&ComponentMutation::AdminListAdd { inbox_id: &inbox }).unwrap();
    let changes =
        expand_app_data_update_to_changes(ComponentId::AdminList, &AppDataUpdateOperation::Update(payload)).unwrap();
    assert_eq!(changes.len(), 1);
    assert_eq!(changes[0].op, ComponentOp::Insert);
    assert_eq!(changes[0].value, Some(vec![0x11; 32]));

    let payload = encode_app_data_update_payload(&ComponentMutation::AdminListRemove { inbox_id: &inbox }).unwrap();
    let changes =
        expand_app_data_update_to_changes(ComponentId::AdminList, &AppDataUpdateOperation::Update(payload)).unwrap();
    assert_eq!(changes[0].op, ComponentOp::Delete);
    assert_eq!(changes[0].value, None);

    let changes =
        expand_app_data_update_to_changes(ComponentId::GroupName, &AppDataUpdateOperation::Update(vec![1, 2])).unwrap();
    assert_eq!(changes[0].op, ComponentOp::Update);
    assert_eq!(changes[0].value, Some(vec![1, 2]));

    let err =
        expand_app_data_update_to_changes(ComponentId::new(0xC000), &AppDataUpdateOperation::Update(vec![])).unwrap_err();
    assert!(matches!(err, ComponentSourceError::UnknownComponent(_)));
}
