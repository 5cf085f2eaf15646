//! Changing and reading the metadata of a group, and what the user has decided about it.

use vstd::prelude::*;
use vstd::string::*;
use crate::codec;
use crate::error::{ExternalError, NotFound};
use crate::groups::app_data::component_source;
use crate::groups::app_data::component_source::{ComponentSourceError, MetadataField};
use crate::groups::error::{GroupError, GroupMutableMetadataError, MetadataPermissionsError};
use crate::groups::extensions;
use crate::groups::extensions::{Extension, ExtensionType, Extensions, GroupMutableMetadata, Policy};
use crate::groups::group::{
    MlsGroup, UpdateAdminListType, MAX_APP_DATA_LENGTH, MAX_GROUP_DESCRIPTION_LENGTH, MAX_GROUP_IMAGE_URL_LENGTH,
    MAX_GROUP_NAME_LENGTH,
};
use crate::groups::group_config;
use crate::groups::group_config::{
    AdminListActionType, PermissionUpdateType, UpdateAdminListIntentData, UpdatePermissionIntentData,
};
use crate::groups::state_ops;
use crate::bytes;
use crate::records::{
    ConsentState, ConsentType, ConversationType, PreferenceUpdate, StoredConsentRecord, StoredGroup,
    UpdateMetadataIntentData,
};

verus! {

/// How many bytes a text takes.
pub open spec fn byte_length(text: Seq<char>) -> nat {
    vstd::utf8::encode_utf8(text).len()
}

/// Whether an outcome is that of asking for an update of an attribute. A paused group refuses first,
/// then a value that is too long is refused, then a direct conversation.
pub open spec fn is_metadata_update(
    paused: Result<(), GroupError>,
    max_length: usize,
    conversation_type: Result<ConversationType, GroupError>,
    field: MetadataField,
    value: String,
    r: Result<UpdateMetadataIntentData, GroupError>,
) -> bool {
    match paused {
        Err(e) => r == Err::<UpdateMetadataIntentData, _>(e),
        Ok(_) => if byte_length(value@) > max_length {
            r == Err::<UpdateMetadataIntentData, _>(GroupError::TooManyCharacters { length: max_length })
        } else {
            is_allowed_update(conversation_type, field, value, r)
        },
    }
}

/// Whether an outcome is that of asking for an update of an attribute, but for pauses and lengths.
pub open spec fn is_allowed_update(
    conversation_type: Result<ConversationType, GroupError>,
    field: MetadataField,
    value: String,
    r: Result<UpdateMetadataIntentData, GroupError>,
) -> bool {
    match conversation_type {
        Err(e) => r == Err::<UpdateMetadataIntentData, _>(e),
        Ok(ConversationType::Dm) => r == Err::<UpdateMetadataIntentData, _>(
            GroupError::MetadataPermissions(MetadataPermissionsError::DmGroupMetadataForbidden),
        ),
        Ok(_) => r matches Ok(data) && data.field_name@ == field.name() && data.field_value == value,
    }
}

fn allowed_update(
    conversation_type: Result<ConversationType, GroupError>,
    field: MetadataField,
    value: String,
) -> (r: Result<UpdateMetadataIntentData, GroupError>)
    ensures
        is_allowed_update(conversation_type, field, value, r),
{
    match conversation_type {
        Err(e) => Err(e),
        Ok(ConversationType::Dm) => Err(
            GroupError::MetadataPermissions(MetadataPermissionsError::DmGroupMetadataForbidden),
        ),
        Ok(_) => Ok(UpdateMetadataIntentData { field_name: field.as_str().to_owned(), field_value: value }),
    }
}

fn metadata_update(
    paused: Result<(), GroupError>,
    max_length: usize,
    conversation_type: Result<ConversationType, GroupError>,
    field: MetadataField,
    value: String,
) -> (r: Result<UpdateMetadataIntentData, GroupError>)
    ensures
        is_metadata_update(paused, max_length, conversation_type, field, value, r),
{
    match paused {
        Err(e) => return Err(e),
        Ok(_) => {},
    }
    if value.as_str().as_bytes().len() > max_length {
        return Err(GroupError::TooManyCharacters { length: max_length });
    }
    allowed_update(conversation_type, field, value)
}

/// Whether an outcome is that of asking for another name.
pub open spec fn asks_for_name(
    paused: Result<(), GroupError>,
    conversation_type: Result<ConversationType, GroupError>,
    value: String,
    r: Result<UpdateMetadataIntentData, GroupError>,
) -> bool {
    is_metadata_update(paused, MAX_GROUP_NAME_LENGTH, conversation_type, MetadataField::GroupName, value, r)
}

/// Whether an outcome is that of asking for other application data.
pub open spec fn asks_for_app_data(
    paused: Result<(), GroupError>,
    conversation_type: Result<ConversationType, GroupError>,
    value: String,
    r: Result<UpdateMetadataIntentData, GroupError>,
) -> bool {
    is_metadata_update(paused, MAX_APP_DATA_LENGTH, conversation_type, MetadataField::AppData, value, r)
}

/// Whether an outcome is that of asking for another description.
pub open spec fn asks_for_description(
    paused: Result<(), GroupError>,
    conversation_type: Result<ConversationType, GroupError>,
    value: String,
    r: Result<UpdateMetadataIntentData, GroupError>,
) -> bool {
    is_metadata_update(paused, MAX_GROUP_DESCRIPTION_LENGTH, conversation_type, MetadataField::Description, value, r)
}

/// Whether an outcome is that of asking for another image.
pub open spec fn asks_for_image(
    paused: Result<(), GroupError>,
    conversation_type: Result<ConversationType, GroupError>,
    value: String,
    r: Result<UpdateMetadataIntentData, GroupError>,
) -> bool {
    is_metadata_update(
        paused,
        MAX_GROUP_IMAGE_URL_LENGTH,
        conversation_type,
        MetadataField::GroupImageUrlSquare,
        value,
        r,
    )
}

/// Whether an outcome is that of asking that members have at least a version.
pub open spec fn asks_for_min_version(
    paused: Result<(), GroupError>,
    version: Seq<char>,
    r: Result<UpdateMetadataIntentData, GroupError>,
) -> bool {
    match paused {
        Err(e) => r == Err::<UpdateMetadataIntentData, _>(e),
        Ok(_) => r matches Ok(data) && data.field_name@ == MetadataField::MinimumSupportedProtocolVersion.name()
            && data.field_value@ == version,
    }
}

/// Whether an outcome is that of asking for another signer of the log of commits.
pub open spec fn asks_for_signer(
    paused: Result<(), GroupError>,
    conversation_type: Result<ConversationType, GroupError>,
    value: String,
    r: Result<UpdateMetadataIntentData, GroupError>,
) -> bool {
    match paused {
        Err(e) => r == Err::<UpdateMetadataIntentData, _>(e),
        Ok(_) => is_allowed_update(conversation_type, MetadataField::CommitLogSigner, value, r),
    }
}

/// An update of an attribute is asked for under the attribute's own name and with the value as it is, and only if
/// the group is not paused, the value is not too long and the conversation is not a direct one. These are looked at
/// in this order.
pub proof fn attributes_are_asked_for_by_name(
    paused: Result<(), GroupError>,
    conversation_type: Result<ConversationType, GroupError>,
    value: String,
    name: Result<UpdateMetadataIntentData, GroupError>,
    description: Result<UpdateMetadataIntentData, GroupError>,
    image: Result<UpdateMetadataIntentData, GroupError>,
    app_data: Result<UpdateMetadataIntentData, GroupError>,
    signer: Result<UpdateMetadataIntentData, GroupError>,
)
    requires
        asks_for_name(paused, conversation_type, value, name),
        asks_for_description(paused, conversation_type, value, description),
        asks_for_image(paused, conversation_type, value, image),
        asks_for_app_data(paused, conversation_type, value, app_data),
        asks_for_signer(paused, conversation_type, value, signer),
    ensures
        ({
            let length = vstd::utf8::encode_utf8(value@).len();
            let allowed = paused is Ok && conversation_type is Ok && conversation_type->Ok_0 != ConversationType::Dm;
            &&& name is Ok <==> allowed && length <= 100
            &&& description is Ok <==> allowed && length <= 1000
            &&& image is Ok <==> allowed && length <= 2048
            &&& app_data is Ok <==> allowed && length <= 8192
            &&& signer is Ok <==> allowed
            &&& name is Ok ==> name->Ok_0.field_name@ == "group_name"@ && name->Ok_0.field_value == value
            &&& description is Ok ==> description->Ok_0.field_name@ == "description"@ && description->Ok_0.field_value
                == value
            &&& image is Ok ==> image->Ok_0.field_name@ == "group_image_url_square"@ && image->Ok_0.field_value == value
            &&& app_data is Ok ==> app_data->Ok_0.field_name@ == "app_data"@ && app_data->Ok_0.field_value == value
            &&& signer is Ok ==> signer->Ok_0.field_name@ == "_commit_log_signer"@ && signer->Ok_0.field_value == value
            &&& paused matches Err(e) ==> name == Err::<UpdateMetadataIntentData, _>(e) && description == name && image
                == name && app_data == name && signer == name
            &&& paused is Ok && length > 100 ==> name == Err::<UpdateMetadataIntentData, _>(
                GroupError::TooManyCharacters { length: 100 },
            )
            &&& paused is Ok && length > 1000 ==> description == Err::<UpdateMetadataIntentData, _>(
                GroupError::TooManyCharacters { length: 1000 },
            )
            &&& paused is Ok && length > 2048 ==> image == Err::<UpdateMetadataIntentData, _>(
                GroupError::TooManyCharacters { length: 2048 },
            )
            &&& paused is Ok && length > 8192 ==> app_data == Err::<UpdateMetadataIntentData, _>(
                GroupError::TooManyCharacters { length: 8192 },
            )
            &&& paused is Ok && length <= 100 && conversation_type == Ok::<_, GroupError>(ConversationType::Dm) ==> name
                == Err::<UpdateMetadataIntentData, _>(
                GroupError::MetadataPermissions(MetadataPermissionsError::DmGroupMetadataForbidden),
            ) && description == name && image == name && app_data == name && signer == name
            &&& paused is Ok && length <= 100 ==> (conversation_type matches Err(e) ==> name == Err::<
                UpdateMetadataIntentData,
                _,
            >(e) && description == name && image == name && app_data == name && signer == name)
        }),
{
}

/// A version can be asked for in every kind of conversation, and is what is then read as the version that members
/// must have.
pub proof fn versions_are_asked_for_and_read(
    paused: Result<(), GroupError>,
    version: Seq<char>,
    r: Result<UpdateMetadataIntentData, GroupError>,
    metadata: GroupMutableMetadata,
)
    requires
        asks_for_min_version(paused, version, r),
    ensures
        r is Ok <==> paused is Ok,
        paused matches Err(e) ==> r == Err::<UpdateMetadataIntentData, _>(e),
        r is Ok ==> r->Ok_0.field_name@ == "minimum_supported_protocol_version"@ && r->Ok_0.field_value@ == version,
        r is Ok && metadata.attributes@.dom().contains(r->Ok_0.field_name@)
            && metadata.attributes@[r->Ok_0.field_name@] == r->Ok_0.field_value ==> min_version_of(metadata) is Some
            && min_version_of(metadata)->0@ == version,
        min_version_of(metadata) is None <==> !metadata.attributes@.dom().contains(
            "minimum_supported_protocol_version"@,
        ),
{
}

/// The version that the members of a group must have.
pub open spec fn min_version_of(metadata: GroupMutableMetadata) -> Option<String> {
    let name = MetadataField::MinimumSupportedProtocolVersion.name();
    if metadata.attributes@.dom().contains(name) {
        Some(metadata.attributes@[name])
    } else {
        None
    }
}

/// Whether an outcome is that of asking for another policy.
pub open spec fn asks_for_policy(
    paused: Result<(), GroupError>,
    conversation_type: Result<ConversationType, GroupError>,
    permission_update_type: PermissionUpdateType,
    permission_policy: Policy,
    metadata_field: Option<MetadataField>,
    r: Result<UpdatePermissionIntentData, GroupError>,
) -> bool {
    match (paused, conversation_type) {
        (Err(e), _) => r == Err::<UpdatePermissionIntentData, _>(e),
        (Ok(_), Err(e)) => r == Err::<UpdatePermissionIntentData, _>(e),
        (Ok(_), Ok(ConversationType::Dm)) => r == Err::<UpdatePermissionIntentData, _>(
            GroupError::MetadataPermissions(MetadataPermissionsError::DmGroupMetadataForbidden),
        ),
        (Ok(_), Ok(_)) => if permission_update_type == PermissionUpdateType::UpdateMetadata
            && metadata_field is None {
            r == Err::<UpdatePermissionIntentData, _>(
                GroupError::MetadataPermissions(MetadataPermissionsError::InvalidPermissionUpdate),
            )
        } else {
            &&& r matches Ok(data)
            &&& data.update_type == permission_update_type
            &&& data.policy_option == permission_policy
            &&& match metadata_field {
                Some(field) => data.metadata_field_name is Some && data.metadata_field_name->0@
                    == field.name(),
                None => data.metadata_field_name is None,
            }
        },
    }
}

/// A policy is asked for as it is, for the same kind of change, and with the name of the attribute where one is
/// given; the policy of an attribute needs one, and a direct conversation takes none.
pub proof fn policies_are_asked_for_as_they_are(
    paused: Result<(), GroupError>,
    conversation_type: Result<ConversationType, GroupError>,
    permission_update_type: PermissionUpdateType,
    permission_policy: Policy,
    metadata_field: Option<MetadataField>,
    r: Result<UpdatePermissionIntentData, GroupError>,
)
    requires
        asks_for_policy(paused, conversation_type, permission_update_type, permission_policy, metadata_field, r),
    ensures
        r is Ok <==> paused is Ok && conversation_type is Ok && conversation_type->Ok_0 != ConversationType::Dm && (
        permission_update_type == PermissionUpdateType::UpdateMetadata ==> metadata_field is Some),
        r is Ok ==> r->Ok_0.update_type == permission_update_type && r->Ok_0.policy_option == permission_policy,
        r is Ok ==> r->Ok_0.metadata_field_name is Some == metadata_field is Some,
        r is Ok && metadata_field is Some ==> r->Ok_0.metadata_field_name->0@ == metadata_field->0.name(),
        paused is Err ==> r == Err::<UpdatePermissionIntentData, _>(paused->Err_0),
        paused is Ok && conversation_type is Err ==> r == Err::<UpdatePermissionIntentData, _>(
            conversation_type->Err_0,
        ),
        paused is Ok && conversation_type == Ok::<_, GroupError>(ConversationType::Dm) ==> r == Err::<
            UpdatePermissionIntentData,
            _,
        >(GroupError::MetadataPermissions(MetadataPermissionsError::DmGroupMetadataForbidden)),
{
}

/// Whether an outcome is that of asking for a change of the lists of admins.
pub open spec fn asks_for_admin(
    conversation_type: Result<ConversationType, GroupError>,
    action_type: UpdateAdminListType,
    inbox_id: String,
    r: Result<UpdateAdminListIntentData, GroupError>,
) -> bool {
    match conversation_type {
        Err(e) => r == Err::<UpdateAdminListIntentData, _>(e),
        Ok(ConversationType::Dm) => r == Err::<UpdateAdminListIntentData, _>(
            GroupError::MetadataPermissions(MetadataPermissionsError::DmGroupMetadataForbidden),
        ),
        Ok(_) => r == Ok::<_, GroupError>(
            (UpdateAdminListIntentData {
                action_type: match action_type {
                    UpdateAdminListType::Add => AdminListActionType::Add,
                    UpdateAdminListType::Remove => AdminListActionType::Remove,
                    UpdateAdminListType::AddSuper => AdminListActionType::AddSuper,
                    UpdateAdminListType::RemoveSuper => AdminListActionType::RemoveSuper,
                },
                inbox_id,
            }),
        ),
    }
}

/// Whether a result is the name of a group.
pub open spec fn reads_group_name(list: Seq<Extension>, r: Result<String, GroupError>) -> bool {
    is_attribute(list, MetadataField::GroupName, r)
}

/// Whether a result is the application data of a group.
pub open spec fn reads_app_data(list: Seq<Extension>, r: Result<String, GroupError>) -> bool {
    is_attribute(list, MetadataField::AppData, r)
}

/// Whether a result is the description of a group.
pub open spec fn reads_description(list: Seq<Extension>, r: Result<String, GroupError>) -> bool {
    is_attribute(list, MetadataField::Description, r)
}

/// Whether a result is the image of a group.
pub open spec fn reads_image(list: Seq<Extension>, r: Result<String, GroupError>) -> bool {
    is_attribute(list, MetadataField::GroupImageUrlSquare, r)
}

/// Whether a result is the list of a group's admins.
pub open spec fn reads_admins(list: Seq<Extension>, r: Result<Vec<String>, GroupError>) -> bool {
    match group_config::metadata_of(list) {
        Ok(m) => r matches Ok(found) && found@ == m.admin_list@,
        Err(e) => r == Err::<Vec<String>, _>(GroupError::MetadataPermissions(MetadataPermissionsError::Mutable(e))),
    }
}

/// Whether a result is the list of a group's super admins.
pub open spec fn reads_super_admins(list: Seq<Extension>, r: Result<Vec<String>, GroupError>) -> bool {
    match group_config::metadata_of(list) {
        Ok(m) => r matches Ok(found) && found@ == m.super_admin_list@,
        Err(e) => r == Err::<Vec<String>, _>(GroupError::MetadataPermissions(MetadataPermissionsError::Mutable(e))),
    }
}

/// Whether a result tells if an inbox is an admin.
pub open spec fn tells_admin(list: Seq<Extension>, inbox_id: Seq<char>, r: Result<bool, GroupError>) -> bool {
    match group_config::metadata_of(list) {
        Ok(m) => r == Ok::<_, GroupError>(lists(m.admin_list@, inbox_id)),
        Err(e) => r == Err::<bool, _>(GroupError::MetadataPermissions(MetadataPermissionsError::Mutable(e))),
    }
}

/// Whether a result tells if an inbox is a super admin.
pub open spec fn tells_super_admin(list: Seq<Extension>, inbox_id: Seq<char>, r: Result<bool, GroupError>) -> bool {
    match group_config::metadata_of(list) {
        Ok(m) => r == Ok::<_, GroupError>(lists(m.super_admin_list@, inbox_id)),
        Err(e) => r == Err::<bool, _>(GroupError::MetadataPermissions(MetadataPermissionsError::Mutable(e))),
    }
}

/// Whether a result tells if an inbox is a super admin of a group that is already loaded.
pub open spec fn tells_loaded_super_admin(
    list: Seq<Extension>,
    inbox_id: Seq<char>,
    r: Result<bool, GroupMutableMetadataError>,
) -> bool {
    match group_config::metadata_of(list) {
        Ok(m) => r == Ok::<_, GroupMutableMetadataError>(lists(m.super_admin_list@, inbox_id)),
        Err(e) => r == Err::<bool, _>(e),
    }
}

/// Somebody who is made an admin is one once the change is applied, and a super admin likewise; who is taken off a
/// list is not on it any more; and the other list is as it was. Direct conversations have no admins to change.
pub proof fn admin_changes_take_effect(
    conversation_type: Result<ConversationType, GroupError>,
    action_type: UpdateAdminListType,
    inbox_id: String,
    asked: Result<UpdateAdminListIntentData, GroupError>,
    current: Seq<Extension>,
    new: Extensions,
    before: (Result<bool, GroupError>, Result<bool, GroupError>),
    after: (Result<bool, GroupError>, Result<bool, GroupError>),
)
    requires
        asks_for_admin(conversation_type, action_type, inbox_id, asked),
        asked is Ok ==> group_config::is_admin_lists_change(current, asked->Ok_0, Ok(new)),
        tells_admin(current, inbox_id@, before.0),
        tells_super_admin(current, inbox_id@, before.1),
        tells_admin(new.list@, inbox_id@, after.0),
        tells_super_admin(new.list@, inbox_id@, after.1),
    ensures
        asked is Ok <==> conversation_type is Ok && conversation_type->Ok_0 != ConversationType::Dm,
        asked is Ok ==> {
            &&& action_type == UpdateAdminListType::Add ==> after.0 == Ok::<_, GroupError>(true) && after.1 == before.1
            &&& action_type == UpdateAdminListType::Remove ==> after.0 == Ok::<_, GroupError>(false) && after.1
                == before.1
            &&& action_type == UpdateAdminListType::AddSuper ==> after.1 == Ok::<_, GroupError>(true) && after.0
                == before.0
            &&& action_type == UpdateAdminListType::RemoveSuper ==> after.1 == Ok::<_, GroupError>(false) && after.0
                == before.0
        },
{
    if asked is Ok {
        group_config::admin_updates_change_one_list(
            current,
            asked->Ok_0,
            Ok(new),
            inbox_id@,
            ExtensionType::MutableMetadata,
        );
    }
}

/// An inbox is told to be an admin exactly if it is on the list of admins, and a super admin exactly if it is on that
/// list, however it is asked.
pub proof fn admins_are_those_on_the_list(
    list: Seq<Extension>,
    inbox_id: Seq<char>,
    admins: Result<Vec<String>, GroupError>,
    super_admins: Result<Vec<String>, GroupError>,
    admin: Result<bool, GroupError>,
    super_admin: Result<bool, GroupError>,
    loaded: Result<bool, GroupMutableMetadataError>,
)
    requires
        reads_admins(list, admins),
        reads_super_admins(list, super_admins),
        tells_admin(list, inbox_id, admin),
        tells_super_admin(list, inbox_id, super_admin),
        tells_loaded_super_admin(list, inbox_id, loaded),
    ensures
        admins is Ok == admin is Ok,
        admins is Ok ==> super_admins is Ok && super_admin is Ok && loaded is Ok,
        admin is Ok ==> admin->Ok_0 == exists|i: int| 0 <= i < admins->Ok_0@.len() && (#[trigger] admins->Ok_0@[i])@ == inbox_id,
        super_admin is Ok ==> super_admin->Ok_0 == exists|i: int|
            0 <= i < super_admins->Ok_0@.len() && (#[trigger] super_admins->Ok_0@[i])@ == inbox_id,
        super_admin is Ok ==> loaded == Ok::<_, GroupMutableMetadataError>(super_admin->Ok_0),
        admins is Ok ==> group_config::metadata_of(list) is Ok && admins->Ok_0@ == group_config::metadata_of(
            list,
        )->Ok_0.admin_list@ && super_admins->Ok_0@ == group_config::metadata_of(list)->Ok_0.super_admin_list@,
        loaded matches Err(e) ==> admin == Err::<bool, _>(
            GroupError::MetadataPermissions(MetadataPermissionsError::Mutable(e)),
        ) && super_admin == admin,
        loaded matches Err(e) ==> admins == Err::<Vec<String>, _>(
            GroupError::MetadataPermissions(MetadataPermissionsError::Mutable(e)),
        ) && super_admins == admins,
{
    if admin is Ok {
        lemma_listed(admins->Ok_0@, inbox_id);
        lemma_listed(super_admins->Ok_0@, inbox_id);
    }
}

proof fn lemma_listed(list: Seq<String>, text: Seq<char>)
    ensures
        lists(list, text) == exists|i: int| 0 <= i < list.len() && (#[trigger] list[i])@ == text,
{
    let views = bytes::text_views(list);
    if lists(list, text) {
        let i = choose|i: int| 0 <= i < views.len() && views[i] == text;
        assert(list[i]@ == text);
    }
    if exists|i: int| 0 <= i < list.len() && (#[trigger] list[i])@ == text {
        let i = choose|i: int| 0 <= i < list.len() && (#[trigger] list[i])@ == text;
        assert(views[i] == text);
    }
}

/// Whether an outcome is what the user has decided about a group.
pub open spec fn is_consent(
    group_id: Seq<u8>,
    found: Result<Option<StoredGroup>, ExternalError>,
    conversation: Result<Option<ConsentState>, ExternalError>,
    peer: Result<Option<ConsentState>, ExternalError>,
    r: Result<ConsentState, GroupError>,
) -> bool {
    match (found, conversation) {
        (Err(e), _) => r == Err::<ConsentState, _>(GroupError::External(e)),
        (Ok(None), _) => r matches Err(GroupError::NotFound(NotFound::GroupById(id))) && id@
            == group_id,
        (Ok(Some(_)), Err(e)) => r == Err::<ConsentState, _>(GroupError::External(e)),
        (Ok(Some(row)), Ok(conversation)) => if conversation is None && is_dm_with_peer(row) {
            match peer {
                Err(e) => r == Err::<ConsentState, _>(GroupError::External(e)),
                Ok(peer) => r == Ok::<_, GroupError>(consent_of(conversation, true, peer)),
            }
        } else {
            r == Ok::<_, GroupError>(consent_of(conversation, false, None))
        },
    }
}

/// What the user has decided about a conversation counts, whatever was decided about the other person; a decision
/// about the person counts only for a direct conversation that has none of its own. Without any the state is unknown,
/// so that only a recorded decision ever allows or denies.
pub proof fn decisions_are_told_as_recorded(
    group_id: Seq<u8>,
    row: StoredGroup,
    conversation: Option<ConsentState>,
    peer: Result<Option<ConsentState>, ExternalError>,
    r: Result<ConsentState, GroupError>,
)
    requires
        is_consent(group_id, Ok(Some(row)), Ok(conversation), peer, r),
    ensures
        conversation matches Some(state) ==> r == Ok::<_, GroupError>(state),
        conversation is None && !(row.conversation_type == ConversationType::Dm && row.dm_id is Some) ==> r == Ok::<
            _,
            GroupError,
        >(ConsentState::Unknown),
        conversation is None && row.conversation_type == ConversationType::Dm && row.dm_id is Some ==> {
            &&& peer matches Ok(Some(state)) ==> r == Ok::<_, GroupError>(state)
            &&& peer matches Ok(None) ==> r == Ok::<_, GroupError>(ConsentState::Unknown)
            &&& peer matches Err(e) ==> r == Err::<ConsentState, _>(GroupError::External(e))
        },
{
}

/// Whether a record about the other person goes with a decision about a direct conversation, and which.
pub open spec fn is_peer_record(
    row: Option<StoredGroup>,
    peer_inbox_id: String,
    state: ConsentState,
    now_ns: i64,
    r: Option<StoredConsentRecord>,
) -> bool {
    r == (if row is Some && is_dm_with_peer(row->0) {
        Some(
            (StoredConsentRecord {
                entity_type: ConsentType::InboxId,
                state,
                entity: peer_inbox_id,
                consented_at_ns: now_ns,
            }),
        )
    } else {
        None
    })
}

/// A decision about a direct conversation is also put on record for the other person, with the same state and time;
/// a decision about any other group is not.
pub proof fn decisions_about_dms_name_the_person(
    row: StoredGroup,
    peer_inbox_id: String,
    state: ConsentState,
    now_ns: i64,
    r: Option<StoredConsentRecord>,
)
    requires
        is_peer_record(Some(row), peer_inbox_id, state, now_ns, r),
    ensures
        r is Some <==> row.conversation_type == ConversationType::Dm && row.dm_id is Some,
        r matches Some(record) ==> record.entity_type == ConsentType::InboxId && record.entity == peer_inbox_id
            && record.state == state && record.consented_at_ns == now_ns,
{
}

/// Whether a result is what is announced of records that changed.
pub open spec fn is_announcement(changed: Seq<StoredConsentRecord>, r: Option<Vec<PreferenceUpdate>>) -> bool {
    match r {
        Some(updates) => changed.len() > 0 && updates@ == changed.map_values(
            |c: StoredConsentRecord| PreferenceUpdate::Consent(c),
        ),
        None => changed.len() == 0,
    }
}

/// Every record that changed is announced, once and in its order; where none did, nothing is.
pub proof fn all_changed_decisions_are_announced(
    changed: Seq<StoredConsentRecord>,
    r: Option<Vec<PreferenceUpdate>>,
    i: int,
)
    requires
        is_announcement(changed, r),
    ensures
        r is None <==> changed.len() == 0,
        r matches Some(updates) ==> updates@.len() == changed.len() && (0 <= i < changed.len() ==> updates@[i]
            == PreferenceUpdate::Consent(changed[i])),
{
}

/// The text of an attribute: what the dictionary of the group holds for it, or else what the metadata do.
pub open spec fn attribute_text(list: Seq<Extension>, metadata: GroupMutableMetadata, field: MetadataField) -> Option<
    Seq<char>,
> {
    match component_source::dictionary_value(list, component_source::component_of(field)) {
        Some(b) => Some(vstd::utf8::decode_utf8(b)),
        None => if metadata.attributes@.dom().contains(field.name()) {
            Some(metadata.attributes@[field.name()]@)
        } else {
            None
        },
    }
}

/// Whether the dictionary of a group holds a text for every attribute that it holds.
pub open spec fn dictionary_holds_texts(list: Seq<Extension>) -> bool {
    extensions::first_of(list, ExtensionType::AppDataDictionary) matches Some(Extension::AppDataDictionary(d))
        ==> forall|i: int| 0 <= i < 8 ==> #[trigger] component_source::is_text_at(d.entries@, i)
}

/// Whether a result is an attribute of a group, or why it cannot be had. Any attribute in the dictionary
/// of the group that is no text keeps all of them from being read: the first such is reported.
pub open spec fn is_attribute(list: Seq<Extension>, field: MetadataField, r: Result<String, GroupError>) -> bool {
    match group_config::metadata_of(list) {
        Err(e) => r == Err::<String, _>(GroupError::MetadataPermissions(MetadataPermissionsError::Mutable(e))),
        Ok(m) => if dictionary_holds_texts(list) {
            match attribute_text(list, m, field) {
                Some(text) => r matches Ok(value) && value@ == text,
                None => r == Err::<String, _>(
                    GroupError::MetadataPermissions(
                        MetadataPermissionsError::Mutable(GroupMutableMetadataError::MissingExtension),
                    ),
                ),
            }
        } else {
            &&& r matches Err(GroupError::ComponentSource(e))
            &&& e matches ComponentSourceError::MalformedComponentValue { component_id, reason }
            &&& exists|n: nat|
                component_source::malformed_at(
                    extensions::first_of(list, ExtensionType::AppDataDictionary)->0->AppDataDictionary_0.entries@,
                    component_id,
                    reason@,
                    n,
                )
        },
    }
}

/// Whether a text is among those of a list.
pub open spec fn lists(list: Seq<String>, text: Seq<char>) -> bool {
    bytes::text_views(list).contains(text)
}

/// What the user has decided about a conversation: what is on record for it, or, for a direct
/// conversation without a record, what is on record for the other person.
pub open spec fn consent_of(
    conversation: Option<ConsentState>,
    is_dm_with_peer: bool,
    peer: Option<ConsentState>,
) -> ConsentState {
    match conversation {
        Some(state) => state,
        None => match peer {
            Some(state) => if is_dm_with_peer {
                state
            } else {
                ConsentState::Unknown
            },
            None => ConsentState::Unknown,
        },
    }
}

/// Whether a row is that of a direct conversation with a person.
pub open spec fn is_dm_with_peer(row: StoredGroup) -> bool {
    row.conversation_type == ConversationType::Dm && row.dm_id is Some
}

impl MlsGroup {
    /// Asks for another name of the group.
    pub fn update_group_name(
        &self,
        paused: Result<(), GroupError>,
        conversation_type: Result<ConversationType, GroupError>,
        group_name: String,
    ) -> (r: Result<UpdateMetadataIntentData, GroupError>)
        ensures
            asks_for_name(paused, conversation_type, group_name, r),
    {
        metadata_update(paused, MAX_GROUP_NAME_LENGTH, conversation_type, MetadataField::GroupName, group_name)
    }

    /// Asks for other application data of the group.
    pub fn update_app_data(
        &self,
        paused: Result<(), GroupError>,
        conversation_type: Result<ConversationType, GroupError>,
        app_data: String,
    ) -> (r: Result<UpdateMetadataIntentData, GroupError>)
        ensures
            asks_for_app_data(paused, conversation_type, app_data, r),
    {
        metadata_update(paused, MAX_APP_DATA_LENGTH, conversation_type, MetadataField::AppData, app_data)
    }

    /// Asks for another description of the group.
    pub fn update_group_description(
        &self,
        paused: Result<(), GroupError>,
        conversation_type: Result<ConversationType, GroupError>,
        group_description: String,
    ) -> (r: Result<UpdateMetadataIntentData, GroupError>)
        ensures
            asks_for_description(paused, conversation_type, group_description, r),
    {
        metadata_update(
            paused,
            MAX_GROUP_DESCRIPTION_LENGTH,
            conversation_type,
            MetadataField::Description,
            group_description,
        )
    }

    /// Asks for another image of the group.
    pub fn update_group_image_url_square(
        &self,
        paused: Result<(), GroupError>,
        conversation_type: Result<ConversationType, GroupError>,
        group_image_url_square: String,
    ) -> (r: Result<UpdateMetadataIntentData, GroupError>)
        ensures
            asks_for_image(paused, conversation_type, group_image_url_square, r),
    {
        metadata_update(
            paused,
            MAX_GROUP_IMAGE_URL_LENGTH,
            conversation_type,
            MetadataField::GroupImageUrlSquare,
            group_image_url_square,
        )
    }

    /// Asks that members have at least a version. This is possible in every kind of conversation.
    pub fn update_group_min_version(&self, paused: Result<(), GroupError>, version: &str) -> (r: Result<
        UpdateMetadataIntentData,
        GroupError,
    >)
        ensures
            asks_for_min_version(paused, version@, r),
    {
        match paused {
            Err(e) => Err(e),
            Ok(_) => Ok(
                UpdateMetadataIntentData {
                    field_name: MetadataField::MinimumSupportedProtocolVersion.as_str().to_owned(),
                    field_value: version.to_owned(),
                },
            ),
        }
    }

    /// Asks for another signer of the log of commits; `commit_log_signer` is the key as text.
    pub fn update_commit_log_signer(
        &self,
        paused: Result<(), GroupError>,
        conversation_type: Result<ConversationType, GroupError>,
        commit_log_signer: String,
    ) -> (r: Result<UpdateMetadataIntentData, GroupError>)
        ensures
            asks_for_signer(paused, conversation_type, commit_log_signer, r),
    {
        match paused {
            Err(e) => Err(e),
            Ok(_) => allowed_update(conversation_type, MetadataField::CommitLogSigner, commit_log_signer),
        }
    }

    /// The version that members must have, where one is demanded.
    pub fn min_protocol_version_from_extensions(mutable_metadata: &GroupMutableMetadata) -> (r: Option<String>)
        ensures
            r == min_version_of(*mutable_metadata),
    {
        match mutable_metadata.attributes.get(MetadataField::MinimumSupportedProtocolVersion.as_str()) {
            Some(version) => Some(version.clone()),
            None => None,
        }
    }

    /// Asks for another policy of the group. A policy for metadata needs its attribute.
    pub fn update_permission_policy(
        &self,
        paused: Result<(), GroupError>,
        conversation_type: Result<ConversationType, GroupError>,
        permission_update_type: PermissionUpdateType,
        permission_policy: Policy,
        metadata_field: Option<MetadataField>,
    ) -> (r: Result<UpdatePermissionIntentData, GroupError>)
        ensures
            asks_for_policy(
                paused,
                conversation_type,
                permission_update_type,
                permission_policy,
                metadata_field,
                r,
            ),
    {
        match paused {
            Err(e) => return Err(e),
            Ok(_) => {},
        }
        match conversation_type {
            Err(e) => return Err(e),
            Ok(ConversationType::Dm) => return Err(
                GroupError::MetadataPermissions(MetadataPermissionsError::DmGroupMetadataForbidden),
            ),
            Ok(_) => {},
        }
        if permission_update_type == PermissionUpdateType::UpdateMetadata && metadata_field.is_none() {
            return Err(GroupError::MetadataPermissions(MetadataPermissionsError::InvalidPermissionUpdate));
        }
        let metadata_field_name: Option<String> = match metadata_field {
            Some(field) => Some(field.as_str().to_owned()),
            None => None,
        };
        Ok(
            UpdatePermissionIntentData {
                update_type: permission_update_type,
                policy_option: permission_policy,
                metadata_field_name,
            },
        )
    }

    /// Asks for a change of the lists of admins.
    pub fn update_admin_list(
        &self,
        conversation_type: Result<ConversationType, GroupError>,
        action_type: UpdateAdminListType,
        inbox_id: String,
    ) -> (r: Result<UpdateAdminListIntentData, GroupError>)
        ensures
            asks_for_admin(conversation_type, action_type, inbox_id, r),
    {
        match conversation_type {
            Err(e) => return Err(e),
            Ok(ConversationType::Dm) => return Err(
                GroupError::MetadataPermissions(MetadataPermissionsError::DmGroupMetadataForbidden),
            ),
            Ok(_) => {},
        }
        let action_type = match action_type {
            UpdateAdminListType::Add => AdminListActionType::Add,
            UpdateAdminListType::Remove => AdminListActionType::Remove,
            UpdateAdminListType::AddSuper => AdminListActionType::AddSuper,
            UpdateAdminListType::RemoveSuper => AdminListActionType::RemoveSuper,
        };
        Ok(UpdateAdminListIntentData { action_type, inbox_id })
    }

    fn required_attribute(&self, current: &Extensions, field: MetadataField) -> (r: Result<String, GroupError>)
        ensures
            is_attribute(current.list@, field, r),
    {
        let metadata = match self.mutable_metadata(current) {
            Ok(m) => m,
            Err(e) => return Err(e),
        };
        let mut merged = metadata.duplicate();
        let ghost before = component_source::attribute_texts(merged.attributes@);
        match component_source::merge_app_data_into_mutable_metadata(&mut merged, current) {
            Ok(_) => {},
            Err(e) => return Err(GroupError::ComponentSource(e)),
        }
        proof {
            if let Some(Extension::AppDataDictionary(d)) = extensions::first_of(
                current.list@,
                ExtensionType::AppDataDictionary,
            ) {
                component_source::dictionary_takes_precedence(before, d.entries@, field);
            }
            assert(component_source::attribute_texts(merged.attributes@).dom() =~= merged.attributes@.dom());
        }
        match merged.attributes.get(field.as_str()) {
            Some(value) => Ok(value.clone()),
            None => Err(
                GroupError::MetadataPermissions(
                    MetadataPermissionsError::Mutable(GroupMutableMetadataError::MissingExtension),
                ),
            ),
        }
    }

    /// The name of the group.
    pub fn group_name(&self, current: &Extensions) -> (r: Result<String, GroupError>)
        ensures
            reads_group_name(current.list@, r),
    {
        self.required_attribute(current, MetadataField::GroupName)
    }

    /// The application data of the group.
    pub fn app_data(&self, current: &Extensions) -> (r: Result<String, GroupError>)
        ensures
            reads_app_data(current.list@, r),
    {
        self.required_attribute(current, MetadataField::AppData)
    }

    /// The description of the group.
    pub fn group_description(&self, current: &Extensions) -> (r: Result<String, GroupError>)
        ensures
            reads_description(current.list@, r),
    {
        self.required_attribute(current, MetadataField::Description)
    }

    /// The image of the group.
    pub fn group_image_url_square(&self, current: &Extensions) -> (r: Result<String, GroupError>)
        ensures
            reads_image(current.list@, r),
    {
        self.required_attribute(current, MetadataField::GroupImageUrlSquare)
    }

    /// The admins of the group.
    pub fn admin_list(&self, current: &Extensions) -> (r: Result<Vec<String>, GroupError>)
        ensures
            reads_admins(current.list@, r),
    {
        match self.mutable_metadata(current) {
            Ok(m) => Ok(bytes::clone_texts(m.admin_list.as_slice())),
            Err(e) => Err(e),
        }
    }

    /// The super admins of the group.
    pub fn super_admin_list(&self, current: &Extensions) -> (r: Result<Vec<String>, GroupError>)
        ensures
            reads_super_admins(current.list@, r),
    {
        match self.mutable_metadata(current) {
            Ok(m) => Ok(bytes::clone_texts(m.super_admin_list.as_slice())),
            Err(e) => Err(e),
        }
    }

    /// Whether an inbox is an admin of the group.
    pub fn is_admin(&self, current: &Extensions, inbox_id: &str) -> (r: Result<bool, GroupError>)
        ensures
            tells_admin(current.list@, inbox_id@, r),
    {
        match self.mutable_metadata(current) {
            Ok(m) => Ok(m.is_admin(inbox_id)),
            Err(e) => Err(e),
        }
    }

    /// Whether an inbox is a super admin of the group.
    pub fn is_super_admin(&self, current: &Extensions, inbox_id: &str) -> (r: Result<bool, GroupError>)
        ensures
            tells_super_admin(current.list@, inbox_id@, r),
    {
        match self.mutable_metadata(current) {
            Ok(m) => Ok(m.is_super_admin(inbox_id)),
            Err(e) => Err(e),
        }
    }

    /// Whether an inbox is a super admin of a group that is already loaded.
    pub fn is_super_admin_without_lock(&self, current: &Extensions, inbox_id: &str) -> (r: Result<
        bool,
        GroupMutableMetadataError,
    >)
        ensures
            tells_loaded_super_admin(current.list@, inbox_id@, r),
    {
        match state_ops::extract_group_mutable_metadata(current) {
            Ok(m) => Ok(m.is_super_admin(inbox_id)),
            Err(e) => Err(e),
        }
    }

    /// What the user has decided about the group. `conversation` is what is on record for the group,
    /// `peer` what is on record for the other person of a direct conversation.
    pub fn consent_state(
        &self,
        found: Result<Option<StoredGroup>, ExternalError>,
        conversation: Result<Option<ConsentState>, ExternalError>,
        peer: Result<Option<ConsentState>, ExternalError>,
    ) -> (r: Result<ConsentState, GroupError>)
        ensures
            is_consent(self.group_id@, found, conversation, peer, r),
    {
        let row = match self.load(found) {
            Ok(row) => row,
            Err(e) => return Err(e),
        };
        let conversation: Option<ConsentState> = match conversation {
            Ok(conversation) => conversation,
            Err(e) => return Err(GroupError::External(e)),
        };
        match conversation {
            Some(state) => Ok(state),
            None => {
                if row.conversation_type == ConversationType::Dm && row.dm_id.is_some() {
                    match peer {
                        Err(e) => Err(GroupError::External(e)),
                        Ok(Some(state)) => Ok(state),
                        Ok(None) => Ok(ConsentState::Unknown),
                    }
                } else {
                    Ok(ConsentState::Unknown)
                }
            },
        }
    }

    /// The record of what the user has decided about the group.
    pub fn quietly_update_consent_state(&self, state: ConsentState, now_ns: i64) -> (r: StoredConsentRecord)
        requires
            2 * self.group_id@.len() <= isize::MAX,
        ensures
            is_conversation_record(r, self.group_id@, state, now_ns),
    {
        StoredConsentRecord {
            entity_type: ConsentType::ConversationId,
            state,
            entity: conversation_entity(self.group_id.as_slice()),
            consented_at_ns: now_ns,
        }
    }

    /// The record about the other person that goes with a decision about a direct conversation:
    /// `row` is that of the group.
    pub fn peer_consent_record(
        &self,
        row: &Option<StoredGroup>,
        peer_inbox_id: String,
        state: ConsentState,
        now_ns: i64,
    ) -> (r: Option<StoredConsentRecord>)
        ensures
            is_peer_record(*row, peer_inbox_id, state, now_ns, r),
    {
        match row {
            Some(row) => {
                if row.conversation_type == ConversationType::Dm && row.dm_id.is_some() {
                    Some(
                        StoredConsentRecord {
                            entity_type: ConsentType::InboxId,
                            state,
                            entity: peer_inbox_id,
                            consented_at_ns: now_ns,
                        },
                    )
                } else {
                    None
                }
            },
            None => None,
        }
    }

    /// What is announced once records are written: the records that changed, where any did.
    pub fn update_consent_state(&self, changed: Vec<StoredConsentRecord>) -> (r: Option<Vec<PreferenceUpdate>>)
        ensures
            is_announcement(changed@, r),
    {
        if changed.len() == 0 {
            return None;
        }
        let mut updates: Vec<PreferenceUpdate> = Vec::new();
        let mut i: usize = 0;
        while i < changed.len()
            invariant
                i <= changed@.len(),
                updates@.len() == i,
                forall|j: int|
                    0 <= j < i ==> #[trigger] updates@[j] == PreferenceUpdate::Consent(changed@[j]),
            decreases changed@.len() - i,
        {
            updates.push(PreferenceUpdate::Consent(changed[i].duplicate()));
            i += 1;
        }
        assert(updates@ =~= changed@.map_values(|c: StoredConsentRecord| PreferenceUpdate::Consent(c)));
        Some(updates)
    }
}

/// The name under which a decision about a conversation is on record.
pub fn conversation_entity(group_id: &[u8]) -> (r: String)
    requires
        2 * group_id@.len() <= isize::MAX,
    ensures
        r@ == codec::hex_text(group_id@),
{
    codec::hex_encode(group_id)
}

/// Whether a record says what the user has decided about a group.
pub open spec fn is_conversation_record(
    record: StoredConsentRecord,
    group_id: Seq<u8>,
    state: ConsentState,
    now_ns: i64,
) -> bool {
    &&& record.entity_type == ConsentType::ConversationId
    &&& record.state == state
    &&& record.entity@ == codec::hex_text(group_id)
    &&& record.consented_at_ns == now_ns
}

/// A decision about a direct conversation is read back from either of the two records that it leaves:
/// from that of the conversation, and where this is gone, from that of the other person.
pub proof fn dm_consent_is_read_back(
    group_id: Seq<u8>,
    state: ConsentState,
    now_ns: i64,
    conversation: StoredConsentRecord,
    peer: StoredConsentRecord,
)
    requires
        is_conversation_record(conversation, group_id, state, now_ns),
        peer.entity_type == ConsentType::InboxId,
        peer.state == state,
    ensures
        consent_of(Some(conversation.state), true, Some(peer.state)) == state,
        consent_of(Some(conversation.state), true, None) == state,
        consent_of(None, true, Some(peer.state)) == state,
        consent_of(None, true, None) == ConsentState::Unknown,
{
}

/// An attribute that was asked for is what is read once the change is applied, and no other attribute reads otherwise
/// than before: for a name, a description, an image and application data alike. A dictionary of the group that holds
/// the attribute takes precedence, so none is taken to.
pub proof fn updated_attributes_are_read_back(
    conversation_type: Result<ConversationType, GroupError>,
    value: String,
    asked: Result<UpdateMetadataIntentData, GroupError>,
    current: Seq<Extension>,
    new: Extensions,
    name: (Result<String, GroupError>, Result<String, GroupError>),
    description: (Result<String, GroupError>, Result<String, GroupError>),
)
    requires
        asks_for_name(Ok(()), conversation_type, value, asked),
        asked is Ok,
        extensions::first_of(current, ExtensionType::AppDataDictionary) is None,
        group_config::is_attribute_change(current, asked->Ok_0.field_name@, asked->Ok_0.field_value, Ok(new)),
        reads_group_name(current, name.0),
        reads_group_name(new.list@, name.1),
        reads_description(current, description.0),
        reads_description(new.list@, description.1),
    ensures
        name.1 is Ok && name.1->Ok_0@ == value@,
        description.0 is Ok == description.1 is Ok,
        description.0 is Ok ==> description.1->Ok_0@ == description.0->Ok_0@,
{
    component_source::field_names_are_distinct(MetadataField::GroupName, MetadataField::Description);
    group_config::attribute_updates_change_one_attribute(
        current,
        asked->Ok_0.field_name@,
        asked->Ok_0.field_value,
        Ok(new),
        MetadataField::Description.name(),
        ExtensionType::AppDataDictionary,
    );
}

/// What is read of a group without a dictionary is what its metadata hold under the attribute's own name.
pub proof fn attributes_are_read_by_name(
    list: Seq<Extension>,
    metadata: GroupMutableMetadata,
    name: Result<String, GroupError>,
    description: Result<String, GroupError>,
    image: Result<String, GroupError>,
    app_data: Result<String, GroupError>,
)
    requires
        extensions::first_of(list, ExtensionType::AppDataDictionary) is None,
        group_config::metadata_of(list) == Ok::<_, GroupMutableMetadataError>(metadata),
        reads_group_name(list, name),
        reads_description(list, description),
        reads_image(list, image),
        reads_app_data(list, app_data),
    ensures
        name is Ok <==> metadata.attributes@.dom().contains("group_name"@),
        name is Ok ==> name->Ok_0@ == metadata.attributes@["group_name"@]@,
        description is Ok <==> metadata.attributes@.dom().contains("description"@),
        description is Ok ==> description->Ok_0@ == metadata.attributes@["description"@]@,
        image is Ok <==> metadata.attributes@.dom().contains("group_image_url_square"@),
        image is Ok ==> image->Ok_0@ == metadata.attributes@["group_image_url_square"@]@,
        app_data is Ok <==> metadata.attributes@.dom().contains("app_data"@),
        app_data is Ok ==> app_data->Ok_0@ == metadata.attributes@["app_data"@]@,
{
}

/// A decision about a group is on record under the group's own id, which can be read from the record again, with the
/// state and the time of the decision.
pub proof fn decisions_are_on_record(
    record: StoredConsentRecord,
    group_id: Seq<u8>,
    state: ConsentState,
    now_ns: i64,
)
    requires
        is_conversation_record(record, group_id, state, now_ns),
    ensures
        record.entity_type == ConsentType::ConversationId,
        codec::hex_bytes(vstd::utf8::encode_utf8(record.entity@)) == group_id,
        record.state == state,
        record.consented_at_ns == now_ns,
{
    codec::hex_round_trip(group_id);
}

/// What the user has decided about a group is not known if the group is not stored, or if the store fails; then that is
/// reported.
pub proof fn decisions_about_unknown_groups_are_not_told(
    group_id: Seq<u8>,
    found: Result<Option<StoredGroup>, ExternalError>,
    conversation: Result<Option<ConsentState>, ExternalError>,
    peer: Result<Option<ConsentState>, ExternalError>,
    r: Result<ConsentState, GroupError>,
)
    requires
        is_consent(group_id, found, conversation, peer, r),
    ensures
        found matches Err(e) ==> r == Err::<ConsentState, _>(GroupError::External(e)),
        found matches Ok(None) ==> (r matches Err(GroupError::NotFound(NotFound::GroupById(id))) && id@ == group_id),
        found matches Ok(Some(_)) ==> (conversation matches Err(e) ==> r == Err::<ConsentState, _>(
            GroupError::External(e),
        )),
{
}

/// An attribute that the dictionary of a group holds reads as the dictionary says; one stored value that is no text keeps
/// every attribute from being read.
pub proof fn dictionaries_are_read_first(
    list: Seq<Extension>,
    field: MetadataField,
    b: Seq<u8>,
    r: Result<String, GroupError>,
    other: MetadataField,
    other_r: Result<String, GroupError>,
)
    requires
        group_config::metadata_of(list) is Ok,
        component_source::dictionary_value(list, component_source::component_of(field)) == Some(b),
        is_attribute(list, field, r),
        is_attribute(list, other, other_r),
    ensures
        r matches Ok(value) ==> value@ == vstd::utf8::decode_utf8(b),
        !vstd::utf8::valid_utf8(b) ==> (r matches Err(GroupError::ComponentSource(_))) && (other_r matches Err(
            GroupError::ComponentSource(_),
        )),
        dictionary_holds_texts(list) ==> r is Ok,
{
    if !vstd::utf8::valid_utf8(b) {
        let place: int = match field {
            MetadataField::GroupName => 0,
            MetadataField::Description => 1,
            MetadataField::GroupImageUrlSquare => 2,
            MetadataField::MessageDisappearFromNS => 3,
            MetadataField::MessageDisappearInNS => 4,
            MetadataField::MinimumSupportedProtocolVersion => 5,
            MetadataField::CommitLogSigner => 6,
            MetadataField::AppData => 7,
        };
        if let Some(Extension::AppDataDictionary(d)) = extensions::first_of(list, ExtensionType::AppDataDictionary) {
            assert(component_source::field_at(place) == field);
            assert(!component_source::is_text_at(d.entries@, place));
        }
    }
}

} // verus!
