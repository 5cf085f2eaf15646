//! The extensions that a group starts with, and those that an update of the group leads to.

use vstd::prelude::*;
use crate::bytes;
use crate::groups::error::{GroupError, GroupMutableMetadataError, MetadataPermissionsError};
use crate::groups::extensions;
use crate::groups::extensions::{
    CredentialType, Decoded, DmMembers, Extension, ExtensionType, Extensions, GroupMetadata,
    GroupMutableMetadata, Policy, PolicySet, ProposalType, RequiredCapabilities,
};
use crate::groups::group_membership::GroupMembership;
use crate::records::ConversationType;
use crate::text_map::TextMap;

verus! {

/// The fixed metadata of a group that is no direct conversation.
pub fn build_protected_metadata_extension(
    creator_inbox_id: &str,
    conversation_type: ConversationType,
    oneshot_message: Option<Vec<u8>>,
) -> (r: Extension)
    requires
        conversation_type != ConversationType::Dm,
    ensures
        r matches Extension::ImmutableMetadata(Decoded::Valid(metadata)) && {
            &&& metadata.conversation_type == conversation_type
            &&& metadata.creator_inbox_id@ == creator_inbox_id@
            &&& metadata.dm_members is None
            &&& metadata.oneshot_message == oneshot_message
        },
{
    Extension::ImmutableMetadata(
        Decoded::Valid(
            GroupMetadata {
                conversation_type,
                creator_inbox_id: creator_inbox_id.to_owned(),
                dm_members: None,
                oneshot_message,
            },
        ),
    )
}

/// The fixed metadata of a direct conversation.
pub fn build_dm_protected_metadata_extension(creator_inbox_id: &str, dm_inbox_id: String) -> (r: Extension)
    ensures
        r matches Extension::ImmutableMetadata(Decoded::Valid(metadata)) && {
            &&& metadata.conversation_type == ConversationType::Dm
            &&& metadata.creator_inbox_id@ == creator_inbox_id@
            &&& metadata.dm_members matches Some(members) && members.member_one_inbox_id@ == creator_inbox_id@
                && members.member_two_inbox_id == dm_inbox_id
            &&& metadata.oneshot_message is None
        },
{
    Extension::ImmutableMetadata(
        Decoded::Valid(
            GroupMetadata {
                conversation_type: ConversationType::Dm,
                creator_inbox_id: creator_inbox_id.to_owned(),
                dm_members: Some(
                    DmMembers {
                        member_one_inbox_id: creator_inbox_id.to_owned(),
                        member_two_inbox_id: dm_inbox_id,
                    },
                ),
                oneshot_message: None,
            },
        ),
    )
}

/// The permissions of a group.
pub fn build_mutable_permissions_extension(policies: PolicySet) -> (r: Extension)
    ensures
        r == Extension::GroupPermissions(Decoded::Valid(policies)),
{
    Extension::GroupPermissions(Decoded::Valid(policies))
}

/// The key that signs the log of commits.
pub open spec fn signer_of(log_enabled: bool, fresh_secret: Vec<u8>) -> Option<Vec<u8>> {
    if log_enabled {
        Some(fresh_secret)
    } else {
        None
    }
}

/// The log of commits is signed exactly if it is kept, and with the fresh key.
pub proof fn kept_logs_are_signed(log_enabled: bool, fresh_secret: Vec<u8>)
    ensures
        signer_of(log_enabled, fresh_secret) is Some <==> log_enabled,
        log_enabled ==> signer_of(log_enabled, fresh_secret)->0 == fresh_secret,
{
}

/// The key that signs the log of commits, where the log is kept: a fresh one.
pub fn commit_log_signer(log_enabled: bool, fresh_secret: Vec<u8>) -> (r: Option<Vec<u8>>)
    ensures
        r == signer_of(log_enabled, fresh_secret),
{
    if log_enabled {
        Some(fresh_secret)
    } else {
        None
    }
}

/// The mutable metadata that a group starts with.
pub fn build_mutable_metadata_extension_default(metadata: GroupMutableMetadata) -> (r: Extension)
    ensures
        r == Extension::MutableMetadata(Decoded::Valid(metadata)),
{
    Extension::MutableMetadata(Decoded::Valid(metadata))
}

/// The mutable metadata that a direct conversation starts with.
pub fn build_dm_mutable_metadata_extension_default(metadata: GroupMutableMetadata) -> (r: Extension)
    ensures
        r == Extension::MutableMetadata(Decoded::Valid(metadata)),
{
    Extension::MutableMetadata(Decoded::Valid(metadata))
}

/// The mutable metadata of a group, or why it cannot be had.
pub open spec fn metadata_of(list: Seq<Extension>) -> Result<GroupMutableMetadata, GroupMutableMetadataError> {
    match extensions::first_of(list, ExtensionType::MutableMetadata) {
        Some(Extension::MutableMetadata(Decoded::Valid(metadata))) => Ok(metadata),
        Some(Extension::MutableMetadata(Decoded::Malformed(e))) => Err(GroupMutableMetadataError::Malformed(e)),
        _ => Err(GroupMutableMetadataError::MissingExtension),
    }
}

/// The permissions of a group, or why they cannot be had.
pub open spec fn permissions_of(list: Seq<Extension>) -> Result<PolicySet, MetadataPermissionsError> {
    match extensions::first_of(list, ExtensionType::GroupPermissions) {
        Some(Extension::GroupPermissions(Decoded::Valid(policies))) => Ok(policies),
        Some(Extension::GroupPermissions(Decoded::Malformed(e))) => Err(MetadataPermissionsError::Permissions(e)),
        _ => Err(MetadataPermissionsError::MissingPermissions),
    }
}

fn take_metadata(current: Extensions) -> (r: (Extensions, Result<GroupMutableMetadata, GroupMutableMetadataError>))
    ensures
        r.0.list@ == extensions::without_type(current.list@, ExtensionType::MutableMetadata),
        r.1 == metadata_of(current.list@),
{
    let (rest, taken) = current.remove(ExtensionType::MutableMetadata);
    let metadata = match taken {
        Some(Extension::MutableMetadata(Decoded::Valid(metadata))) => Ok(metadata),
        Some(Extension::MutableMetadata(Decoded::Malformed(e))) => Err(GroupMutableMetadataError::Malformed(e)),
        _ => Err(GroupMutableMetadataError::MissingExtension),
    };
    (rest, metadata)
}

fn take_permissions(current: Extensions) -> (r: (Extensions, Result<PolicySet, MetadataPermissionsError>))
    ensures
        r.0.list@ == extensions::without_type(current.list@, ExtensionType::GroupPermissions),
        r.1 == permissions_of(current.list@),
{
    let (rest, taken) = current.remove(ExtensionType::GroupPermissions);
    let policies = match taken {
        Some(Extension::GroupPermissions(Decoded::Valid(policies))) => Ok(policies),
        Some(Extension::GroupPermissions(Decoded::Malformed(e))) => Err(MetadataPermissionsError::Permissions(e)),
        _ => Err(MetadataPermissionsError::MissingPermissions),
    };
    (rest, policies)
}

/// The mutable metadata that was put at the end of a list in place of any other, where a new list
/// differs from the current one in nothing else.
pub open spec fn replaced_metadata(new: Seq<Extension>, current: Seq<Extension>) -> Option<GroupMutableMetadata> {
    if new.len() > 0 && new.drop_last() == extensions::without_type(current, ExtensionType::MutableMetadata) {
        match new.last() {
            Extension::MutableMetadata(Decoded::Valid(metadata)) => Some(metadata),
            _ => None,
        }
    } else {
        None
    }
}

/// Whether a result is the extensions of a group with one attribute set, or why they cannot be had.
pub open spec fn is_attribute_change(
    current: Seq<Extension>,
    field_name: Seq<char>,
    field_value: String,
    r: Result<Extensions, MetadataPermissionsError>,
) -> bool {
    match r {
        Ok(new) => {
            &&& metadata_of(current) matches Ok(existing)
            &&& replaced_metadata(new.list@, current) matches Some(metadata)
            &&& metadata.attributes@ == existing.attributes@.insert(field_name, field_value)
            &&& metadata.admin_list == existing.admin_list
            &&& metadata.super_admin_list == existing.super_admin_list
        },
        Err(e) => metadata_of(current) is Err && e == MetadataPermissionsError::Mutable(metadata_of(current)->Err_0),
    }
}

/// Metadata that replace others in the extensions of a group are what is read there afterwards, and no
/// other extension is touched.
pub proof fn replaced_metadata_are_read(new: Seq<Extension>, current: Seq<Extension>, t: ExtensionType)
    requires
        replaced_metadata(new, current) is Some,
    ensures
        metadata_of(new) == Ok::<_, GroupMutableMetadataError>(replaced_metadata(new, current)->0),
        t != ExtensionType::MutableMetadata ==> extensions::first_of(new, t) == extensions::first_of(current, t),
{
    let e = new.last();
    assert(new =~= extensions::without_type(current, e.spec_type()).push(e));
    extensions::added_extension_is_found(current, e, t);
    extensions::added_extension_is_found(current, e, ExtensionType::MutableMetadata);
}

/// An update of an attribute succeeds exactly if the group has metadata. Afterwards the attribute has the
/// value, every other attribute has the value that it had, the lists of admins are as they were, and so is
/// every other extension.
pub proof fn attribute_updates_change_one_attribute(
    current: Seq<Extension>,
    field_name: Seq<char>,
    field_value: String,
    r: Result<Extensions, MetadataPermissionsError>,
    other: Seq<char>,
    t: ExtensionType,
)
    requires
        is_attribute_change(current, field_name, field_value, r),
    ensures
        r is Ok <==> metadata_of(current) is Ok,
        (r is Ok) ==> {
            let old = metadata_of(current)->Ok_0;
            let list = r->Ok_0.list@;
            &&& metadata_of(list) matches Ok(new) && {
                &&& new.attributes@.dom().contains(field_name)
                &&& new.attributes@[field_name] == field_value
                &&& other != field_name ==> new.attributes@.dom().contains(other) == old.attributes@.dom().contains(
                    other,
                )
                &&& other != field_name && old.attributes@.dom().contains(other) ==> new.attributes@[other]
                    == old.attributes@[other]
                &&& new.admin_list == old.admin_list
                &&& new.super_admin_list == old.super_admin_list
            }
            &&& t != ExtensionType::MutableMetadata ==> extensions::first_of(list, t) == extensions::first_of(
                current,
                t,
            )
        },
{
    if let Ok(new) = r {
        replaced_metadata_are_read(new.list@, current, t);
    }
}

/// The extensions with one attribute set; the lists of admins and every other extension stay.
pub fn build_extensions_for_metadata_update(current: Extensions, field_name: String, field_value: String) -> (r: Result<
    Extensions,
    MetadataPermissionsError,
>)
    ensures
        is_attribute_change(current.list@, field_name@, field_value, r),
{
    let (mut rest, existing) = take_metadata(current);
    let mut metadata = match existing {
        Ok(metadata) => metadata,
        Err(e) => return Err(MetadataPermissionsError::Mutable(e)),
    };
    metadata.attributes.insert(field_name, field_value);
    let ghost others = rest.list@;
    rest.list.push(Extension::MutableMetadata(Decoded::Valid(metadata)));
    assert(rest.list@.drop_last() =~= others);
    Ok(rest)
}

/// What an update of the permissions is about.
#[derive(Clone, Copy, Debug, PartialEq, Eq, Structural)]
pub enum PermissionUpdateType {
    AddMember,
    RemoveMember,
    AddAdmin,
    RemoveAdmin,
    UpdateMetadata,
}

/// An update of the permissions.
#[derive(Debug)]
pub struct UpdatePermissionIntentData {
    pub update_type: PermissionUpdateType,
    pub policy_option: Policy,
    pub metadata_field_name: Option<String>,
}

/// Whether a set of policies is another one after an update: the policy that the update is about
/// is the new one, and all others are as they were.
pub open spec fn is_policy_update(new: PolicySet, old: PolicySet, update: UpdatePermissionIntentData) -> bool {
    let t = update.update_type;
    let p = update.policy_option;
    &&& new.add_member_policy == (if t == PermissionUpdateType::AddMember { p } else { old.add_member_policy })
    &&& new.remove_member_policy == (if t == PermissionUpdateType::RemoveMember { p } else { old.remove_member_policy })
    &&& new.add_admin_policy == (if t == PermissionUpdateType::AddAdmin { p } else { old.add_admin_policy })
    &&& new.remove_admin_policy == (if t == PermissionUpdateType::RemoveAdmin { p } else { old.remove_admin_policy })
    &&& new.update_permissions_policy == old.update_permissions_policy
    &&& new.update_metadata_policy@ == (if t == PermissionUpdateType::UpdateMetadata {
        old.update_metadata_policy@.insert(update.metadata_field_name->0@, p)
    } else {
        old.update_metadata_policy@
    })
}

/// The permissions that were put at the end of a list in place of any other, where a new list
/// differs from the current one in nothing else.
pub open spec fn replaced_permissions(new: Seq<Extension>, current: Seq<Extension>) -> Option<PolicySet> {
    if new.len() > 0 && new.drop_last() == extensions::without_type(current, ExtensionType::GroupPermissions) {
        match new.last() {
            Extension::GroupPermissions(Decoded::Valid(policies)) => Some(policies),
            _ => None,
        }
    } else {
        None
    }
}

/// Whether a result is the extensions of a group with one policy replaced, or why they cannot be had.
pub open spec fn is_permissions_change(
    current: Seq<Extension>,
    update: UpdatePermissionIntentData,
    r: Result<Extensions, MetadataPermissionsError>,
) -> bool {
    match r {
        Ok(new) => {
            &&& update.update_type == PermissionUpdateType::UpdateMetadata ==> update.metadata_field_name is Some
            &&& permissions_of(current) matches Ok(existing)
            &&& replaced_permissions(new.list@, current) matches Some(policies)
            &&& is_policy_update(policies, existing, update)
        },
        Err(e) => if permissions_of(current) is Err {
            e == permissions_of(current)->Err_0
        } else {
            &&& e == MetadataPermissionsError::Mutable(GroupMutableMetadataError::MissingMetadataField)
            &&& update.update_type == PermissionUpdateType::UpdateMetadata
            &&& update.metadata_field_name is None
        },
    }
}

/// An update of a policy changes that policy to the given one, and no other: who may add members, remove
/// members, add admins, remove admins, or change an attribute. Who may change the policies is never changed.
pub proof fn policy_updates_change_one_policy(new: PolicySet, old: PolicySet, update: UpdatePermissionIntentData)
    requires
        is_policy_update(new, old, update),
    ensures
        update.update_type == PermissionUpdateType::AddMember ==> new.add_member_policy == update.policy_option,
        update.update_type == PermissionUpdateType::RemoveMember ==> new.remove_member_policy == update.policy_option,
        update.update_type == PermissionUpdateType::AddAdmin ==> new.add_admin_policy == update.policy_option,
        update.update_type == PermissionUpdateType::RemoveAdmin ==> new.remove_admin_policy == update.policy_option,
        update.update_type == PermissionUpdateType::UpdateMetadata ==> new.update_metadata_policy@.dom().contains(
            update.metadata_field_name->0@,
        ) && new.update_metadata_policy@[update.metadata_field_name->0@] == update.policy_option,
        update.update_type != PermissionUpdateType::AddMember ==> new.add_member_policy == old.add_member_policy,
        update.update_type != PermissionUpdateType::RemoveMember ==> new.remove_member_policy
            == old.remove_member_policy,
        update.update_type != PermissionUpdateType::AddAdmin ==> new.add_admin_policy == old.add_admin_policy,
        update.update_type != PermissionUpdateType::RemoveAdmin ==> new.remove_admin_policy == old.remove_admin_policy,
        new.update_permissions_policy == old.update_permissions_policy,
        update.update_type != PermissionUpdateType::UpdateMetadata ==> new.update_metadata_policy@
            == old.update_metadata_policy@,
        update.update_type == PermissionUpdateType::UpdateMetadata ==> forall|name: Seq<char>|
            name != update.metadata_field_name->0@ ==> #[trigger] new.update_metadata_policy@.dom().contains(name)
                == old.update_metadata_policy@.dom().contains(name) && (old.update_metadata_policy@.dom().contains(name)
                ==> new.update_metadata_policy@[name] == old.update_metadata_policy@[name]),
{
}

/// An update of a policy succeeds exactly if the group has permissions and, for the policy of an attribute,
/// the attribute is named. The updated policies are what is read afterwards, each of them as the update says,
/// and no other extension is touched.
pub proof fn updated_policies_are_read(
    current: Seq<Extension>,
    update: UpdatePermissionIntentData,
    r: Result<Extensions, MetadataPermissionsError>,
    t: ExtensionType,
)
    requires
        is_permissions_change(current, update, r),
    ensures
        r is Ok <==> permissions_of(current) is Ok && (update.update_type == PermissionUpdateType::UpdateMetadata
            ==> update.metadata_field_name is Some),
        (r is Ok) ==> {
            let old = permissions_of(current)->Ok_0;
            let list = r->Ok_0.list@;
            &&& permissions_of(list) matches Ok(new) && {
                &&& update.update_type == PermissionUpdateType::AddMember ==> new.add_member_policy
                    == update.policy_option && new.remove_member_policy == old.remove_member_policy
                    && new.add_admin_policy == old.add_admin_policy && new.remove_admin_policy
                    == old.remove_admin_policy
                &&& update.update_type == PermissionUpdateType::RemoveMember ==> new.remove_member_policy
                    == update.policy_option && new.add_member_policy == old.add_member_policy && new.add_admin_policy
                    == old.add_admin_policy && new.remove_admin_policy == old.remove_admin_policy
                &&& update.update_type == PermissionUpdateType::AddAdmin ==> new.add_admin_policy
                    == update.policy_option && new.remove_admin_policy == old.remove_admin_policy
                    && new.add_member_policy == old.add_member_policy && new.remove_member_policy
                    == old.remove_member_policy
                &&& update.update_type == PermissionUpdateType::RemoveAdmin ==> new.remove_admin_policy
                    == update.policy_option && new.add_admin_policy == old.add_admin_policy && new.add_member_policy
                    == old.add_member_policy && new.remove_member_policy == old.remove_member_policy
                &&& update.update_type == PermissionUpdateType::UpdateMetadata ==> new.update_metadata_policy@.dom().contains(
                    update.metadata_field_name->0@,
                ) && new.update_metadata_policy@[update.metadata_field_name->0@] == update.policy_option
                    && new.add_admin_policy == old.add_admin_policy && new.remove_admin_policy
                    == old.remove_admin_policy && new.add_member_policy == old.add_member_policy
                    && new.remove_member_policy == old.remove_member_policy
                &&& new.update_permissions_policy == old.update_permissions_policy
            }
            &&& t != ExtensionType::GroupPermissions ==> extensions::first_of(list, t) == extensions::first_of(
                current,
                t,
            )
        },
{
    if let Ok(new) = r {
        let e = new.list@.last();
        assert(new.list@ =~= extensions::without_type(current, e.spec_type()).push(e));
        extensions::added_extension_is_found(current, e, t);
        extensions::added_extension_is_found(current, e, ExtensionType::GroupPermissions);
    }
}

/// The extensions with one policy replaced. A policy for metadata needs the name of its attribute.
pub fn build_extensions_for_permissions_update(current: Extensions, update: UpdatePermissionIntentData) -> (r: Result<
    Extensions,
    MetadataPermissionsError,
>)
    ensures
        is_permissions_change(current.list@, update, r),
{
    let (mut rest, existing) = take_permissions(current);
    let mut policies = match existing {
        Ok(policies) => policies,
        Err(e) => return Err(e),
    };
    match update.update_type {
        PermissionUpdateType::AddMember => {
            policies.add_member_policy = update.policy_option;
        },
        PermissionUpdateType::RemoveMember => {
            policies.remove_member_policy = update.policy_option;
        },
        PermissionUpdateType::AddAdmin => {
            policies.add_admin_policy = update.policy_option;
        },
        PermissionUpdateType::RemoveAdmin => {
            policies.remove_admin_policy = update.policy_option;
        },
        PermissionUpdateType::UpdateMetadata => {
            match update.metadata_field_name {
                Some(name) => policies.update_metadata_policy.insert(name, update.policy_option),
                None => return Err(
                    MetadataPermissionsError::Mutable(GroupMutableMetadataError::MissingMetadataField),
                ),
            }
        },
    }
    let ghost others = rest.list@;
    rest.list.push(Extension::GroupPermissions(Decoded::Valid(policies)));
    assert(rest.list@.drop_last() =~= others);
    Ok(rest)
}

/// What an update of the lists of admins does.
#[derive(Clone, Copy, Debug, PartialEq, Eq, Structural)]
pub enum AdminListActionType {
    Add,
    Remove,
    AddSuper,
    RemoveSuper,
}

/// An update of the lists of admins.
#[derive(Debug)]
pub struct UpdateAdminListIntentData {
    pub action_type: AdminListActionType,
    pub inbox_id: String,
}

/// A list with an inbox on it, at the end if it was not there.
pub open spec fn with_inbox(list: Seq<String>, inbox_id: String) -> Seq<String> {
    if bytes::text_views(list).contains(inbox_id@) {
        list
    } else {
        list.push(inbox_id)
    }
}

/// A list without an inbox.
pub open spec fn without_inbox(list: Seq<String>, inbox_id: String) -> Seq<String> {
    list.filter(|s: String| s@ != inbox_id@)
}

/// The lists of admins and of super admins after an update.
pub open spec fn admins_after(
    admins: Seq<String>,
    super_admins: Seq<String>,
    update: UpdateAdminListIntentData,
) -> (Seq<String>, Seq<String>) {
    match update.action_type {
        AdminListActionType::Add => (with_inbox(admins, update.inbox_id), super_admins),
        AdminListActionType::Remove => (without_inbox(admins, update.inbox_id), super_admins),
        AdminListActionType::AddSuper => (admins, with_inbox(super_admins, update.inbox_id)),
        AdminListActionType::RemoveSuper => (admins, without_inbox(super_admins, update.inbox_id)),
    }
}

fn push_absent(list: Vec<String>, inbox_id: String) -> (r: Vec<String>)
    ensures
        r@ == with_inbox(list@, inbox_id),
{
    let mut list = list;
    if !bytes::contains_text(list.as_slice(), inbox_id.as_str()) {
        list.push(inbox_id);
    }
    list
}

fn retain_others(list: Vec<String>, inbox_id: &String) -> (r: Vec<String>)
    ensures
        r@ == without_inbox(list@, *inbox_id),
{
    let ghost p = |s: String| s@ != inbox_id@;
    let mut kept: Vec<String> = Vec::new();
    let mut i: usize = 0;
    proof {
        reveal(Seq::filter);
        assert(list@.take(0) =~= Seq::<String>::empty());
    }
    while i < list.len()
        invariant
            i <= list@.len(),
            p == (|s: String| s@ != inbox_id@),
            kept@ == list@.take(i as int).filter(p),
        decreases list@.len() - i,
    {
        proof {
            reveal(Seq::filter);
            assert(list@.take(i + 1).drop_last() =~= list@.take(i as int));
            assert(list@.take(i + 1).last() == list@[i as int]);
        }
        if list[i] != *inbox_id {
            kept.push(list[i].clone());
        }
        i += 1;
    }
    assert(list@.take(i as int) =~= list@);
    kept
}

/// Whether a result is the extensions of a group with a list of admins changed, or why they cannot be had.
pub open spec fn is_admin_lists_change(
    current: Seq<Extension>,
    update: UpdateAdminListIntentData,
    r: Result<Extensions, MetadataPermissionsError>,
) -> bool {
    match r {
        Ok(new) => {
            &&& metadata_of(current) matches Ok(existing)
            &&& replaced_metadata(new.list@, current) matches Some(metadata)
            &&& metadata.attributes == existing.attributes
            &&& (metadata.admin_list@, metadata.super_admin_list@) == admins_after(
                existing.admin_list@,
                existing.super_admin_list@,
                update,
            )
        },
        Err(e) => metadata_of(current) is Err && e == MetadataPermissionsError::Mutable(metadata_of(current)->Err_0),
    }
}

/// The extensions with one inbox added to or removed from a list of admins; the attributes, the
/// other list and every other extension stay.
pub fn build_extensions_for_admin_lists_update(current: Extensions, update: UpdateAdminListIntentData) -> (r: Result<
    Extensions,
    MetadataPermissionsError,
>)
    ensures
        is_admin_lists_change(current.list@, update, r),
{
    let (mut rest, existing) = take_metadata(current);
    let metadata = match existing {
        Ok(metadata) => metadata,
        Err(e) => return Err(MetadataPermissionsError::Mutable(e)),
    };
    let GroupMutableMetadata { attributes, admin_list, super_admin_list } = metadata;
    let changed = match update.action_type {
        AdminListActionType::Add => GroupMutableMetadata {
            attributes,
            admin_list: push_absent(admin_list, update.inbox_id),
            super_admin_list,
        },
        AdminListActionType::Remove => GroupMutableMetadata {
            attributes,
            admin_list: retain_others(admin_list, &update.inbox_id),
            super_admin_list,
        },
        AdminListActionType::AddSuper => GroupMutableMetadata {
            attributes,
            admin_list,
            super_admin_list: push_absent(super_admin_list, update.inbox_id),
        },
        AdminListActionType::RemoveSuper => GroupMutableMetadata {
            attributes,
            admin_list,
            super_admin_list: retain_others(super_admin_list, &update.inbox_id),
        },
    };
    let ghost others = rest.list@;
    rest.list.push(Extension::MutableMetadata(Decoded::Valid(changed)));
    assert(rest.list@.drop_last() =~= others);
    Ok(rest)
}

/// An inbox that was added to a list is on it, one that was removed is not, and for all others
/// nothing changes.
pub proof fn admin_lists_change_one_inbox(list: Seq<String>, inbox_id: String, other: Seq<char>)
    ensures
        bytes::text_views(with_inbox(list, inbox_id)).contains(inbox_id@),
        !bytes::text_views(without_inbox(list, inbox_id)).contains(inbox_id@),
        other != inbox_id@ ==> bytes::text_views(with_inbox(list, inbox_id)).contains(other)
            == bytes::text_views(list).contains(other),
        other != inbox_id@ ==> bytes::text_views(without_inbox(list, inbox_id)).contains(other)
            == bytes::text_views(list).contains(other),
    decreases list.len(),
{
    reveal(Seq::filter);
    let views = bytes::text_views(list);
    let added = bytes::text_views(with_inbox(list, inbox_id));
    if !views.contains(inbox_id@) {
        assert(added =~= views.push(inbox_id@));
        assert(added[views.len() as int] == inbox_id@);
        if views.contains(other) {
            let i = choose|i: int| 0 <= i < views.len() && views[i] == other;
            assert(added[i] == other);
        }
    }
    let kept = bytes::text_views(without_inbox(list, inbox_id));
    if list.len() > 0 {
        let init = list.drop_last();
        let last = list.last();
        admin_lists_change_one_inbox(init, inbox_id, other);
        let init_views = bytes::text_views(init);
        let init_kept = bytes::text_views(without_inbox(init, inbox_id));
        assert(views =~= init_views.push(last@));
        vstd::seq_lib::lemma_seq_contains_after_push(init_views, last@, other);
        if last@ != inbox_id@ {
            assert(kept =~= init_kept.push(last@));
            vstd::seq_lib::lemma_seq_contains_after_push(init_kept, last@, other);
            vstd::seq_lib::lemma_seq_contains_after_push(init_kept, last@, inbox_id@);
        } else {
            assert(kept =~= init_kept);
        }
    } else {
        assert(kept =~= Seq::<Seq<char>>::empty());
        assert(views =~= Seq::<Seq<char>>::empty());
    }
}

/// An update of the lists of admins succeeds exactly if the group has metadata. Afterwards the inbox is on
/// the list that the update is about if it was added, and not on it if it was removed; the other list is as
/// it was, everybody else is on the list exactly if they were, the attributes are as they were, and so is
/// every other extension.
pub proof fn admin_updates_change_one_list(
    current: Seq<Extension>,
    update: UpdateAdminListIntentData,
    r: Result<Extensions, MetadataPermissionsError>,
    other: Seq<char>,
    t: ExtensionType,
)
    requires
        is_admin_lists_change(current, update, r),
    ensures
        r is Ok <==> metadata_of(current) is Ok,
        (r is Ok) ==> {
            let old = metadata_of(current)->Ok_0;
            let list = r->Ok_0.list@;
            &&& metadata_of(list) matches Ok(new) && {
                &&& new.attributes == old.attributes
                &&& update.action_type == AdminListActionType::Add ==> new.admins().contains(update.inbox_id@)
                &&& update.action_type == AdminListActionType::Remove ==> !new.admins().contains(update.inbox_id@)
                &&& update.action_type == AdminListActionType::AddSuper ==> new.super_admins().contains(
                    update.inbox_id@,
                )
                &&& update.action_type == AdminListActionType::RemoveSuper ==> !new.super_admins().contains(
                    update.inbox_id@,
                )
                &&& (update.action_type == AdminListActionType::Add || update.action_type
                    == AdminListActionType::Remove) ==> new.super_admin_list@ == old.super_admin_list@
                &&& (update.action_type == AdminListActionType::AddSuper || update.action_type
                    == AdminListActionType::RemoveSuper) ==> new.admin_list@ == old.admin_list@
                &&& other != update.inbox_id@ ==> new.admins().contains(other) == old.admins().contains(other)
                &&& other != update.inbox_id@ ==> new.super_admins().contains(other) == old.super_admins().contains(
                    other,
                )
            }
            &&& t != ExtensionType::MutableMetadata ==> extensions::first_of(list, t) == extensions::first_of(
                current,
                t,
            )
        },
{
    if let Ok(new) = r {
        replaced_metadata_are_read(new.list@, current, t);
        let old = metadata_of(current)->Ok_0;
        admin_lists_change_one_inbox(old.admin_list@, update.inbox_id, other);
        admin_lists_change_one_inbox(old.super_admin_list@, update.inbox_id, other);
    }
}

/// The members that a group starts with: its creator.
pub fn build_starting_group_membership_extension(inbox_id: &str, sequence_id: u64) -> (r: Extension)
    ensures
        r matches Extension::GroupMembership(Decoded::Valid(membership)) && {
            &&& membership.members@ == Map::<Seq<char>, u64>::empty().insert(inbox_id@, sequence_id)
            &&& membership.failed_installations@.len() == 0
        },
{
    let mut membership = GroupMembership::new();
    membership.add(inbox_id.to_owned(), sequence_id);
    Extension::GroupMembership(Decoded::Valid(membership))
}

/// The extension that holds a membership.
pub fn build_group_membership_extension(membership: &GroupMembership) -> (r: Extension)
    ensures
        r matches Extension::GroupMembership(Decoded::Valid(copy)) && {
            &&& copy.members@ == membership.members@
            &&& bytes::byte_views(copy.failed_installations@) == bytes::byte_views(
                membership.failed_installations@,
            )
        },
{
    Extension::GroupMembership(Decoded::Valid(membership.duplicate()))
}

/// Whether extensions turn the proposal flow on: the first extension about it decides.
pub open spec fn proposals_on(list: Seq<Extension>) -> bool {
    extensions::first_of(list, ExtensionType::ProposalSupport) matches Some(
        Extension::ProposalSupport(Decoded::Valid(version)),
    ) && version > 0
}

/// The proposal flow is on exactly if the first extension about it decodes to a version above zero.
pub proof fn the_proposal_flow_is_on_by_its_version(list: Seq<Extension>, i: int)
    requires
        0 <= i < list.len(),
        list[i].spec_type() == ExtensionType::ProposalSupport,
        forall|j: int| 0 <= j < i ==> (#[trigger] list[j]).spec_type() != ExtensionType::ProposalSupport,
    ensures
        list[i] matches Extension::ProposalSupport(Decoded::Valid(version)) ==> proposals_on(list) == (version > 0),
        list[i] matches Extension::ProposalSupport(Decoded::Malformed(_)) ==> !proposals_on(list),
{
    extensions::lemma_first_of(list, ExtensionType::ProposalSupport, i);
}

/// Whether extensions turn the proposal flow on. One that does not decode does not.
pub fn check_proposals_enabled(group_extensions: &Extensions) -> (r: bool)
    ensures
        r == proposals_on(group_extensions.list@),
{
    match group_extensions.find(ExtensionType::ProposalSupport) {
        Some(Extension::ProposalSupport(Decoded::Valid(version))) => *version > 0,
        _ => false,
    }
}

/// The extension that turns the proposal flow on.
pub fn build_proposals_enabled_extension() -> (r: Extension)
    ensures
        r == Extension::ProposalSupport(Decoded::Valid(1)),
{
    Extension::ProposalSupport(Decoded::Valid(1))
}

/// What extensions demand that members support.
pub open spec fn required_of(list: Seq<Extension>) -> Option<RequiredCapabilities> {
    match extensions::first_of(list, ExtensionType::RequiredCapabilities) {
        Some(Extension::RequiredCapabilities(required)) => Some(required),
        _ => None,
    }
}

/// A list of extension types with the proposal flow put on it or taken off it.
pub open spec fn with_proposal_support(types: Seq<ExtensionType>, add: bool) -> Seq<ExtensionType> {
    if add && !types.contains(ExtensionType::ProposalSupport) {
        types.push(ExtensionType::ProposalSupport)
    } else if !add {
        types.filter(|t: ExtensionType| t != ExtensionType::ProposalSupport)
    } else {
        types
    }
}

fn contains_type(types: &Vec<ExtensionType>, wanted: ExtensionType) -> (r: bool)
    ensures
        r == types@.contains(wanted),
{
    let mut i: usize = 0;
    while i < types.len()
        invariant
            i <= types@.len(),
            forall|j: int| 0 <= j < i ==> types@[j] != wanted,
        decreases types@.len() - i,
    {
        if types[i] == wanted {
            assert(types@[i as int] == wanted);
            return true;
        }
        i += 1;
    }
    false
}

fn without_proposal_support(types: &Vec<ExtensionType>) -> (r: Vec<ExtensionType>)
    ensures
        r@ == types@.filter(|t: ExtensionType| t != ExtensionType::ProposalSupport),
{
    let ghost p = |t: ExtensionType| t != ExtensionType::ProposalSupport;
    let mut kept: Vec<ExtensionType> = Vec::new();
    let mut i: usize = 0;
    proof {
        reveal(Seq::filter);
        assert(types@.take(0) =~= Seq::<ExtensionType>::empty());
    }
    while i < types.len()
        invariant
            i <= types@.len(),
            p == (|t: ExtensionType| t != ExtensionType::ProposalSupport),
            kept@ == types@.take(i as int).filter(p),
        decreases types@.len() - i,
    {
        proof {
            reveal(Seq::filter);
            assert(types@.take(i + 1).drop_last() =~= types@.take(i as int));
            assert(types@.take(i + 1).last() == types@[i as int]);
        }
        if types[i] != ExtensionType::ProposalSupport {
            kept.push(types[i]);
        }
        i += 1;
    }
    assert(types@.take(i as int) =~= types@);
    kept
}

/// Whether a list is another one with the proposal flow put on, or taken off, what members must
/// support. Where it is already so, or where nothing is demanded at all, nothing changes.
pub open spec fn is_required_update(current: Seq<Extension>, new: Seq<Extension>, add: bool) -> bool {
    match required_of(current) {
        None => new == current,
        Some(required) => if required.extension_types@.contains(ExtensionType::ProposalSupport) == add {
            new == current
        } else {
            &&& new.len() > 0
            &&& new.drop_last() == extensions::without_type(current, ExtensionType::RequiredCapabilities)
            &&& new.last() matches Extension::RequiredCapabilities(updated)
            &&& updated.extension_types@ == with_proposal_support(required.extension_types@, add)
            &&& updated.proposal_types == required.proposal_types
            &&& updated.credential_types == required.credential_types
        },
    }
}

/// Such an update touches no other extension; afterwards the proposal flow is demanded exactly if
/// it was put on, wherever anything is demanded.
pub proof fn lemma_required_update(current: Seq<Extension>, new: Seq<Extension>, add: bool)
    requires
        is_required_update(current, new, add),
    ensures
        required_of(new) is Some == required_of(current) is Some,
        required_of(new) matches Some(required) ==> required.extension_types@.contains(
            ExtensionType::ProposalSupport,
        ) == add,
        required_of(new) matches Some(required) ==> required.proposal_types == required_of(current)->0.proposal_types
            && required.credential_types == required_of(current)->0.credential_types,
        forall|t: ExtensionType|
            t != ExtensionType::RequiredCapabilities ==> #[trigger] extensions::first_of(new, t)
                == extensions::first_of(current, t),
{
    if let Some(required) = required_of(current) {
        proposal_support_is_toggled(required.extension_types@);
        if required.extension_types@.contains(ExtensionType::ProposalSupport) != add {
            let e = new.last();
            assert(new =~= extensions::without_type(current, e.spec_type()).push(e));
            assert forall|t: ExtensionType| t != ExtensionType::RequiredCapabilities implies #[trigger] extensions::first_of(
                new,
                t,
            ) == extensions::first_of(current, t) by {
                extensions::added_extension_is_found(current, e, t);
            }
            extensions::added_extension_is_found(current, e, ExtensionType::RequiredCapabilities);
        }
    }
}

/// Puts the proposal flow on the list of what members must support, or takes it off.
pub fn update_required_capabilities_for_proposals(current: Extensions, add: bool) -> (r: Extensions)
    ensures
        is_required_update(current.list@, r.list@, add),
{
    let change: bool = match current.find(ExtensionType::RequiredCapabilities) {
        Some(Extension::RequiredCapabilities(required)) => contains_type(
            &required.extension_types,
            ExtensionType::ProposalSupport,
        ) != add,
        _ => false,
    };
    if !change {
        return current;
    }
    let (mut rest, taken) = current.remove(ExtensionType::RequiredCapabilities);
    if let Some(Extension::RequiredCapabilities(required)) = taken {
        let RequiredCapabilities { extension_types, proposal_types, credential_types } = required;
        let mut types = extension_types;
        if add {
            types.push(ExtensionType::ProposalSupport);
        } else {
            types = without_proposal_support(&types);
        }
        let updated = RequiredCapabilities { extension_types: types, proposal_types, credential_types };
        let ghost others = rest.list@;
        rest.list.push(Extension::RequiredCapabilities(updated));
        assert(rest.list@.drop_last() =~= others);
    }
    rest
}

/// Putting the proposal flow on a list demands it, taking it off does not, and taking it off undoes
/// putting it on a list that was without it.
pub proof fn proposal_support_is_toggled(types: Seq<ExtensionType>)
    ensures
        with_proposal_support(types, true).contains(ExtensionType::ProposalSupport),
        !with_proposal_support(types, false).contains(ExtensionType::ProposalSupport),
        !types.contains(ExtensionType::ProposalSupport) ==> with_proposal_support(
            with_proposal_support(types, true),
            false,
        ) == types,
{
    let on = with_proposal_support(types, true);
    if !types.contains(ExtensionType::ProposalSupport) {
        assert(on[types.len() as int] == ExtensionType::ProposalSupport);
        lemma_filter_types(types);
        reveal(Seq::filter);
        assert(on.drop_last() =~= types);
    }
    lemma_filter_types(types);
}

proof fn lemma_filter_types(types: Seq<ExtensionType>)
    ensures
        !with_proposal_support(types, false).contains(ExtensionType::ProposalSupport),
        !types.contains(ExtensionType::ProposalSupport) ==> with_proposal_support(types, false) == types,
    decreases types.len(),
{
    reveal(Seq::filter);
    let off = with_proposal_support(types, false);
    if types.len() > 0 {
        let init = types.drop_last();
        lemma_filter_types(init);
        let off_init = with_proposal_support(init, false);
        if types.last() != ExtensionType::ProposalSupport {
            assert(off == off_init.push(types.last()));
            if off.contains(ExtensionType::ProposalSupport) {
                let i = choose|i: int| 0 <= i < off.len() && off[i] == ExtensionType::ProposalSupport;
                assert(off_init[i] == ExtensionType::ProposalSupport);
            }
        }
        if !types.contains(ExtensionType::ProposalSupport) {
            assert forall|i: int| 0 <= i < init.len() implies init[i] != ExtensionType::ProposalSupport by {
                assert(types[i] == init[i]);
            }
            assert(types[types.len() - 1] == types.last());
            assert(init.push(types.last()) =~= types);
        }
    } else {
        assert(off =~= types);
    }
}

/// Whether extensions are others with another membership.
pub open spec fn is_membership_change(
    current: Seq<Extension>,
    new_membership: GroupMembership,
    new: Seq<Extension>,
) -> bool {
    exists|copy: GroupMembership|
        {
            &&& new == #[trigger] extensions::without_type(current, ExtensionType::GroupMembership).push(
                Extension::GroupMembership(Decoded::Valid(copy)),
            )
            &&& copy.members@ == new_membership.members@
            &&& bytes::byte_views(copy.failed_installations@) == bytes::byte_views(new_membership.failed_installations@)
        }
}

/// Another membership is what is read from the extensions afterwards, with its members and with the installations that
/// failed, and no other extension is touched.
pub proof fn changed_memberships_are_read(
    current: Seq<Extension>,
    new_membership: GroupMembership,
    new: Seq<Extension>,
    t: ExtensionType,
)
    requires
        is_membership_change(current, new_membership, new),
    ensures
        extensions::first_of(new, ExtensionType::GroupMembership) matches Some(
            Extension::GroupMembership(Decoded::Valid(read)),
        ) && read.members@ == new_membership.members@ && bytes::byte_views(read.failed_installations@)
            == bytes::byte_views(new_membership.failed_installations@),
        t != ExtensionType::GroupMembership ==> extensions::first_of(new, t) == extensions::first_of(current, t),
{
    let copy = choose|copy: GroupMembership|
        {
            &&& new == #[trigger] extensions::without_type(current, ExtensionType::GroupMembership).push(
                Extension::GroupMembership(Decoded::Valid(copy)),
            )
            &&& copy.members@ == new_membership.members@
            &&& bytes::byte_views(copy.failed_installations@) == bytes::byte_views(new_membership.failed_installations@)
        };
    let e = Extension::GroupMembership(Decoded::Valid(copy));
    assert(e.spec_type() == ExtensionType::GroupMembership);
    extensions::added_extension_is_found(current, e, t);
    extensions::added_extension_is_found(current, e, ExtensionType::GroupMembership);
}

/// The extensions with another membership.
pub fn build_extensions_for_membership_update(current: Extensions, new_membership: &GroupMembership) -> (r: Extensions)
    ensures
        is_membership_change(current.list@, *new_membership, r.list@),
{
    let extension = build_group_membership_extension(new_membership);
    let ghost added = extension;
    let out = current.add_or_replace(extension);
    assert(out.list@ == extensions::without_type(current.list@, ExtensionType::GroupMembership).push(added));
    out
}

/// How a group is set up.
pub struct GroupCreateConfig {
    pub extensions: Extensions,
    /// What the creator's leaf says that it supports.
    pub creator_extensions: Vec<ExtensionType>,
    pub creator_proposals: Vec<ProposalType>,
    pub max_past_epochs: usize,
    pub use_ratchet_tree_extension: bool,
}

/// What every member of a group must support.
pub open spec fn required_extension_types() -> Seq<ExtensionType> {
    seq![
        ExtensionType::GroupMembership,
        ExtensionType::MutableMetadata,
        ExtensionType::GroupPermissions,
        ExtensionType::ImmutableMetadata,
        ExtensionType::LastResort,
        ExtensionType::ApplicationId,
    ]
}

/// What the creator of a group supports beyond that.
pub open spec fn creator_extension_types(broadcast_proposal_support: bool) -> Seq<ExtensionType> {
    let base = required_extension_types().push(ExtensionType::WelcomeWrapperEncryption).push(
        ExtensionType::WelcomePointeeEncryptionAeadTypes,
    );
    if broadcast_proposal_support {
        base.push(ExtensionType::ProposalSupport)
    } else {
        base
    }
}

fn required_types() -> (r: Vec<ExtensionType>)
    ensures
        r@ == required_extension_types(),
{
    let mut types: Vec<ExtensionType> = Vec::new();
    types.push(ExtensionType::GroupMembership);
    types.push(ExtensionType::MutableMetadata);
    types.push(ExtensionType::GroupPermissions);
    types.push(ExtensionType::ImmutableMetadata);
    types.push(ExtensionType::LastResort);
    types.push(ExtensionType::ApplicationId);
    assert(types@ =~= required_extension_types());
    types
}

/// Whether a list has two extensions of the same type.
pub open spec fn has_repeated_type(list: Seq<Extension>) -> bool {
    exists|i: int, j: int|
        0 <= i < j < list.len() && (#[trigger] list[i]).spec_type() == (#[trigger] list[j]).spec_type()
}

fn repeats_type(list: &Vec<Extension>) -> (r: bool)
    ensures
        r == has_repeated_type(list@),
{
    let mut i: usize = 0;
    while i < list.len()
        invariant
            i <= list@.len(),
            forall|a: int, b: int|
                0 <= a < i && a < b < list@.len() ==> (#[trigger] list@[a]).spec_type()
                    != (#[trigger] list@[b]).spec_type(),
        decreases list@.len() - i,
    {
        let mut j: usize = i + 1;
        while j < list.len()
            invariant
                i < j <= list@.len(),
                forall|b: int| i < b < j ==> list@[i as int].spec_type() != (#[trigger] list@[b]).spec_type(),
            decreases list@.len() - j,
        {
            if list[i].extension_type() == list[j].extension_type() {
                assert(list@[i as int].spec_type() == list@[j as int].spec_type());
                return true;
            }
            j += 1;
        }
        i += 1;
    }
    false
}

/// Whether an outcome is how a group with given extensions is set up.
pub open spec fn is_config_of(
    given: Seq<Extension>,
    broadcast_proposal_support: bool,
    max_past_epochs: usize,
    r: Result<GroupCreateConfig, GroupError>,
) -> bool {
    match r {
        Ok(config) => {
            &&& config.extensions.list@.len() == 5
            &&& config.extensions.list@.take(4) == given
            &&& config.extensions.list@[4] matches Extension::RequiredCapabilities(required) && {
                &&& required.extension_types@ == required_extension_types()
                &&& required.proposal_types@ == seq![ProposalType::GroupContextExtensions]
                &&& required.credential_types@ == seq![CredentialType::Basic]
            }
            &&& !has_repeated_type(config.extensions.list@)
            &&& config.creator_extensions@ == creator_extension_types(broadcast_proposal_support)
            &&& config.creator_proposals@ == seq![ProposalType::GroupContextExtensions]
            &&& config.max_past_epochs == max_past_epochs
            &&& config.use_ratchet_tree_extension
        },
        Err(e) => {
            &&& e == GroupError::DuplicateExtension
            &&& has_repeated_type(given) || exists|i: int|
                0 <= i < 4 && (#[trigger] given[i]).spec_type() == ExtensionType::RequiredCapabilities
        },
    }
}

/// A group is set up with exactly the extensions that it is given, in their order, and with what its members must
/// support: all that a group has of its own. It is refused exactly if two extensions are of the same type.
pub proof fn groups_have_the_extensions_they_are_given(
    given: Seq<Extension>,
    broadcast_proposal_support: bool,
    max_past_epochs: usize,
    r: Result<GroupCreateConfig, GroupError>,
    i: int,
)
    requires
        given.len() == 4,
        is_config_of(given, broadcast_proposal_support, max_past_epochs, r),
    ensures
        r is Err <==> has_repeated_type(given) || exists|k: int|
            0 <= k < 4 && (#[trigger] given[k]).spec_type() == ExtensionType::RequiredCapabilities,
        r matches Err(e) ==> e == GroupError::DuplicateExtension,
        r matches Ok(config) ==> {
            &&& 0 <= i < 4 ==> config.extensions.list@[i] == given[i]
            &&& config.extensions.list@[4] matches Extension::RequiredCapabilities(required) && {
                &&& required.extension_types@.contains(ExtensionType::GroupMembership)
                &&& required.extension_types@.contains(ExtensionType::MutableMetadata)
                &&& required.extension_types@.contains(ExtensionType::ImmutableMetadata)
                &&& required.extension_types@.contains(ExtensionType::GroupPermissions)
                &&& !required.extension_types@.contains(ExtensionType::ProposalSupport)
                &&& required.proposal_types@.contains(ProposalType::GroupContextExtensions)
                &&& required.credential_types@.contains(CredentialType::Basic)
            }
            &&& config.max_past_epochs == max_past_epochs
            &&& config.use_ratchet_tree_extension
            &&& config.creator_proposals@.contains(ProposalType::GroupContextExtensions)
        },
{
    let types = required_extension_types();
    assert(types[0] == ExtensionType::GroupMembership);
    assert(types[1] == ExtensionType::MutableMetadata);
    assert(types[2] == ExtensionType::GroupPermissions);
    assert(types[3] == ExtensionType::ImmutableMetadata);
    if let Ok(config) = r {
        let list = config.extensions.list@;
        assert forall|k: int| 0 <= k < 4 implies list[k] == #[trigger] given[k] by {
            assert(list.take(4)[k] == given[k]);
        }
        assert(list[4].spec_type() == ExtensionType::RequiredCapabilities);
        assert(seq![ProposalType::GroupContextExtensions][0] == ProposalType::GroupContextExtensions);
        assert(seq![CredentialType::Basic][0] == CredentialType::Basic);
        if has_repeated_type(given) {
            let (a, b) = choose|a: int, b: int|
                0 <= a < b < given.len() && (#[trigger] given[a]).spec_type() == (#[trigger] given[b]).spec_type();
            assert(list[a].spec_type() == list[b].spec_type());
        }
        if exists|k: int| 0 <= k < 4 && (#[trigger] given[k]).spec_type() == ExtensionType::RequiredCapabilities {
            let k = choose|k: int|
                0 <= k < 4 && (#[trigger] given[k]).spec_type() == ExtensionType::RequiredCapabilities;
            assert(list[k].spec_type() == list[4].spec_type());
        }
    }
}

/// How a group with these extensions is set up. Members must support the extensions that every
/// group has; what only the creator supports is not demanded of others.
pub fn build_group_config(
    protected_metadata_extension: Extension,
    mutable_metadata_extension: Extension,
    group_membership_extension: Extension,
    mutable_permission_extension: Extension,
    broadcast_proposal_support: bool,
    max_past_epochs: usize,
) -> (r: Result<GroupCreateConfig, GroupError>)
    ensures
        is_config_of(
            seq![
                protected_metadata_extension,
                mutable_metadata_extension,
                group_membership_extension,
                mutable_permission_extension,
            ],
            broadcast_proposal_support,
            max_past_epochs,
            r,
        ),
{
    let ghost given = seq![
        protected_metadata_extension,
        mutable_metadata_extension,
        group_membership_extension,
        mutable_permission_extension,
    ];
    let mut proposal_types: Vec<ProposalType> = Vec::new();
    proposal_types.push(ProposalType::GroupContextExtensions);
    assert(proposal_types@ =~= seq![ProposalType::GroupContextExtensions]);
    let mut credential_types: Vec<CredentialType> = Vec::new();
    credential_types.push(CredentialType::Basic);
    assert(credential_types@ =~= seq![CredentialType::Basic]);
    let mut creator_extensions = required_types();
    creator_extensions.push(ExtensionType::WelcomeWrapperEncryption);
    creator_extensions.push(ExtensionType::WelcomePointeeEncryptionAeadTypes);
    if broadcast_proposal_support {
        creator_extensions.push(ExtensionType::ProposalSupport);
    }
    let mut creator_proposals: Vec<ProposalType> = Vec::new();
    creator_proposals.push(ProposalType::GroupContextExtensions);
    assert(creator_proposals@ =~= seq![ProposalType::GroupContextExtensions]);
    let required = RequiredCapabilities { extension_types: required_types(), proposal_types, credential_types };
    let mut list: Vec<Extension> = Vec::new();
    list.push(protected_metadata_extension);
    list.push(mutable_metadata_extension);
    list.push(group_membership_extension);
    list.push(mutable_permission_extension);
    list.push(Extension::RequiredCapabilities(required));
    assert(list@.take(4) =~= given);
    if repeats_type(&list) {
        proof {
            let (i, j) = choose|i: int, j: int|
                0 <= i < j < list@.len() && (#[trigger] list@[i]).spec_type() == (#[trigger] list@[j]).spec_type();
            assert(list@[i] == given[i]);
            if j < 4 {
                assert(list@[j] == given[j]);
                assert(given[i].spec_type() == given[j].spec_type());
            } else {
                assert(given[i].spec_type() == ExtensionType::RequiredCapabilities);
            }
        }
        return Err(GroupError::DuplicateExtension);
    }
    Ok(
        GroupCreateConfig {
            extensions: Extensions { list },
            creator_extensions,
            creator_proposals,
            max_past_epochs,
            use_ratchet_tree_extension: true,
        },
    )
}

/// Whether an inbox still needs the update with a sequence id.
pub open spec fn needs_update(existing: Map<Seq<char>, i64>, filter: (String, i64)) -> bool {
    !(existing.dom().contains(filter.0@) && existing[filter.0@] >= filter.1)
}

/// The inboxes among those asked for that need an update.
pub open spec fn stale_inboxes(existing: Map<Seq<char>, i64>, filters: Seq<(String, i64)>) -> Seq<String> {
    filters.filter(|f: (String, i64)| needs_update(existing, f)).map_values(|f: (String, i64)| f.0)
}

/// An inbox is updated only if it was asked for with a sequence id that is not known yet, and every inbox that
/// was is.
pub proof fn only_stale_inboxes_are_updated(existing: Map<Seq<char>, i64>, filters: Seq<(String, i64)>, i: int)
    ensures
        0 <= i < stale_inboxes(existing, filters).len() ==> exists|k: int|
            0 <= k < filters.len() && (#[trigger] filters[k]).0 == stale_inboxes(existing, filters)[i] && (
            existing.dom().contains(filters[k].0@) ==> existing[filters[k].0@] < filters[k].1),
        (0 <= i < filters.len() && (existing.dom().contains(filters[i].0@) ==> existing[filters[i].0@]
            < filters[i].1)) ==> stale_inboxes(existing, filters).contains(filters[i].0),
{
    let p = |f: (String, i64)| needs_update(existing, f);
    let kept = filters.filter(p);
    let out = stale_inboxes(existing, filters);
    if 0 <= i < out.len() {
        assert(out[i] == kept[i].0);
        filters.lemma_filter_pred(p, i);
        filters.lemma_filter_contains_rev(p, kept[i]);
        let k = choose|k: int| 0 <= k < filters.len() && filters[k] == kept[i];
        assert(filters[k].0 == out[i]);
    }
    if 0 <= i < filters.len() && p(filters[i]) {
        filters.lemma_filter_contains(p, i);
        let k = choose|k: int| 0 <= k < kept.len() && kept[k] == filters[i];
        assert(out[k] == filters[i].0);
    }
}

/// The inboxes whose known updates do not reach the sequence id asked for, in their order.
pub fn filter_inbox_ids_needing_updates(existing: &TextMap<i64>, filters: &Vec<(String, i64)>) -> (r: Vec<String>)
    ensures
        r@ == stale_inboxes(existing@, filters@),
{
    let ghost p = |f: (String, i64)| needs_update(existing@, f);
    let ghost first = |f: (String, i64)| f.0;
    let mut out: Vec<String> = Vec::new();
    let mut i: usize = 0;
    proof {
        reveal(Seq::filter);
        assert(filters@.take(0) =~= Seq::<(String, i64)>::empty());
        assert(out@ =~= filters@.take(0).filter(p).map_values(first));
    }
    while i < filters.len()
        invariant
            i <= filters@.len(),
            p == (|f: (String, i64)| needs_update(existing@, f)),
            first == (|f: (String, i64)| f.0),
            out@ == filters@.take(i as int).filter(p).map_values(first),
        decreases filters@.len() - i,
    {
        let up_to_date: bool = match existing.get(filters[i].0.as_str()) {
            Some(s) => *s >= filters[i].1,
            None => false,
        };
        proof {
            reveal(Seq::filter);
            assert(filters@.take(i + 1).drop_last() =~= filters@.take(i as int));
            assert(filters@.take(i + 1).last() == filters@[i as int]);
        }
        let ghost before = out@;
        if !up_to_date {
            out.push(filters[i].0.clone());
        }
        proof {
            let shorter = filters@.take(i as int).filter(p);
            if !up_to_date {
                assert(shorter.push(filters@[i as int]).map_values(first) =~= before.push(filters@[i as int].0));
            }
        }
        i += 1;
    }
    assert(filters@.take(i as int) =~= filters@);
    out
}

} // verus!
