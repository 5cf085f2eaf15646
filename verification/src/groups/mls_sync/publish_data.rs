//! What has to be published for an intent.
//!
//! Some intents need a single operation of the MLS engine. Proposals of member changes, and commits
//! of pending proposals, are worked out here step by step; what only the engine or the network can
//! do is asked for between the steps.

use vstd::prelude::*;
use vstd::string::*;
use crate::bytes;
use crate::error::{CommitValidationError, ExternalError};
use crate::groups::error::{GroupError, GroupMutableMetadataError, MetadataPermissionsError};
use crate::groups::extensions;
use crate::groups::extensions::{Decoded, Extension, ExtensionType, Extensions};
use crate::groups::group_config;
use crate::groups::group_config::{AdminListActionType, UpdateAdminListIntentData, UpdatePermissionIntentData};
use crate::groups::group_membership::GroupMembership;
use crate::groups::mls_sync::helpers::{CredentialError, GroupMember};
use crate::groups::mls_sync::membership::UpdateGroupMembershipIntentData;
use crate::groups::mls_sync::types::PublishIntentData;
use crate::text_map::TextMap;

verus! {

/// A change of the members that is to be proposed.
#[derive(Debug)]
pub struct ProposeMemberUpdateIntentData {
    pub add_inbox_ids: Vec<String>,
    pub remove_inbox_ids: Vec<String>,
}

/// Installations that are to be added to their group again.
#[derive(Debug)]
pub struct ReaddInstallationsIntentData {
    pub installations: Vec<Vec<u8>>,
}

/// The data of an intent, decoded.
pub enum IntentData {
    UpdateGroupMembership(UpdateGroupMembershipIntentData),
    /// A message, as it goes into the group before it is encrypted.
    SendMessage(Vec<u8>),
    KeyUpdate,
    MetadataUpdate { field_name: String, field_value: String },
    UpdateAdminList(UpdateAdminListIntentData),
    UpdatePermission(UpdatePermissionIntentData),
    ReaddInstallations(ReaddInstallationsIntentData),
    /// A change of the members, or why it does not decode: a group that takes no proposals is not
    /// even asked to read it.
    ProposeMemberUpdate(Result<ProposeMemberUpdateIntentData, ExternalError>),
    ProposeGroupContextExtensions(Extensions),
    CommitPendingProposals,
}

/// What is asked of the engine for an intent.
pub enum PublishRequest {
    /// Apply a change of the membership.
    UpdateMembership(UpdateGroupMembershipIntentData),
    /// Encrypt this message.
    CreateMessage(Vec<u8>),
    /// Make a commit that renews the own leaf.
    SelfUpdate,
    /// Make a commit that sets these extensions.
    UpdateExtensions(Extensions),
    /// Add these installations again.
    ReaddInstallations(ReaddInstallationsIntentData),
    /// Propose members to add to and remove from a group with these extensions.
    ProposeMembers(ProposeMemberUpdateIntentData, Extensions),
    /// Propose these extensions.
    ProposeExtensions(Extensions),
    /// Commit the pending proposals of a group with these extensions.
    CommitProposals(Extensions),
    /// Nothing: the intent is already met.
    Nothing,
}

/// Whether a request is what an intent asks of the engine, given the extensions of the group and
/// whether proposals are pending.
pub open spec fn is_request(
    data: IntentData,
    current: Extensions,
    has_pending_proposals: bool,
    r: Result<PublishRequest, GroupError>,
) -> bool {
    match data {
        IntentData::UpdateGroupMembership(update) => r == Ok::<_, GroupError>(PublishRequest::UpdateMembership(update)),
        IntentData::SendMessage(message) => r == Ok::<_, GroupError>(PublishRequest::CreateMessage(message)),
        IntentData::KeyUpdate => r == Ok::<_, GroupError>(PublishRequest::SelfUpdate),
        IntentData::ReaddInstallations(readd) => r == Ok::<_, GroupError>(PublishRequest::ReaddInstallations(readd)),
        IntentData::ProposeGroupContextExtensions(proposed) => r == Ok::<_, GroupError>(
            PublishRequest::ProposeExtensions(proposed),
        ),
        IntentData::CommitPendingProposals => r == Ok::<_, GroupError>(
            if has_pending_proposals {
                PublishRequest::CommitProposals(current)
            } else {
                PublishRequest::Nothing
            },
        ),
        IntentData::ProposeMemberUpdate(decoded) => if !group_config::proposals_on(current.list@) {
            r == Err::<PublishRequest, _>(GroupError::CommitValidation(CommitValidationError::ProposalsNotEnabled))
        } else {
            match decoded {
                Ok(data) => r == Ok::<_, GroupError>(PublishRequest::ProposeMembers(data, current)),
                Err(e) => r == Err::<PublishRequest, _>(GroupError::External(e)),
            }
        },
        IntentData::MetadataUpdate { field_name, field_value } => match group_config::metadata_of(current.list@) {
            Err(e) => r == Err::<PublishRequest, _>(
                GroupError::MetadataPermissions(MetadataPermissionsError::Mutable(e)),
            ),
            Ok(existing) => {
                &&& r matches Ok(PublishRequest::UpdateExtensions(new))
                &&& group_config::replaced_metadata(new.list@, current.list@) matches Some(metadata)
                &&& metadata.attributes@ == existing.attributes@.insert(field_name@, field_value)
                &&& metadata.admin_list == existing.admin_list
                &&& metadata.super_admin_list == existing.super_admin_list
            },
        },
        IntentData::UpdateAdminList(update) => match group_config::metadata_of(current.list@) {
            Err(e) => r == Err::<PublishRequest, _>(
                GroupError::MetadataPermissions(MetadataPermissionsError::Mutable(e)),
            ),
            Ok(existing) => {
                &&& r matches Ok(PublishRequest::UpdateExtensions(new))
                &&& group_config::replaced_metadata(new.list@, current.list@) matches Some(metadata)
                &&& metadata.attributes == existing.attributes
                &&& (metadata.admin_list@, metadata.super_admin_list@) == group_config::admins_after(
                    existing.admin_list@,
                    existing.super_admin_list@,
                    update,
                )
            },
        },
        IntentData::UpdatePermission(update) => match group_config::permissions_of(current.list@) {
            Err(e) => r == Err::<PublishRequest, _>(GroupError::MetadataPermissions(e)),
            Ok(existing) => if update.update_type == group_config::PermissionUpdateType::UpdateMetadata
                && update.metadata_field_name is None {
                r == Err::<PublishRequest, _>(
                    GroupError::MetadataPermissions(
                        MetadataPermissionsError::Mutable(GroupMutableMetadataError::MissingMetadataField),
                    ),
                )
            } else {
                &&& r matches Ok(PublishRequest::UpdateExtensions(new))
                &&& group_config::replaced_permissions(new.list@, current.list@) matches Some(policies)
                &&& group_config::is_policy_update(policies, existing, update)
            },
        },
    }
}

/// What is asked of the engine for an intent, given the extensions of the group and whether
/// proposals are pending.
pub fn publish_request(data: IntentData, current: Extensions, has_pending_proposals: bool) -> (r: Result<
    PublishRequest,
    GroupError,
>)
    ensures
        is_request(data, current, has_pending_proposals, r),
{
    match data {
        IntentData::UpdateGroupMembership(update) => Ok(PublishRequest::UpdateMembership(update)),
        IntentData::SendMessage(message) => Ok(PublishRequest::CreateMessage(message)),
        IntentData::KeyUpdate => Ok(PublishRequest::SelfUpdate),
        IntentData::MetadataUpdate { field_name, field_value } => {
            match group_config::build_extensions_for_metadata_update(current, field_name, field_value) {
                Ok(new) => Ok(PublishRequest::UpdateExtensions(new)),
                Err(e) => Err(GroupError::MetadataPermissions(e)),
            }
        },
        IntentData::UpdateAdminList(update) => {
            match group_config::build_extensions_for_admin_lists_update(current, update) {
                Ok(new) => Ok(PublishRequest::UpdateExtensions(new)),
                Err(e) => Err(GroupError::MetadataPermissions(e)),
            }
        },
        IntentData::UpdatePermission(update) => {
            match group_config::build_extensions_for_permissions_update(current, update) {
                Ok(new) => Ok(PublishRequest::UpdateExtensions(new)),
                Err(e) => Err(GroupError::MetadataPermissions(e)),
            }
        },
        IntentData::ReaddInstallations(readd) => Ok(PublishRequest::ReaddInstallations(readd)),
        IntentData::ProposeMemberUpdate(decoded) => {
            if !group_config::check_proposals_enabled(&current) {
                return Err(GroupError::CommitValidation(CommitValidationError::ProposalsNotEnabled));
            }
            match decoded {
                Ok(data) => Ok(PublishRequest::ProposeMembers(data, current)),
                Err(e) => Err(GroupError::External(e)),
            }
        },
        IntentData::ProposeGroupContextExtensions(proposed) => Ok(PublishRequest::ProposeExtensions(proposed)),
        IntentData::CommitPendingProposals => {
            if has_pending_proposals {
                Ok(PublishRequest::CommitProposals(current))
            } else {
                Ok(PublishRequest::Nothing)
            }
        },
    }
}

/// The data of an intent that publishes a single message or proposal and no commit.
pub fn single_payload_publish_data(payload: Vec<u8>, should_push: bool, group_epoch: u64) -> (r: PublishIntentData)
    ensures
        r.payloads_to_publish@ == seq![payload],
        r.staged_commit is None,
        r.post_commit_action is None,
        r.should_send_push_notification == should_push,
        r.group_epoch == group_epoch,
{
    let mut payloads: Vec<Vec<u8>> = Vec::new();
    payloads.push(payload);
    assert(payloads@ =~= seq![payload]);
    PublishIntentData {
        payloads_to_publish: payloads,
        staged_commit: None,
        post_commit_action: None,
        should_send_push_notification: should_push,
        group_epoch,
    }
}

/// The data of an intent that publishes a commit of new extensions, or of a renewed leaf.
pub fn build_group_context_extensions_publish_data(
    commit: Vec<u8>,
    staged_commit: Option<Vec<u8>>,
    should_push: bool,
    group_epoch: u64,
) -> (r: PublishIntentData)
    ensures
        r.payloads_to_publish@ == seq![commit],
        r.staged_commit == staged_commit,
        r.post_commit_action is None,
        r.should_send_push_notification == should_push,
        r.group_epoch == group_epoch,
{
    let mut payloads: Vec<Vec<u8>> = Vec::new();
    payloads.push(commit);
    assert(payloads@ =~= seq![commit]);
    PublishIntentData {
        payloads_to_publish: payloads,
        staged_commit,
        post_commit_action: None,
        should_send_push_notification: should_push,
        group_epoch,
    }
}

/// Members after the first `n` inboxes of a list were moved to their latest sequence ids.
pub open spec fn refreshed(
    members: Map<Seq<char>, u64>,
    inbox_ids: Seq<String>,
    latest: Map<Seq<char>, i64>,
    n: int,
) -> Map<Seq<char>, u64>
    decreases n,
{
    if n <= 0 {
        members
    } else {
        refreshed(members, inbox_ids, latest, n - 1).insert(
            inbox_ids[n - 1]@,
            latest[inbox_ids[n - 1]@] as u64,
        )
    }
}

/// Refreshing moves each inbox of the list to its latest sequence id, adds those that were no members, and
/// leaves everybody else alone.
pub proof fn refreshed_members_are_at_their_latest(
    members: Map<Seq<char>, u64>,
    inbox_ids: Seq<String>,
    latest: Map<Seq<char>, i64>,
    n: int,
    who: Seq<char>,
)
    requires
        0 <= n <= inbox_ids.len(),
    ensures
        forall|k: int| 0 <= k < n && (#[trigger] inbox_ids[k])@ == who ==> refreshed(
            members,
            inbox_ids,
            latest,
            n,
        ).dom().contains(who) && refreshed(members, inbox_ids, latest, n)[who] == latest[who] as u64,
        (forall|k: int| 0 <= k < n ==> (#[trigger] inbox_ids[k])@ != who) ==> refreshed(
            members,
            inbox_ids,
            latest,
            n,
        ).dom().contains(who) == members.dom().contains(who) && (members.dom().contains(who) ==> refreshed(
            members,
            inbox_ids,
            latest,
            n,
        )[who] == members[who]),
    decreases n,
{
    if n > 0 {
        refreshed_members_are_at_their_latest(members, inbox_ids, latest, n - 1, who);
        if inbox_ids[n - 1]@ != who && exists|k: int| 0 <= k < n && (#[trigger] inbox_ids[k])@ == who {
            let k = choose|k: int| 0 <= k < n && (#[trigger] inbox_ids[k])@ == who;
            assert(k < n - 1);
        }
    }
}

/// Whether the first `n` inboxes of a list have a latest sequence id.
pub open spec fn all_known(inbox_ids: Seq<String>, latest: Map<Seq<char>, i64>, n: int) -> bool {
    forall|i: int| 0 <= i < n ==> latest.dom().contains((#[trigger] inbox_ids[i])@)
}

/// Whether refreshing stopped at inbox `n`, which has no latest sequence id, with all before it
/// refreshed.
pub open spec fn refresh_stopped(
    before: Map<Seq<char>, u64>,
    after: Map<Seq<char>, u64>,
    inbox_ids: Seq<String>,
    latest: Map<Seq<char>, i64>,
    n: int,
) -> bool {
    &&& 0 <= n < inbox_ids.len()
    &&& all_known(inbox_ids, latest, n)
    &&& !latest.dom().contains(inbox_ids[n]@)
    &&& after == refreshed(before, inbox_ids, latest, n)
}

/// Moves inboxes to their latest sequence ids, adding those that are no members. An inbox without
/// one is an error.
pub fn refresh_membership_sequence_ids(
    membership: &mut GroupMembership,
    inbox_ids: &[String],
    latest: &TextMap<i64>,
) -> (r: Result<(), GroupError>)
    ensures
        final(membership).failed_installations == old(membership).failed_installations,
        match r {
            Ok(_) => all_known(inbox_ids@, latest@, inbox_ids@.len() as int) && final(membership).members@
                == refreshed(old(membership).members@, inbox_ids@, latest@, inbox_ids@.len() as int),
            Err(e) => e == GroupError::MissingSequenceId && exists|n: int|
                refresh_stopped(old(membership).members@, final(membership).members@, inbox_ids@, latest@, n),
        },
{
    let ghost before = membership.members@;
    let ghost failed = membership.failed_installations;
    let mut i: usize = 0;
    let mut missing: bool = false;
    while i < inbox_ids.len() && !missing
        invariant
            i <= inbox_ids@.len(),
            membership.failed_installations == failed,
            all_known(inbox_ids@, latest@, i as int),
            membership.members@ == refreshed(before, inbox_ids@, latest@, i as int),
            missing ==> i < inbox_ids@.len() && !latest@.dom().contains(inbox_ids@[i as int]@),
        decreases inbox_ids@.len() - i, (if missing { 0int } else { 1int }),
    {
        match latest.get(inbox_ids[i].as_str()) {
            Some(sequence_id) => {
                membership.add(inbox_ids[i].clone(), *sequence_id as u64);
                i += 1;
            },
            None => {
                missing = true;
            },
        }
    }
    if missing {
        assert(refresh_stopped(before, membership.members@, inbox_ids@, latest@, i as int));
        Err(GroupError::MissingSequenceId)
    } else {
        Ok(())
    }
}

/// Checks the installations that a proposal would add: it is refused if some failed and none are
/// left to add.
pub fn check_proposed_additions(failed_installations: usize, new_key_packages: usize) -> (r: Result<(), GroupError>)
    ensures
        r == (if failed_installations > 0 && new_key_packages == 0 {
            Err(GroupError::FailedToVerifyInstallations)
        } else {
            Ok(())
        }),
{
    if failed_installations > 0 && new_key_packages == 0 {
        Err(GroupError::FailedToVerifyInstallations)
    } else {
        Ok(())
    }
}

/// Whether a member belongs to one of the inboxes.
pub open spec fn belongs_to(member: GroupMember, inbox_ids: Seq<String>) -> bool {
    member.inbox_id matches Ok(inbox_id) && bytes::text_views(inbox_ids).contains(inbox_id@)
}

/// Whether the error of a member is the first one among members.
pub open spec fn is_first_error(members: Seq<GroupMember>, n: int, e: GroupError) -> bool {
    &&& 0 <= n < members.len()
    &&& members[n].inbox_id matches Err(c) && c.as_group_error() == e
    &&& forall|i: int| 0 <= i < n ==> (#[trigger] members[i]).inbox_id is Ok
}

/// What tells the members of some inboxes from others.
pub open spec fn is_of(inbox_ids: Seq<String>) -> spec_fn(GroupMember) -> bool {
    |m: GroupMember| belongs_to(m, inbox_ids)
}

/// The leaves of all members of the inboxes, in their order.
pub open spec fn leaves_of(members: Seq<GroupMember>, inbox_ids: Seq<String>) -> Seq<u32> {
    members.filter(is_of(inbox_ids)).map_values(|m: GroupMember| m.index)
}

/// All leaves of the inboxes are removed, and no leaf of anybody else.
pub proof fn only_leaves_of_removed_inboxes_are_removed(members: Seq<GroupMember>, inbox_ids: Seq<String>, i: int, k: int)
    requires
        0 <= k < inbox_ids.len(),
    ensures
        0 <= i < members.len() && members[i].inbox_id is Ok && members[i].inbox_id->Ok_0@ == inbox_ids[k]@
            ==> leaves_of(members, inbox_ids).contains(members[i].index),
        0 <= i < leaves_of(members, inbox_ids).len() ==> exists|m: int|
            0 <= m < members.len() && (#[trigger] members[m]).index == leaves_of(members, inbox_ids)[i]
                && members[m].inbox_id is Ok && bytes::text_views(inbox_ids).contains(members[m].inbox_id->Ok_0@),
        leaves_of(members, inbox_ids).len() <= members.len(),
{
    let p = is_of(inbox_ids);
    let kept = members.filter(p);
    let leaves = leaves_of(members, inbox_ids);
    members.lemma_filter_len(p);
    if 0 <= i < members.len() && members[i].inbox_id is Ok && members[i].inbox_id->Ok_0@ == inbox_ids[k]@ {
        assert(bytes::text_views(inbox_ids)[k] == inbox_ids[k]@);
        assert(p(members[i]));
        members.lemma_filter_contains(p, i);
        let j = choose|j: int| 0 <= j < kept.len() && kept[j] == members[i];
        assert(leaves[j] == members[i].index);
    }
    if 0 <= i < leaves.len() {
        members.lemma_filter_pred(p, i);
        members.lemma_filter_contains_rev(p, kept[i]);
        let m = choose|m: int| 0 <= m < members.len() && members[m] == kept[i];
        assert(members[m].index == leaves[i]);
    }
}

/// The leaves of all members of the inboxes, in their order. A credential that stands for no inbox
/// is an error.
pub fn members_to_remove(members: &Vec<GroupMember>, inbox_ids: &[String]) -> (r: Result<Vec<u32>, GroupError>)
    ensures
        match r {
            Ok(leaves) => {
                &&& forall|i: int| 0 <= i < members@.len() ==> (#[trigger] members@[i]).inbox_id is Ok
                &&& leaves@ == leaves_of(members@, inbox_ids@)
            },
            Err(e) => exists|n: int| is_first_error(members@, n, e),
        },
{
    let ghost p = is_of(inbox_ids@);
    let ghost leaf = |m: GroupMember| m.index;
    let mut leaves: Vec<u32> = Vec::new();
    let mut i: usize = 0;
    proof {
        reveal(Seq::filter);
        assert(members@.take(0) =~= Seq::<GroupMember>::empty());
        assert(leaves@ =~= members@.take(0).filter(p).map_values(leaf));
    }
    while i < members.len()
        invariant
            i <= members@.len(),
            p == is_of(inbox_ids@),
            leaf == (|m: GroupMember| m.index),
            forall|j: int| 0 <= j < i ==> (#[trigger] members@[j]).inbox_id is Ok,
            leaves@ == members@.take(i as int).filter(p).map_values(leaf),
        decreases members@.len() - i,
    {
        proof {
            reveal(Seq::filter);
            assert(members@.take(i + 1).drop_last() =~= members@.take(i as int));
            assert(members@.take(i + 1).last() == members@[i as int]);
        }
        let ghost before = leaves@;
        match &members[i].inbox_id {
            Ok(inbox_id) => {
                let removed: bool = bytes::contains_text(inbox_ids, inbox_id.as_str());
                if removed {
                    leaves.push(members[i].index);
                }
                proof {
                    assert(p(members@[i as int]) == removed);
                    let shorter = members@.take(i as int).filter(p);
                    if removed {
                        assert(shorter.push(members@[i as int]).map_values(leaf) =~= before.push(
                            members@[i as int].index,
                        ));
                    }
                }
            },
            Err(e) => {
                let error = e.to_group_error();
                assert(is_first_error(members@, i as int, error));
                return Err(error);
            },
        }
        i += 1;
    }
    assert(members@.take(i as int) =~= members@);
    Ok(leaves)
}

/// The data of an intent that publishes proposals. Where there are none, the members are already as
/// they should be.
pub fn proposals_publish_data(payloads: Vec<Vec<u8>>, should_push: bool, group_epoch: u64) -> (r: Option<
    PublishIntentData,
>)
    ensures
        r is None <==> payloads@.len() == 0,
        r matches Some(data) ==> {
            &&& data.payloads_to_publish == payloads
            &&& data.staged_commit is None
            &&& data.post_commit_action is None
            &&& data.should_send_push_notification == should_push
            &&& data.group_epoch == group_epoch
        },
{
    if payloads.len() == 0 {
        return None;
    }
    Some(
        PublishIntentData {
            payloads_to_publish: payloads,
            staged_commit: None,
            post_commit_action: None,
            should_send_push_notification: should_push,
            group_epoch,
        },
    )
}

/// A proposal that is pending in the group.
pub enum PendingProposal {
    Add {
        /// The inbox of the key package's credential, or why it stands for none.
        inbox_id: Result<String, CredentialError>,
        /// Whether the installation can take proposals.
        supports_proposals: bool,
        /// Whether a welcome can be sent to the installation.
        can_be_welcomed: bool,
    },
    Remove {
        /// The leaf that is removed.
        leaf: u32,
    },
    GroupContextExtensions(Extensions),
    Other,
}

/// What pending proposals do to the members of a group.
#[derive(Debug)]
pub struct PendingChanges {
    /// The inboxes that become members.
    pub inbox_ids_to_add: Vec<String>,
    /// The inboxes that some proposal removes a leaf of.
    pub inbox_ids_to_remove: Vec<String>,
    /// The proposals that bring in the inboxes that become members, one for each.
    pub accepted_additions: Vec<usize>,
}

/// What pending proposals do to the members, as a mathematical value.
#[verifier::ext_equal]
pub struct ChangesView {
    pub add: Seq<String>,
    pub remove: Seq<String>,
    pub accepted: Seq<usize>,
}

impl View for PendingChanges {
    type V = ChangesView;

    open spec fn view(&self) -> ChangesView {
        ChangesView {
            add: self.inbox_ids_to_add@,
            remove: self.inbox_ids_to_remove@,
            accepted: self.accepted_additions@,
        }
    }
}

/// Whether `m` is the first member at a leaf.
pub open spec fn is_member_at(members: Seq<GroupMember>, leaf: u32, m: int) -> bool {
    &&& 0 <= m < members.len()
    &&& members[m].index == leaf
    &&& forall|i: int| 0 <= i < m ==> (#[trigger] members[i]).index != leaf
}

/// The first member at a leaf.
pub open spec fn member_at(members: Seq<GroupMember>, leaf: u32) -> Option<GroupMember> {
    if exists|m: int| is_member_at(members, leaf, m) {
        Some(members[choose|m: int| is_member_at(members, leaf, m)])
    } else {
        None
    }
}

/// What one more proposal does.
pub open spec fn with_proposal(
    changes: ChangesView,
    proposal: PendingProposal,
    at: usize,
    members: Seq<GroupMember>,
    current: Map<Seq<char>, u64>,
) -> Result<ChangesView, GroupError> {
    match proposal {
        PendingProposal::Add { inbox_id: Err(e), supports_proposals: _, can_be_welcomed: _ } => Err(
            e.as_group_error(),
        ),
        PendingProposal::Add { inbox_id: Ok(inbox_id), supports_proposals: _, can_be_welcomed: _ } => if bytes::text_views(
            changes.add,
        ).contains(inbox_id@) || current.dom().contains(inbox_id@) {
            Ok(changes)
        } else {
            Ok(
                ChangesView {
                    add: changes.add.push(inbox_id),
                    accepted: changes.accepted.push(at),
                    remove: changes.remove,
                },
            )
        },
        PendingProposal::Remove { leaf } => match member_at(members, leaf) {
            None => Ok(changes),
            Some(member) => match member.inbox_id {
                Err(e) => Err(e.as_group_error()),
                Ok(inbox_id) => if bytes::text_views(changes.remove).contains(inbox_id@) {
                    Ok(changes)
                } else {
                    Ok(ChangesView { remove: changes.remove.push(inbox_id), ..changes })
                },
            },
        },
        _ => Ok(changes),
    }
}

/// What the first `n` pending proposals do to the members. The first credential that stands for no
/// inbox decides the error.
pub open spec fn changes_of(
    proposals: Seq<PendingProposal>,
    members: Seq<GroupMember>,
    current: Map<Seq<char>, u64>,
    n: nat,
) -> Result<ChangesView, GroupError>
    decreases n,
{
    if n == 0 {
        Ok(ChangesView { add: seq![], remove: seq![], accepted: seq![] })
    } else {
        match changes_of(proposals, members, current, (n - 1) as nat) {
            Err(e) => Err(e),
            Ok(changes) => with_proposal(changes, proposals[n - 1], (n - 1) as usize, members, current),
        }
    }
}

fn find_member(members: &Vec<GroupMember>, leaf: u32) -> (r: Option<usize>)
    ensures
        match r {
            Some(m) => m < members@.len() && member_at(members@, leaf) == Some(members@[m as int]),
            None => member_at(members@, leaf) is None,
        },
{
    let mut i: usize = 0;
    while i < members.len()
        invariant
            i <= members@.len(),
            forall|j: int| 0 <= j < i ==> (#[trigger] members@[j]).index != leaf,
        decreases members@.len() - i,
    {
        if members[i].index == leaf {
            proof {
                assert(is_member_at(members@, leaf, i as int));
                let m = choose|m: int| is_member_at(members@, leaf, m);
                assert(is_member_at(members@, leaf, m));
                if m < i {
                    assert(members@[m].index != leaf);
                } else if i < m {
                    assert(members@[i as int].index != leaf);
                }
            }
            return Some(i);
        }
        i += 1;
    }
    None
}

proof fn lemma_changes_error_stays(
    proposals: Seq<PendingProposal>,
    members: Seq<GroupMember>,
    current: Map<Seq<char>, u64>,
    n: nat,
    total: nat,
)
    requires
        n <= total,
        changes_of(proposals, members, current, n) is Err,
    ensures
        changes_of(proposals, members, current, total) == changes_of(proposals, members, current, n),
    decreases total - n,
{
    if n < total {
        lemma_changes_error_stays(proposals, members, current, n, (total - 1) as nat);
    }
}

/// What the pending proposals do to the members of a group. An inbox that is already a member, or
/// that an earlier proposal brings in, is not added again; an inbox is removed once however many of
/// its leaves are.
pub fn collect_pending_changes(
    proposals: &Vec<PendingProposal>,
    members: &Vec<GroupMember>,
    current: &GroupMembership,
) -> (r: Result<PendingChanges, GroupError>)
    ensures
        match r {
            Ok(changes) => changes_of(proposals@, members@, current.members@, proposals@.len()) == Ok::<
                _,
                GroupError,
            >(changes@),
            Err(e) => changes_of(proposals@, members@, current.members@, proposals@.len()) == Err::<
                ChangesView,
                _,
            >(e),
        },
{
    let mut add: Vec<String> = Vec::new();
    let mut remove: Vec<String> = Vec::new();
    let mut accepted: Vec<usize> = Vec::new();
    let mut i: usize = 0;
    assert(ChangesView { add: add@, remove: remove@, accepted: accepted@ } =~= ChangesView {
        add: seq![],
        remove: seq![],
        accepted: seq![],
    });
    while i < proposals.len()
        invariant
            i <= proposals@.len(),
            changes_of(proposals@, members@, current.members@, i as nat) == Ok::<_, GroupError>(
                ChangesView { add: add@, remove: remove@, accepted: accepted@ },
            ),
        decreases proposals@.len() - i,
    {
        assert((i + 1 - 1) as usize == i);
        match &proposals[i] {
            PendingProposal::Add { inbox_id, supports_proposals: _, can_be_welcomed: _ } => {
                match inbox_id {
                    Ok(inbox_id) => {
                        if !bytes::contains_text(add.as_slice(), inbox_id.as_str()) && current.get(
                            inbox_id.as_str(),
                        ).is_none() {
                            add.push(inbox_id.clone());
                            accepted.push(i);
                        }
                    },
                    Err(e) => {
                        let error = e.to_group_error();
                        proof {
                            lemma_changes_error_stays(
                                proposals@,
                                members@,
                                current.members@,
                                (i + 1) as nat,
                                proposals@.len(),
                            );
                        }
                        return Err(error);
                    },
                }
            },
            PendingProposal::Remove { leaf } => {
                if let Some(m) = find_member(members, *leaf) {
                    match &members[m].inbox_id {
                        Ok(inbox_id) => {
                            if !bytes::contains_text(remove.as_slice(), inbox_id.as_str()) {
                                remove.push(inbox_id.clone());
                            }
                        },
                        Err(e) => {
                            let error = e.to_group_error();
                            proof {
                                lemma_changes_error_stays(
                                    proposals@,
                                    members@,
                                    current.members@,
                                    (i + 1) as nat,
                                    proposals@.len(),
                                );
                            }
                            return Err(error);
                        },
                    }
                }
            },
            _ => {},
        }
        i += 1;
    }
    Ok(PendingChanges { inbox_ids_to_add: add, inbox_ids_to_remove: remove, accepted_additions: accepted })
}

/// No inbox is added twice, none that is added is a member already, and none is removed twice.
pub proof fn pending_changes_are_distinct(
    proposals: Seq<PendingProposal>,
    members: Seq<GroupMember>,
    current: Map<Seq<char>, u64>,
    n: nat,
)
    requires
        changes_of(proposals, members, current, n) is Ok,
    ensures
        ({
            let changes = changes_of(proposals, members, current, n)->Ok_0;
            &&& bytes::text_views(changes.add).no_duplicates()
            &&& bytes::text_views(changes.remove).no_duplicates()
            &&& forall|i: int| 0 <= i < changes.add.len() ==> !current.dom().contains((#[trigger] changes.add[i])@)
            &&& changes.accepted.len() == changes.add.len()
        }),
    decreases n,
{
    if n > 0 {
        pending_changes_are_distinct(proposals, members, current, (n - 1) as nat);
        let before = changes_of(proposals, members, current, (n - 1) as nat)->Ok_0;
        let after = changes_of(proposals, members, current, n)->Ok_0;
        if after.add.len() > before.add.len() {
            assert(bytes::text_views(after.add) =~= bytes::text_views(before.add).push(after.add.last()@));
        }
        if after.remove.len() > before.remove.len() {
            assert(bytes::text_views(after.remove) =~= bytes::text_views(before.remove).push(
                after.remove.last()@,
            ));
        }
    }
}

/// What the pending proposals come to, one by one: an inbox that a proposal adds is a member afterwards, by this
/// proposal or because it is one already; and the inbox of a leaf that a proposal removes is removed.
pub proof fn all_proposals_are_taken_up(
    proposals: Seq<PendingProposal>,
    members: Seq<GroupMember>,
    current: Map<Seq<char>, u64>,
    n: nat,
    k: int,
)
    requires
        changes_of(proposals, members, current, n) is Ok,
        0 <= k < n <= proposals.len(),
    ensures
        ({
            let changes = changes_of(proposals, members, current, n)->Ok_0;
            &&& proposals[k] matches PendingProposal::Add { inbox_id, supports_proposals: _, can_be_welcomed: _ }
                ==> inbox_id is Ok && (bytes::text_views(changes.add).contains(inbox_id->Ok_0@)
                || current.dom().contains(inbox_id->Ok_0@))
            &&& proposals[k] matches PendingProposal::Remove { leaf } ==> (member_at(members, leaf) matches Some(member)
                ==> member.inbox_id is Ok && bytes::text_views(changes.remove).contains(member.inbox_id->Ok_0@))
        }),
    decreases n,
{
    let before = changes_of(proposals, members, current, (n - 1) as nat)->Ok_0;
    let after = changes_of(proposals, members, current, n)->Ok_0;
    lemma_views_grow(before, proposals[n - 1], (n - 1) as usize, members, current);
    if k < n - 1 {
        all_proposals_are_taken_up(proposals, members, current, (n - 1) as nat, k);
    }
}

proof fn lemma_views_grow(
    changes: ChangesView,
    proposal: PendingProposal,
    at: usize,
    members: Seq<GroupMember>,
    current: Map<Seq<char>, u64>,
)
    requires
        with_proposal(changes, proposal, at, members, current) is Ok,
    ensures
        ({
            let after = with_proposal(changes, proposal, at, members, current)->Ok_0;
            &&& forall|x: Seq<char>| bytes::text_views(changes.add).contains(x) ==> #[trigger] bytes::text_views(
                after.add,
            ).contains(x)
            &&& forall|x: Seq<char>| bytes::text_views(changes.remove).contains(x) ==> #[trigger] bytes::text_views(
                after.remove,
            ).contains(x)
            &&& proposal matches PendingProposal::Add { inbox_id, supports_proposals: _, can_be_welcomed: _ } ==> (
            bytes::text_views(after.add).contains(inbox_id->Ok_0@) || current.dom().contains(inbox_id->Ok_0@))
            &&& proposal matches PendingProposal::Remove { leaf } ==> (member_at(members, leaf) matches Some(member)
                ==> bytes::text_views(after.remove).contains(member.inbox_id->Ok_0@))
        }),
{
    let after = with_proposal(changes, proposal, at, members, current)->Ok_0;
    if after.add.len() > changes.add.len() {
        let old_views = bytes::text_views(changes.add);
        let x = after.add.last()@;
        assert(bytes::text_views(after.add) =~= old_views.push(x));
        assert(old_views.push(x)[old_views.len() as int] == x);
        assert forall|y: Seq<char>| old_views.contains(y) implies #[trigger] bytes::text_views(after.add).contains(y) by {
            let j = choose|j: int| 0 <= j < old_views.len() && old_views[j] == y;
            assert(old_views.push(x)[j] == y);
        }
    }
    if after.remove.len() > changes.remove.len() {
        let old_views = bytes::text_views(changes.remove);
        let x = after.remove.last()@;
        assert(bytes::text_views(after.remove) =~= old_views.push(x));
        assert(old_views.push(x)[old_views.len() as int] == x);
        assert forall|y: Seq<char>| old_views.contains(y) implies #[trigger] bytes::text_views(after.remove).contains(
            y,
        ) by {
            let j = choose|j: int| 0 <= j < old_views.len() && old_views[j] == y;
            assert(old_views.push(x)[j] == y);
        }
    }
}

/// Nobody joins or leaves but by a proposal: each inbox that joins is that of the accepted proposal in the same
/// place, and each that is removed is that of a leaf which some proposal removes.
pub proof fn only_proposals_are_taken_up(
    proposals: Seq<PendingProposal>,
    members: Seq<GroupMember>,
    current: Map<Seq<char>, u64>,
    n: nat,
    i: int,
)
    requires
        changes_of(proposals, members, current, n) is Ok,
        n <= proposals.len(),
        n <= usize::MAX,
    ensures
        ({
            let changes = changes_of(proposals, members, current, n)->Ok_0;
            &&& changes.accepted.len() == changes.add.len()
            &&& 0 <= i < changes.add.len() ==> {
                &&& changes.accepted[i] < n
                &&& proposals[changes.accepted[i] as int] matches PendingProposal::Add {
                    inbox_id: Ok(inbox_id),
                    supports_proposals: _,
                    can_be_welcomed: _,
                } && inbox_id == changes.add[i]
            }
            &&& 0 <= i < changes.remove.len() ==> exists|k: int|
                0 <= k < n && removes(#[trigger] proposals[k], members, changes.remove[i])
        }),
    decreases n,
{
    if n > 0 {
        only_proposals_are_taken_up(proposals, members, current, (n - 1) as nat, i);
        let before = changes_of(proposals, members, current, (n - 1) as nat)->Ok_0;
        let after = changes_of(proposals, members, current, n)->Ok_0;
        if i == before.remove.len() && i < after.remove.len() {
            assert(removes(proposals[n - 1], members, after.remove[i]));
        }
    }
}

/// Whether a proposal removes a leaf of an inbox.
pub open spec fn removes(proposal: PendingProposal, members: Seq<GroupMember>, inbox_id: String) -> bool {
    proposal matches PendingProposal::Remove { leaf } && member_at(members, leaf) matches Some(member)
        && member.inbox_id == Ok::<_, CredentialError>(inbox_id)
}

/// Pending proposals cannot be committed exactly if one of them speaks of a credential that stands for no inbox,
/// and the error is that of the first.
pub proof fn bad_credentials_stop_a_commit(
    proposals: Seq<PendingProposal>,
    members: Seq<GroupMember>,
    current: Map<Seq<char>, u64>,
    n: nat,
)
    requires
        n <= proposals.len(),
    ensures
        changes_of(proposals, members, current, n) is Ok <==> forall|k: int|
            0 <= k < n ==> bad_credential(#[trigger] proposals[k], members) is None,
        changes_of(proposals, members, current, n) matches Err(e) ==> exists|k: int|
            {
                &&& 0 <= k < n
                &&& bad_credential(#[trigger] proposals[k], members) == Some(e)
                &&& forall|j: int| 0 <= j < k ==> bad_credential(#[trigger] proposals[j], members) is None
            },
    decreases n,
{
    if n > 0 {
        bad_credentials_stop_a_commit(proposals, members, current, (n - 1) as nat);
        if changes_of(proposals, members, current, n) is Ok {
            assert forall|k: int| 0 <= k < n implies bad_credential(#[trigger] proposals[k], members) is None by {
                if k == n - 1 {
                }
            }
        } else if changes_of(proposals, members, current, (n - 1) as nat) is Ok {
            assert(bad_credential(proposals[n - 1], members) == Some(
                changes_of(proposals, members, current, n)->Err_0,
            ));
        }
    }
}

/// Why a proposal speaks of a credential that stands for no inbox.
pub open spec fn bad_credential(proposal: PendingProposal, members: Seq<GroupMember>) -> Option<GroupError> {
    match proposal {
        PendingProposal::Add { inbox_id: Err(e), supports_proposals: _, can_be_welcomed: _ } => Some(e.as_group_error()),
        PendingProposal::Remove { leaf } => match member_at(members, leaf) {
            Some(member) => match member.inbox_id {
                Err(e) => Some(e.as_group_error()),
                Ok(_) => None,
            },
            None => None,
        },
        _ => None,
    }
}

/// Members without the first `n` inboxes of a list.
pub open spec fn members_without(members: Map<Seq<char>, u64>, inbox_ids: Seq<String>, n: int) -> Map<Seq<char>, u64>
    decreases n,
{
    if n <= 0 {
        members
    } else {
        members_without(members, inbox_ids, n - 1).remove(inbox_ids[n - 1]@)
    }
}

/// Whoever is on the list is no member any more, and everybody else stays as they were.
pub proof fn listed_members_are_left_out(members: Map<Seq<char>, u64>, inbox_ids: Seq<String>, n: int, who: Seq<char>)
    requires
        0 <= n <= inbox_ids.len(),
    ensures
        (exists|k: int| 0 <= k < n && (#[trigger] inbox_ids[k])@ == who) ==> !members_without(
            members,
            inbox_ids,
            n,
        ).dom().contains(who),
        (forall|k: int| 0 <= k < n ==> (#[trigger] inbox_ids[k])@ != who) ==> members_without(
            members,
            inbox_ids,
            n,
        ).dom().contains(who) == members.dom().contains(who) && (members.dom().contains(who) ==> members_without(
            members,
            inbox_ids,
            n,
        )[who] == members[who]),
    decreases n,
{
    if n > 0 {
        listed_members_are_left_out(members, inbox_ids, n - 1, who);
        if inbox_ids[n - 1]@ != who && exists|k: int| 0 <= k < n && (#[trigger] inbox_ids[k])@ == who {
            let k = choose|k: int| 0 <= k < n && (#[trigger] inbox_ids[k])@ == who;
            assert(k < n - 1);
        }
    }
}

/// The members that a commit of the pending proposals leads to: those that join, with their latest
/// sequence ids, and without those that are removed.
pub open spec fn members_after(
    current: Map<Seq<char>, u64>,
    changes: ChangesView,
    latest: Map<Seq<char>, i64>,
) -> Map<Seq<char>, u64> {
    members_without(
        refreshed(current, changes.add, latest, changes.add.len() as int),
        changes.remove,
        changes.remove.len() as int,
    )
}

/// After a commit of the pending proposals whoever is removed is no member, whoever joins is a member at their
/// latest sequence id, and everybody else is as before.
pub proof fn members_change_as_proposed(
    current: Map<Seq<char>, u64>,
    changes: ChangesView,
    latest: Map<Seq<char>, i64>,
    who: Seq<char>,
)
    ensures
        ({
            let after = members_after(current, changes, latest);
            let joins = exists|k: int| 0 <= k < changes.add.len() && (#[trigger] changes.add[k])@ == who;
            let leaves = exists|k: int| 0 <= k < changes.remove.len() && (#[trigger] changes.remove[k])@ == who;
            &&& leaves ==> !after.dom().contains(who)
            &&& joins && !leaves ==> after.dom().contains(who) && after[who] == latest[who] as u64
            &&& !joins && !leaves ==> after.dom().contains(who) == current.dom().contains(who)
            &&& !joins && !leaves && current.dom().contains(who) ==> after[who] == current[who]
        }),
{
    let joined = refreshed(current, changes.add, latest, changes.add.len() as int);
    refreshed_members_are_at_their_latest(current, changes.add, latest, changes.add.len() as int, who);
    listed_members_are_left_out(joined, changes.remove, changes.remove.len() as int, who);
}

/// The membership that a commit of the pending proposals leads to. An inbox that joins needs a
/// latest sequence id.
pub fn membership_after_changes(current: &GroupMembership, changes: &PendingChanges, latest: &TextMap<i64>) -> (r: Result<
    GroupMembership,
    GroupError,
>)
    ensures
        match r {
            Ok(new) => {
                &&& all_known(changes@.add, latest@, changes@.add.len() as int)
                &&& new.members@ == members_after(current.members@, changes@, latest@)
                &&& bytes::byte_views(new.failed_installations@) == bytes::byte_views(current.failed_installations@)
            },
            Err(e) => e == GroupError::MissingSequenceId && !all_known(
                changes@.add,
                latest@,
                changes@.add.len() as int,
            ),
        },
{
    let mut new = current.duplicate();
    match refresh_membership_sequence_ids(&mut new, changes.inbox_ids_to_add.as_slice(), latest) {
        Ok(_) => {},
        Err(e) => return Err(e),
    }
    let ghost joined = new.members@;
    let ghost failed = new.failed_installations;
    let mut i: usize = 0;
    while i < changes.inbox_ids_to_remove.len()
        invariant
            i <= changes.inbox_ids_to_remove@.len(),
            new.failed_installations == failed,
            new.members@ == members_without(joined, changes.inbox_ids_to_remove@, i as int),
        decreases changes.inbox_ids_to_remove@.len() - i,
    {
        new.remove(changes.inbox_ids_to_remove[i].as_str());
        i += 1;
    }
    Ok(new)
}

/// Whether pending proposals change the membership.
pub open spec fn changes_membership(changes: ChangesView) -> bool {
    changes.add.len() > 0 || changes.remove.len() > 0
}

/// The membership of a group, or why it cannot be had.
pub open spec fn membership_of(list: Seq<Extension>) -> Result<GroupMembership, GroupError> {
    match extensions::first_of(list, ExtensionType::GroupMembership) {
        Some(Extension::GroupMembership(Decoded::Valid(membership))) => Ok(membership),
        _ => Err(GroupError::InvalidGroupMembership),
    }
}

/// The membership of a group.
pub fn extract_group_membership(current: &Extensions) -> (r: Result<&GroupMembership, GroupError>)
    ensures
        match membership_of(current.list@) {
            Ok(m) => r matches Ok(found) && *found == m,
            Err(e) => r matches Err(given) && given == e,
        },
{
    match current.find(ExtensionType::GroupMembership) {
        Some(Extension::GroupMembership(Decoded::Valid(membership))) => Ok(membership),
        _ => Err(GroupError::InvalidGroupMembership),
    }
}

/// The members that extensions give a group.
pub open spec fn members_in(list: Seq<Extension>) -> Option<Map<Seq<char>, u64>> {
    match extensions::first_of(list, ExtensionType::GroupMembership) {
        Some(Extension::GroupMembership(Decoded::Valid(membership))) => Some(membership.members@),
        _ => None,
    }
}

/// Whether a pending proposal goes into a commit that leads to these members: proposed extensions
/// only if they give the same members, or if the members do not change at all.
pub open spec fn is_committed(proposal: PendingProposal, new_members: Map<Seq<char>, u64>, membership_changed: bool) -> bool {
    proposal matches PendingProposal::GroupContextExtensions(proposed) ==> !membership_changed || members_in(
        proposed.list@,
    ) == Some(new_members)
}

fn gives_members(proposed: &Extensions, new_members: &TextMap<u64>) -> (r: bool)
    ensures
        r == (members_in(proposed.list@) == Some(new_members@)),
{
    match proposed.find(ExtensionType::GroupMembership) {
        Some(Extension::GroupMembership(Decoded::Valid(membership))) => membership.members.same_as(new_members),
        _ => false,
    }
}

/// Whether a pending proposal goes into a commit.
pub fn keeps_proposal(proposal: &PendingProposal, new_members: &TextMap<u64>, membership_changed: bool) -> (r: bool)
    ensures
        r == is_committed(*proposal, new_members@, membership_changed),
{
    match proposal {
        PendingProposal::GroupContextExtensions(proposed) => !membership_changed || gives_members(
            proposed,
            new_members,
        ),
        _ => true,
    }
}

/// Whether some pending proposal already gives the group these members.
pub open spec fn some_gives_members(proposals: Seq<PendingProposal>, new_members: Map<Seq<char>, u64>) -> bool {
    exists|i: int|
        0 <= i < proposals.len() && ((#[trigger] proposals[i]) matches PendingProposal::GroupContextExtensions(
            proposed,
        ) && members_in(proposed.list@) == Some(new_members))
}

fn any_gives_members(proposals: &Vec<PendingProposal>, new_members: &TextMap<u64>) -> (r: bool)
    ensures
        r == some_gives_members(proposals@, new_members@),
{
    let mut i: usize = 0;
    while i < proposals.len()
        invariant
            i <= proposals@.len(),
            forall|j: int|
                0 <= j < i ==> !((#[trigger] proposals@[j]) matches PendingProposal::GroupContextExtensions(proposed)
                    && members_in(proposed.list@) == Some(new_members@)),
        decreases proposals@.len() - i,
    {
        if let PendingProposal::GroupContextExtensions(proposed) = &proposals[i] {
            if gives_members(proposed, new_members) {
                assert(proposals@[i as int] matches PendingProposal::GroupContextExtensions(p) && members_in(
                    p.list@,
                ) == Some(new_members@));
                return true;
            }
        }
        i += 1;
    }
    false
}

/// Whether `i` is the first proposal of extensions.
pub open spec fn is_first_proposed(proposals: Seq<PendingProposal>, i: int) -> bool {
    &&& 0 <= i < proposals.len()
    &&& proposals[i] is GroupContextExtensions
    &&& forall|j: int| 0 <= j < i ==> (#[trigger] proposals[j]) !is GroupContextExtensions
}

/// The extensions that a commit starts from: the first that were proposed, or those of the group.
pub open spec fn base_extensions(proposals: Seq<PendingProposal>, current: Seq<Extension>) -> Seq<Extension> {
    if exists|i: int| is_first_proposed(proposals, i) {
        proposals[choose|i: int| is_first_proposed(proposals, i)]->GroupContextExtensions_0.list@
    } else {
        current
    }
}

#[verifier::loop_isolation(false)]
fn take_base_extensions(proposals: Vec<PendingProposal>, current: Extensions) -> (r: Extensions)
    ensures
        r.list@ == base_extensions(proposals@, current.list@),
{
    let ghost all = proposals@;
    let mut proposals = proposals;
    let mut i: usize = 0;
    while i < proposals.len()
        invariant
            i <= proposals@.len(),
            proposals@ == all,
            forall|j: int| 0 <= j < i ==> (#[trigger] all[j]) !is GroupContextExtensions,
        decreases proposals@.len() - i,
    {
        let found: bool = match &proposals[i] {
            PendingProposal::GroupContextExtensions(_) => true,
            _ => false,
        };
        if found {
            let taken = proposals.remove(i);
            proof {
                assert(is_first_proposed(all, i as int));
                let k = choose|k: int| is_first_proposed(all, k);
                assert(is_first_proposed(all, k));
                if k < i {
                    assert(all[k] !is GroupContextExtensions);
                } else if i < k {
                    assert(all[i as int] !is GroupContextExtensions);
                }
            }
            return match taken {
                PendingProposal::GroupContextExtensions(proposed) => proposed,
                _ => current,
            };
        }
        i += 1;
    }
    current
}

/// Whether every addition that is accepted brings in an installation that can take proposals.
pub open spec fn additions_support_proposals(proposals: Seq<PendingProposal>, accepted: Seq<usize>) -> bool {
    forall|k: int|
        0 <= k < accepted.len() ==> supports(proposals, #[trigger] accepted[k])
}

/// Whether the proposal at a place adds an installation that can take proposals.
pub open spec fn supports(proposals: Seq<PendingProposal>, at: usize) -> bool {
    &&& at < proposals.len()
    &&& proposals[at as int] matches PendingProposal::Add { inbox_id: _, supports_proposals, can_be_welcomed: _ }
    &&& supports_proposals
}

/// Checks that the installations to be added can take proposals.
pub fn all_additions_support_proposals(proposals: &Vec<PendingProposal>, accepted: &Vec<usize>) -> (r: bool)
    ensures
        r == additions_support_proposals(proposals@, accepted@),
{
    let mut k: usize = 0;
    while k < accepted.len()
        invariant
            k <= accepted@.len(),
            forall|j: int| 0 <= j < k ==> supports(proposals@, #[trigger] accepted@[j]),
        decreases accepted@.len() - k,
    {
        let at: usize = accepted[k];
        let ok: bool = at < proposals.len() && match &proposals[at] {
            PendingProposal::Add { inbox_id: _, supports_proposals, can_be_welcomed: _ } => *supports_proposals,
            _ => false,
        };
        if !ok {
            assert(!supports(proposals@, accepted@[k as int]));
            return false;
        }
        k += 1;
    }
    true
}

/// Whether additions are refused: the proposal flow is on, and some installation that joins cannot
/// take proposals.
pub open spec fn refuses_additions(
    proposals: Seq<PendingProposal>,
    changes: ChangesView,
    current: Seq<Extension>,
) -> bool {
    group_config::proposals_on(current) && !additions_support_proposals(proposals, changes.accepted)
}

/// Whether an error is that of an installation which cannot take proposals.
pub open spec fn is_unsupported(e: GroupError) -> bool {
    e matches GroupError::ProposalsNotSupported(reason) && reason@
        == "Member does not support proposals: installation cannot receive standalone proposal messages"@
}

/// How pending proposals are committed.
pub enum CommitPlan {
    /// Propose these extensions first, and commit them with the rest.
    ProposeExtensionsAndCommit(Extensions),
    /// Commit what is pending.
    Commit,
}

/// The extensions with a membership put in the place of any other.
pub open spec fn with_membership(base: Seq<Extension>, membership: GroupMembership) -> Seq<Extension> {
    extensions::without_type(base, ExtensionType::GroupMembership).push(
        Extension::GroupMembership(Decoded::Valid(membership)),
    )
}

/// Whether extensions are a base with a membership put in.
pub open spec fn is_planned_extensions(
    planned: Seq<Extension>,
    base: Seq<Extension>,
    new_members: Map<Seq<char>, u64>,
    new_failed: Seq<Seq<u8>>,
) -> bool {
    exists|copy: GroupMembership|
        {
            &&& copy.members@ == new_members
            &&& bytes::byte_views(copy.failed_installations@) == new_failed
            &&& planned == #[trigger] with_membership(base, copy)
        }
}

/// Extensions that are planned for a commit give the group its new members. All other extensions are
/// found as before: above all, a proposal flow that is on stays on.
pub proof fn planned_extensions_give_the_members(
    planned: Seq<Extension>,
    base: Seq<Extension>,
    new_members: Map<Seq<char>, u64>,
    new_failed: Seq<Seq<u8>>,
)
    requires
        is_planned_extensions(planned, base, new_members, new_failed),
    ensures
        members_in(planned) == Some(new_members),
        group_config::proposals_on(planned) == group_config::proposals_on(base),
        forall|t: ExtensionType|
            t != ExtensionType::GroupMembership ==> #[trigger] extensions::first_of(planned, t)
                == extensions::first_of(base, t),
{
    let copy = choose|copy: GroupMembership|
        {
            &&& copy.members@ == new_members
            &&& bytes::byte_views(copy.failed_installations@) == new_failed
            &&& planned == #[trigger] with_membership(base, copy)
        };
    let e = Extension::GroupMembership(Decoded::Valid(copy));
    assert forall|t: ExtensionType| t != ExtensionType::GroupMembership implies #[trigger] extensions::first_of(
        planned,
        t,
    ) == extensions::first_of(base, t) by {
        extensions::added_extension_is_found(base, e, t);
    }
    extensions::added_extension_is_found(base, e, ExtensionType::GroupMembership);
}

/// Plans the commit of pending proposals. Where the proposal flow is on, nobody is added who cannot take
/// proposals. Where the members change and no proposal says so, extensions with the new members are
/// proposed first.
pub fn plan_pending_commit(
    proposals: Vec<PendingProposal>,
    changes: &PendingChanges,
    new_membership: &GroupMembership,
    current: Extensions,
) -> (r: Result<CommitPlan, GroupError>)
    ensures
        match r {
            Err(e) => refuses_additions(proposals@, changes@, current.list@) && is_unsupported(e),
            Ok(plan) => {
                &&& !refuses_additions(proposals@, changes@, current.list@)
                &&& plan is Commit <==> !changes_membership(changes@) || some_gives_members(
                    proposals@,
                    new_membership.members@,
                )
                &&& plan matches CommitPlan::ProposeExtensionsAndCommit(planned) ==> is_planned_extensions(
                    planned.list@,
                    base_extensions(proposals@, current.list@),
                    new_membership.members@,
                    bytes::byte_views(new_membership.failed_installations@),
                )
            },
        },
{
    if group_config::check_proposals_enabled(&current) && !all_additions_support_proposals(
        &proposals,
        &changes.accepted_additions,
    ) {
        return Err(
            GroupError::ProposalsNotSupported(
                "Member does not support proposals: installation cannot receive standalone proposal messages".to_owned(),
            ),
        );
    }
    let membership_changed: bool = changes.inbox_ids_to_add.len() > 0 || changes.inbox_ids_to_remove.len() > 0;
    if !membership_changed || any_gives_members(&proposals, &new_membership.members) {
        return Ok(CommitPlan::Commit);
    }
    let base = take_base_extensions(proposals, current);
    let ghost b = base.list@;
    let copy = new_membership.duplicate();
    let ghost c = copy;
    let planned = base.add_or_replace(Extension::GroupMembership(Decoded::Valid(copy)));
    assert(planned.list@ == with_membership(b, c));
    Ok(CommitPlan::ProposeExtensionsAndCommit(planned))
}

/// The extensions that are proposed for a commit go into that commit.
pub proof fn planned_extensions_are_committed(
    planned: Extensions,
    base: Seq<Extension>,
    new_members: Map<Seq<char>, u64>,
    new_failed: Seq<Seq<u8>>,
)
    requires
        is_planned_extensions(planned.list@, base, new_members, new_failed),
    ensures
        is_committed(PendingProposal::GroupContextExtensions(planned), new_members, true),
{
    planned_extensions_give_the_members(planned.list@, base, new_members, new_failed);
}

/// Whether the proposal at a place adds an installation that a welcome can be sent to.
pub open spec fn welcomes(proposals: Seq<PendingProposal>, at: usize) -> bool {
    &&& at < proposals.len()
    &&& proposals[at as int] matches PendingProposal::Add { inbox_id: _, supports_proposals: _, can_be_welcomed }
    &&& can_be_welcomed
}

/// The accepted additions whose installations get a welcome, in their order.
pub fn additions_to_welcome(proposals: &Vec<PendingProposal>, accepted: &Vec<usize>) -> (r: Vec<usize>)
    ensures
        r@ == accepted@.filter(|at: usize| welcomes(proposals@, at)),
{
    let ghost p = |at: usize| welcomes(proposals@, at);
    let mut out: Vec<usize> = Vec::new();
    let mut k: usize = 0;
    proof {
        reveal(Seq::filter);
        assert(accepted@.take(0) =~= Seq::<usize>::empty());
    }
    while k < accepted.len()
        invariant
            k <= accepted@.len(),
            p == (|at: usize| welcomes(proposals@, at)),
            out@ == accepted@.take(k as int).filter(p),
        decreases accepted@.len() - k,
    {
        proof {
            reveal(Seq::filter);
            assert(accepted@.take(k + 1).drop_last() =~= accepted@.take(k as int));
            assert(accepted@.take(k + 1).last() == accepted@[k as int]);
        }
        let at: usize = accepted[k];
        let wanted: bool = at < proposals.len() && match &proposals[at] {
            PendingProposal::Add { inbox_id: _, supports_proposals: _, can_be_welcomed } => *can_be_welcomed,
            _ => false,
        };
        if wanted {
            out.push(at);
        }
        k += 1;
    }
    assert(accepted@.take(k as int) =~= accepted@);
    out
}

/// The data of an intent that publishes a commit of pending proposals, behind the proposal of
/// extensions where there is one. Without a staged commit there is nothing to publish.
pub fn pending_commit_publish_data(
    extensions_payload: Option<Vec<u8>>,
    commit: Vec<u8>,
    staged_commit: Option<Vec<u8>>,
    post_commit_action: Option<Vec<u8>>,
    should_push: bool,
    group_epoch: u64,
) -> (r: Result<PublishIntentData, GroupError>)
    ensures
        match r {
            Ok(data) => {
                &&& staged_commit is Some
                &&& data.staged_commit == staged_commit
                &&& data.post_commit_action == post_commit_action
                &&& data.payloads_to_publish@ == (match extensions_payload {
                    Some(first) => seq![first, commit],
                    None => seq![commit],
                })
                &&& data.should_send_push_notification == should_push
                &&& data.group_epoch == group_epoch
            },
            Err(e) => staged_commit is None && e == GroupError::MissingPendingCommit,
        },
{
    if staged_commit.is_none() {
        return Err(GroupError::MissingPendingCommit);
    }
    let mut payloads: Vec<Vec<u8>> = Vec::new();
    if let Some(first) = extensions_payload {
        payloads.push(first);
        payloads.push(commit);
        assert(payloads@ =~= seq![first, commit]);
    } else {
        payloads.push(commit);
        assert(payloads@ =~= seq![commit]);
    }
    Ok(
        PublishIntentData {
            payloads_to_publish: payloads,
            staged_commit,
            post_commit_action,
            should_send_push_notification: should_push,
            group_epoch,
        },
    )
}

/// What an intent asks of the engine: a message is encrypted as it is, changes of the members, of installations and
/// of extensions are handed on as they are, and there is nothing to commit unless proposals are pending. Members are
/// proposed only where the proposal flow is on.
pub proof fn intents_are_handed_on(
    data: IntentData,
    current: Extensions,
    has_pending_proposals: bool,
    r: Result<PublishRequest, GroupError>,
)
    requires
        is_request(data, current, has_pending_proposals, r),
    ensures
        data matches IntentData::SendMessage(message) ==> r == Ok::<_, GroupError>(
            PublishRequest::CreateMessage(message),
        ),
        data matches IntentData::UpdateGroupMembership(update) ==> r == Ok::<_, GroupError>(
            PublishRequest::UpdateMembership(update),
        ),
        data matches IntentData::ReaddInstallations(readd) ==> r == Ok::<_, GroupError>(
            PublishRequest::ReaddInstallations(readd),
        ),
        data matches IntentData::ProposeGroupContextExtensions(proposed) ==> r == Ok::<_, GroupError>(
            PublishRequest::ProposeExtensions(proposed),
        ),
        data is KeyUpdate ==> r == Ok::<_, GroupError>(PublishRequest::SelfUpdate),
        data is CommitPendingProposals && has_pending_proposals ==> r == Ok::<_, GroupError>(
            PublishRequest::CommitProposals(current),
        ),
        data is CommitPendingProposals && !has_pending_proposals ==> r == Ok::<_, GroupError>(PublishRequest::Nothing),
        data matches IntentData::ProposeMemberUpdate(decoded) ==> {
            &&& !group_config::proposals_on(current.list@) ==> r == Err::<PublishRequest, _>(
                GroupError::CommitValidation(CommitValidationError::ProposalsNotEnabled),
            )
            &&& group_config::proposals_on(current.list@) && decoded is Ok ==> r == Ok::<_, GroupError>(
                PublishRequest::ProposeMembers(decoded->Ok_0, current),
            )
            &&& group_config::proposals_on(current.list@) && decoded is Err ==> r == Err::<PublishRequest, _>(
                GroupError::External(decoded->Err_0),
            )
        },
        r is Ok && r->Ok_0 is Nothing ==> data is CommitPendingProposals,
{
}

/// An intent to set an attribute asks for extensions in which the attribute has its new value, and in which all other
/// attributes and all other extensions are as they were.
pub proof fn attribute_intents_set_the_attribute(
    field_name: String,
    field_value: String,
    current: Extensions,
    has_pending_proposals: bool,
    r: Result<PublishRequest, GroupError>,
    other: Seq<char>,
    t: ExtensionType,
)
    requires
        is_request(IntentData::MetadataUpdate { field_name, field_value }, current, has_pending_proposals, r),
    ensures
        r is Ok <==> group_config::metadata_of(current.list@) is Ok,
        r is Ok ==> {
            let before = group_config::metadata_of(current.list@)->Ok_0;
            &&& r->Ok_0 matches PublishRequest::UpdateExtensions(new) && {
                &&& group_config::metadata_of(new.list@) matches Ok(after) && {
                    &&& after.attributes@.dom().contains(field_name@)
                    &&& after.attributes@[field_name@] == field_value
                    &&& other != field_name@ && before.attributes@.dom().contains(other)
                        ==> after.attributes@.dom().contains(other) && after.attributes@[other]
                        == before.attributes@[other]
                    &&& other != field_name@ && after.attributes@.dom().contains(other)
                        ==> before.attributes@.dom().contains(other)
                    &&& after.admin_list == before.admin_list
                    &&& after.super_admin_list == before.super_admin_list
                }
                &&& t != ExtensionType::MutableMetadata ==> extensions::first_of(new.list@, t)
                    == extensions::first_of(current.list@, t)
            }
        },
{
    if let Ok(PublishRequest::UpdateExtensions(new)) = r {
        group_config::replaced_metadata_are_read(new.list@, current.list@, t);
    }
}

/// An intent to change a policy asks for extensions in which this policy, and no other, is the one asked for; the
/// policy of an attribute needs the attribute's name.
pub proof fn policy_intents_set_the_policy(
    update: UpdatePermissionIntentData,
    current: Extensions,
    has_pending_proposals: bool,
    r: Result<PublishRequest, GroupError>,
    t: ExtensionType,
)
    requires
        is_request(IntentData::UpdatePermission(update), current, has_pending_proposals, r),
    ensures
        r is Ok <==> group_config::permissions_of(current.list@) is Ok && (update.update_type
            == group_config::PermissionUpdateType::UpdateMetadata ==> update.metadata_field_name is Some),
        r is Ok ==> {
            let before = group_config::permissions_of(current.list@)->Ok_0;
            &&& r->Ok_0 matches PublishRequest::UpdateExtensions(new) && {
                &&& group_config::permissions_of(new.list@) matches Ok(after) && {
                    &&& after.add_member_policy == if update.update_type
                        == group_config::PermissionUpdateType::AddMember {
                        update.policy_option
                    } else {
                        before.add_member_policy
                    }
                    &&& after.remove_member_policy == if update.update_type
                        == group_config::PermissionUpdateType::RemoveMember {
                        update.policy_option
                    } else {
                        before.remove_member_policy
                    }
                    &&& after.add_admin_policy == if update.update_type
                        == group_config::PermissionUpdateType::AddAdmin {
                        update.policy_option
                    } else {
                        before.add_admin_policy
                    }
                    &&& after.remove_admin_policy == if update.update_type
                        == group_config::PermissionUpdateType::RemoveAdmin {
                        update.policy_option
                    } else {
                        before.remove_admin_policy
                    }
                }
                &&& t != ExtensionType::GroupPermissions ==> extensions::first_of(new.list@, t)
                    == extensions::first_of(current.list@, t)
            }
        },
{
    if let Ok(PublishRequest::UpdateExtensions(new)) = r {
        let given: Result<Extensions, MetadataPermissionsError> = Ok(new);
        assert(group_config::is_permissions_change(current.list@, update, given));
        group_config::updated_policies_are_read(current.list@, update, given, t);
        let before = group_config::permissions_of(current.list@)->Ok_0;
        let after = group_config::permissions_of(new.list@)->Ok_0;
        let replaced = group_config::replaced_permissions(new.list@, current.list@)->0;
        group_config::policy_updates_change_one_policy(replaced, before, update);
    }
}

/// An intent to change the lists of admins asks for extensions in which the list that it names has the inbox, or has it no
/// more; the other list, everybody else on this one, the attributes and all other extensions are as they were.
pub proof fn admin_intents_change_the_list(
    update: UpdateAdminListIntentData,
    current: Extensions,
    has_pending_proposals: bool,
    r: Result<PublishRequest, GroupError>,
    other: Seq<char>,
    t: ExtensionType,
)
    requires
        is_request(IntentData::UpdateAdminList(update), current, has_pending_proposals, r),
    ensures
        r is Ok <==> group_config::metadata_of(current.list@) is Ok,
        group_config::metadata_of(current.list@) matches Err(e) ==> r == Err::<PublishRequest, _>(
            GroupError::MetadataPermissions(MetadataPermissionsError::Mutable(e)),
        ),
        r is Ok ==> {
            let before = group_config::metadata_of(current.list@)->Ok_0;
            &&& r->Ok_0 matches PublishRequest::UpdateExtensions(new) && {
                &&& group_config::metadata_of(new.list@) matches Ok(after) && {
                    &&& after.attributes == before.attributes
                    &&& update.action_type == AdminListActionType::Add ==> after.admins().contains(update.inbox_id@)
                        && after.super_admin_list@ == before.super_admin_list@
                    &&& update.action_type == AdminListActionType::Remove ==> !after.admins().contains(update.inbox_id@)
                        && after.super_admin_list@ == before.super_admin_list@
                    &&& update.action_type == AdminListActionType::AddSuper ==> after.super_admins().contains(
                        update.inbox_id@,
                    ) && after.admin_list@ == before.admin_list@
                    &&& update.action_type == AdminListActionType::RemoveSuper ==> !after.super_admins().contains(
                        update.inbox_id@,
                    ) && after.admin_list@ == before.admin_list@
                    &&& other != update.inbox_id@ ==> after.admins().contains(other) == before.admins().contains(other)
                    &&& other != update.inbox_id@ ==> after.super_admins().contains(other)
                        == before.super_admins().contains(other)
                }
                &&& t != ExtensionType::MutableMetadata ==> extensions::first_of(new.list@, t)
                    == extensions::first_of(current.list@, t)
            }
        },
{
    if let Ok(PublishRequest::UpdateExtensions(new)) = r {
        let given: Result<Extensions, MetadataPermissionsError> = Ok(new);
        assert(group_config::is_admin_lists_change(current.list@, update, given));
        group_config::admin_updates_change_one_list(current.list@, update, given, other, t);
    }
}

/// A commit starts from the first extensions that were proposed, and from those of the group only if none were.
pub proof fn commits_start_from_what_was_proposed(proposals: Seq<PendingProposal>, current: Seq<Extension>, i: int)
    ensures
        is_first_proposed(proposals, i) ==> base_extensions(proposals, current)
            == proposals[i]->GroupContextExtensions_0.list@,
        (forall|j: int| 0 <= j < proposals.len() ==> (#[trigger] proposals[j]) !is GroupContextExtensions)
            ==> base_extensions(proposals, current) == current,
{
    if exists|k: int| is_first_proposed(proposals, k) {
        let k = choose|k: int| is_first_proposed(proposals, k);
        assert(is_first_proposed(proposals, k));
        assert(proposals[k] is GroupContextExtensions);
        if is_first_proposed(proposals, i) {
            if k < i {
                assert(proposals[k] !is GroupContextExtensions);
            } else if i < k {
                assert(proposals[i] !is GroupContextExtensions);
            }
        }
    }
}

/// Every proposal goes into the commit but one: where the members change, proposed extensions that give the group
/// other members stay out.
pub proof fn proposals_are_committed_unless_they_disagree(
    proposal: PendingProposal,
    new_members: Map<Seq<char>, u64>,
    membership_changed: bool,
)
    ensures
        proposal !is GroupContextExtensions ==> is_committed(proposal, new_members, membership_changed),
        !membership_changed ==> is_committed(proposal, new_members, membership_changed),
        membership_changed && proposal is GroupContextExtensions ==> is_committed(
            proposal,
            new_members,
            membership_changed,
        ) == (members_in(proposal->GroupContextExtensions_0.list@) == Some(new_members)),
{
}

/// Additions are refused exactly if the proposal flow is on and one of those accepted brings in an installation that
/// cannot take proposals.
pub proof fn who_cannot_take_proposals_is_refused(
    proposals: Seq<PendingProposal>,
    changes: ChangesView,
    current: Seq<Extension>,
    k: int,
)
    requires
        0 <= k < changes.accepted.len(),
        changes.accepted[k] < proposals.len(),
        proposals[changes.accepted[k] as int] is Add,
    ensures
        group_config::proposals_on(current) && !(proposals[changes.accepted[k] as int]->supports_proposals)
            ==> refuses_additions(proposals, changes, current),
        !group_config::proposals_on(current) ==> !refuses_additions(proposals, changes, current),
        (forall|j: int|
            0 <= j < changes.accepted.len() ==> (#[trigger] changes.accepted[j]) < proposals.len()
                && proposals[changes.accepted[j] as int] is Add
                && proposals[changes.accepted[j] as int]->supports_proposals) ==> !refuses_additions(
            proposals,
            changes,
            current,
        ),
{
    if group_config::proposals_on(current) && !(proposals[changes.accepted[k] as int]->supports_proposals) {
        assert(!supports(proposals, changes.accepted[k]));
    }
}

} // verus!
