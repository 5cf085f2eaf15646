//! Working out what is published for an intent, and what is left to be done after it.

use xmtp_mls::error::{CommitValidationError, ExternalError};
use xmtp_mls::groups::error::GroupError;
use xmtp_mls::groups::extensions::{Decoded, Extension, ExtensionType, Extensions};
use xmtp_mls::groups::group::MlsGroup;
use xmtp_mls::groups::group_membership::GroupMembership;
use xmtp_mls::groups::mls_sync::derive::{derive_step, DeriveAction, DeriveEvent, DerivePass, GeneratedCommit};
use xmtp_mls::groups::mls_sync::helpers::{
    generate_commit_with_rollback, is_last_attempt, CredentialError, GroupMember, SavepointEnd,
};
use xmtp_mls::groups::mls_sync::membership::{
    add_missing_installations, get_keypackages_for_installation_ids, installations_to_request, membership_step,
    FetchedKeyPackage, MembershipAction, MembershipChange, MembershipEvent, MembershipPhase,
    UpdateGroupMembershipIntentData,
};
use xmtp_mls::groups::mls_sync::publish::{post_commit_step, PostCommitAction};
use xmtp_mls::groups::mls_sync::publish_data::{
    keeps_proposal, IntentData, PendingProposal, ProposeMemberUpdateIntentData, ReaddInstallationsIntentData,
};
use xmtp_mls::groups::mls_sync::types::PublishIntentData;
use xmtp_mls::groups::mls_sync::welcomes::hmac_user_key;
use xmtp_mls::records::{ConversationType, IntentKind, IntentState, StoredGroupIntent};
use xmtp_mls::text_map::TextMap;

fn group() -> MlsGroup {
    MlsGroup::new(vec![1, 2, 3, 4], None, ConversationType::Group, 17)
}

fn failure(retryable: bool) -> ExternalError {
    ExternalError { retryable, message: "failed".to_string() }
}

fn texts(list: &[&str]) -> Vec<String> {
    list.iter().map(|t| t.to_string()).collect()
}

fn members(list: &[(&str, u64)]) -> TextMap<u64> {
    let mut map: TextMap<u64> = TextMap::new();
    for (inbox_id, sequence_id) in list {
        map.insert(inbox_id.to_string(), *sequence_id);
    }
    map
}

fn latest(list: &[(&str, i64)]) -> TextMap<i64> {
    let mut map: TextMap<i64> = TextMap::new();
    for (inbox_id, sequence_id) in list {
        map.insert(inbox_id.to_string(), *sequence_id);
    }
    map
}

fn membership(list: &[(&str, u64)]) -> Extension {
    Extension::GroupMembership(Decoded::Valid(GroupMembership {
        members: members(list),
        failed_installations: vec![vec![8]],
    }))
}

fn with_proposals(list: &[(&str, u64)]) -> Extensions {
    Extensions { list: vec![Extension::ProposalSupport(Decoded::Valid(1)), membership(list)] }
}

fn member(index: u32, inbox_id: &str) -> GroupMember {
    GroupMember { index, credential: vec![7], inbox_id: Ok(inbox_id.to_string()), signature_key: vec![3, 3] }
}

fn commit(has_welcome: bool) -> GeneratedCommit {
    GeneratedCommit { commit: vec![5], staged_commit: Some(vec![6]), group_epoch: 12, has_welcome }
}

fn begin(data: IntentData, current: Extensions, pending: bool) -> (DerivePass, DeriveAction) {
    group().get_publish_intent_data(data, current, pending, true, 11)
}

fn published(action: DeriveAction) -> Option<PublishIntentData> {
    match action {
        DeriveAction::Finish(Ok(data)) => data,
        DeriveAction::Finish(Err(e)) => panic!("{e:?}"),
        _ => panic!("not finished"),
    }
}

fn refused(action: DeriveAction) -> GroupError {
    match action {
        DeriveAction::Finish(Err(e)) => e,
        _ => panic!("not refused"),
    }
}

#[test]
fn a_message_is_one_payload() {
    let (pass, action) = begin(IntentData::SendMessage(b"hi".to_vec()), Extensions { list: Vec::new() }, false);
    assert!(matches!(action, DeriveAction::CreateMessage { message } if message == b"hi"));
    let (pass, action) = derive_step(pass, DeriveEvent::Members(Vec::new()));
    assert!(matches!(action, DeriveAction::Ignore));
    let (_, action) = derive_step(pass, DeriveEvent::Created(Ok(vec![1, 2])));
    let data = published(action).unwrap();
    assert_eq!(data.payloads_to_publish, vec![vec![1, 2]]);
    assert_eq!(data.staged_commit, None);
    assert_eq!(data.post_commit_action, None);
    assert!(data.should_send_push_notification);
    assert_eq!(data.group_epoch, 11);
}

#[test]
fn commits_carry_their_stage_and_epoch() {
    let (pass, action) = begin(IntentData::KeyUpdate, Extensions { list: Vec::new() }, false);
    assert!(matches!(action, DeriveAction::SelfUpdate));
    let (_, action) = derive_step(pass, DeriveEvent::Committed(Ok(commit(false))));
    let data = published(action).unwrap();
    assert_eq!(data.payloads_to_publish, vec![vec![5]]);
    assert_eq!(data.staged_commit, Some(vec![6]));
    assert_eq!(data.group_epoch, 12);
    let (pass, action) = begin(
        IntentData::UpdateGroupMembership(UpdateGroupMembershipIntentData {
            membership_updates: members(&[("bo", 4)]),
            removed_members: texts(&["caro"]),
            failed_installations: vec![vec![8]],
        }),
        Extensions { list: Vec::new() },
        false,
    );
    match action {
        DeriveAction::UpdateMembership { update } => {
            assert!(update.membership_updates.same_as(&members(&[("bo", 4)])));
            assert_eq!(update.removed_members, texts(&["caro"]));
            assert_eq!(update.failed_installations, vec![vec![8]]);
        }
        _ => panic!("not applied"),
    }
    let (_, action) = derive_step(pass, DeriveEvent::Applied(Ok(None)));
    assert!(published(action).is_none());
    let (pass, action) = begin(
        IntentData::ReaddInstallations(ReaddInstallationsIntentData { installations: vec![vec![7]] }),
        Extensions { list: Vec::new() },
        false,
    );
    assert!(matches!(action, DeriveAction::ReaddInstallations { readd } if readd.installations == vec![vec![7]]));
    let (_, action) = derive_step(pass, DeriveEvent::Applied(Err(GroupError::GroupInactive)));
    assert!(matches!(refused(action), GroupError::GroupInactive));
}

fn update(add: &[&str], remove: &[&str]) -> IntentData {
    IntentData::ProposeMemberUpdate(Ok(ProposeMemberUpdateIntentData {
        add_inbox_ids: texts(add),
        remove_inbox_ids: texts(remove),
    }))
}

#[test]
fn members_are_proposed_leaf_by_leaf() {
    let (pass, action) = begin(update(&["bo"], &["caro"]), with_proposals(&[("alix", 3), ("caro", 4)]), false);
    match action {
        DeriveAction::LoadSequenceIds { inbox_ids } => assert_eq!(inbox_ids, texts(&["bo"])),
        _ => panic!("nothing to load"),
    }
    let (pass, action) = derive_step(pass, DeriveEvent::SequenceIds(Ok(latest(&[("bo", 9)]))));
    match action {
        DeriveAction::CompareMemberships { new_membership } => {
            assert_eq!(new_membership.get("bo"), Some(9));
            assert_eq!(new_membership.get("alix"), Some(3));
            assert_eq!(new_membership.get("caro"), Some(4));
        }
        _ => panic!("nothing to compare"),
    }
    let change = MembershipChange { failed_installations: vec![vec![1]], new_installations: 2 };
    let (pass, action) = derive_step(pass, DeriveEvent::Compared(Ok(change)));
    assert!(matches!(action, DeriveAction::ProposeAddition { index: 0 }));
    let (pass, action) = derive_step(pass, DeriveEvent::Created(Ok(vec![1])));
    assert!(matches!(action, DeriveAction::ProposeAddition { index: 1 }));
    let (pass, action) = derive_step(pass, DeriveEvent::Created(Ok(vec![2])));
    assert!(matches!(action, DeriveAction::ListMembers));
    let listed = vec![member(0, "alix"), member(1, "caro"), member(2, "caro")];
    let (pass, action) = derive_step(pass, DeriveEvent::Members(listed));
    assert!(matches!(action, DeriveAction::ProposeRemoval { leaf: 1 }));
    let (pass, action) = derive_step(pass, DeriveEvent::Created(Ok(vec![3])));
    assert!(matches!(action, DeriveAction::ProposeRemoval { leaf: 2 }));
    let (_, action) = derive_step(pass, DeriveEvent::Created(Ok(vec![4])));
    let data = published(action).unwrap();
    assert_eq!(data.payloads_to_publish, vec![vec![1], vec![2], vec![3], vec![4]]);
    assert_eq!(data.staged_commit, None);
    assert_eq!(data.group_epoch, 11);
}

#[test]
fn proposing_members_can_fail_or_be_needless() {
    let (_, action) = begin(update(&["bo"], &[]), Extensions { list: vec![membership(&[])] }, false);
    assert!(matches!(
        refused(action),
        GroupError::CommitValidation(CommitValidationError::ProposalsNotEnabled)
    ));
    let unread = IntentData::ProposeMemberUpdate(Err(failure(false)));
    let (_, action) = begin(unread, with_proposals(&[]), false);
    assert!(matches!(refused(action), GroupError::External(_)));
    let (pass, _) = begin(update(&["bo"], &[]), with_proposals(&[("alix", 3)]), false);
    let (_, action) = derive_step(pass, DeriveEvent::SequenceIds(Ok(latest(&[("alix", 3)]))));
    assert!(matches!(refused(action), GroupError::MissingSequenceId));
    let (pass, _) = begin(update(&["bo"], &[]), with_proposals(&[("alix", 3)]), false);
    let (pass, _) = derive_step(pass, DeriveEvent::SequenceIds(Ok(latest(&[("bo", 3)]))));
    let change = MembershipChange { failed_installations: vec![vec![1]], new_installations: 0 };
    let (_, action) = derive_step(pass, DeriveEvent::Compared(Ok(change)));
    assert!(matches!(refused(action), GroupError::FailedToVerifyInstallations));
    // Nobody to add and nobody found to remove: nothing is published.
    let (pass, action) = begin(update(&[], &["dana"]), with_proposals(&[("alix", 3)]), false);
    assert!(matches!(action, DeriveAction::ListMembers));
    let (_, action) = derive_step(pass, DeriveEvent::Members(vec![member(0, "alix")]));
    assert!(published(action).is_none());
    let (pass, _) = begin(update(&[], &["dana"]), with_proposals(&[("alix", 3)]), false);
    let broken = GroupMember {
        index: 0,
        credential: vec![7],
        inbox_id: Err(CredentialError::Identity(failure(false))),
        signature_key: vec![1],
    };
    let (_, action) = derive_step(pass, DeriveEvent::Members(vec![broken]));
    assert!(matches!(action, DeriveAction::Finish(Err(_))));
}

fn addition(inbox_id: &str, supports_proposals: bool) -> PendingProposal {
    PendingProposal::Add { inbox_id: Ok(inbox_id.to_string()), supports_proposals, can_be_welcomed: true }
}

#[test]
fn pending_proposals_are_committed_behind_the_new_members() {
    let current = with_proposals(&[("alix", 3), ("caro", 4)]);
    let (pass, action) = begin(IntentData::CommitPendingProposals, current, true);
    assert!(matches!(action, DeriveAction::ListProposals));
    let (pass, action) = derive_step(
        pass,
        DeriveEvent::Proposals {
            proposals: vec![addition("bo", true), PendingProposal::Remove { leaf: 1 }],
            members: vec![member(0, "alix"), member(1, "caro")],
        },
    );
    match action {
        DeriveAction::LoadSequenceIds { inbox_ids } => assert_eq!(inbox_ids, texts(&["bo"])),
        _ => panic!("nothing to load"),
    }
    let (pass, action) = derive_step(pass, DeriveEvent::SequenceIds(Ok(latest(&[("bo", 9)]))));
    match action {
        DeriveAction::CompareMemberships { new_membership } => {
            assert_eq!(new_membership.get("alix"), Some(3));
            assert_eq!(new_membership.get("bo"), Some(9));
            assert_eq!(new_membership.get("caro"), None);
        }
        _ => panic!("nothing to compare"),
    }
    let change = MembershipChange { failed_installations: vec![vec![4, 4]], new_installations: 1 };
    let (pass, action) = derive_step(pass, DeriveEvent::Compared(Ok(change)));
    match action {
        DeriveAction::ProposeAndCommit { new_extensions, new_members } => {
            assert!(new_members.same_as(&members(&[("alix", 3), ("bo", 9)])));
            match new_extensions.find(ExtensionType::GroupMembership) {
                Some(Extension::GroupMembership(Decoded::Valid(m))) => {
                    assert!(m.members.same_as(&new_members));
                    assert_eq!(m.failed_installations, vec![vec![4, 4]]);
                }
                _ => panic!("no members"),
            }
            assert!(new_extensions.find(ExtensionType::ProposalSupport).is_some());
        }
        _ => panic!("not committed"),
    }
    let (pass, action) =
        derive_step(pass, DeriveEvent::ProposedAndCommitted(Ok((vec![2], commit(true)))));
    match action {
        DeriveAction::BuildWelcomes { additions } => assert_eq!(additions, vec![0]),
        _ => panic!("no welcomes"),
    }
    let (_, action) = derive_step(pass, DeriveEvent::WelcomesBuilt(Ok(vec![9, 9])));
    let data = published(action).unwrap();
    assert_eq!(data.payloads_to_publish, vec![vec![2], vec![5]]);
    assert_eq!(data.staged_commit, Some(vec![6]));
    assert_eq!(data.post_commit_action, Some(vec![9, 9]));
    assert_eq!(data.group_epoch, 12);
}

#[test]
fn a_member_without_proposals_is_not_added_while_the_flow_is_on() {
    let current = with_proposals(&[("alix", 3)]);
    let (pass, _) = begin(IntentData::CommitPendingProposals, current, true);
    let (pass, _) = derive_step(
        pass,
        DeriveEvent::Proposals { proposals: vec![addition("bo", false)], members: vec![member(0, "alix")] },
    );
    let (pass, _) = derive_step(pass, DeriveEvent::SequenceIds(Ok(latest(&[("bo", 9)]))));
    let change = MembershipChange { failed_installations: Vec::new(), new_installations: 1 };
    let (_, action) = derive_step(pass, DeriveEvent::Compared(Ok(change)));
    assert!(matches!(
        refused(action),
        GroupError::ProposalsNotSupported(reason) if reason.starts_with("Member does not support proposals")
    ));
    // Where the flow is off, anybody can be added.
    let (pass, _) = begin(IntentData::CommitPendingProposals, membership_of(&[("alix", 3)]), true);
    let (pass, _) = derive_step(
        pass,
        DeriveEvent::Proposals { proposals: vec![addition("bo", false)], members: vec![member(0, "alix")] },
    );
    let (pass, _) = derive_step(pass, DeriveEvent::SequenceIds(Ok(latest(&[("bo", 9)]))));
    let change = MembershipChange { failed_installations: Vec::new(), new_installations: 1 };
    let (_, action) = derive_step(pass, DeriveEvent::Compared(Ok(change)));
    assert!(matches!(action, DeriveAction::ProposeAndCommit { .. }));
}

#[test]
fn pending_proposals_may_need_no_new_extensions() {
    let (_, action) = begin(IntentData::CommitPendingProposals, with_proposals(&[("alix", 3)]), false);
    assert!(published(action).is_none());
    // Extensions that already give the members are committed as they are.
    let (pass, _) = begin(IntentData::CommitPendingProposals, with_proposals(&[("alix", 3), ("caro", 4)]), true);
    let proposals = vec![
        PendingProposal::Remove { leaf: 1 },
        PendingProposal::GroupContextExtensions(with_proposals(&[("alix", 3)])),
    ];
    let (pass, action) = derive_step(
        pass,
        DeriveEvent::Proposals { proposals, members: vec![member(0, "alix"), member(1, "caro")] },
    );
    match action {
        DeriveAction::CommitProposals { new_members, membership_changed } => {
            assert!(membership_changed);
            assert!(new_members.same_as(&members(&[("alix", 3)])));
        }
        _ => panic!("not committed"),
    }
    let unstaged = GeneratedCommit { staged_commit: None, ..commit(false) };
    let (_, action) = derive_step(pass, DeriveEvent::Committed(Ok(unstaged)));
    assert!(matches!(refused(action), GroupError::MissingPendingCommit));
    // Other proposals change nobody.
    let (pass, _) = begin(IntentData::CommitPendingProposals, with_proposals(&[("alix", 3)]), true);
    let (pass, action) = derive_step(
        pass,
        DeriveEvent::Proposals { proposals: vec![PendingProposal::Other], members: vec![member(0, "alix")] },
    );
    assert!(matches!(action, DeriveAction::CommitProposals { membership_changed: false, .. }));
    let (_, action) = derive_step(pass, DeriveEvent::Committed(Ok(commit(false))));
    assert_eq!(published(action).unwrap().payloads_to_publish, vec![vec![5]]);
}

fn membership_of(list: &[(&str, u64)]) -> Extensions {
    Extensions { list: vec![membership(list)] }
}

fn updated(action: MembershipAction) -> UpdateGroupMembershipIntentData {
    match action {
        MembershipAction::Finish(Ok(data)) => data,
        _ => panic!("no update"),
    }
}

fn begin_update(add: &[&str], remove: &[&str]) -> (MembershipPhase, MembershipAction) {
    group().get_membership_update_intent(&membership_of(&[("alix", 3), ("caro", 4)]), texts(add), texts(remove))
}

#[test]
fn membership_updates_name_what_has_changed() {
    let (phase, action) = begin_update(&["bo"], &["caro"]);
    match action {
        MembershipAction::LoadSequenceIds { inbox_ids } => assert_eq!(inbox_ids, texts(&["alix", "caro", "bo"])),
        _ => panic!("nothing to load"),
    }
    let found = latest(&[("alix", 3), ("caro", 5), ("bo", 1)]);
    let (phase, action) = membership_step(phase, MembershipEvent::SequenceIds(Ok(found)));
    match action {
        MembershipAction::CompareMemberships { new_membership } => {
            assert_eq!(new_membership.get("alix"), Some(3));
            assert_eq!(new_membership.get("bo"), Some(1));
            assert_eq!(new_membership.get("caro"), None);
        }
        _ => panic!("nothing to compare"),
    }
    let change = MembershipChange { failed_installations: vec![vec![2]], new_installations: 1 };
    let (_, action) = membership_step(phase, MembershipEvent::Compared(Ok(change)));
    let data = updated(action);
    assert_eq!(data.membership_updates.get("bo"), Some(&1));
    assert_eq!(data.membership_updates.get("caro"), Some(&5));
    assert_eq!(data.membership_updates.get("alix"), None);
    assert_eq!(data.removed_members, texts(&["caro"]));
    assert_eq!(data.failed_installations, vec![vec![2]]);
}

#[test]
fn membership_updates_can_be_refused() {
    let (phase, _) = begin_update(&["bo"], &[]);
    let found = latest(&[("alix", 3), ("caro", 4)]);
    let (_, action) = membership_step(phase, MembershipEvent::SequenceIds(Ok(found)));
    assert!(matches!(action, MembershipAction::Finish(Err(GroupError::MissingSequenceId))));
    let (phase, _) = begin_update(&["bo"], &[]);
    let found = latest(&[("alix", 3), ("caro", 4), ("bo", 1)]);
    let (phase, _) = membership_step(phase, MembershipEvent::SequenceIds(Ok(found)));
    let change = MembershipChange { failed_installations: vec![vec![2]], new_installations: 0 };
    let (_, action) = membership_step(phase, MembershipEvent::Compared(Ok(change)));
    assert!(matches!(action, MembershipAction::Finish(Err(GroupError::FailedToVerifyInstallations))));
    let without = Extensions { list: Vec::new() };
    let (_, action) = group().get_membership_update_intent(&without, texts(&["bo"]), Vec::new());
    assert!(matches!(action, MembershipAction::Finish(Err(GroupError::InvalidGroupMembership))));
}

fn committed(id: i32, post_commit_data: Option<Vec<u8>>) -> StoredGroupIntent {
    StoredGroupIntent {
        id,
        kind: IntentKind::UpdateGroupMembership,
        group_id: vec![9; 16],
        data: Vec::new(),
        state: IntentState::Committed,
        payload_hash: None,
        post_commit_data,
        publish_attempts: 1,
        staged_commit: None,
        published_in_epoch: None,
        should_push: true,
        sequence_id: Some(33),
        originator_id: Some(0),
    }
}

#[test]
fn welcomes_are_sent_before_an_intent_is_processed() {
    let (pass, action) = group().post_commit(vec![committed(1, Some(vec![4])), committed(2, None)]);
    match action {
        PostCommitAction::SendWelcomes { data, message_cursor } => {
            assert_eq!(data, vec![4]);
            assert_eq!(message_cursor, Some(33));
        }
        other => panic!("{other:?}"),
    }
    let (pass, action) = post_commit_step(pass, Ok(()));
    assert!(matches!(action, PostCommitAction::MarkProcessed { intent_id: 1 }));
    let (pass, action) = post_commit_step(pass, Ok(()));
    assert!(matches!(action, PostCommitAction::MarkProcessed { intent_id: 2 }));
    let (pass, action) = post_commit_step(pass, Ok(()));
    assert!(matches!(action, PostCommitAction::Finish(Ok(()))));
    let (_, action) = post_commit_step(pass, Ok(()));
    assert!(matches!(action, PostCommitAction::Ignore));
    let (pass, _) = group().post_commit(vec![committed(1, Some(vec![4])), committed(2, None)]);
    let (_, action) = post_commit_step(pass, Err(GroupError::NoWelcomesToSend));
    assert!(matches!(action, PostCommitAction::Finish(Err(GroupError::NoWelcomesToSend))));
    let (_, action) = group().post_commit(Vec::new());
    assert!(matches!(action, PostCommitAction::Finish(Ok(()))));
}

#[test]
fn commits_are_made_inside_a_savepoint() {
    let made = |savepoint, reloaded, operation: Result<u8, GroupError>| {
        generate_commit_with_rollback(savepoint, reloaded, operation, Some(vec![1]), 9)
    };
    assert_eq!(made(SavepointEnd::IntentionalRollback, Ok(()), Ok(7)).unwrap(), (7, Some(vec![1]), 9));
    assert!(matches!(
        made(SavepointEnd::Failed(failure(true)), Err(GroupError::GroupInactive), Ok(7)),
        Err(GroupError::External(_))
    ));
    assert!(matches!(
        made(SavepointEnd::IntentionalRollback, Err(GroupError::GroupInactive), Err(GroupError::LockUnavailable)),
        Err(GroupError::GroupInactive)
    ));
    assert!(matches!(
        made(SavepointEnd::IntentionalRollback, Ok(()), Err(GroupError::LockUnavailable)),
        Err(GroupError::LockUnavailable)
    ));
    assert!(is_last_attempt(2, 3));
    assert!(!is_last_attempt(1, 3));
}

#[test]
fn key_packages_are_asked_for_and_sorted() {
    let requested = vec![vec![1], vec![2], vec![3]];
    assert_eq!(installations_to_request(&requested, &[2]), vec![vec![1], vec![3]]);
    let sorted = get_keypackages_for_installation_ids(vec![
        (vec![1], FetchedKeyPackage::Verified(Ok('a'))),
        (vec![2], FetchedKeyPackage::Rejected),
        (vec![3], FetchedKeyPackage::Verified(Ok('c'))),
    ])
    .unwrap();
    assert_eq!(sorted.fetched, vec!['a', 'c']);
    assert_eq!(sorted.failed, vec![vec![2]]);
    let broken = get_keypackages_for_installation_ids(vec![
        (vec![1], FetchedKeyPackage::Verified(Ok('a'))),
        (vec![2], FetchedKeyPackage::Verified(Err(GroupError::GroupInactive))),
    ]);
    assert!(matches!(broken, Err(GroupError::GroupInactive)));
}

#[test]
fn outdated_extensions_are_left_out_of_a_commit() {
    let new_members = members(&[("alix", 3)]);
    let outdated = PendingProposal::GroupContextExtensions(with_proposals(&[("alix", 2)]));
    assert!(!keeps_proposal(&outdated, &new_members, true));
    assert!(keeps_proposal(&outdated, &new_members, false));
    let current = PendingProposal::GroupContextExtensions(with_proposals(&[("alix", 3)]));
    assert!(keeps_proposal(&current, &new_members, true));
    assert!(keeps_proposal(&PendingProposal::Remove { leaf: 4 }, &new_members, true));
}

#[test]
fn installations_are_checked_now_and_then() {
    let check = |stored, interval, last_ns, is_active| {
        group().maybe_update_installations(stored, interval, 100, 1_000, last_ns, is_active)
    };
    let plain = Some(ConversationType::Group);
    assert!(check(plain, None, 899, Ok(true)).unwrap());
    assert!(!check(plain, None, 900, Ok(true)).unwrap());
    assert!(!check(plain, None, 0, Ok(false)).unwrap());
    assert!(check(plain, Some(5), 990, Ok(true)).unwrap());
    assert!(!check(Some(ConversationType::Sync), None, 0, Ok(true)).unwrap());
    assert!(matches!(check(None, None, 0, Ok(true)), Err(GroupError::NotFound(_))));
    let nothing = UpdateGroupMembershipIntentData {
        membership_updates: TextMap::new(),
        removed_members: Vec::new(),
        failed_installations: Vec::new(),
    };
    assert!(!add_missing_installations(&nothing));
    let some = UpdateGroupMembershipIntentData { removed_members: texts(&["bo"]), ..nothing };
    assert!(add_missing_installations(&some));
    assert_eq!(hmac_user_key(Some(vec![1]), vec![2]), (vec![1], false));
    assert_eq!(hmac_user_key(None, vec![2]), (vec![2], true));
}
