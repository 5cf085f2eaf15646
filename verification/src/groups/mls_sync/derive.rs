//! Working out what is published for one intent.
//!
//! Most intents need one operation of the MLS engine. A change of the members is proposed leaf by
//! leaf, and a commit of pending proposals is planned before it is made; what only the engine, the
//! network or the store can do is asked for between the steps.

use vstd::prelude::*;
use crate::bytes;
use crate::groups::error::GroupError;
use crate::groups::extensions::{Decoded, Extension, ExtensionType, Extensions};
use crate::groups::group::MlsGroup;
use crate::groups::group_config;
use crate::groups::group_membership::GroupMembership;
use crate::groups::mls_sync::helpers::GroupMember;
use crate::groups::mls_sync::membership::{MembershipChange, UpdateGroupMembershipIntentData};
use crate::groups::mls_sync::publish_data;
use crate::groups::mls_sync::publish_data::{
    ChangesView, CommitPlan, IntentData, PendingChanges, PendingProposal, ProposeMemberUpdateIntentData,
    PublishRequest, ReaddInstallationsIntentData,
};
use crate::groups::mls_sync::types::PublishIntentData;
use crate::text_map::TextMap;

verus! {

/// A commit that the engine has made.
#[derive(Debug)]
pub struct GeneratedCommit {
    pub commit: Vec<u8>,
    /// The commit as it is staged, to be merged once it comes back.
    pub staged_commit: Option<Vec<u8>>,
    /// The epoch in which it was made.
    pub group_epoch: u64,
    /// Whether a welcome for new members goes with it.
    pub has_welcome: bool,
}

/// What the work waits for.
pub enum DerivePhase {
    /// A single message or proposal.
    Creating,
    /// A commit of new extensions or of a renewed leaf.
    Committing,
    /// A change of the members that is applied at once.
    Applying,
    /// The latest sequence ids of the inboxes that are proposed.
    LoadingAdditions { update: ProposeMemberUpdateIntentData, membership: GroupMembership },
    /// What the proposed inboxes mean for installations.
    ComparingAdditions { remove_inbox_ids: Vec<String> },
    /// The proposal of an installation.
    ProposingAdditions { next: usize, total: usize, remove_inbox_ids: Vec<String>, payloads: Vec<Vec<u8>> },
    /// The members of the group.
    ListingMembers { remove_inbox_ids: Vec<String>, payloads: Vec<Vec<u8>> },
    /// The proposal to remove a leaf.
    ProposingRemovals { leaves: Vec<u32>, next: usize, payloads: Vec<Vec<u8>> },
    /// The proposals that are pending.
    ListingProposals { current: Extensions, membership: GroupMembership },
    /// The latest sequence ids of the inboxes that join.
    LoadingJoiners {
        current: Extensions,
        membership: GroupMembership,
        proposals: Vec<PendingProposal>,
        changes: PendingChanges,
    },
    /// What the inboxes that join mean for installations.
    ComparingJoiners {
        current: Extensions,
        membership: GroupMembership,
        proposals: Vec<PendingProposal>,
        changes: PendingChanges,
    },
    /// Extensions that are proposed and committed with the pending proposals; `additions` are the
    /// proposals whose installations get a welcome.
    ProposingAndCommitting { additions: Vec<usize> },
    /// The commit of the pending proposals.
    CommittingProposals { additions: Vec<usize> },
    /// The welcomes that go with a commit.
    Welcoming { data: PublishIntentData },
    Done,
}

/// The work for one intent.
pub struct DerivePass {
    pub phase: DerivePhase,
    /// Whether what is published is pushed.
    pub should_push: bool,
    /// The epoch in which the work began.
    pub group_epoch: u64,
}

/// What has happened outside.
pub enum DeriveEvent {
    /// A message or proposal was made.
    Created(Result<Vec<u8>, GroupError>),
    Committed(Result<GeneratedCommit, GroupError>),
    Applied(Result<Option<PublishIntentData>, GroupError>),
    SequenceIds(Result<TextMap<i64>, GroupError>),
    Compared(Result<MembershipChange, GroupError>),
    Members(Vec<GroupMember>),
    Proposals { proposals: Vec<PendingProposal>, members: Vec<GroupMember> },
    /// Extensions were proposed, and committed with the pending proposals.
    ProposedAndCommitted(Result<(Vec<u8>, GeneratedCommit), GroupError>),
    WelcomesBuilt(Result<Vec<u8>, GroupError>),
}

/// What is to be done next outside.
pub enum DeriveAction {
    /// Encrypt the message of the intent.
    CreateMessage { message: Vec<u8> },
    ProposeExtensions(Extensions),
    /// Make a commit that renews the own leaf.
    SelfUpdate,
    /// Make a commit that sets these extensions.
    UpdateExtensions(Extensions),
    /// Apply a change of the members.
    UpdateMembership { update: UpdateGroupMembershipIntentData },
    /// Add installations again.
    ReaddInstallations { readd: ReaddInstallationsIntentData },
    /// Load the identity updates of inboxes, and their latest sequence ids.
    LoadSequenceIds { inbox_ids: Vec<String> },
    /// Find out what a new membership of the group means for installations.
    CompareMemberships { new_membership: GroupMembership },
    /// Propose the installation of a key package.
    ProposeAddition { index: usize },
    ListMembers,
    ProposeRemoval { leaf: u32 },
    ListProposals,
    /// Propose these extensions, and commit them with the pending proposals that lead to the members.
    ProposeAndCommit { new_extensions: Extensions, new_members: TextMap<u64> },
    /// Commit the pending proposals that lead to the members.
    CommitProposals { new_members: TextMap<u64>, membership_changed: bool },
    /// Encode the welcomes for the installations that some proposals bring in.
    BuildWelcomes { additions: Vec<usize> },
    Finish(Result<Option<PublishIntentData>, GroupError>),
    Ignore,
}

/// Whether the work ends.
pub open spec fn ends(
    before: DerivePass,
    result: Result<Option<PublishIntentData>, GroupError>,
    after: DerivePass,
    action: DeriveAction,
) -> bool {
    &&& after == (DerivePass { phase: DerivePhase::Done, ..before })
    &&& action == DeriveAction::Finish(result)
}

/// Whether data is that of a single payload.
pub open spec fn is_single(data: PublishIntentData, payload: Vec<u8>, should_push: bool, group_epoch: u64) -> bool {
    &&& data.payloads_to_publish@ == seq![payload]
    &&& data.staged_commit is None
    &&& data.post_commit_action is None
    &&& data.should_send_push_notification == should_push
    &&& data.group_epoch == group_epoch
}

/// Whether data is that of a commit.
pub open spec fn is_commit_data(
    data: PublishIntentData,
    payloads: Seq<Vec<u8>>,
    staged_commit: Option<Vec<u8>>,
    post_commit_action: Option<Vec<u8>>,
    should_push: bool,
    group_epoch: u64,
) -> bool {
    &&& data.payloads_to_publish@ == payloads
    &&& data.staged_commit == staged_commit
    &&& data.post_commit_action == post_commit_action
    &&& data.should_send_push_notification == should_push
    &&& data.group_epoch == group_epoch
}

/// Whether the work ends with proposals: where there are none, the members are already as they should
/// be.
pub open spec fn ends_with_proposals(
    before: DerivePass,
    payloads: Seq<Vec<u8>>,
    after: DerivePass,
    action: DeriveAction,
) -> bool {
    &&& after == (DerivePass { phase: DerivePhase::Done, ..before })
    &&& action matches DeriveAction::Finish(Ok(published))
    &&& published is None <==> payloads.len() == 0
    &&& published matches Some(data) ==> is_commit_data(
        data,
        payloads,
        None,
        None,
        before.should_push,
        before.group_epoch,
    )
}

/// Whether the work goes on after all additions were proposed: with the removals, where there are any.
pub open spec fn goes_on_to_removals(
    before: DerivePass,
    remove_inbox_ids: Vec<String>,
    payloads: Seq<Vec<u8>>,
    after: DerivePass,
    action: DeriveAction,
) -> bool {
    if remove_inbox_ids@.len() > 0 {
        &&& after == (DerivePass { phase: after.phase, ..before })
        &&& after.phase matches DerivePhase::ListingMembers { remove_inbox_ids: r, payloads: p }
        &&& r == remove_inbox_ids
        &&& p@ == payloads
        &&& action is ListMembers
    } else {
        ends_with_proposals(before, payloads, after, action)
    }
}

/// Whether the next addition is proposed, or the work goes on after the last.
pub open spec fn proposes_addition(
    before: DerivePass,
    next: usize,
    total: usize,
    remove_inbox_ids: Vec<String>,
    payloads: Seq<Vec<u8>>,
    after: DerivePass,
    action: DeriveAction,
) -> bool {
    if next < total {
        &&& after == (DerivePass { phase: after.phase, ..before })
        &&& after.phase matches DerivePhase::ProposingAdditions {
            next: n,
            total: t,
            remove_inbox_ids: r,
            payloads: p,
        }
        &&& n == next
        &&& t == total
        &&& r == remove_inbox_ids
        &&& p@ == payloads
        &&& action == (DeriveAction::ProposeAddition { index: next })
    } else {
        goes_on_to_removals(before, remove_inbox_ids, payloads, after, action)
    }
}

/// Whether the next removal is proposed, or the work ends after the last.
pub open spec fn proposes_removal(
    before: DerivePass,
    leaves: Seq<u32>,
    next: int,
    payloads: Seq<Vec<u8>>,
    after: DerivePass,
    action: DeriveAction,
) -> bool {
    if next < leaves.len() {
        &&& after == (DerivePass { phase: after.phase, ..before })
        &&& after.phase matches DerivePhase::ProposingRemovals { leaves: l, next: n, payloads: p }
        &&& l@ == leaves
        &&& n == next
        &&& p@ == payloads
        &&& action == (DeriveAction::ProposeRemoval { leaf: leaves[next] })
    } else {
        ends_with_proposals(before, payloads, after, action)
    }
}

/// Whether the commit of pending proposals is planned: behind extensions with the new members, where
/// the members change and no proposal says so. Where the proposal flow is on, the work ends if someone
/// is added who cannot take proposals.
pub open spec fn plans_commit(
    before: DerivePass,
    current: Seq<Extension>,
    proposals: Seq<PendingProposal>,
    changes: ChangesView,
    new_members: Map<Seq<char>, u64>,
    new_failed: Seq<Seq<u8>>,
    after: DerivePass,
    action: DeriveAction,
) -> bool {
    let welcomed = changes.accepted.filter(|at: usize| publish_data::welcomes(proposals, at));
    &&& after == (DerivePass { phase: after.phase, ..before })
    &&& if publish_data::refuses_additions(proposals, changes, current) {
        &&& after.phase is Done
        &&& action matches DeriveAction::Finish(Err(e))
        &&& publish_data::is_unsupported(e)
    } else if !publish_data::changes_membership(changes) || publish_data::some_gives_members(proposals, new_members) {
        &&& after.phase matches DerivePhase::CommittingProposals { additions }
        &&& additions@ == welcomed
        &&& action matches DeriveAction::CommitProposals { new_members: members, membership_changed }
        &&& members@ == new_members
        &&& membership_changed == publish_data::changes_membership(changes)
    } else {
        &&& after.phase matches DerivePhase::ProposingAndCommitting { additions }
        &&& additions@ == welcomed
        &&& action matches DeriveAction::ProposeAndCommit { new_extensions, new_members: members }
        &&& members@ == new_members
        &&& publish_data::is_planned_extensions(
            new_extensions.list@,
            publish_data::base_extensions(proposals, current),
            new_members,
            new_failed,
        )
    }
}

/// Whether a commit of pending proposals is taken in: it needs its staged commit, and its welcomes are
/// built where it has any.
pub open spec fn takes_commit(
    before: DerivePass,
    first: Option<Vec<u8>>,
    made: GeneratedCommit,
    additions: Vec<usize>,
    after: DerivePass,
    action: DeriveAction,
) -> bool {
    let payloads = match first {
        Some(first) => seq![first, made.commit],
        None => seq![made.commit],
    };
    if made.staged_commit is None {
        ends(before, Err(GroupError::MissingPendingCommit), after, action)
    } else if made.has_welcome {
        &&& after == (DerivePass { phase: after.phase, ..before })
        &&& after.phase matches DerivePhase::Welcoming { data }
        &&& is_commit_data(data, payloads, made.staged_commit, None, before.should_push, made.group_epoch)
        &&& action == (DeriveAction::BuildWelcomes { additions })
    } else {
        &&& after == (DerivePass { phase: DerivePhase::Done, ..before })
        &&& action matches DeriveAction::Finish(Ok(Some(data)))
        &&& is_commit_data(data, payloads, made.staged_commit, None, before.should_push, made.group_epoch)
    }
}

/// Whether the work for a request has begun.
pub open spec fn is_begun(request: Result<PublishRequest, GroupError>, pass: DerivePass, action: DeriveAction) -> bool {
    match request {
        Err(e) => ends(pass, Err(e), pass, action),
        Ok(PublishRequest::Nothing) => ends(pass, Ok(None), pass, action),
        Ok(PublishRequest::UpdateMembership(update)) => pass.phase is Applying && action
            == (DeriveAction::UpdateMembership { update }),
        Ok(PublishRequest::ReaddInstallations(readd)) => pass.phase is Applying && action
            == (DeriveAction::ReaddInstallations { readd }),
        Ok(PublishRequest::CreateMessage(message)) => pass.phase is Creating && action
            == (DeriveAction::CreateMessage { message }),
        Ok(PublishRequest::ProposeExtensions(proposed)) => pass.phase is Creating && action
            == DeriveAction::ProposeExtensions(proposed),
        Ok(PublishRequest::SelfUpdate) => pass.phase is Committing && action is SelfUpdate,
        Ok(PublishRequest::UpdateExtensions(new)) => pass.phase is Committing && action
            == DeriveAction::UpdateExtensions(new),
        Ok(PublishRequest::ProposeMembers(data, current)) => if data.add_inbox_ids@.len() > 0 {
            match publish_data::membership_of(current.list@) {
                Err(e) => ends(pass, Err(e), pass, action),
                Ok(membership) => {
                    &&& pass.phase == (DerivePhase::LoadingAdditions { update: data, membership })
                    &&& action matches DeriveAction::LoadSequenceIds { inbox_ids }
                    &&& inbox_ids@ == data.add_inbox_ids@
                },
            }
        } else {
            goes_on_to_removals(pass, data.remove_inbox_ids, seq![], pass, action)
        },
        Ok(PublishRequest::CommitProposals(current)) => match publish_data::membership_of(current.list@) {
            Err(e) => ends(pass, Err(e), pass, action),
            Ok(m) => {
                &&& pass.phase matches DerivePhase::ListingProposals { current: c, membership }
                &&& c == current
                &&& membership.members@ == m.members@
                &&& bytes::byte_views(membership.failed_installations@) == bytes::byte_views(m.failed_installations@)
                &&& action is ListProposals
            },
        },
    }
}

/// How the work for an intent begins.
pub open spec fn begins_deriving(
    data: IntentData,
    current: Extensions,
    has_pending_proposals: bool,
    should_push: bool,
    group_epoch: u64,
    pass: DerivePass,
    action: DeriveAction,
) -> bool {
    &&& pass.should_push == should_push
    &&& pass.group_epoch == group_epoch
    &&& exists|request: Result<PublishRequest, GroupError>|
        #[trigger] publish_data::is_request(data, current, has_pending_proposals, request) && is_begun(
            request,
            pass,
            action,
        )
}

/// The transitions of the work.
pub open spec fn is_derive_step(before: DerivePass, event: DeriveEvent, after: DerivePass, action: DeriveAction) -> bool {
    match (before.phase, event) {
        (DerivePhase::Creating, DeriveEvent::Created(outcome)) => match outcome {
            Err(e) => ends(before, Err(e), after, action),
            Ok(payload) => {
                &&& after == (DerivePass { phase: DerivePhase::Done, ..before })
                &&& action matches DeriveAction::Finish(Ok(Some(data)))
                &&& is_single(data, payload, before.should_push, before.group_epoch)
            },
        },
        (DerivePhase::Committing, DeriveEvent::Committed(outcome)) => match outcome {
            Err(e) => ends(before, Err(e), after, action),
            Ok(made) => {
                &&& after == (DerivePass { phase: DerivePhase::Done, ..before })
                &&& action matches DeriveAction::Finish(Ok(Some(data)))
                &&& is_commit_data(
                    data,
                    seq![made.commit],
                    made.staged_commit,
                    None,
                    before.should_push,
                    made.group_epoch,
                )
            },
        },
        (DerivePhase::Applying, DeriveEvent::Applied(outcome)) => ends(before, outcome, after, action),
        (DerivePhase::LoadingAdditions { update, membership }, DeriveEvent::SequenceIds(outcome)) => match outcome {
            Err(e) => ends(before, Err(e), after, action),
            Ok(latest) => {
                let n = update.add_inbox_ids@.len() as int;
                if publish_data::all_known(update.add_inbox_ids@, latest@, n) {
                    &&& after == (DerivePass {
                        phase: DerivePhase::ComparingAdditions { remove_inbox_ids: update.remove_inbox_ids },
                        ..before
                    })
                    &&& action matches DeriveAction::CompareMemberships { new_membership }
                    &&& new_membership.members@ == publish_data::refreshed(
                        membership.members@,
                        update.add_inbox_ids@,
                        latest@,
                        n,
                    )
                    &&& new_membership.failed_installations == membership.failed_installations
                } else {
                    ends(before, Err(GroupError::MissingSequenceId), after, action)
                }
            },
        },
        (DerivePhase::ComparingAdditions { remove_inbox_ids }, DeriveEvent::Compared(outcome)) => match outcome {
            Err(e) => ends(before, Err(e), after, action),
            Ok(change) => if change.failed_installations@.len() > 0 && change.new_installations == 0 {
                ends(before, Err(GroupError::FailedToVerifyInstallations), after, action)
            } else {
                proposes_addition(before, 0, change.new_installations, remove_inbox_ids, seq![], after, action)
            },
        },
        (
            DerivePhase::ProposingAdditions { next, total, remove_inbox_ids, payloads },
            DeriveEvent::Created(outcome),
        ) => match outcome {
            Err(e) => ends(before, Err(e), after, action),
            Ok(payload) => if next < total {
                proposes_addition(
                    before,
                    (next + 1) as usize,
                    total,
                    remove_inbox_ids,
                    payloads@.push(payload),
                    after,
                    action,
                )
            } else {
                after == before && action is Ignore
            },
        },
        (DerivePhase::ListingMembers { remove_inbox_ids, payloads }, DeriveEvent::Members(members)) => {
            if exists|n: int| 0 <= n < members@.len() && (#[trigger] members@[n]).inbox_id is Err {
                &&& after == (DerivePass { phase: DerivePhase::Done, ..before })
                &&& action matches DeriveAction::Finish(Err(e))
                &&& exists|n: int| publish_data::is_first_error(members@, n, e)
            } else {
                proposes_removal(
                    before,
                    publish_data::leaves_of(members@, remove_inbox_ids@),
                    0,
                    payloads@,
                    after,
                    action,
                )
            }
        },
        (DerivePhase::ProposingRemovals { leaves, next, payloads }, DeriveEvent::Created(outcome)) => match outcome {
            Err(e) => ends(before, Err(e), after, action),
            Ok(payload) => if next < leaves@.len() {
                proposes_removal(before, leaves@, next + 1, payloads@.push(payload), after, action)
            } else {
                after == before && action is Ignore
            },
        },
        (
            DerivePhase::ListingProposals { current, membership },
            DeriveEvent::Proposals { proposals, members },
        ) => match publish_data::changes_of(proposals@, members@, membership.members@, proposals@.len()) {
            Err(e) => ends(before, Err(e), after, action),
            Ok(changes) => if changes.add.len() > 0 {
                &&& after == (DerivePass { phase: after.phase, ..before })
                &&& after.phase matches DerivePhase::LoadingJoiners {
                    current: c,
                    membership: m,
                    proposals: p,
                    changes: kept,
                }
                &&& c == current
                &&& m == membership
                &&& p == proposals
                &&& kept@ == changes
                &&& action matches DeriveAction::LoadSequenceIds { inbox_ids }
                &&& inbox_ids@ == changes.add
            } else {
                plans_commit(
                    before,
                    current.list@,
                    proposals@,
                    changes,
                    publish_data::members_without(membership.members@, changes.remove, changes.remove.len() as int),
                    bytes::byte_views(membership.failed_installations@),
                    after,
                    action,
                )
            },
        },
        (
            DerivePhase::LoadingJoiners { current, membership, proposals, changes },
            DeriveEvent::SequenceIds(outcome),
        ) => match outcome {
            Err(e) => ends(before, Err(e), after, action),
            Ok(latest) => if publish_data::all_known(changes@.add, latest@, changes@.add.len() as int) {
                &&& after == (DerivePass { phase: after.phase, ..before })
                &&& after.phase matches DerivePhase::ComparingJoiners {
                    current: c,
                    membership: new,
                    proposals: p,
                    changes: kept,
                }
                &&& c == current
                &&& new.members@ == publish_data::members_after(membership.members@, changes@, latest@)
                &&& bytes::byte_views(new.failed_installations@) == bytes::byte_views(membership.failed_installations@)
                &&& p == proposals
                &&& kept == changes
                &&& action matches DeriveAction::CompareMemberships { new_membership }
                &&& new_membership.members@ == new.members@
                &&& bytes::byte_views(new_membership.failed_installations@) == bytes::byte_views(
                    new.failed_installations@,
                )
            } else {
                ends(before, Err(GroupError::MissingSequenceId), after, action)
            },
        },
        (
            DerivePhase::ComparingJoiners { current, membership, proposals, changes },
            DeriveEvent::Compared(outcome),
        ) => match outcome {
            Err(e) => ends(before, Err(e), after, action),
            Ok(change) => plans_commit(
                before,
                current.list@,
                proposals@,
                changes@,
                membership.members@,
                bytes::byte_views(change.failed_installations@),
                after,
                action,
            ),
        },
        (DerivePhase::ProposingAndCommitting { additions }, DeriveEvent::ProposedAndCommitted(outcome)) => match outcome {
            Err(e) => ends(before, Err(e), after, action),
            Ok((first, made)) => takes_commit(before, Some(first), made, additions, after, action),
        },
        (DerivePhase::CommittingProposals { additions }, DeriveEvent::Committed(outcome)) => match outcome {
            Err(e) => ends(before, Err(e), after, action),
            Ok(made) => takes_commit(before, None, made, additions, after, action),
        },
        (DerivePhase::Welcoming { data }, DeriveEvent::WelcomesBuilt(outcome)) => match outcome {
            Err(e) => ends(before, Err(e), after, action),
            Ok(welcomes) => ends(
                before,
                Ok(Some((PublishIntentData { post_commit_action: Some(welcomes), ..data }))),
                after,
                action,
            ),
        },
        _ => after == before && action is Ignore,
    }
}

/// What a pass keeps through all its phases.
struct Settings {
    should_push: bool,
    group_epoch: u64,
}

/// A pass with settings.
spec fn pass_with(settings: Settings, phase: DerivePhase) -> DerivePass {
    DerivePass { phase, should_push: settings.should_push, group_epoch: settings.group_epoch }
}

fn at(settings: &Settings, phase: DerivePhase) -> (r: DerivePass)
    ensures
        r == pass_with(*settings, phase),
{
    DerivePass { phase, should_push: settings.should_push, group_epoch: settings.group_epoch }
}

fn end(settings: &Settings, result: Result<Option<PublishIntentData>, GroupError>) -> (r: (DerivePass, DeriveAction))
    ensures
        ends(pass_with(*settings, DerivePhase::Done), result, r.0, r.1),
{
    (at(settings, DerivePhase::Done), DeriveAction::Finish(result))
}

fn end_with_proposals(settings: &Settings, payloads: Vec<Vec<u8>>) -> (r: (DerivePass, DeriveAction))
    ensures
        ends_with_proposals(pass_with(*settings, DerivePhase::Done), payloads@, r.0, r.1),
{
    let data = publish_data::proposals_publish_data(payloads, settings.should_push, settings.group_epoch);
    (at(settings, DerivePhase::Done), DeriveAction::Finish(Ok(data)))
}

fn go_on_to_removals(settings: &Settings, remove_inbox_ids: Vec<String>, payloads: Vec<Vec<u8>>) -> (r: (
    DerivePass,
    DeriveAction,
))
    ensures
        goes_on_to_removals(
                pass_with(*settings, DerivePhase::Done),
                remove_inbox_ids,
                payloads@,
                r.0,
                r.1,
            ),
{
    if remove_inbox_ids.len() > 0 {
        (at(settings, DerivePhase::ListingMembers { remove_inbox_ids, payloads }), DeriveAction::ListMembers)
    } else {
        end_with_proposals(settings, payloads)
    }
}

fn propose_addition(
    settings: &Settings,
    next: usize,
    total: usize,
    remove_inbox_ids: Vec<String>,
    payloads: Vec<Vec<u8>>,
) -> (r: (DerivePass, DeriveAction))
    ensures
        proposes_addition(
                pass_with(*settings, DerivePhase::Done),
                next,
                total,
                remove_inbox_ids,
                payloads@,
                r.0,
                r.1,
            ),
{
    if next < total {
        (
            at(settings, DerivePhase::ProposingAdditions { next, total, remove_inbox_ids, payloads }),
            DeriveAction::ProposeAddition { index: next },
        )
    } else {
        go_on_to_removals(settings, remove_inbox_ids, payloads)
    }
}

fn propose_removal(settings: &Settings, leaves: Vec<u32>, next: usize, payloads: Vec<Vec<u8>>) -> (r: (
    DerivePass,
    DeriveAction,
))
    ensures
        proposes_removal(
                pass_with(*settings, DerivePhase::Done),
                leaves@,
                next as int,
                payloads@,
                r.0,
                r.1,
            ),
{
    if next < leaves.len() {
        let leaf: u32 = leaves[next];
        (
            at(settings, DerivePhase::ProposingRemovals { leaves, next, payloads }),
            DeriveAction::ProposeRemoval { leaf },
        )
    } else {
        end_with_proposals(settings, payloads)
    }
}

fn plan_commit(
    settings: &Settings,
    current: Extensions,
    proposals: Vec<PendingProposal>,
    changes: PendingChanges,
    new_membership: GroupMembership,
) -> (r: (DerivePass, DeriveAction))
    ensures
        plans_commit(
                pass_with(*settings, DerivePhase::Done),
                current.list@,
                proposals@,
                changes@,
                new_membership.members@,
                bytes::byte_views(new_membership.failed_installations@),
                r.0,
                r.1,
            ),
{
    let membership_changed: bool = changes.inbox_ids_to_add.len() > 0 || changes.inbox_ids_to_remove.len() > 0;
    let additions = publish_data::additions_to_welcome(&proposals, &changes.accepted_additions);
    let plan = publish_data::plan_pending_commit(proposals, &changes, &new_membership, current);
    let new_members = new_membership.members;
    match plan {
        Err(e) => (at(settings, DerivePhase::Done), DeriveAction::Finish(Err(e))),
        Ok(CommitPlan::Commit) => (
            at(settings, DerivePhase::CommittingProposals { additions }),
            DeriveAction::CommitProposals { new_members, membership_changed },
        ),
        Ok(CommitPlan::ProposeExtensionsAndCommit(new_extensions)) => (
            at(settings, DerivePhase::ProposingAndCommitting { additions }),
            DeriveAction::ProposeAndCommit { new_extensions, new_members },
        ),
    }
}

fn take_commit(settings: &Settings, first: Option<Vec<u8>>, made: GeneratedCommit, additions: Vec<usize>) -> (r: (
    DerivePass,
    DeriveAction,
))
    ensures
        takes_commit(pass_with(*settings, DerivePhase::Done), first, made, additions, r.0, r.1),
{
    let has_welcome: bool = made.has_welcome;
    match publish_data::pending_commit_publish_data(
        first,
        made.commit,
        made.staged_commit,
        None,
        settings.should_push,
        made.group_epoch,
    ) {
        Err(e) => (at(settings, DerivePhase::Done), DeriveAction::Finish(Err(e))),
        Ok(data) => {
            if has_welcome {
                (at(settings, DerivePhase::Welcoming { data }), DeriveAction::BuildWelcomes { additions })
            } else {
                (at(settings, DerivePhase::Done), DeriveAction::Finish(Ok(Some(data))))
            }
        },
    }
}

fn begin_members(settings: &Settings, data: ProposeMemberUpdateIntentData, current: Extensions) -> (r: (
    DerivePass,
    DeriveAction,
))
    ensures
        r.0 == pass_with(*settings, r.0.phase),
        is_begun(Ok(PublishRequest::ProposeMembers(data, current)), r.0, r.1),
{
    if data.add_inbox_ids.len() == 0 {
        let none: Vec<Vec<u8>> = Vec::new();
        assert(none@ =~= seq![]);
        return go_on_to_removals(settings, data.remove_inbox_ids, none);
    }
    let (_rest, taken) = current.remove(ExtensionType::GroupMembership);
    match taken {
        Some(Extension::GroupMembership(Decoded::Valid(membership))) => {
            let inbox_ids = bytes::clone_texts(data.add_inbox_ids.as_slice());
            (
                at(settings, DerivePhase::LoadingAdditions { update: data, membership }),
                DeriveAction::LoadSequenceIds { inbox_ids },
            )
        },
        _ => (at(settings, DerivePhase::Done), DeriveAction::Finish(Err(GroupError::InvalidGroupMembership))),
    }
}

fn begin_commit(settings: &Settings, current: Extensions) -> (r: (DerivePass, DeriveAction))
    ensures
        r.0 == pass_with(*settings, r.0.phase),
        is_begun(Ok(PublishRequest::CommitProposals(current)), r.0, r.1),
{
    let membership: Option<GroupMembership> = match publish_data::extract_group_membership(&current) {
        Ok(membership) => Some(membership.duplicate()),
        Err(_) => None,
    };
    match membership {
        Some(membership) => (
            at(settings, DerivePhase::ListingProposals { current, membership }),
            DeriveAction::ListProposals,
        ),
        None => (at(settings, DerivePhase::Done), DeriveAction::Finish(Err(GroupError::InvalidGroupMembership))),
    }
}

impl MlsGroup {
    /// Begins to work out what is published for an intent, given the extensions and the epoch of the
    /// group and whether proposals are pending in it.
    pub fn get_publish_intent_data(
        &self,
        data: IntentData,
        current: Extensions,
        has_pending_proposals: bool,
        should_push: bool,
        group_epoch: u64,
    ) -> (r: (DerivePass, DeriveAction))
        ensures
            begins_deriving(data, current, has_pending_proposals, should_push, group_epoch, r.0, r.1),
    {
        let settings = Settings { should_push, group_epoch };
        let request = publish_data::publish_request(data, current, has_pending_proposals);
        let ghost asked = request;
        assert(publish_data::is_request(data, current, has_pending_proposals, asked));
        match request {
            Err(e) => (at(&settings, DerivePhase::Done), DeriveAction::Finish(Err(e))),
            Ok(PublishRequest::Nothing) => (at(&settings, DerivePhase::Done), DeriveAction::Finish(Ok(None))),
            Ok(PublishRequest::UpdateMembership(update)) => (
                at(&settings, DerivePhase::Applying),
                DeriveAction::UpdateMembership { update },
            ),
            Ok(PublishRequest::ReaddInstallations(readd)) => (
                at(&settings, DerivePhase::Applying),
                DeriveAction::ReaddInstallations { readd },
            ),
            Ok(PublishRequest::CreateMessage(message)) => (
                at(&settings, DerivePhase::Creating),
                DeriveAction::CreateMessage { message },
            ),
            Ok(PublishRequest::ProposeExtensions(proposed)) => (
                at(&settings, DerivePhase::Creating),
                DeriveAction::ProposeExtensions(proposed),
            ),
            Ok(PublishRequest::SelfUpdate) => (at(&settings, DerivePhase::Committing), DeriveAction::SelfUpdate),
            Ok(PublishRequest::UpdateExtensions(new)) => (
                at(&settings, DerivePhase::Committing),
                DeriveAction::UpdateExtensions(new),
            ),
            Ok(PublishRequest::ProposeMembers(data, current)) => begin_members(&settings, data, current),
            Ok(PublishRequest::CommitProposals(current)) => begin_commit(&settings, current),
        }
    }
}

/// Takes the work for an intent one step further. The first failure ends it.
pub fn derive_step(pass: DerivePass, event: DeriveEvent) -> (r: (DerivePass, DeriveAction))
    ensures
        is_derive_step(pass, event, r.0, r.1),
{
    let DerivePass { phase, should_push, group_epoch } = pass;
    let settings = Settings { should_push, group_epoch };
    match (phase, event) {
        (DerivePhase::Creating, DeriveEvent::Created(outcome)) => match outcome {
            Err(e) => end(&settings, Err(e)),
            Ok(payload) => {
                let data = publish_data::single_payload_publish_data(payload, should_push, group_epoch);
                (at(&settings, DerivePhase::Done), DeriveAction::Finish(Ok(Some(data))))
            },
        },
        (DerivePhase::Committing, DeriveEvent::Committed(outcome)) => match outcome {
            Err(e) => end(&settings, Err(e)),
            Ok(made) => {
                let data = publish_data::build_group_context_extensions_publish_data(
                    made.commit,
                    made.staged_commit,
                    should_push,
                    made.group_epoch,
                );
                (at(&settings, DerivePhase::Done), DeriveAction::Finish(Ok(Some(data))))
            },
        },
        (DerivePhase::Applying, DeriveEvent::Applied(outcome)) => end(&settings, outcome),
        (DerivePhase::LoadingAdditions { update, membership }, DeriveEvent::SequenceIds(outcome)) => match outcome {
            Err(e) => end(&settings, Err(e)),
            Ok(latest) => take_additions(&settings, update, membership, latest),
        },
        (DerivePhase::ComparingAdditions { remove_inbox_ids }, DeriveEvent::Compared(outcome)) => match outcome {
            Err(e) => end(&settings, Err(e)),
            Ok(change) => {
                match publish_data::check_proposed_additions(
                    change.failed_installations.len(),
                    change.new_installations,
                ) {
                    Err(e) => end(&settings, Err(e)),
                    Ok(_) => {
                        let none: Vec<Vec<u8>> = Vec::new();
                        assert(none@ =~= seq![]);
                        propose_addition(&settings, 0, change.new_installations, remove_inbox_ids, none)
                    },
                }
            },
        },
        (
            DerivePhase::ProposingAdditions { next, total, remove_inbox_ids, payloads },
            DeriveEvent::Created(outcome),
        ) => match outcome {
            Err(e) => end(&settings, Err(e)),
            Ok(payload) => {
                if next < total {
                    let mut payloads = payloads;
                    payloads.push(payload);
                    propose_addition(&settings, next + 1, total, remove_inbox_ids, payloads)
                } else {
                    (
                        at(&settings, DerivePhase::ProposingAdditions { next, total, remove_inbox_ids, payloads }),
                        DeriveAction::Ignore,
                    )
                }
            },
        },
        (DerivePhase::ListingMembers { remove_inbox_ids, payloads }, DeriveEvent::Members(members)) => {
            match publish_data::members_to_remove(&members, remove_inbox_ids.as_slice()) {
                Err(e) => {
                    proof {
                        let n = choose|n: int| publish_data::is_first_error(members@, n, e);
                        assert(members@[n].inbox_id is Err);
                    }
                    end(&settings, Err(e))
                },
                Ok(leaves) => propose_removal(&settings, leaves, 0, payloads),
            }
        },
        (DerivePhase::ProposingRemovals { leaves, next, payloads }, DeriveEvent::Created(outcome)) => match outcome {
            Err(e) => end(&settings, Err(e)),
            Ok(payload) => {
                if next < leaves.len() {
                    let mut payloads = payloads;
                    payloads.push(payload);
                    propose_removal(&settings, leaves, next + 1, payloads)
                } else {
                    (
                        at(&settings, DerivePhase::ProposingRemovals { leaves, next, payloads }),
                        DeriveAction::Ignore,
                    )
                }
            },
        },
        (
            DerivePhase::ListingProposals { current, membership },
            DeriveEvent::Proposals { proposals, members },
        ) => take_proposals(&settings, current, membership, proposals, &members),
        (
            DerivePhase::LoadingJoiners { current, membership, proposals, changes },
            DeriveEvent::SequenceIds(outcome),
        ) => match outcome {
            Err(e) => end(&settings, Err(e)),
            Ok(latest) => {
                match publish_data::membership_after_changes(&membership, &changes, &latest) {
                    Err(e) => end(&settings, Err(e)),
                    Ok(new) => {
                        let new_membership = new.duplicate();
                        (
                            at(
                                &settings,
                                DerivePhase::ComparingJoiners { current, membership: new, proposals, changes },
                            ),
                            DeriveAction::CompareMemberships { new_membership },
                        )
                    },
                }
            },
        },
        (
            DerivePhase::ComparingJoiners { current, membership, proposals, changes },
            DeriveEvent::Compared(outcome),
        ) => match outcome {
            Err(e) => end(&settings, Err(e)),
            Ok(change) => {
                let new_membership = GroupMembership {
                    members: membership.members,
                    failed_installations: change.failed_installations,
                };
                plan_commit(&settings, current, proposals, changes, new_membership)
            },
        },
        (DerivePhase::ProposingAndCommitting { additions }, DeriveEvent::ProposedAndCommitted(outcome)) => match outcome {
            Err(e) => end(&settings, Err(e)),
            Ok((first, made)) => take_commit(&settings, Some(first), made, additions),
        },
        (DerivePhase::CommittingProposals { additions }, DeriveEvent::Committed(outcome)) => match outcome {
            Err(e) => end(&settings, Err(e)),
            Ok(made) => take_commit(&settings, None, made, additions),
        },
        (DerivePhase::Welcoming { data }, DeriveEvent::WelcomesBuilt(outcome)) => match outcome {
            Err(e) => end(&settings, Err(e)),
            Ok(welcomes) => end(
                &settings,
                Ok(Some(PublishIntentData { post_commit_action: Some(welcomes), ..data })),
            ),
        },
        (phase, _) => (at(&settings, phase), DeriveAction::Ignore),
    }
}

fn take_additions(
    settings: &Settings,
    update: ProposeMemberUpdateIntentData,
    membership: GroupMembership,
    latest: TextMap<i64>,
) -> (r: (DerivePass, DeriveAction))
    ensures
        is_derive_step(
            pass_with(*settings, DerivePhase::LoadingAdditions { update, membership }),
            DeriveEvent::SequenceIds(Ok(latest)),
            r.0,
            r.1,
        ),
{
    let mut new_membership = membership;
    match publish_data::refresh_membership_sequence_ids(
        &mut new_membership,
        update.add_inbox_ids.as_slice(),
        &latest,
    ) {
        Err(e) => {
            proof {
                let n = choose|n: int|
                    publish_data::refresh_stopped(
                        membership.members@,
                        new_membership.members@,
                        update.add_inbox_ids@,
                        latest@,
                        n,
                    );
                assert(!latest@.dom().contains(update.add_inbox_ids@[n]@));
            }
            (at(settings, DerivePhase::Done), DeriveAction::Finish(Err(e)))
        },
        Ok(_) => (
            at(settings, DerivePhase::ComparingAdditions { remove_inbox_ids: update.remove_inbox_ids }),
            DeriveAction::CompareMemberships { new_membership },
        ),
    }
}

fn take_proposals(
    settings: &Settings,
    current: Extensions,
    membership: GroupMembership,
    proposals: Vec<PendingProposal>,
    members: &Vec<GroupMember>,
) -> (r: (DerivePass, DeriveAction))
    ensures
        is_derive_step(
            pass_with(*settings, DerivePhase::ListingProposals { current, membership }),
            DeriveEvent::Proposals { proposals, members: *members },
            r.0,
            r.1,
        ),
{
    let changes = match publish_data::collect_pending_changes(&proposals, members, &membership) {
        Err(e) => return (at(settings, DerivePhase::Done), DeriveAction::Finish(Err(e))),
        Ok(changes) => changes,
    };
    if changes.inbox_ids_to_add.len() > 0 {
        let inbox_ids = bytes::clone_texts(changes.inbox_ids_to_add.as_slice());
        return (
            at(settings, DerivePhase::LoadingJoiners { current, membership, proposals, changes }),
            DeriveAction::LoadSequenceIds { inbox_ids },
        );
    }
    let nothing: TextMap<i64> = TextMap::new();
    match publish_data::membership_after_changes(&membership, &changes, &nothing) {
        Err(e) => (at(settings, DerivePhase::Done), DeriveAction::Finish(Err(e))),
        Ok(new) => {
            plan_commit(settings, current, proposals, changes, new)
        },
    }
}

/// Whether the work can only end with something to publish: what is kept for later has its payloads and
/// its staged commit.
pub open spec fn keeps_its_payloads(pass: DerivePass) -> bool {
    match pass.phase {
        DerivePhase::Welcoming { data } => data.payloads_to_publish@.len() > 0 && data.staged_commit is Some,
        DerivePhase::ProposingAdditions { next, total, remove_inbox_ids: _, payloads } => payloads@.len() == next && next
            < total,
        DerivePhase::ProposingRemovals { leaves, next, payloads: _ } => next < leaves@.len(),
        _ => true,
    }
}

/// What the work leads to is never empty: data without a payload does not come out of it, whatever
/// happens on the way.
pub proof fn published_data_has_payloads(
    before: DerivePass,
    event: DeriveEvent,
    after: DerivePass,
    action: DeriveAction,
)
    requires
        is_derive_step(before, event, after, action),
        keeps_its_payloads(before),
        event matches DeriveEvent::Applied(Ok(Some(data))) ==> data.payloads_to_publish@.len() > 0,
    ensures
        keeps_its_payloads(after),
        action matches DeriveAction::Finish(Ok(Some(data))) ==> data.payloads_to_publish@.len() > 0,
{
}

/// A commit of pending proposals is published only with the commit that was staged for it, and
/// proposals are published without one.
pub proof fn pending_proposals_are_committed_with_their_stage(
    before: DerivePass,
    event: DeriveEvent,
    after: DerivePass,
    action: DeriveAction,
    data: PublishIntentData,
)
    requires
        is_derive_step(before, event, after, action),
        keeps_its_payloads(before),
        action == DeriveAction::Finish(Ok(Some(data))),
    ensures
        before.phase is ProposingAndCommitting || before.phase is CommittingProposals || before.phase is Welcoming
            ==> data.staged_commit is Some,
        before.phase is ProposingAdditions || before.phase is ListingMembers || before.phase is ProposingRemovals
            || before.phase is ComparingAdditions ==> data.staged_commit is None && data.post_commit_action is None,
{
}

/// Where the proposal flow is on, a commit of pending proposals never turns it off of its own accord:
/// what is proposed along with it has the flow on wherever it was on in the extensions that it starts
/// from. And nobody is added who cannot take proposals.
pub proof fn commits_keep_the_proposal_flow(
    before: DerivePass,
    current: Seq<Extension>,
    proposals: Seq<PendingProposal>,
    changes: ChangesView,
    new_members: Map<Seq<char>, u64>,
    new_failed: Seq<Seq<u8>>,
    after: DerivePass,
    action: DeriveAction,
)
    requires
        plans_commit(before, current, proposals, changes, new_members, new_failed, after, action),
        group_config::proposals_on(current),
    ensures
        action matches DeriveAction::ProposeAndCommit { new_extensions, new_members: _ }
            ==> group_config::proposals_on(new_extensions.list@) == group_config::proposals_on(
            publish_data::base_extensions(proposals, current),
        ),
        action is ProposeAndCommit || action is CommitProposals <==> publish_data::additions_support_proposals(
            proposals,
            changes.accepted,
        ),
{
    if let DeriveAction::ProposeAndCommit { new_extensions, new_members: _ } = action {
        publish_data::planned_extensions_give_the_members(
            new_extensions.list@,
            publish_data::base_extensions(proposals, current),
            new_members,
            new_failed,
        );
    }
}

/// A message, or a proposal of extensions, goes to the engine as it is. What the engine makes of it is published alone,
/// with no commit and nothing to do afterwards, in the epoch in which the work began.
pub proof fn messages_are_published_alone(
    data: IntentData,
    current: Extensions,
    has_pending_proposals: bool,
    should_push: bool,
    group_epoch: u64,
    first: DerivePass,
    asked: DeriveAction,
    payload: Vec<u8>,
    after: DerivePass,
    action: DeriveAction,
)
    requires
        data is SendMessage || data is ProposeGroupContextExtensions,
        begins_deriving(data, current, has_pending_proposals, should_push, group_epoch, first, asked),
        is_derive_step(first, DeriveEvent::Created(Ok(payload)), after, action),
    ensures
        data matches IntentData::SendMessage(message) ==> asked == (DeriveAction::CreateMessage { message }),
        data matches IntentData::ProposeGroupContextExtensions(proposed) ==> asked == DeriveAction::ProposeExtensions(
            proposed,
        ),
        action matches DeriveAction::Finish(Ok(Some(published))) && {
            &&& published.payloads_to_publish@ == seq![payload]
            &&& published.staged_commit is None
            &&& published.post_commit_action is None
            &&& published.should_send_push_notification == should_push
            &&& published.group_epoch == group_epoch
        },
{
}

/// A renewed leaf, and new extensions, are published as the commit that the engine makes, together with what was staged
/// for it and in the epoch in which it was made.
pub proof fn updates_are_published_as_commits(
    data: IntentData,
    current: Extensions,
    has_pending_proposals: bool,
    should_push: bool,
    group_epoch: u64,
    first: DerivePass,
    asked: DeriveAction,
    made: GeneratedCommit,
    after: DerivePass,
    action: DeriveAction,
)
    requires
        data is KeyUpdate || data is MetadataUpdate || data is UpdateAdminList || data is UpdatePermission,
        begins_deriving(data, current, has_pending_proposals, should_push, group_epoch, first, asked),
        asked !is Finish,
        is_derive_step(first, DeriveEvent::Committed(Ok(made)), after, action),
    ensures
        data is KeyUpdate <==> asked is SelfUpdate,
        data !is KeyUpdate ==> (asked matches DeriveAction::UpdateExtensions(new) && publish_data::is_request(
            data,
            current,
            has_pending_proposals,
            Ok(PublishRequest::UpdateExtensions(new)),
        )),
        action matches DeriveAction::Finish(Ok(Some(published))) && {
            &&& published.payloads_to_publish@ == seq![made.commit]
            &&& published.staged_commit == made.staged_commit
            &&& published.post_commit_action is None
            &&& published.should_send_push_notification == should_push
            &&& published.group_epoch == made.group_epoch
        },
{
}

/// A change of the members, and installations that are to be added again, are applied at once, as they were asked for;
/// what comes of it is the result.
pub proof fn member_changes_are_applied_as_asked(
    data: IntentData,
    current: Extensions,
    has_pending_proposals: bool,
    should_push: bool,
    group_epoch: u64,
    first: DerivePass,
    asked: DeriveAction,
    outcome: Result<Option<PublishIntentData>, GroupError>,
    after: DerivePass,
    action: DeriveAction,
)
    requires
        data is UpdateGroupMembership || data is ReaddInstallations,
        begins_deriving(data, current, has_pending_proposals, should_push, group_epoch, first, asked),
        is_derive_step(first, DeriveEvent::Applied(outcome), after, action),
    ensures
        data matches IntentData::UpdateGroupMembership(update) ==> asked == (DeriveAction::UpdateMembership { update }),
        data matches IntentData::ReaddInstallations(readd) ==> asked == (DeriveAction::ReaddInstallations { readd }),
        action == DeriveAction::Finish(outcome),
{
}

/// Members are proposed only where the proposal flow is on. Who is to be added is looked up first, and then compared
/// with the group: the membership compared has everybody who is to be added at their latest sequence id, and everybody
/// else as they are.
pub proof fn proposed_members_are_looked_up(
    update: ProposeMemberUpdateIntentData,
    current: Extensions,
    has_pending_proposals: bool,
    should_push: bool,
    group_epoch: u64,
    first: DerivePass,
    asked: DeriveAction,
    latest: TextMap<i64>,
    after: DerivePass,
    action: DeriveAction,
    who: Seq<char>,
)
    requires
        begins_deriving(
            IntentData::ProposeMemberUpdate(Ok(update)),
            current,
            has_pending_proposals,
            should_push,
            group_epoch,
            first,
            asked,
        ),
        update.add_inbox_ids@.len() > 0,
        publish_data::membership_of(current.list@) is Ok,
        is_derive_step(first, DeriveEvent::SequenceIds(Ok(latest)), after, action),
    ensures
        !group_config::proposals_on(current.list@) ==> asked == DeriveAction::Finish(
            Err(GroupError::CommitValidation(crate::error::CommitValidationError::ProposalsNotEnabled)),
        ),
        group_config::proposals_on(current.list@) ==> {
            let members = publish_data::membership_of(current.list@)->Ok_0.members@;
            &&& asked matches DeriveAction::LoadSequenceIds { inbox_ids } && inbox_ids@ == update.add_inbox_ids@
            &&& action is CompareMemberships <==> forall|k: int|
                0 <= k < update.add_inbox_ids@.len() ==> latest@.dom().contains((#[trigger] update.add_inbox_ids@[k])@)
            &&& action !is CompareMemberships ==> action == DeriveAction::Finish(Err(GroupError::MissingSequenceId))
            &&& action matches DeriveAction::CompareMemberships { new_membership } ==> {
                let joins = exists|k: int|
                    0 <= k < update.add_inbox_ids@.len() && (#[trigger] update.add_inbox_ids@[k])@ == who;
                &&& joins ==> new_membership.members@.dom().contains(who) && new_membership.members@[who]
                    == latest@[who] as u64
                &&& !joins ==> new_membership.members@.dom().contains(who) == members.dom().contains(who)
                &&& !joins && members.dom().contains(who) ==> new_membership.members@[who] == members[who]
            }
        },
{
    if group_config::proposals_on(current.list@) {
        publish_data::refreshed_members_are_at_their_latest(
            publish_data::membership_of(current.list@)->Ok_0.members@,
            update.add_inbox_ids@,
            latest@,
            update.add_inbox_ids@.len() as int,
            who,
        );
    }
}

/// Whether a run works out proposals of members: it begins with a comparison of memberships, and at every step what the
/// last one asked for was made.
pub open spec fn is_proposing_run(passes: Seq<DerivePass>, events: Seq<DeriveEvent>, actions: Seq<DeriveAction>) -> bool {
    &&& passes.len() == events.len() + 1
    &&& actions.len() == events.len()
    &&& events.len() > 0
    &&& passes[0].phase is ComparingAdditions
    &&& events[0] matches DeriveEvent::Compared(Ok(_))
    &&& forall|i: int|
        0 <= i < events.len() ==> #[trigger] is_derive_step(passes[i], events[i], passes[i + 1], actions[i])
    &&& forall|i: int| 1 <= i < events.len() ==> ((#[trigger] events[i]) matches DeriveEvent::Created(Ok(_))) || (
    events[i] is Members && passes[i].phase is ListingMembers)
    &&& forall|i: int| 0 <= i < events.len() ==> (#[trigger] actions[i]) !is Ignore
    &&& forall|i: int| 0 <= i < events.len() - 1 ==> (#[trigger] actions[i]) !is Finish
}

/// The proposals that were made in the first `n` events, in their order.
pub open spec fn payloads_made(events: Seq<DeriveEvent>, n: int) -> Seq<Vec<u8>>
    decreases n,
{
    if n <= 0 {
        seq![]
    } else if let DeriveEvent::Created(Ok(payload)) = events[n - 1] {
        payloads_made(events, n - 1).push(payload)
    } else {
        payloads_made(events, n - 1)
    }
}

/// The proposals that a pass holds.
pub open spec fn payloads_held(pass: DerivePass) -> Seq<Vec<u8>> {
    match pass.phase {
        DerivePhase::ProposingAdditions { next: _, total: _, remove_inbox_ids: _, payloads } => payloads@,
        DerivePhase::ListingMembers { remove_inbox_ids: _, payloads } => payloads@,
        DerivePhase::ProposingRemovals { leaves: _, next: _, payloads } => payloads@,
        _ => seq![],
    }
}

proof fn lemma_proposing_run(passes: Seq<DerivePass>, events: Seq<DeriveEvent>, actions: Seq<DeriveAction>, n: int)
    requires
        is_proposing_run(passes, events, actions),
        1 <= n <= events.len(),
    ensures
        keeps_its_payloads(passes[n]),
        passes[n].should_push == passes[0].should_push,
        passes[n].group_epoch == passes[0].group_epoch,
        passes[n].phase is Done <==> actions[n - 1] is Finish,
        actions[n - 1] !is Finish ==> payloads_held(passes[n]) == payloads_made(events, n),
        actions[n - 1] !is Finish ==> passes[n].phase is ProposingAdditions || passes[n].phase is ListingMembers
            || passes[n].phase is ProposingRemovals,
        actions[n - 1] matches DeriveAction::Finish(Ok(published)) ==> {
            &&& published is None <==> payloads_made(events, n).len() == 0
            &&& published matches Some(data) ==> is_commit_data(
                data,
                payloads_made(events, n),
                None,
                None,
                passes[0].should_push,
                passes[0].group_epoch,
            )
        },
    decreases n,
{
    assert(is_derive_step(passes[n - 1], events[n - 1], passes[n - 1 + 1], actions[n - 1]));
    if n == 1 {
        assert(payloads_made(events, 0) == Seq::<Vec<u8>>::empty());
        assert(payloads_made(events, 1) == Seq::<Vec<u8>>::empty());
    } else {
        lemma_proposing_run(passes, events, actions, n - 1);
        assert(actions[n - 2] !is Finish);
        assert(events[n - 1] matches DeriveEvent::Created(Ok(_)) || events[n - 1] is Members);
        assert(actions[n - 1] !is Ignore);
    }
}

/// All proposals that are made for a change of the members are published, each once and in the order in which they were
/// made, and nothing else. Where none was needed there is nothing to publish.
pub proof fn all_proposals_are_published(
    passes: Seq<DerivePass>,
    events: Seq<DeriveEvent>,
    actions: Seq<DeriveAction>,
    published: Option<PublishIntentData>,
)
    requires
        is_proposing_run(passes, events, actions),
        actions.last() == DeriveAction::Finish(Ok::<_, GroupError>(published)),
    ensures
        published is None <==> payloads_made(events, events.len() as int).len() == 0,
        published matches Some(data) ==> {
            &&& data.payloads_to_publish@ == payloads_made(events, events.len() as int)
            &&& data.staged_commit is None
            &&& data.post_commit_action is None
            &&& data.should_send_push_notification == passes[0].should_push
            &&& data.group_epoch == passes[0].group_epoch
        },
{
    lemma_proposing_run(passes, events, actions, events.len() as int);
}

/// Every installation that is to be added is proposed, one after the other; then the members are listed if anybody is to
/// be removed, and every leaf of theirs is proposed for removal, one after the other.
pub proof fn proposals_are_made_one_by_one(
    before: DerivePass,
    event: DeriveEvent,
    after: DerivePass,
    action: DeriveAction,
)
    requires
        is_derive_step(before, event, after, action),
        keeps_its_payloads(before),
    ensures
        before.phase matches DerivePhase::ComparingAdditions { remove_inbox_ids: to_remove } ==> (event matches
            DeriveEvent::Compared(Ok(change)) ==> {
            &&& change.new_installations > 0 ==> action == (DeriveAction::ProposeAddition { index: 0 }) && (
            after.phase matches DerivePhase::ProposingAdditions { next, total, remove_inbox_ids, payloads: _ } && next
                == 0 && total == change.new_installations && remove_inbox_ids == to_remove)
            &&& change.new_installations == 0 && change.failed_installations@.len() > 0 ==> action
                == DeriveAction::Finish(Err(GroupError::FailedToVerifyInstallations))
        }),
        before.phase matches DerivePhase::ProposingAdditions { next, total, remove_inbox_ids, payloads: _ } ==> (
        event matches DeriveEvent::Created(Ok(_)) ==> {
            &&& next + 1 < total ==> action == (DeriveAction::ProposeAddition { index: (next + 1) as usize }) && (
            after.phase matches DerivePhase::ProposingAdditions {
                next: n,
                total: t,
                remove_inbox_ids: r,
                payloads: _,
            } && n == next + 1 && t == total && r == remove_inbox_ids)
            &&& next + 1 == total && remove_inbox_ids@.len() > 0 ==> action is ListMembers && (after.phase matches
                DerivePhase::ListingMembers { remove_inbox_ids: r, payloads: _ } && r == remove_inbox_ids)
            &&& next + 1 == total && remove_inbox_ids@.len() == 0 ==> (action matches DeriveAction::Finish(
                Ok(Some(_)),
            ))
        }),
        before.phase matches DerivePhase::ProposingRemovals { leaves, next, payloads: _ } ==> (event matches
            DeriveEvent::Created(Ok(_)) ==> {
            &&& next + 1 < leaves@.len() ==> action == (DeriveAction::ProposeRemoval { leaf: leaves@[next + 1] }) && (
            after.phase matches DerivePhase::ProposingRemovals { leaves: l, next: n, payloads: _ } && l@ == leaves@ && n
                == next + 1)
            &&& next + 1 == leaves@.len() ==> (action matches DeriveAction::Finish(Ok(Some(_))))
        }),
{
}

/// Once the members are listed, the leaves that are proposed for removal are all those of the inboxes to be removed, the
/// first of them first; a credential that stands for no inbox ends the work.
pub proof fn all_leaves_of_an_inbox_are_proposed(
    before: DerivePass,
    remove_inbox_ids: Vec<String>,
    payloads: Vec<Vec<u8>>,
    members: Vec<GroupMember>,
    after: DerivePass,
    action: DeriveAction,
    i: int,
)
    requires
        before.phase == (DerivePhase::ListingMembers { remove_inbox_ids, payloads }),
        is_derive_step(before, DeriveEvent::Members(members), after, action),
        0 <= i < members@.len(),
    ensures
        members@[i].inbox_id is Err ==> action matches DeriveAction::Finish(Err(_)),
        members@[i].inbox_id is Err && (forall|m: int| 0 <= m < i ==> (#[trigger] members@[m]).inbox_id is Ok) ==> action
            == DeriveAction::Finish(Err(members@[i].inbox_id->Err_0.as_group_error())),
        (forall|m: int| 0 <= m < members@.len() ==> (#[trigger] members@[m]).inbox_id is Ok) && bytes::text_views(
            remove_inbox_ids@,
        ).contains(members@[i].inbox_id->Ok_0@) ==> (after.phase matches DerivePhase::ProposingRemovals {
            leaves,
            next,
            payloads: kept,
        } && next == 0 && kept@ == payloads@ && leaves@.contains(members@[i].index) && action == (
        DeriveAction::ProposeRemoval { leaf: leaves@[0] })),
{
    if members@[i].inbox_id is Err {
        if let DeriveAction::Finish(Err(e)) = action {
            let n = choose|n: int| publish_data::is_first_error(members@, n, e);
            assert(publish_data::is_first_error(members@, n, e));
            if n < i {
                assert(members@[n].inbox_id is Err);
            } else if i < n {
                assert(members@[i].inbox_id is Ok);
            }
        }
    }
    if (forall|m: int| 0 <= m < members@.len() ==> (#[trigger] members@[m]).inbox_id is Ok) && bytes::text_views(
        remove_inbox_ids@,
    ).contains(members@[i].inbox_id->Ok_0@) {
        let views = bytes::text_views(remove_inbox_ids@);
        let k = choose|k: int| 0 <= k < views.len() && views[k] == members@[i].inbox_id->Ok_0@;
        publish_data::only_leaves_of_removed_inboxes_are_removed(members@, remove_inbox_ids@, i, k);
    }
}

/// Pending proposals are listed before they are committed; without any there is nothing to publish, and without a
/// membership nothing can be.
pub proof fn commits_begin_with_the_proposals(
    current: Extensions,
    has_pending_proposals: bool,
    should_push: bool,
    group_epoch: u64,
    first: DerivePass,
    asked: DeriveAction,
)
    requires
        begins_deriving(
            IntentData::CommitPendingProposals,
            current,
            has_pending_proposals,
            should_push,
            group_epoch,
            first,
            asked,
        ),
    ensures
        !has_pending_proposals ==> asked == DeriveAction::Finish(Ok::<_, GroupError>(None)),
        has_pending_proposals && publish_data::members_in(current.list@) is None ==> asked == DeriveAction::Finish(
            Err(GroupError::InvalidGroupMembership),
        ),
        has_pending_proposals && publish_data::members_in(current.list@) is Some ==> asked is ListProposals && (
        first.phase matches DerivePhase::ListingProposals { current: c, membership } && c == current && Some(
            membership.members@,
        ) == publish_data::members_in(current.list@)),
{
}

/// Those who join are looked up and compared before anything is committed; with nobody to join, the commit is made at
/// once. Either way it leads to the members that the proposals say.
pub proof fn joiners_are_looked_up_before_a_commit(
    listing: DerivePass,
    current: Extensions,
    membership: GroupMembership,
    proposals: Vec<PendingProposal>,
    members: Vec<GroupMember>,
    loading: DerivePass,
    asked: DeriveAction,
    latest: TextMap<i64>,
    comparing: DerivePass,
    compared: DeriveAction,
)
    requires
        listing.phase == (DerivePhase::ListingProposals { current, membership }),
        is_derive_step(listing, DeriveEvent::Proposals { proposals, members }, loading, asked),
        publish_data::changes_of(proposals@, members@, membership.members@, proposals@.len()) is Ok,
        is_derive_step(loading, DeriveEvent::SequenceIds(Ok(latest)), comparing, compared),
    ensures
        ({
            let changes = publish_data::changes_of(proposals@, members@, membership.members@, proposals@.len())->Ok_0;
            &&& changes.add.len() > 0 ==> {
                &&& asked matches DeriveAction::LoadSequenceIds { inbox_ids } && inbox_ids@ == changes.add
                &&& (forall|k: int| 0 <= k < changes.add.len() ==> latest@.dom().contains((#[trigger] changes.add[k])@))
                    ==> (compared matches DeriveAction::CompareMemberships { new_membership }
                    && new_membership.members@ == publish_data::members_after(membership.members@, changes, latest@))
                &&& !(forall|k: int| 0 <= k < changes.add.len() ==> latest@.dom().contains((#[trigger] changes.add[k])@))
                    ==> compared == DeriveAction::Finish(Err(GroupError::MissingSequenceId))
            }
            &&& changes.add.len() == 0 ==> {
                &&& asked matches DeriveAction::CommitProposals { new_members, membership_changed } ==> new_members@
                    == publish_data::members_after(membership.members@, changes, latest@) && membership_changed == (
                changes.remove.len() > 0)
                &&& asked matches DeriveAction::ProposeAndCommit { new_extensions, new_members } ==> new_members@
                    == publish_data::members_after(membership.members@, changes, latest@) && publish_data::members_in(
                    new_extensions.list@,
                ) == Some(new_members@)
                &&& asked is CommitProposals || asked is ProposeAndCommit || (asked is Finish
                    && publish_data::refuses_additions(proposals@, changes, current.list@))
            }
        }),
{
    let changes = publish_data::changes_of(proposals@, members@, membership.members@, proposals@.len())->Ok_0;
    if changes.add.len() == 0 {
        if let DeriveAction::ProposeAndCommit { new_extensions, new_members } = asked {
            publish_data::planned_extensions_give_the_members(
                new_extensions.list@,
                publish_data::base_extensions(proposals@, current.list@),
                new_members@,
                bytes::byte_views(membership.failed_installations@),
            );
        }
    }
}

/// After the comparison the pending proposals are committed, unless somebody is added who may not be. The members go
/// into the extensions with them wherever the members change and no proposal says so.
pub proof fn compared_proposals_are_committed(
    comparing: DerivePass,
    current: Extensions,
    membership: GroupMembership,
    proposals: Vec<PendingProposal>,
    changes: PendingChanges,
    change: MembershipChange,
    after: DerivePass,
    action: DeriveAction,
)
    requires
        comparing.phase == (DerivePhase::ComparingJoiners { current, membership, proposals, changes }),
        is_derive_step(comparing, DeriveEvent::Compared(Ok(change)), after, action),
    ensures
        publish_data::refuses_additions(proposals@, changes@, current.list@) <==> action is Finish,
        action is Finish ==> action matches DeriveAction::Finish(Err(GroupError::ProposalsNotSupported(_))),
        action matches DeriveAction::CommitProposals { new_members, membership_changed } ==> new_members@
            == membership.members@ && membership_changed == (changes@.add.len() > 0 || changes@.remove.len() > 0) && (
        membership_changed ==> publish_data::some_gives_members(proposals@, membership.members@)),
        action matches DeriveAction::ProposeAndCommit { new_extensions, new_members } ==> new_members@
            == membership.members@ && publish_data::members_in(new_extensions.list@) == Some(membership.members@),
        action is Finish || action is CommitProposals || action is ProposeAndCommit,
        after.phase matches DerivePhase::CommittingProposals { additions } ==> forall|i: int|
            0 <= i < additions@.len() ==> publish_data::welcomes(proposals@, #[trigger] additions@[i]),
        after.phase matches DerivePhase::ProposingAndCommitting { additions } ==> forall|i: int|
            0 <= i < additions@.len() ==> publish_data::welcomes(proposals@, #[trigger] additions@[i]),
        forall|k: int|
            0 <= k < changes@.accepted.len() && publish_data::welcomes(proposals@, #[trigger] changes@.accepted[k]) ==> (
            after.phase matches DerivePhase::CommittingProposals { additions } ==> additions@.contains(
                changes@.accepted[k],
            )) && (after.phase matches DerivePhase::ProposingAndCommitting { additions } ==> additions@.contains(
                changes@.accepted[k],
            )),
{
    let p = |at: usize| publish_data::welcomes(proposals@, at);
    let welcomed = changes@.accepted.filter(p);
    if let DeriveAction::ProposeAndCommit { new_extensions, new_members } = action {
        publish_data::planned_extensions_give_the_members(
            new_extensions.list@,
            publish_data::base_extensions(proposals@, current.list@),
            new_members@,
            bytes::byte_views(change.failed_installations@),
        );
    }
    assert forall|i: int| 0 <= i < welcomed.len() implies publish_data::welcomes(proposals@, #[trigger] welcomed[i]) by {
        changes@.accepted.lemma_filter_pred(p, i);
    }
    assert forall|k: int|
        0 <= k < changes@.accepted.len() && publish_data::welcomes(
            proposals@,
            #[trigger] changes@.accepted[k],
        ) implies welcomed.contains(changes@.accepted[k]) by {
        changes@.accepted.lemma_filter_contains(p, k);
    }
}

/// A commit of pending proposals is published with what was staged for it, behind the extensions that were proposed for
/// it if there are any. Where it brings in new members their welcomes are built, and go out after it.
pub proof fn commits_go_out_with_their_welcomes(
    before: DerivePass,
    additions: Vec<usize>,
    first: Option<Vec<u8>>,
    made: GeneratedCommit,
    after: DerivePass,
    action: DeriveAction,
    welcomes: Vec<u8>,
    last: DerivePass,
    result: DeriveAction,
)
    requires
        match first {
            None => before.phase == (DerivePhase::CommittingProposals { additions }) && is_derive_step(
                before,
                DeriveEvent::Committed(Ok(made)),
                after,
                action,
            ),
            Some(payload) => before.phase == (DerivePhase::ProposingAndCommitting { additions }) && is_derive_step(
                before,
                DeriveEvent::ProposedAndCommitted(Ok((payload, made))),
                after,
                action,
            ),
        },
        is_derive_step(after, DeriveEvent::WelcomesBuilt(Ok(welcomes)), last, result),
    ensures
        made.staged_commit is None ==> action == DeriveAction::Finish(Err(GroupError::MissingPendingCommit)),
        made.staged_commit is Some && made.has_welcome ==> action == (DeriveAction::BuildWelcomes { additions }),
        made.staged_commit is Some ==> {
            let end = if made.has_welcome {
                result
            } else {
                action
            };
            &&& end matches DeriveAction::Finish(Ok(Some(data))) && {
                &&& first is None ==> data.payloads_to_publish@ == seq![made.commit]
                &&& first matches Some(payload) ==> data.payloads_to_publish@ == seq![payload, made.commit]
                &&& data.staged_commit == made.staged_commit
                &&& made.has_welcome ==> data.post_commit_action == Some(welcomes)
                &&& !made.has_welcome ==> data.post_commit_action is None
                &&& data.should_send_push_notification == before.should_push
                &&& data.group_epoch == made.group_epoch
            }
        },
{
}

/// What an event reports as having gone wrong.
pub open spec fn derive_failure(event: DeriveEvent) -> Option<GroupError> {
    match event {
        DeriveEvent::Created(Err(e)) => Some(e),
        DeriveEvent::Committed(Err(e)) => Some(e),
        DeriveEvent::Applied(Err(e)) => Some(e),
        DeriveEvent::SequenceIds(Err(e)) => Some(e),
        DeriveEvent::Compared(Err(e)) => Some(e),
        DeriveEvent::ProposedAndCommitted(Err(e)) => Some(e),
        DeriveEvent::WelcomesBuilt(Err(e)) => Some(e),
        _ => None,
    }
}

/// The first failure ends the work and is its result, whatever had been made before. Without a failure the work ends in
/// an error only over a sequence id, an installation, a credential, a missing staged commit, or an addition that is
/// refused.
pub proof fn deriving_fails_as_its_steps_do(
    before: DerivePass,
    event: DeriveEvent,
    after: DerivePass,
    action: DeriveAction,
)
    requires
        is_derive_step(before, event, after, action),
        action !is Ignore,
    ensures
        derive_failure(event) matches Some(e) ==> action == DeriveAction::Finish(Err(e)),
        derive_failure(event) is None ==> (action matches DeriveAction::Finish(Err(e)) ==> {
            ||| e == GroupError::MissingSequenceId && event is SequenceIds
            ||| e == GroupError::FailedToVerifyInstallations && before.phase is ComparingAdditions
            ||| e == GroupError::MissingPendingCommit && (event is Committed || event is ProposedAndCommitted)
            ||| publish_data::is_unsupported(e)
            ||| event is Members
            ||| event is Proposals
        }),
        action is Finish <==> after.phase is Done,
{
}

/// Work that has come to its end does nothing more, and what does not fit the step that it waits for changes nothing.
pub proof fn finished_work_stays_finished(
    before: DerivePass,
    event: DeriveEvent,
    after: DerivePass,
    action: DeriveAction,
)
    requires
        is_derive_step(before, event, after, action),
    ensures
        before.phase is Done ==> action is Ignore,
        action is Ignore ==> after == before,
{
}

} // verus!
