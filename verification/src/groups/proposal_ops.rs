//! Turning on the flow in which changes are proposed before they are committed.

use vstd::prelude::*;
use vstd::string::*;
use crate::bytes;
use crate::groups::error::GroupError;
use crate::groups::extensions;
use crate::groups::extensions::{Decoded, Extension, ExtensionType, Extensions};
use crate::groups::group::MlsGroup;
use crate::groups::group_config;

verus! {

/// What is known of the key package of an installation: the extensions that it supports, or nothing,
/// where it could not be verified.
#[derive(Debug)]
pub struct KeyPackageSupport {
    pub extensions: Option<Vec<ExtensionType>>,
}

/// Whether a key package can take proposals.
pub open spec fn takes_proposals(k: KeyPackageSupport) -> bool {
    k.extensions is Some && k.extensions->0@.contains(ExtensionType::ProposalSupport)
}

fn lists_proposal_support(types: &Vec<ExtensionType>) -> (r: bool)
    ensures
        r == types@.contains(ExtensionType::ProposalSupport),
{
    let mut i: usize = 0;
    while i < types.len()
        invariant
            i <= types@.len(),
            forall|j: int| 0 <= j < i ==> types@[j] != ExtensionType::ProposalSupport,
        decreases types@.len() - i,
    {
        if types[i] == ExtensionType::ProposalSupport {
            assert(types@[i as int] == ExtensionType::ProposalSupport);
            return true;
        }
        i += 1;
    }
    false
}

/// What is done to find out whether all members can take proposals.
#[derive(Debug)]
pub enum SupportCheck {
    /// It is known.
    Known(bool),
    /// The leaves may be out of date: the key packages of these installations are fetched.
    Fetch(Vec<Vec<u8>>),
}

/// The installations other than one's own.
pub open spec fn others(installations: Seq<Vec<u8>>, own: Seq<u8>) -> Seq<Vec<u8>> {
    installations.filter(is_another(own))
}

/// What tells an installation from one's own.
pub open spec fn is_another(own: Seq<u8>) -> spec_fn(Vec<u8>) -> bool {
    |id: Vec<u8>| id@ != own
}

/// Whether a check is what is done first to find out whether all members can take proposals.
pub open spec fn is_support_check(
    leaves_support: bool,
    installations: Seq<Vec<u8>>,
    own: Seq<u8>,
    r: SupportCheck,
) -> bool {
    match r {
        SupportCheck::Known(known) => known && (leaves_support || others(installations, own).len() == 0),
        SupportCheck::Fetch(ids) => !leaves_support && ids@.len() > 0 && bytes::byte_views(ids@) == bytes::byte_views(
            others(installations, own),
        ),
    }
}

/// Nothing is fetched where all leaves say that they can take proposals. Otherwise the key package of every installation
/// but one's own is fetched: a group with another installation in it is never taken to support proposals unasked.
pub proof fn support_is_asked_of_all_others(
    leaves_support: bool,
    installations: Seq<Vec<u8>>,
    own: Seq<u8>,
    r: SupportCheck,
    i: int,
)
    requires
        is_support_check(leaves_support, installations, own, r),
    ensures
        leaves_support ==> r == SupportCheck::Known(true),
        r matches SupportCheck::Known(known) ==> known,
        !leaves_support && 0 <= i < installations.len() && installations[i]@ != own ==> (r matches SupportCheck::Fetch(
            ids,
        ) && bytes::byte_views(ids@).contains(installations[i]@)),
        r matches SupportCheck::Fetch(ids) ==> (0 <= i < ids@.len() ==> ids@[i]@ != own && bytes::byte_views(
            installations,
        ).contains(ids@[i]@)),
{
    let p = is_another(own);
    let kept = others(installations, own);
    if !leaves_support && 0 <= i < installations.len() && installations[i]@ != own {
        installations.lemma_filter_contains(p, i);
        let k = choose|k: int| 0 <= k < kept.len() && kept[k] == installations[i];
        assert(bytes::byte_views(kept)[k] == installations[i]@);
    }
    if let SupportCheck::Fetch(ids) = r {
        if 0 <= i < ids@.len() {
            assert(bytes::byte_views(ids@).len() == ids@.len());
            assert(bytes::byte_views(kept).len() == kept.len());
            assert(bytes::byte_views(ids@)[i] == bytes::byte_views(kept)[i]);
            installations.lemma_filter_pred(p, i);
            installations.lemma_filter_contains_rev(p, kept[i]);
            let k = choose|k: int| 0 <= k < installations.len() && installations[k] == kept[i];
            assert(bytes::byte_views(installations)[k] == ids@[i]@);
        }
    }
}

/// Whether an outcome is that of a check of key packages.
pub open spec fn is_key_package_check(key_packages: Seq<Vec<ExtensionType>>, r: Result<(), GroupError>) -> bool {
    match r {
        Ok(_) => forall|i: int|
            0 <= i < key_packages.len() ==> (#[trigger] key_packages[i])@.contains(
                ExtensionType::ProposalSupport,
            ),
        Err(e) => {
            &&& exists|i: int|
                0 <= i < key_packages.len() && !(#[trigger] key_packages[i])@.contains(
                    ExtensionType::ProposalSupport,
                )
            &&& e matches GroupError::ProposalsNotSupported(reason)
            &&& reason@
                == "Member does not support proposals: installation cannot receive standalone proposal messages"@
        },
    }
}

/// Whether all of the fetched key packages can take proposals.
pub open spec fn all_take_proposals(key_packages: Seq<KeyPackageSupport>) -> bool {
    forall|i: int| 0 <= i < key_packages.len() ==> takes_proposals(#[trigger] key_packages[i])
}

/// One key package that cannot take proposals, or that could not be verified, is enough for the members not to support
/// them; and one that cannot take proposals is refused.
pub proof fn one_without_support_is_enough(
    fetched: Seq<KeyPackageSupport>,
    key_packages: Seq<Vec<ExtensionType>>,
    r: Result<(), GroupError>,
    i: int,
)
    requires
        is_key_package_check(key_packages, r),
    ensures
        0 <= i < fetched.len() && fetched[i].extensions is None ==> !all_take_proposals(fetched),
        0 <= i < fetched.len() && fetched[i].extensions is Some && !fetched[i].extensions->0@.contains(
            ExtensionType::ProposalSupport,
        ) ==> !all_take_proposals(fetched),
        (forall|k: int|
            0 <= k < fetched.len() ==> (#[trigger] fetched[k]).extensions is Some && fetched[k].extensions->0@.contains(
                ExtensionType::ProposalSupport,
            )) ==> all_take_proposals(fetched),
        0 <= i < key_packages.len() && !key_packages[i]@.contains(ExtensionType::ProposalSupport) ==> (r matches Err(
            GroupError::ProposalsNotSupported(_),
        )),
        (forall|k: int|
            0 <= k < key_packages.len() ==> (#[trigger] key_packages[k])@.contains(ExtensionType::ProposalSupport))
            ==> r is Ok,
{
    if 0 <= i < fetched.len() && all_take_proposals(fetched) {
        assert(takes_proposals(fetched[i]));
    }
}

impl MlsGroup {
    /// Begins to find out whether all members can take proposals: the leaves of the group tell, if all
    /// of them say so; else the key packages of the other installations do.
    pub fn all_members_support_proposals(
        &self,
        leaves_support: bool,
        installations: &Vec<Vec<u8>>,
        own_installation: &[u8],
    ) -> (r: SupportCheck)
        ensures
            is_support_check(leaves_support, installations@, own_installation@, r),
    {
        if leaves_support {
            return SupportCheck::Known(true);
        }
        let ghost p = is_another(own_installation@);
        let mut ids: Vec<Vec<u8>> = Vec::new();
        let mut i: usize = 0;
        proof {
            reveal(Seq::filter);
            assert(installations@.take(0) =~= Seq::<Vec<u8>>::empty());
            assert(bytes::byte_views(ids@) =~= bytes::byte_views(installations@.take(0).filter(p)));
        }
        while i < installations.len()
            invariant
                i <= installations@.len(),
                p == is_another(own_installation@),
                bytes::byte_views(ids@) == bytes::byte_views(installations@.take(i as int).filter(p)),
            decreases installations@.len() - i,
        {
            proof {
                reveal(Seq::filter);
                assert(installations@.take(i + 1).drop_last() =~= installations@.take(i as int));
                assert(installations@.take(i + 1).last() == installations@[i as int]);
            }
            if !bytes::bytes_equal(installations[i].as_slice(), own_installation) {
                let ghost before = ids@;
                let copy = bytes::clone_bytes(installations[i].as_slice());
                ids.push(copy);
                assert(bytes::byte_views(ids@) =~= bytes::byte_views(before).push(installations@[i as int]@));
                assert(bytes::byte_views(installations@.take(i + 1).filter(p)) =~= bytes::byte_views(
                    installations@.take(i as int).filter(p),
                ).push(installations@[i as int]@));
            }
            i += 1;
        }
        assert(installations@.take(i as int) =~= installations@);
        assert(bytes::byte_views(ids@).len() == others(installations@, own_installation@).len());
        if ids.len() == 0 {
            SupportCheck::Known(true)
        } else {
            SupportCheck::Fetch(ids)
        }
    }

    /// Whether the proposal flow is on.
    pub fn proposals_enabled(&self, current: &Extensions) -> (r: bool)
        ensures
            r == group_config::proposals_on(current.list@),
    {
        group_config::check_proposals_enabled(current)
    }

    /// Refuses key packages that cannot take proposals.
    pub fn validate_key_packages_support_proposals(&self, key_packages: &Vec<Vec<ExtensionType>>) -> (r: Result<
        (),
        GroupError,
    >)
        ensures
            is_key_package_check(key_packages@, r),
    {
        let mut i: usize = 0;
        while i < key_packages.len()
            invariant
                i <= key_packages@.len(),
                forall|j: int|
                    0 <= j < i ==> (#[trigger] key_packages@[j])@.contains(ExtensionType::ProposalSupport),
            decreases key_packages@.len() - i,
        {
            if !lists_proposal_support(&key_packages[i]) {
                assert(!key_packages@[i as int]@.contains(ExtensionType::ProposalSupport));
                return Err(
                    GroupError::ProposalsNotSupported(
                        "Member does not support proposals: installation cannot receive standalone proposal messages".to_owned(),
                    ),
                );
            }
            i += 1;
        }
        Ok(())
    }
}

/// Whether all of the fetched key packages can take proposals. One that could not be verified
/// cannot.
pub fn key_packages_take_proposals(key_packages: &Vec<KeyPackageSupport>) -> (r: bool)
    ensures
        r == all_take_proposals(key_packages@),
{
    let mut i: usize = 0;
    while i < key_packages.len()
        invariant
            i <= key_packages@.len(),
            forall|j: int| 0 <= j < i ==> takes_proposals(#[trigger] key_packages@[j]),
        decreases key_packages@.len() - i,
    {
        let ok: bool = match &key_packages[i].extensions {
            Some(types) => lists_proposal_support(types),
            None => false,
        };
        if !ok {
            assert(!takes_proposals(key_packages@[i as int]));
            return false;
        }
        i += 1;
    }
    true
}

/// How far turning the proposal flow on has come.
#[derive(Clone, Copy, Debug, PartialEq, Eq, Structural)]
pub enum EnablePhase {
    CheckingSupport,
    Proposing,
    CheckingSupportAgain,
    Committing,
    Verifying,
    Done,
}

/// What has happened outside.
pub enum EnableEvent {
    /// Whether all members can take proposals, and the extensions of the group at that moment.
    Support { supported: Result<bool, GroupError>, current: Extensions },
    Proposed(Result<(), GroupError>),
    SupportAgain(Result<bool, GroupError>),
    Committed(Result<(), GroupError>),
    /// Whether the proposal flow is on now.
    Enabled(Result<bool, GroupError>),
}

/// What is to be done next outside.
pub enum EnableAction {
    CheckSupport,
    /// Propose extensions, and wait until this is done.
    Propose(Extensions),
    CheckSupportAgain,
    /// Commit what is pending, and wait until this is done.
    Commit,
    CheckEnabled,
    Finish(Result<(), GroupError>),
    Ignore,
}

/// Whether a refusal has a reason.
pub open spec fn refuses(action: EnableAction, reason: Seq<char>) -> bool {
    action matches EnableAction::Finish(Err(GroupError::ProposalsNotSupported(given))) && given@ == reason
}

/// Whether extensions are others with the proposal flow turned on and demanded of members.
pub open spec fn is_enabled_update(current: Seq<Extension>, new: Seq<Extension>) -> bool {
    let added = extensions::without_type(current, ExtensionType::ProposalSupport).push(
        Extension::ProposalSupport(Decoded::Valid(1)),
    );
    group_config::is_required_update(added, new, true)
}

/// How turning the proposal flow on begins.
pub open spec fn begins_enabling(phase: EnablePhase, action: EnableAction) -> bool {
    &&& phase == EnablePhase::CheckingSupport
    &&& action == EnableAction::CheckSupport
}

/// The transitions of turning the proposal flow on.
pub open spec fn is_enable_step(before: EnablePhase, event: EnableEvent, after: EnablePhase, action: EnableAction) -> bool {
    match (before, event) {
        (EnablePhase::CheckingSupport, EnableEvent::Support { supported, current }) => match supported {
            Ok(true) => {
                &&& after == EnablePhase::Proposing
                &&& action matches EnableAction::Propose(new)
                &&& is_enabled_update(current.list@, new.list@)
            },
            Ok(false) => after == EnablePhase::Done && refuses(
                action,
                "Cannot enable proposals: not all members support the proposal extension"@,
            ),
            Err(e) => after == EnablePhase::Done && action == EnableAction::Finish(Err(e)),
        },
        (EnablePhase::Proposing, EnableEvent::Proposed(outcome)) => match outcome {
            Ok(_) => after == EnablePhase::CheckingSupportAgain && action == EnableAction::CheckSupportAgain,
            Err(e) => after == EnablePhase::Done && action == EnableAction::Finish(Err(e)),
        },
        (EnablePhase::CheckingSupportAgain, EnableEvent::SupportAgain(outcome)) => match outcome {
            Ok(true) => after == EnablePhase::Committing && action == EnableAction::Commit,
            Ok(false) => after == EnablePhase::Done && refuses(
                action,
                "Cannot enable proposals: group membership changed and not all members support the proposal extension"@,
            ),
            Err(e) => after == EnablePhase::Done && action == EnableAction::Finish(Err(e)),
        },
        (EnablePhase::Committing, EnableEvent::Committed(outcome)) => match outcome {
            Ok(_) => after == EnablePhase::Verifying && action == EnableAction::CheckEnabled,
            Err(e) => after == EnablePhase::Done && action == EnableAction::Finish(Err(e)),
        },
        (EnablePhase::Verifying, EnableEvent::Enabled(outcome)) => match outcome {
            Ok(true) => after == EnablePhase::Done && action == EnableAction::Finish(Ok(())),
            Ok(false) => after == EnablePhase::Done && refuses(
                action,
                "Failed to enable proposals: extension not applied"@,
            ),
            Err(e) => after == EnablePhase::Done && action == EnableAction::Finish(Err(e)),
        },
        _ => after == before && action == EnableAction::Ignore,
    }
}

impl MlsGroup {
    /// Begins to turn the proposal flow on.
    pub fn enable_proposals(&self) -> (r: (EnablePhase, EnableAction))
        ensures
            begins_enabling(r.0, r.1),
    {
        (EnablePhase::CheckingSupport, EnableAction::CheckSupport)
    }
}

fn refuse(reason: &str) -> (r: (EnablePhase, EnableAction))
    ensures
        r.0 == EnablePhase::Done,
        refuses(r.1, reason@),
{
    (EnablePhase::Done, EnableAction::Finish(Err(GroupError::ProposalsNotSupported(reason.to_owned()))))
}

/// Takes turning the proposal flow on one step further. Members can change while the proposal is on
/// its way: their support is looked at again before the commit.
pub fn enable_proposals_step(phase: EnablePhase, event: EnableEvent) -> (r: (EnablePhase, EnableAction))
    ensures
        is_enable_step(phase, event, r.0, r.1),
{
    match (phase, event) {
        (EnablePhase::CheckingSupport, EnableEvent::Support { supported, current }) => match supported {
            Ok(true) => {
                let added = current.add_or_replace(group_config::build_proposals_enabled_extension());
                let new = group_config::update_required_capabilities_for_proposals(added, true);
                (EnablePhase::Proposing, EnableAction::Propose(new))
            },
            Ok(false) => refuse("Cannot enable proposals: not all members support the proposal extension"),
            Err(e) => (EnablePhase::Done, EnableAction::Finish(Err(e))),
        },
        (EnablePhase::Proposing, EnableEvent::Proposed(outcome)) => match outcome {
            Ok(_) => (EnablePhase::CheckingSupportAgain, EnableAction::CheckSupportAgain),
            Err(e) => (EnablePhase::Done, EnableAction::Finish(Err(e))),
        },
        (EnablePhase::CheckingSupportAgain, EnableEvent::SupportAgain(outcome)) => match outcome {
            Ok(true) => (EnablePhase::Committing, EnableAction::Commit),
            Ok(false) => refuse(
                "Cannot enable proposals: group membership changed and not all members support the proposal extension",
            ),
            Err(e) => (EnablePhase::Done, EnableAction::Finish(Err(e))),
        },
        (EnablePhase::Committing, EnableEvent::Committed(outcome)) => match outcome {
            Ok(_) => (EnablePhase::Verifying, EnableAction::CheckEnabled),
            Err(e) => (EnablePhase::Done, EnableAction::Finish(Err(e))),
        },
        (EnablePhase::Verifying, EnableEvent::Enabled(outcome)) => match outcome {
            Ok(true) => (EnablePhase::Done, EnableAction::Finish(Ok(()))),
            Ok(false) => refuse("Failed to enable proposals: extension not applied"),
            Err(e) => (EnablePhase::Done, EnableAction::Finish(Err(e))),
        },
        (phase, _) => (phase, EnableAction::Ignore),
    }
}

/// What is proposed turns the proposal flow on, demands it of members wherever anything is demanded,
/// and touches no other extension.
pub proof fn proposed_extensions_enable_proposals(current: Seq<Extension>, new: Seq<Extension>)
    requires
        is_enabled_update(current, new),
    ensures
        group_config::proposals_on(new),
        group_config::required_of(new) is Some == group_config::required_of(current) is Some,
        group_config::required_of(new) matches Some(required) ==> required.extension_types@.contains(
            ExtensionType::ProposalSupport,
        ),
        forall|t: ExtensionType|
            t != ExtensionType::RequiredCapabilities && t != ExtensionType::ProposalSupport
                ==> #[trigger] extensions::first_of(new, t) == extensions::first_of(current, t),
{
    let e = Extension::ProposalSupport(Decoded::Valid(1));
    let added = extensions::without_type(current, ExtensionType::ProposalSupport).push(e);
    extensions::added_extension_is_found(current, e, ExtensionType::RequiredCapabilities);
    group_config::lemma_required_update(added, new, true);
    assert forall|t: ExtensionType|
        t != ExtensionType::RequiredCapabilities && t != ExtensionType::ProposalSupport implies #[trigger] extensions::first_of(
        new,
        t,
    ) == extensions::first_of(current, t) by {
        extensions::added_extension_is_found(current, e, t);
    }
}

/// The proposal flow is committed only after the members' support was seen twice, and reported as on
/// only where it was seen to be on.
pub proof fn proposals_are_enabled_with_support(
    before: EnablePhase,
    event: EnableEvent,
    after: EnablePhase,
    action: EnableAction,
)
    requires
        is_enable_step(before, event, after, action),
    ensures
        action is Propose ==> (event matches EnableEvent::Support { supported, current: _ } && supported == Ok::<
            bool,
            GroupError,
        >(true)),
        action is Commit ==> before == EnablePhase::CheckingSupportAgain && event == EnableEvent::SupportAgain(Ok(true)),
        action == EnableAction::Finish(Ok(())) ==> before == EnablePhase::Verifying && event == EnableEvent::Enabled(
            Ok(true),
        ),
{
}

/// Where all goes well the proposal flow is turned on in this order: the support of the members is looked at, extensions
/// with the flow on are proposed, the support is looked at again, the proposal is committed, and the flow is seen to be
/// on.
pub proof fn the_proposal_flow_is_turned_on(
    phases: Seq<EnablePhase>,
    actions: Seq<EnableAction>,
    current: Extensions,
)
    requires
        phases.len() == 6,
        actions.len() == 6,
        begins_enabling(phases[0], actions[0]),
        is_enable_step(phases[0], EnableEvent::Support { supported: Ok(true), current }, phases[1], actions[1]),
        is_enable_step(phases[1], EnableEvent::Proposed(Ok(())), phases[2], actions[2]),
        is_enable_step(phases[2], EnableEvent::SupportAgain(Ok(true)), phases[3], actions[3]),
        is_enable_step(phases[3], EnableEvent::Committed(Ok(())), phases[4], actions[4]),
        is_enable_step(phases[4], EnableEvent::Enabled(Ok(true)), phases[5], actions[5]),
    ensures
        actions[0] is CheckSupport,
        actions[1] matches EnableAction::Propose(new) && group_config::proposals_on(new.list@) && extensions::first_of(
            new.list@,
            ExtensionType::GroupMembership,
        ) == extensions::first_of(current.list@, ExtensionType::GroupMembership),
        actions[2] is CheckSupportAgain,
        actions[3] is Commit,
        actions[4] is CheckEnabled,
        actions[5] matches EnableAction::Finish(Ok(_)),
{
    if let EnableAction::Propose(new) = actions[1] {
        proposed_extensions_enable_proposals(current.list@, new.list@);
    }
}

/// The first failure ends turning the proposal flow on and is what is reported; members who do not support it, or a flow
/// that is not seen to be on, end it as well.
pub proof fn enabling_fails_as_its_steps_do(
    before: EnablePhase,
    event: EnableEvent,
    after: EnablePhase,
    action: EnableAction,
)
    requires
        is_enable_step(before, event, after, action),
        action !is Ignore,
    ensures
        event matches EnableEvent::Proposed(Err(e)) ==> action == EnableAction::Finish(Err(e)),
        event matches EnableEvent::SupportAgain(Err(e)) ==> action == EnableAction::Finish(Err(e)),
        event matches EnableEvent::Committed(Err(e)) ==> action == EnableAction::Finish(Err(e)),
        event matches EnableEvent::Enabled(Err(e)) ==> action == EnableAction::Finish(Err(e)),
        event matches EnableEvent::Support { supported: Err(e), current: _ } ==> action == EnableAction::Finish(Err(e)),
        event matches EnableEvent::Support { supported: Ok(false), current: _ } ==> (action matches EnableAction::Finish(
            Err(GroupError::ProposalsNotSupported(_)),
        )),
        event matches EnableEvent::SupportAgain(Ok(false)) ==> (action matches EnableAction::Finish(
            Err(GroupError::ProposalsNotSupported(_)),
        )),
        event matches EnableEvent::Enabled(Ok(false)) ==> (action matches EnableAction::Finish(
            Err(GroupError::ProposalsNotSupported(_)),
        )),
        action is Finish <==> after == EnablePhase::Done,
{
}

/// Turning the proposal flow on ends once, and what does not fit the step that it waits for changes nothing.
pub proof fn finished_enabling_stays_finished(
    before: EnablePhase,
    event: EnableEvent,
    after: EnablePhase,
    action: EnableAction,
)
    requires
        is_enable_step(before, event, after, action),
    ensures
        before is Done ==> action is Ignore,
        action is Ignore ==> after == before,
{
}

} // verus!
