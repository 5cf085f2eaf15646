//! Creating groups, and accepting direct conversations that others created.

use vstd::prelude::*;
use vstd::string::*;
use crate::bytes;
use crate::groups::error::{DmValidationError, GroupError, GroupMutableMetadataError, MetadataPermissionsError};
use crate::groups::extensions;
use crate::groups::extensions::{
    CredentialType, Decoded, DmMembers, Extension, ExtensionType, Extensions, GroupMetadata, GroupMutableMetadata,
    PolicySet, ProposalType,
};
use crate::groups::group::MlsGroup;
use crate::groups::group;
use crate::groups::group_config;
use crate::groups::group_config::GroupCreateConfig;
use crate::groups::mls_sync::processing::MessageDisappearingSettings;
use crate::groups::mls_sync::publish_data;
use crate::groups::state_ops;
use crate::records::{ConsentState, ConversationType, GroupMembershipState, StoredGroup};

verus! {

/// Whether a configuration is that of a new group.
pub open spec fn is_new_config(
    config: GroupCreateConfig,
    metadata: GroupMutableMetadata,
    policies: PolicySet,
    creator_inbox_id: Seq<char>,
    broadcast_proposal_support: bool,
    max_past_epochs: usize,
) -> bool {
    &&& config.extensions.list@.len() == 5
    &&& config.extensions.list@[1] == Extension::MutableMetadata(Decoded::Valid(metadata))
    &&& config.extensions.list@[2] matches Extension::GroupMembership(Decoded::Valid(membership))
    &&& membership.members@ == Map::<Seq<char>, u64>::empty().insert(creator_inbox_id, 0)
    &&& membership.failed_installations@.len() == 0
    &&& config.extensions.list@[3] == Extension::GroupPermissions(Decoded::Valid(policies))
    &&& config.extensions.list@[4] matches Extension::RequiredCapabilities(required)
    &&& required.extension_types@ == group_config::required_extension_types()
    &&& required.proposal_types@ == seq![ProposalType::GroupContextExtensions]
    &&& required.credential_types@ == seq![CredentialType::Basic]
    &&& config.creator_proposals@ == seq![ProposalType::GroupContextExtensions]
    &&& config.use_ratchet_tree_extension
    &&& config.creator_extensions@ == group_config::creator_extension_types(broadcast_proposal_support)
    &&& config.max_past_epochs == max_past_epochs
}

/// Whether a configuration is that of a new group that is no direct conversation.
pub open spec fn is_group_config(
    config: GroupCreateConfig,
    metadata: GroupMutableMetadata,
    policies: PolicySet,
    creator_inbox_id: Seq<char>,
    conversation_type: ConversationType,
    oneshot_message: Option<Vec<u8>>,
    broadcast_proposal_support: bool,
    max_past_epochs: usize,
) -> bool {
    is_new_config(config, metadata, policies, creator_inbox_id, broadcast_proposal_support, max_past_epochs) && (
    config.extensions.list@[0] matches Extension::ImmutableMetadata(Decoded::Valid(fixed)) && {
        &&& fixed.conversation_type == conversation_type
        &&& fixed.creator_inbox_id@ == creator_inbox_id
        &&& fixed.dm_members is None
        &&& fixed.oneshot_message == oneshot_message
    })
}

/// Whether a configuration is that of a new direct conversation.
pub open spec fn is_dm_config(
    config: GroupCreateConfig,
    metadata: GroupMutableMetadata,
    policies: PolicySet,
    creator_inbox_id: Seq<char>,
    dm_target_inbox_id: String,
    broadcast_proposal_support: bool,
    max_past_epochs: usize,
) -> bool {
    is_new_config(config, metadata, policies, creator_inbox_id, broadcast_proposal_support, max_past_epochs) && (
    config.extensions.list@[0] matches Extension::ImmutableMetadata(Decoded::Valid(fixed)) && {
        &&& fixed.conversation_type == ConversationType::Dm
        &&& fixed.creator_inbox_id@ == creator_inbox_id
        &&& fixed.dm_members matches Some(members) && members.member_one_inbox_id@ == creator_inbox_id
            && members.member_two_inbox_id == dm_target_inbox_id
        &&& fixed.oneshot_message is None
    })
}

proof fn lemma_new_config(
    config: GroupCreateConfig,
    metadata: GroupMutableMetadata,
    policies: PolicySet,
    creator_inbox_id: Seq<char>,
    broadcast_proposal_support: bool,
    max_past_epochs: usize,
)
    requires
        is_new_config(config, metadata, policies, creator_inbox_id, broadcast_proposal_support, max_past_epochs),
        config.extensions.list@[0] is ImmutableMetadata,
    ensures
        ({
            let list = config.extensions.list@;
            &&& extensions::first_of(list, ExtensionType::ImmutableMetadata) == Some(list[0])
            &&& extensions::first_of(list, ExtensionType::MutableMetadata) == Some(list[1])
            &&& extensions::first_of(list, ExtensionType::GroupMembership) == Some(list[2])
            &&& extensions::first_of(list, ExtensionType::GroupPermissions) == Some(list[3])
            &&& extensions::first_of(list, ExtensionType::RequiredCapabilities) == Some(list[4])
            &&& extensions::first_of(list, ExtensionType::ProposalSupport) is None
        }),
{
    let list = config.extensions.list@;
    assert(list[0].spec_type() == ExtensionType::ImmutableMetadata);
    assert(list[1].spec_type() == ExtensionType::MutableMetadata);
    assert(list[2].spec_type() == ExtensionType::GroupMembership);
    assert(list[3].spec_type() == ExtensionType::GroupPermissions);
    assert(list[4].spec_type() == ExtensionType::RequiredCapabilities);
    extensions::lemma_first_of(list, ExtensionType::ImmutableMetadata, 0);
    extensions::lemma_first_of(list, ExtensionType::MutableMetadata, 1);
    extensions::lemma_first_of(list, ExtensionType::GroupMembership, 2);
    extensions::lemma_first_of(list, ExtensionType::GroupPermissions, 3);
    extensions::lemma_first_of(list, ExtensionType::RequiredCapabilities, 4);
}

/// A new group is what was asked for: of its kind, with its creator as the only member, with the metadata and the
/// policies that were given, without the proposal flow, and demanding of members what the creator supports.
pub proof fn groups_are_set_up_as_asked(
    config: GroupCreateConfig,
    metadata: GroupMutableMetadata,
    policies: PolicySet,
    creator_inbox_id: Seq<char>,
    conversation_type: ConversationType,
    oneshot_message: Option<Vec<u8>>,
    broadcast_proposal_support: bool,
    max_past_epochs: usize,
    t: ExtensionType,
)
    requires
        is_group_config(
            config,
            metadata,
            policies,
            creator_inbox_id,
            conversation_type,
            oneshot_message,
            broadcast_proposal_support,
            max_past_epochs,
        ),
    ensures
        ({
            let list = config.extensions.list@;
            &&& state_ops::fixed_metadata_of(list) matches Ok(fixed) && fixed.conversation_type == conversation_type
                && fixed.creator_inbox_id@ == creator_inbox_id && fixed.dm_members is None && fixed.oneshot_message
                == oneshot_message
            &&& group_config::metadata_of(list) == Ok::<_, GroupMutableMetadataError>(metadata)
            &&& group_config::permissions_of(list) == Ok::<_, MetadataPermissionsError>(policies)
            &&& publish_data::members_in(list) == Some(Map::<Seq<char>, u64>::empty().insert(creator_inbox_id, 0))
            &&& !group_config::proposals_on(list)
            &&& group_config::required_of(list) matches Some(required) && (required.extension_types@.contains(t)
                ==> config.creator_extensions@.contains(t))
            &&& config.creator_extensions@.contains(ExtensionType::ProposalSupport) == broadcast_proposal_support
            &&& config.max_past_epochs == max_past_epochs
        }),
{
    lemma_new_config(config, metadata, policies, creator_inbox_id, broadcast_proposal_support, max_past_epochs);
    lemma_creator_types(broadcast_proposal_support, t);
}

proof fn lemma_creator_types(broadcast_proposal_support: bool, t: ExtensionType)
    ensures
        group_config::required_extension_types().contains(t) ==> group_config::creator_extension_types(
            broadcast_proposal_support,
        ).contains(t),
        group_config::creator_extension_types(broadcast_proposal_support).contains(ExtensionType::ProposalSupport)
            == broadcast_proposal_support,
{
    let required = group_config::required_extension_types();
    let types = group_config::creator_extension_types(broadcast_proposal_support);
    assert forall|i: int| 0 <= i < required.len() implies types[i] == #[trigger] required[i] by {
    }
    if required.contains(t) {
        let i = choose|i: int| 0 <= i < required.len() && required[i] == t;
        assert(types[i] == t);
    }
    if broadcast_proposal_support {
        assert(types[8] == ExtensionType::ProposalSupport);
    } else {
        assert forall|i: int| 0 <= i < types.len() implies #[trigger] types[i] != ExtensionType::ProposalSupport by {
            if i < 6 {
                assert(types[i] == required[i]);
            }
        }
    }
}

/// A direct conversation that one client sets up is accepted by the other, who finds it to be between the two of
/// them, and by every other installation of its creator.
pub proof fn dms_are_accepted_by_both(
    config: GroupCreateConfig,
    metadata: GroupMutableMetadata,
    policies: PolicySet,
    creator_inbox_id: Seq<char>,
    dm_target_inbox_id: String,
    broadcast_proposal_support: bool,
    max_past_epochs: usize,
)
    requires
        is_dm_config(
            config,
            metadata,
            policies,
            creator_inbox_id,
            dm_target_inbox_id,
            broadcast_proposal_support,
            max_past_epochs,
        ),
        metadata.admin_list@.len() == 0,
        metadata.super_admin_list@.len() == 0,
    ensures
        dm_refusal(config.extensions.list@, dm_target_inbox_id@, creator_inbox_id, policies) is None,
        dm_refusal(config.extensions.list@, creator_inbox_id, creator_inbox_id, policies) is None,
        state_ops::fixed_metadata_of(config.extensions.list@) matches Ok(fixed) && fixed.conversation_type
            == ConversationType::Dm && fixed.creator_inbox_id@ == creator_inbox_id,
        publish_data::members_in(config.extensions.list@) == Some(
            Map::<Seq<char>, u64>::empty().insert(creator_inbox_id, 0),
        ),
        group_config::metadata_of(config.extensions.list@) == Ok::<_, GroupMutableMetadataError>(metadata),
        !group_config::proposals_on(config.extensions.list@),
        config.max_past_epochs == max_past_epochs,
{
    lemma_new_config(config, metadata, policies, creator_inbox_id, broadcast_proposal_support, max_past_epochs);
}

/// How a group that is no direct conversation is set up.
pub fn new_group_config(
    creator_inbox_id: &str,
    conversation_type: ConversationType,
    policies: PolicySet,
    metadata: GroupMutableMetadata,
    oneshot_message: Option<Vec<u8>>,
    broadcast_proposal_support: bool,
    max_past_epochs: usize,
) -> (r: Result<GroupCreateConfig, GroupError>)
    requires
        conversation_type != ConversationType::Dm,
    ensures
        r matches Ok(config) && is_group_config(
            config,
            metadata,
            policies,
            creator_inbox_id@,
            conversation_type,
            oneshot_message,
            broadcast_proposal_support,
            max_past_epochs,
        ),
{
    let protected = group_config::build_protected_metadata_extension(
        creator_inbox_id,
        conversation_type,
        oneshot_message,
    );
    let mutable = group_config::build_mutable_metadata_extension_default(metadata);
    finish_config(protected, mutable, creator_inbox_id, policies, broadcast_proposal_support, max_past_epochs)
}

fn finish_config(
    protected: Extension,
    mutable: Extension,
    creator_inbox_id: &str,
    policies: PolicySet,
    broadcast_proposal_support: bool,
    max_past_epochs: usize,
) -> (r: Result<GroupCreateConfig, GroupError>)
    requires
        protected is ImmutableMetadata,
        mutable matches Extension::MutableMetadata(Decoded::Valid(_)),
    ensures
        r matches Ok(config) && config.extensions.list@[0] == protected && (mutable matches Extension::MutableMetadata(
            Decoded::Valid(metadata),
        ) && is_new_config(
            config,
            metadata,
            policies,
            creator_inbox_id@,
            broadcast_proposal_support,
            max_past_epochs,
        )),
{
    let membership = group_config::build_starting_group_membership_extension(creator_inbox_id, 0);
    let permissions = group_config::build_mutable_permissions_extension(policies);
    let ghost given = seq![protected, mutable, membership, permissions];
    let config = group_config::build_group_config(
        protected,
        mutable,
        membership,
        permissions,
        broadcast_proposal_support,
        max_past_epochs,
    );
    proof {
        assert(given[0].spec_type() == ExtensionType::ImmutableMetadata);
        assert(given[1].spec_type() == ExtensionType::MutableMetadata);
        assert(given[2].spec_type() == ExtensionType::GroupMembership);
        assert(given[3].spec_type() == ExtensionType::GroupPermissions);
        assert(!group_config::has_repeated_type(given));
        let list = config->Ok_0.extensions.list@;
        if config is Ok {
            assert(list.take(4)[0] == given[0]);
            assert(list.take(4)[1] == given[1]);
            assert(list.take(4)[2] == given[2]);
            assert(list.take(4)[3] == given[3]);
        }
    }
    config
}

/// How a direct conversation is set up; `policies` are those of direct conversations.
pub fn new_dm_config(
    creator_inbox_id: &str,
    dm_target_inbox_id: String,
    policies: PolicySet,
    metadata: GroupMutableMetadata,
    broadcast_proposal_support: bool,
    max_past_epochs: usize,
) -> (r: Result<GroupCreateConfig, GroupError>)
    ensures
        r matches Ok(config) && is_dm_config(
            config,
            metadata,
            policies,
            creator_inbox_id@,
            dm_target_inbox_id,
            broadcast_proposal_support,
            max_past_epochs,
        ),
{
    let protected = group_config::build_dm_protected_metadata_extension(creator_inbox_id, dm_target_inbox_id);
    let mutable = group_config::build_dm_mutable_metadata_extension_default(metadata);
    finish_config(protected, mutable, creator_inbox_id, policies, broadcast_proposal_support, max_past_epochs)
}

/// Whether a row is that of a group which this client has set up.
pub open spec fn is_new_row(
    row: StoredGroup,
    group_id: Vec<u8>,
    created_at_ns: i64,
    membership_state: GroupMembershipState,
    conversation_type: ConversationType,
    inbox_id: Seq<char>,
    settings: Option<MessageDisappearingSettings>,
    dm_id: Option<String>,
    should_publish_commit_log: bool,
) -> bool {
    &&& row.id == group_id
    &&& row.created_at_ns == created_at_ns
    &&& row.membership_state == membership_state
    &&& row.conversation_type == conversation_type
    &&& row.added_by_inbox_id@ == inbox_id
    &&& row.message_disappear_from_ns == (match settings {
        Some(s) => Some(s.from_ns),
        None => None,
    })
    &&& row.message_disappear_in_ns == (match settings {
        Some(s) => Some(s.in_ns),
        None => None,
    })
    &&& row.dm_id == dm_id
    &&& row.should_publish_commit_log == should_publish_commit_log
    &&& row.sequence_id is None
    &&& row.originator_id is None
    &&& !row.maybe_forked
    &&& row.fork_details@.len() == 0
    &&& row.is_commit_log_forked is None
}

/// Whether a row is that of a group which this client has set up, or restored from a backup.
pub open spec fn is_inserted_row(
    row: StoredGroup,
    group_id: Vec<u8>,
    is_existing: bool,
    created_at_ns: i64,
    membership_state: GroupMembershipState,
    conversation_type: ConversationType,
    inbox_id: Seq<char>,
    settings: Option<MessageDisappearingSettings>,
) -> bool {
    is_new_row(
        row,
        group_id,
        created_at_ns,
        membership_state,
        conversation_type,
        inbox_id,
        settings,
        None,
        !is_existing,
    )
}

/// Whether a handle and a decision go with a row that was just inserted.
pub open spec fn is_created(
    row: StoredGroup,
    conversation_type: ConversationType,
    handle: MlsGroup,
    consent: Option<ConsentState>,
) -> bool {
    &&& handle.group_id == row.id
    &&& handle.dm_id == row.dm_id
    &&& handle.conversation_type == conversation_type
    &&& handle.created_at_ns == row.created_at_ns
    &&& handle.stream_seed_cursor is None
    &&& handle.stream_replay_after_ns is None
    &&& consent == (if conversation_type == ConversationType::Group {
        Some(ConsentState::Allowed)
    } else {
        None
    })
}

/// Whether a row, a handle and a decision are those of a direct conversation which this client has set up.
pub open spec fn is_created_dm(
    group_id: Vec<u8>,
    created_at_ns: i64,
    membership_state: GroupMembershipState,
    inbox_id: Seq<char>,
    settings: Option<MessageDisappearingSettings>,
    dm_id: String,
    row: StoredGroup,
    handle: MlsGroup,
    consent: ConsentState,
) -> bool {
    &&& is_new_row(
        row,
        group_id,
        created_at_ns,
        membership_state,
        ConversationType::Dm,
        inbox_id,
        settings,
        Some(dm_id),
        false,
    )
    &&& group::is_handle_of(handle, row)
    &&& consent == ConsentState::Allowed
}

/// Whether an inbox publishes the log of commits.
pub open spec fn publishes_commit_log(inbox_id: Seq<char>, metadata: Option<GroupMutableMetadata>) -> bool {
    match metadata {
        Some(m) => m.super_admins().contains(inbox_id),
        None => false,
    }
}

/// Only super admins publish the log of commits; where the metadata of a group are not known, nobody does.
pub proof fn super_admins_publish_the_commit_log(inbox_id: Seq<char>, metadata: GroupMutableMetadata, i: int)
    ensures
        0 <= i < metadata.super_admin_list@.len() && metadata.super_admin_list@[i]@ == inbox_id
            ==> publishes_commit_log(inbox_id, Some(metadata)),
        metadata.super_admin_list@.len() == 0 ==> !publishes_commit_log(inbox_id, Some(metadata)),
        publishes_commit_log(inbox_id, Some(metadata)) ==> exists|k: int|
            0 <= k < metadata.super_admin_list@.len() && (#[trigger] metadata.super_admin_list@[k])@ == inbox_id,
        !publishes_commit_log(inbox_id, None),
{
    let views = metadata.super_admins();
    if 0 <= i < metadata.super_admin_list@.len() && metadata.super_admin_list@[i]@ == inbox_id {
        assert(views[i] == inbox_id);
    }
    if publishes_commit_log(inbox_id, Some(metadata)) {
        let k = choose|k: int| 0 <= k < views.len() && views[k] == inbox_id;
        assert(metadata.super_admin_list@[k]@ == inbox_id);
    }
}

/// Who sets a group up has decided for it, publishes its log of commits, and finds it again under its id with the
/// times after which messages disappear. A group that is restored from a backup publishes nothing yet. Groups that
/// are never shown are not decided about.
pub proof fn new_groups_are_kept_as_set_up(
    row: StoredGroup,
    group_id: Vec<u8>,
    is_existing: bool,
    created_at_ns: i64,
    membership_state: GroupMembershipState,
    conversation_type: ConversationType,
    inbox_id: Seq<char>,
    settings: Option<MessageDisappearingSettings>,
    handle: MlsGroup,
    consent: Option<ConsentState>,
)
    requires
        is_inserted_row(
            row,
            group_id,
            is_existing,
            created_at_ns,
            membership_state,
            conversation_type,
            inbox_id,
            settings,
        ),
        is_created(row, conversation_type, handle, consent),
    ensures
        group::is_handle_of(handle, row),
        handle.group_id == group_id,
        handle.dm_id is None,
        handle.conversation_type == conversation_type,
        row.conversation_type == conversation_type,
        row.created_at_ns == created_at_ns,
        row.membership_state == membership_state,
        row.added_by_inbox_id@ == inbox_id,
        row.should_publish_commit_log <==> !is_existing,
        settings is None ==> row.message_disappear_from_ns is None && row.message_disappear_in_ns is None,
        settings matches Some(s) ==> row.message_disappear_from_ns == Some(s.from_ns) && row.message_disappear_in_ns
            == Some(s.in_ns),
        conversation_type == ConversationType::Group ==> consent == Some(ConsentState::Allowed),
        conversation_type == ConversationType::Sync || conversation_type == ConversationType::Oneshot ==> consent is None,
        !row.maybe_forked && row.fork_details@.len() == 0 && row.is_commit_log_forked is None && row.sequence_id is None
            && row.originator_id is None,
{
}

/// Who sets a direct conversation up has decided for it, but does not publish its log of commits, as nobody is its
/// super admin.
pub proof fn new_dms_are_kept_as_set_up(
    group_id: Vec<u8>,
    created_at_ns: i64,
    membership_state: GroupMembershipState,
    inbox_id: Seq<char>,
    settings: Option<MessageDisappearingSettings>,
    dm_id: String,
    row: StoredGroup,
    handle: MlsGroup,
    consent: ConsentState,
)
    requires
        is_created_dm(group_id, created_at_ns, membership_state, inbox_id, settings, dm_id, row, handle, consent),
    ensures
        consent == ConsentState::Allowed,
        handle.group_id@ == group_id@,
        handle.dm_id == Some(dm_id),
        handle.conversation_type == ConversationType::Dm,
        handle.created_at_ns == created_at_ns,
        row.id == group_id,
        row.dm_id == Some(dm_id),
        row.conversation_type == ConversationType::Dm,
        row.created_at_ns == created_at_ns,
        row.membership_state == membership_state,
        row.added_by_inbox_id@ == inbox_id,
        !row.should_publish_commit_log,
        !row.maybe_forked && row.fork_details@.len() == 0 && row.is_commit_log_forked is None && row.sequence_id is None
            && row.originator_id is None,
        settings is None ==> row.message_disappear_from_ns is None && row.message_disappear_in_ns is None,
        settings matches Some(s) ==> row.message_disappear_from_ns == Some(s.from_ns) && row.message_disappear_in_ns
            == Some(s.in_ns),
{
}

fn new_row(
    group_id: Vec<u8>,
    created_at_ns: i64,
    membership_state: GroupMembershipState,
    conversation_type: ConversationType,
    inbox_id: &str,
    settings: Option<MessageDisappearingSettings>,
    dm_id: Option<String>,
    should_publish_commit_log: bool,
) -> (r: StoredGroup)
    ensures
        is_new_row(
            r,
            group_id,
            created_at_ns,
            membership_state,
            conversation_type,
            inbox_id@,
            settings,
            dm_id,
            should_publish_commit_log,
        ),
{
    proof {
        reveal_strlit("");
    }
    let message_disappear_from_ns: Option<i64> = match settings {
        Some(s) => Some(s.from_ns),
        None => None,
    };
    let message_disappear_in_ns: Option<i64> = match settings {
        Some(s) => Some(s.in_ns),
        None => None,
    };
    StoredGroup {
        id: group_id,
        created_at_ns,
        membership_state,
        added_by_inbox_id: inbox_id.to_owned(),
        conversation_type,
        dm_id,
        message_disappear_from_ns,
        message_disappear_in_ns,
        should_publish_commit_log,
        sequence_id: None,
        originator_id: None,
        maybe_forked: false,
        fork_details: "".to_owned(),
        is_commit_log_forked: None,
    }
}

impl MlsGroup {
    /// The row of a group that this client has set up. The creator is a super admin and publishes the
    /// log of commits; one who restores a group from a backup does not, until a welcome comes.
    pub fn insert(
        group_id: Vec<u8>,
        is_existing: bool,
        created_at_ns: i64,
        membership_state: GroupMembershipState,
        conversation_type: ConversationType,
        inbox_id: &str,
        settings: Option<MessageDisappearingSettings>,
    ) -> (r: StoredGroup)
        requires
            conversation_type != ConversationType::Dm,
        ensures
            is_inserted_row(
                r,
                group_id,
                is_existing,
                created_at_ns,
                membership_state,
                conversation_type,
                inbox_id@,
                settings,
            ),
    {
        new_row(
            group_id,
            created_at_ns,
            membership_state,
            conversation_type,
            inbox_id,
            settings,
            None,
            !is_existing,
        )
    }

    /// The handle of a group that was just inserted, and what the user is taken to have decided about
    /// it: who creates a group wants it. Groups that are never shown are not decided about.
    pub fn create_and_insert(row: StoredGroup, conversation_type: ConversationType) -> (r: (
        MlsGroup,
        Option<ConsentState>,
    ))
        requires
            conversation_type != ConversationType::Dm,
        ensures
            is_created(row, conversation_type, r.0, r.1),
    {
        let group = MlsGroup::new(row.id, row.dm_id, conversation_type, row.created_at_ns);
        let consent: Option<ConsentState> = if conversation_type.is_virtual() {
            None
        } else {
            Some(ConsentState::Allowed)
        };
        (group, consent)
    }

    /// The row and the handle of a direct conversation that this client has set up, and what the user
    /// is taken to have decided about it. `dm_id` is what it has in common with others between the
    /// same people.
    pub fn create_dm_and_insert(
        group_id: Vec<u8>,
        created_at_ns: i64,
        membership_state: GroupMembershipState,
        inbox_id: &str,
        settings: Option<MessageDisappearingSettings>,
        dm_id: String,
    ) -> (r: (StoredGroup, MlsGroup, ConsentState))
        ensures
            is_created_dm(group_id, created_at_ns, membership_state, inbox_id@, settings, dm_id, r.0, r.1, r.2),
    {
        let handle_id = bytes::clone_bytes(group_id.as_slice());
        let row = new_row(
            group_id,
            created_at_ns,
            membership_state,
            ConversationType::Dm,
            inbox_id,
            settings,
            Some(dm_id),
            false,
        );
        let handle = MlsGroup::new(handle_id, group::optional_text(&row.dm_id), ConversationType::Dm, created_at_ns);
        (row, handle, ConsentState::Allowed)
    }

    /// Whether an inbox publishes the log of commits: only a super admin does.
    pub fn check_should_publish_commit_log(inbox_id: &str, mutable_metadata: Option<&GroupMutableMetadata>) -> (r: bool)
        ensures
            r == publishes_commit_log(
                inbox_id@,
                match mutable_metadata {
                    Some(m) => Some(*m),
                    None => None,
                },
            ),
    {
        match mutable_metadata {
            Some(m) => m.is_super_admin(inbox_id),
            None => false,
        }
    }
}

/// Whether an inbox is one of the two of a direct conversation.
pub open spec fn takes_part(members: DmMembers, inbox_id: Seq<char>) -> bool {
    members.member_one_inbox_id@ == inbox_id || members.member_two_inbox_id@ == inbox_id
}

/// Whether a direct conversation is that of two inboxes.
pub open spec fn is_between(members: DmMembers, a: Seq<char>, b: Seq<char>) -> bool {
    ||| members.member_one_inbox_id@ == a && members.member_two_inbox_id@ == b
    ||| members.member_one_inbox_id@ == b && members.member_two_inbox_id@ == a
}

/// Whether permissions are other than those that are expected, as far as they decide who is in the
/// group.
pub open spec fn some_policy_differs(given: PolicySet, expected: PolicySet) -> bool {
    ||| given.add_member_policy@ != expected.add_member_policy@
    ||| given.remove_member_policy@ != expected.remove_member_policy@
    ||| given.add_admin_policy@ != expected.add_admin_policy@
    ||| given.remove_admin_policy@ != expected.remove_admin_policy@
    ||| given.update_permissions_policy@ != expected.update_permissions_policy@
}

/// Why a direct conversation is not accepted; none, where it is.
pub open spec fn dm_refusal(
    list: Seq<Extension>,
    inbox_id: Seq<char>,
    added_by_inbox: Seq<char>,
    expected: PolicySet,
) -> Option<MetadataPermissionsError> {
    match state_ops::fixed_metadata_of(list) {
        Err(e) => Some(e),
        Ok(fixed) => if fixed.conversation_type != ConversationType::Dm {
            Some(MetadataPermissionsError::DmValidation(DmValidationError::InvalidConversationType))
        } else {
            match fixed.dm_members {
                None => Some(MetadataPermissionsError::DmValidation(DmValidationError::MustHaveMembersSet)),
                Some(members) => if added_by_inbox == inbox_id {
                    if takes_part(members, inbox_id) {
                        None
                    } else {
                        Some(MetadataPermissionsError::DmValidation(DmValidationError::OurInboxMustBeMember))
                    }
                } else if !is_between(members, added_by_inbox, inbox_id) {
                    Some(MetadataPermissionsError::DmValidation(DmValidationError::ExpectedInboxesDoNotMatch))
                } else {
                    dm_content_refusal(list, expected)
                },
            }
        },
    }
}

/// Why the admins and the permissions of a direct conversation from another are not accepted.
pub open spec fn dm_content_refusal(list: Seq<Extension>, expected: PolicySet) -> Option<MetadataPermissionsError> {
    match group_config::metadata_of(list) {
        Err(e) => Some(MetadataPermissionsError::Mutable(e)),
        Ok(m) => if m.admin_list@.len() > 0 || m.super_admin_list@.len() > 0 {
            Some(MetadataPermissionsError::DmValidation(DmValidationError::MustHaveEmptyAdminAndSuperAdmin))
        } else {
            match group_config::permissions_of(list) {
                Err(e) => Some(e),
                Ok(given) => if some_policy_differs(given, expected) {
                    Some(MetadataPermissionsError::DmValidation(DmValidationError::InvalidPermissions))
                } else {
                    None
                },
            }
        },
    }
}

fn check_dm_content(list: &Extensions, expected: &PolicySet) -> (r: Result<(), MetadataPermissionsError>)
    ensures
        match dm_content_refusal(list.list@, *expected) {
            None => r is Ok,
            Some(e) => r == Err::<(), _>(e),
        },
{
    let metadata = match state_ops::extract_group_mutable_metadata(list) {
        Ok(m) => m,
        Err(e) => return Err(MetadataPermissionsError::Mutable(e)),
    };
    if metadata.admin_list.len() > 0 || metadata.super_admin_list.len() > 0 {
        return Err(MetadataPermissionsError::DmValidation(DmValidationError::MustHaveEmptyAdminAndSuperAdmin));
    }
    let given = match state_ops::extract_group_permissions(list) {
        Ok(p) => p,
        Err(e) => return Err(e),
    };
    if !given.add_member_policy.same_as(&expected.add_member_policy)
        || !given.remove_member_policy.same_as(&expected.remove_member_policy)
        || !given.add_admin_policy.same_as(&expected.add_admin_policy)
        || !given.remove_admin_policy.same_as(&expected.remove_admin_policy)
        || !given.update_permissions_policy.same_as(&expected.update_permissions_policy) {
        return Err(MetadataPermissionsError::DmValidation(DmValidationError::InvalidPermissions));
    }
    Ok(())
}

/// Accepts or refuses a direct conversation that this client was added to. `expected` are the
/// permissions of direct conversations. One that came from this inbox itself need only have it as a
/// member.
pub fn validate_dm_group(list: &Extensions, inbox_id: &str, added_by_inbox: &str, expected: &PolicySet) -> (r: Result<
    (),
    MetadataPermissionsError,
>)
    ensures
        match dm_refusal(list.list@, inbox_id@, added_by_inbox@, *expected) {
            None => r is Ok,
            Some(e) => r == Err::<(), _>(e),
        },
{
    let fixed = match state_ops::extract_group_metadata(list) {
        Ok(fixed) => fixed,
        Err(e) => return Err(e),
    };
    if fixed.conversation_type != ConversationType::Dm {
        return Err(MetadataPermissionsError::DmValidation(DmValidationError::InvalidConversationType));
    }
    let members = match &fixed.dm_members {
        Some(members) => members,
        None => return Err(MetadataPermissionsError::DmValidation(DmValidationError::MustHaveMembersSet)),
    };
    let one = members.member_one_inbox_id.as_str();
    let two = members.member_two_inbox_id.as_str();
    if bytes::text_equal(added_by_inbox, inbox_id) {
        if !(bytes::text_equal(one, inbox_id) || bytes::text_equal(two, inbox_id)) {
            return Err(MetadataPermissionsError::DmValidation(DmValidationError::OurInboxMustBeMember));
        }
        return Ok(());
    }
    let is_expected_pair: bool = (bytes::text_equal(one, added_by_inbox) && bytes::text_equal(two, inbox_id)) || (
    bytes::text_equal(one, inbox_id) && bytes::text_equal(two, added_by_inbox));
    if !is_expected_pair {
        return Err(MetadataPermissionsError::DmValidation(DmValidationError::ExpectedInboxesDoNotMatch));
    }
    check_dm_content(list, expected)
}

/// A direct conversation is accepted from another only if it is between that one and this client,
/// nobody is an admin of it, and nobody can be added to it or removed from it but as is expected.
pub proof fn accepted_dm_is_with_its_sender(
    list: Seq<Extension>,
    inbox_id: Seq<char>,
    added_by_inbox: Seq<char>,
    expected: PolicySet,
)
    requires
        dm_refusal(list, inbox_id, added_by_inbox, expected) is None,
        added_by_inbox != inbox_id,
    ensures
        state_ops::fixed_metadata_of(list) matches Ok(fixed) && fixed.conversation_type == ConversationType::Dm && (
        fixed.dm_members matches Some(members) && is_between(members, added_by_inbox, inbox_id)),
        group_config::metadata_of(list) matches Ok(m) && m.admin_list@.len() == 0 && m.super_admin_list@.len() == 0,
        group_config::permissions_of(list) matches Ok(given) && given.add_member_policy@ == expected.add_member_policy@
            && given.remove_member_policy@ == expected.remove_member_policy@ && given.add_admin_policy@
            == expected.add_admin_policy@ && given.remove_admin_policy@ == expected.remove_admin_policy@
            && given.update_permissions_policy@ == expected.update_permissions_policy@,
{
}

/// Why a direct conversation is refused: it is of another kind, has no members set, is not between this client and
/// the one who added it, has admins, or has other policies than it should. These are looked at in this order. One
/// that came from this inbox itself need only have it as a member, and one with nothing wrong is accepted.
pub proof fn dm_refusals_say_why(
    list: Seq<Extension>,
    fixed: GroupMetadata,
    inbox_id: Seq<char>,
    added_by_inbox: Seq<char>,
    expected: PolicySet,
)
    requires
        state_ops::fixed_metadata_of(list) == Ok::<_, MetadataPermissionsError>(fixed),
    ensures
        ({
            let refusal = dm_refusal(list, inbox_id, added_by_inbox, expected);
            &&& fixed.conversation_type != ConversationType::Dm ==> refusal == Some(
                MetadataPermissionsError::DmValidation(DmValidationError::InvalidConversationType),
            )
            &&& fixed.conversation_type == ConversationType::Dm && fixed.dm_members is None ==> refusal == Some(
                MetadataPermissionsError::DmValidation(DmValidationError::MustHaveMembersSet),
            )
            &&& fixed.conversation_type == ConversationType::Dm ==> (fixed.dm_members matches Some(members) ==> {
                let one = members.member_one_inbox_id@;
                let two = members.member_two_inbox_id@;
                let is_pair = (one == added_by_inbox && two == inbox_id) || (one == inbox_id && two == added_by_inbox);
                &&& added_by_inbox == inbox_id && one != inbox_id && two != inbox_id ==> refusal == Some(
                    MetadataPermissionsError::DmValidation(DmValidationError::OurInboxMustBeMember),
                )
                &&& added_by_inbox == inbox_id && (one == inbox_id || two == inbox_id) ==> refusal is None
                &&& added_by_inbox != inbox_id && !is_pair ==> refusal == Some(
                    MetadataPermissionsError::DmValidation(DmValidationError::ExpectedInboxesDoNotMatch),
                )
                &&& added_by_inbox != inbox_id && is_pair ==> (group_config::metadata_of(list) matches Ok(m) ==> {
                    &&& m.admin_list@.len() + m.super_admin_list@.len() > 0 ==> refusal == Some(
                        MetadataPermissionsError::DmValidation(DmValidationError::MustHaveEmptyAdminAndSuperAdmin),
                    )
                    &&& m.admin_list@.len() + m.super_admin_list@.len() == 0 ==> (group_config::permissions_of(
                        list,
                    ) matches Ok(given) ==> {
                        &&& given.add_member_policy@ == expected.add_member_policy@ && given.remove_member_policy@
                            == expected.remove_member_policy@ && given.add_admin_policy@ == expected.add_admin_policy@
                            && given.remove_admin_policy@ == expected.remove_admin_policy@
                            && given.update_permissions_policy@ == expected.update_permissions_policy@ ==> refusal
                            is None
                        &&& !(given.add_member_policy@ == expected.add_member_policy@ && given.remove_member_policy@
                            == expected.remove_member_policy@ && given.add_admin_policy@ == expected.add_admin_policy@
                            && given.remove_admin_policy@ == expected.remove_admin_policy@
                            && given.update_permissions_policy@ == expected.update_permissions_policy@) ==> refusal
                            == Some(MetadataPermissionsError::DmValidation(DmValidationError::InvalidPermissions))
                    })
                })
            })
        }),
{
}

} // verus!
