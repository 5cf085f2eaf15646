//! What is read of a group.

use vstd::prelude::*;
use crate::bytes;
use crate::error::{ExternalError, NotFound};
use crate::groups::error::{GroupError, GroupMutableMetadataError, MetadataPermissionsError};
use crate::groups::extensions;
use crate::groups::extensions::{Decoded, Extension, ExtensionType, Extensions, GroupMetadata, GroupMutableMetadata, PolicySet};
use crate::groups::group;
use crate::groups::group::{ConversationDebugInfo, MlsGroup};
use crate::groups::group_config;
use crate::records::{Cursor, GroupMembershipState, StoredGroup};

verus! {

/// The fixed metadata of a group, or why it cannot be had.
pub open spec fn fixed_metadata_of(list: Seq<Extension>) -> Result<GroupMetadata, MetadataPermissionsError> {
    match extensions::first_of(list, ExtensionType::ImmutableMetadata) {
        Some(Extension::ImmutableMetadata(Decoded::Valid(metadata))) => Ok(metadata),
        Some(Extension::ImmutableMetadata(Decoded::Malformed(e))) => Err(MetadataPermissionsError::Metadata(e)),
        _ => Err(MetadataPermissionsError::MissingMetadata),
    }
}

/// The fixed metadata of a group.
pub fn extract_group_metadata(list: &Extensions) -> (r: Result<&GroupMetadata, MetadataPermissionsError>)
    ensures
        match fixed_metadata_of(list.list@) {
            Ok(m) => r matches Ok(found) && *found == m,
            Err(e) => r matches Err(given) && given == e,
        },
{
    match list.find(ExtensionType::ImmutableMetadata) {
        Some(Extension::ImmutableMetadata(Decoded::Valid(metadata))) => Ok(metadata),
        Some(Extension::ImmutableMetadata(Decoded::Malformed(e))) => Err(
            MetadataPermissionsError::Metadata(e.duplicate()),
        ),
        _ => Err(MetadataPermissionsError::MissingMetadata),
    }
}

/// The mutable metadata of a group.
pub fn extract_group_mutable_metadata(list: &Extensions) -> (r: Result<&GroupMutableMetadata, GroupMutableMetadataError>)
    ensures
        match group_config::metadata_of(list.list@) {
            Ok(m) => r matches Ok(found) && *found == m,
            Err(e) => r matches Err(given) && given == e,
        },
{
    match list.find(ExtensionType::MutableMetadata) {
        Some(Extension::MutableMetadata(Decoded::Valid(metadata))) => Ok(metadata),
        Some(Extension::MutableMetadata(Decoded::Malformed(e))) => Err(
            GroupMutableMetadataError::Malformed(e.duplicate()),
        ),
        _ => Err(GroupMutableMetadataError::MissingExtension),
    }
}

/// The permissions of a group.
pub fn extract_group_permissions(list: &Extensions) -> (r: Result<&PolicySet, MetadataPermissionsError>)
    ensures
        match group_config::permissions_of(list.list@) {
            Ok(p) => r matches Ok(found) && *found == p,
            Err(e) => r matches Err(given) && given == e,
        },
{
    match list.find(ExtensionType::GroupPermissions) {
        Some(Extension::GroupPermissions(Decoded::Valid(policies))) => Ok(policies),
        Some(Extension::GroupPermissions(Decoded::Malformed(e))) => Err(
            MetadataPermissionsError::Permissions(e.duplicate()),
        ),
        _ => Err(MetadataPermissionsError::MissingPermissions),
    }
}

/// Whether an outcome is that of looking a group up that must be there.
pub open spec fn is_lookup(
    found: Result<Option<StoredGroup>, ExternalError>,
    group_id: Seq<u8>,
    r: Result<StoredGroup, GroupError>,
) -> bool {
    match found {
        Err(e) => r == Err::<StoredGroup, _>(GroupError::External(e)),
        Ok(None) => r matches Err(GroupError::NotFound(NotFound::GroupById(id))) && id@ == group_id,
        Ok(Some(row)) => r == Ok::<_, GroupError>(row),
    }
}

/// Whether a result tells if this client is active in a group.
pub open spec fn is_activity(
    found: Result<Option<StoredGroup>, ExternalError>,
    group_id: Seq<u8>,
    active_in_tree: Result<bool, GroupError>,
    r: Result<bool, GroupError>,
) -> bool {
    match found {
        Err(e) => r == Err::<bool, _>(GroupError::External(e)),
        Ok(None) => r matches Err(GroupError::NotFound(NotFound::GroupById(id))) && id@ == group_id,
        Ok(Some(row)) => if row.membership_state == GroupMembershipState::Restored {
            r == Ok::<_, GroupError>(false)
        } else {
            r == active_in_tree
        },
    }
}

/// Whether a result tells how this client takes part in a group.
pub open spec fn tells_membership_state(
    found: Result<Option<StoredGroup>, ExternalError>,
    group_id: Seq<u8>,
    r: Result<GroupMembershipState, GroupError>,
) -> bool {
    match found {
        Err(e) => r == Err::<GroupMembershipState, _>(GroupError::External(e)),
        Ok(None) => r matches Err(GroupError::NotFound(NotFound::GroupById(id))) && id@ == group_id,
        Ok(Some(row)) => r == Ok::<_, GroupError>(row.membership_state),
    }
}

/// Whether a result tells who added this client to a group.
pub open spec fn tells_who_added(
    found: Result<Option<StoredGroup>, ExternalError>,
    group_id: Seq<u8>,
    r: Result<String, GroupError>,
) -> bool {
    match found {
        Err(e) => r == Err::<String, _>(GroupError::External(e)),
        Ok(None) => r matches Err(GroupError::NotFound(NotFound::GroupById(id))) && id@ == group_id,
        Ok(Some(row)) => r == Ok::<_, GroupError>(row.added_by_inbox_id),
    }
}

/// Whether a result is what is shown of a group when something is wrong with it.
pub open spec fn is_debug_info(
    epoch: Result<u64, GroupError>,
    cursor: Result<Vec<Cursor>, GroupError>,
    local_commit_log: Result<String, GroupError>,
    remote_commit_log: Result<String, GroupError>,
    found: Result<Option<StoredGroup>, ExternalError>,
    group_id: Seq<u8>,
    r: Result<ConversationDebugInfo, GroupError>,
) -> bool {
    match (epoch, cursor, local_commit_log, remote_commit_log) {
        (Err(e), _, _, _) => r == Err::<ConversationDebugInfo, _>(e),
        (_, Err(e), _, _) => r == Err::<ConversationDebugInfo, _>(e),
        (_, _, Err(e), _) => r == Err::<ConversationDebugInfo, _>(e),
        (_, _, _, Err(e)) => r == Err::<ConversationDebugInfo, _>(e),
        (Ok(epoch), Ok(cursor), Ok(local_commit_log), Ok(remote_commit_log)) => match found {
            Err(e) => r == Err::<ConversationDebugInfo, _>(GroupError::External(e)),
            Ok(None) => r matches Err(GroupError::NotFound(NotFound::GroupById(id))) && id@
                == group_id,
            Ok(Some(row)) => r == Ok::<_, GroupError>(
                (ConversationDebugInfo {
                    epoch,
                    maybe_forked: row.maybe_forked,
                    fork_details: row.fork_details,
                    is_commit_log_forked: row.is_commit_log_forked,
                    local_commit_log,
                    remote_commit_log,
                    cursor,
                }),
            ),
        },
    }
}

/// Whether handles are those of rows, in their order.
pub open spec fn are_handles_of(handles: Seq<MlsGroup>, rows: Seq<StoredGroup>) -> bool {
    &&& handles.len() == rows.len()
    &&& forall|i: int| 0 <= i < rows.len() ==> group::is_handle_of(#[trigger] handles[i], rows[i])
}

/// What is read of a stored group is what its row says. A client that was restored from a backup is not active,
/// whatever the tree of the group says; every other is as active as the tree says.
pub proof fn stored_groups_are_told_as_they_are(
    row: StoredGroup,
    group_id: Seq<u8>,
    active_in_tree: Result<bool, GroupError>,
    active: Result<bool, GroupError>,
    state: Result<GroupMembershipState, GroupError>,
    added_by: Result<String, GroupError>,
)
    requires
        is_activity(Ok(Some(row)), group_id, active_in_tree, active),
        tells_membership_state(Ok(Some(row)), group_id, state),
        tells_who_added(Ok(Some(row)), group_id, added_by),
    ensures
        row.membership_state == GroupMembershipState::Restored ==> active == Ok::<_, GroupError>(false),
        row.membership_state != GroupMembershipState::Restored ==> active == active_in_tree,
        state == Ok::<_, GroupError>(row.membership_state),
        added_by == Ok::<_, GroupError>(row.added_by_inbox_id),
{
}

/// Nothing is told of a group that is not stored: it is not found, under its own id. A store that fails is reported.
pub proof fn groups_that_are_not_stored_are_not_found(
    found: Result<Option<StoredGroup>, ExternalError>,
    group_id: Seq<u8>,
    active_in_tree: Result<bool, GroupError>,
    active: Result<bool, GroupError>,
    state: Result<GroupMembershipState, GroupError>,
    added_by: Result<String, GroupError>,
    row: Result<StoredGroup, GroupError>,
)
    requires
        is_activity(found, group_id, active_in_tree, active),
        tells_membership_state(found, group_id, state),
        tells_who_added(found, group_id, added_by),
        is_lookup(found, group_id, row),
    ensures
        found matches Ok(None) ==> {
            &&& active matches Err(GroupError::NotFound(NotFound::GroupById(id))) && id@ == group_id
            &&& state matches Err(GroupError::NotFound(NotFound::GroupById(id))) && id@ == group_id
            &&& added_by matches Err(GroupError::NotFound(NotFound::GroupById(id))) && id@ == group_id
            &&& row matches Err(GroupError::NotFound(NotFound::GroupById(id))) && id@ == group_id
        },
        found matches Err(e) ==> active == Err::<bool, _>(GroupError::External(e)) && state == Err::<
            GroupMembershipState,
            _,
        >(GroupError::External(e)) && added_by == Err::<String, _>(GroupError::External(e)) && row == Err::<
            StoredGroup,
            _,
        >(GroupError::External(e)),
        found matches Ok(Some(stored)) ==> row == Ok::<_, GroupError>(stored),
{
}

/// What is shown of a group is what its row and its logs say, and the first error hides it.
pub proof fn debug_info_shows_what_is_there(
    epoch: Result<u64, GroupError>,
    cursor: Result<Vec<Cursor>, GroupError>,
    local_commit_log: Result<String, GroupError>,
    remote_commit_log: Result<String, GroupError>,
    row: StoredGroup,
    group_id: Seq<u8>,
    r: Result<ConversationDebugInfo, GroupError>,
)
    requires
        is_debug_info(epoch, cursor, local_commit_log, remote_commit_log, Ok(Some(row)), group_id, r),
    ensures
        r is Ok <==> epoch is Ok && cursor is Ok && local_commit_log is Ok && remote_commit_log is Ok,
        r is Ok ==> {
            let info = r->Ok_0;
            &&& info.epoch == epoch->Ok_0
            &&& info.cursor == cursor->Ok_0
            &&& info.local_commit_log == local_commit_log->Ok_0
            &&& info.remote_commit_log == remote_commit_log->Ok_0
            &&& info.maybe_forked == row.maybe_forked
            &&& info.fork_details == row.fork_details
            &&& info.is_commit_log_forked == row.is_commit_log_forked
        },
        epoch is Err ==> r == Err::<ConversationDebugInfo, _>(epoch->Err_0),
        epoch is Ok && cursor is Err ==> r == Err::<ConversationDebugInfo, _>(cursor->Err_0),
{
}

/// The extension of a type that comes first is what is read: metadata and permissions that decode are those of the
/// group, and what does not decode, or is not there, is reported as such.
pub proof fn the_first_extension_is_read(list: Seq<Extension>, i: int)
    requires
        0 <= i < list.len(),
        forall|j: int| 0 <= j < i ==> (#[trigger] list[j]).spec_type() != list[i].spec_type(),
    ensures
        list[i] matches Extension::ImmutableMetadata(Decoded::Valid(m)) ==> fixed_metadata_of(list) == Ok::<
            _,
            MetadataPermissionsError,
        >(m),
        list[i] matches Extension::ImmutableMetadata(Decoded::Malformed(e)) ==> fixed_metadata_of(list) == Err::<
            GroupMetadata,
            _,
        >(MetadataPermissionsError::Metadata(e)),
        list[i] matches Extension::MutableMetadata(Decoded::Valid(m)) ==> group_config::metadata_of(list) == Ok::<
            _,
            GroupMutableMetadataError,
        >(m),
        list[i] matches Extension::MutableMetadata(Decoded::Malformed(e)) ==> group_config::metadata_of(list) == Err::<
            GroupMutableMetadata,
            _,
        >(GroupMutableMetadataError::Malformed(e)),
        list[i] matches Extension::GroupPermissions(Decoded::Valid(p)) ==> group_config::permissions_of(list) == Ok::<
            _,
            MetadataPermissionsError,
        >(p),
        list[i] matches Extension::GroupPermissions(Decoded::Malformed(e)) ==> group_config::permissions_of(list)
            == Err::<PolicySet, _>(MetadataPermissionsError::Permissions(e)),
{
    extensions::lemma_first_of(list, list[i].spec_type(), i);
}

/// What a group does not have cannot be read.
pub proof fn missing_extensions_are_reported(list: Seq<Extension>)
    ensures
        !extensions::has_type(list, ExtensionType::ImmutableMetadata) ==> fixed_metadata_of(list) == Err::<
            GroupMetadata,
            _,
        >(MetadataPermissionsError::MissingMetadata),
        !extensions::has_type(list, ExtensionType::MutableMetadata) ==> group_config::metadata_of(list) == Err::<
            GroupMutableMetadata,
            _,
        >(GroupMutableMetadataError::MissingExtension),
        !extensions::has_type(list, ExtensionType::GroupPermissions) ==> group_config::permissions_of(list) == Err::<
            PolicySet,
            _,
        >(MetadataPermissionsError::MissingPermissions),
{
}

/// The other direct conversations with a person are handed out one for each row, with the row's own id, in the order
/// of the rows.
pub proof fn every_duplicate_is_handed_out(handles: Seq<MlsGroup>, rows: Seq<StoredGroup>, i: int)
    requires
        are_handles_of(handles, rows),
    ensures
        handles.len() == rows.len(),
        0 <= i < rows.len() ==> handles[i].group_id@ == rows[i].id@ && handles[i].dm_id == rows[i].dm_id
            && handles[i].conversation_type == rows[i].conversation_type && handles[i].created_at_ns
            == rows[i].created_at_ns,
{
}

impl MlsGroup {
    /// The row of the group, which must be there.
    pub fn load(&self, found: Result<Option<StoredGroup>, ExternalError>) -> (r: Result<StoredGroup, GroupError>)
        ensures
            is_lookup(found, self.group_id@, r),
    {
        match found {
            Err(e) => Err(GroupError::External(e)),
            Ok(None) => Err(GroupError::NotFound(NotFound::GroupById(bytes::clone_bytes(self.group_id.as_slice())))),
            Ok(Some(row)) => Ok(row),
        }
    }

    /// Whether this client is active in the group. One that was restored from a backup is not active
    /// until it is added again, whatever the MLS engine says.
    pub fn is_active(
        &self,
        found: Result<Option<StoredGroup>, ExternalError>,
        active_in_tree: Result<bool, GroupError>,
    ) -> (r: Result<bool, GroupError>)
        ensures
            is_activity(found, self.group_id@, active_in_tree, r),
    {
        let row = match self.load(found) {
            Ok(row) => row,
            Err(e) => return Err(e),
        };
        match row.membership_state {
            GroupMembershipState::Restored => Ok(false),
            _ => active_in_tree,
        }
    }

    /// How this client takes part in the group.
    pub fn membership_state(&self, found: Result<Option<StoredGroup>, ExternalError>) -> (r: Result<
        GroupMembershipState,
        GroupError,
    >)
        ensures
            tells_membership_state(found, self.group_id@, r),
    {
        match self.load(found) {
            Ok(row) => Ok(row.membership_state),
            Err(e) => Err(e),
        }
    }

    /// The inbox that added this client to the group.
    pub fn added_by_inbox_id(&self, found: Result<Option<StoredGroup>, ExternalError>) -> (r: Result<
        String,
        GroupError,
    >)
        ensures
            tells_who_added(found, self.group_id@, r),
    {
        match self.load(found) {
            Ok(row) => Ok(row.added_by_inbox_id),
            Err(e) => Err(e),
        }
    }

    /// The fixed metadata of the group.
    pub fn metadata<'a>(&self, current: &'a Extensions) -> (r: Result<&'a GroupMetadata, GroupError>)
        ensures
            match fixed_metadata_of(current.list@) {
                Ok(m) => r matches Ok(found) && *found == m,
                Err(e) => r matches Err(given) && given == GroupError::MetadataPermissions(e),
            },
    {
        match extract_group_metadata(current) {
            Ok(m) => Ok(m),
            Err(e) => Err(GroupError::MetadataPermissions(e)),
        }
    }

    /// The mutable metadata of the group.
    pub fn mutable_metadata<'a>(&self, current: &'a Extensions) -> (r: Result<&'a GroupMutableMetadata, GroupError>)
        ensures
            match group_config::metadata_of(current.list@) {
                Ok(m) => r matches Ok(found) && *found == m,
                Err(e) => r matches Err(given) && given == GroupError::MetadataPermissions(
                    MetadataPermissionsError::Mutable(e),
                ),
            },
    {
        match extract_group_mutable_metadata(current) {
            Ok(m) => Ok(m),
            Err(e) => Err(GroupError::MetadataPermissions(MetadataPermissionsError::Mutable(e))),
        }
    }

    /// The permissions of the group.
    pub fn permissions<'a>(&self, current: &'a Extensions) -> (r: Result<&'a PolicySet, GroupError>)
        ensures
            match group_config::permissions_of(current.list@) {
                Ok(p) => r matches Ok(found) && *found == p,
                Err(e) => r matches Err(given) && given == GroupError::MetadataPermissions(e),
            },
    {
        match extract_group_permissions(current) {
            Ok(p) => Ok(p),
            Err(e) => Err(GroupError::MetadataPermissions(e)),
        }
    }

    /// What is shown of the group when something is wrong with it. The first of the given errors is
    /// reported.
    pub fn debug_info(
        &self,
        epoch: Result<u64, GroupError>,
        cursor: Result<Vec<Cursor>, GroupError>,
        local_commit_log: Result<String, GroupError>,
        remote_commit_log: Result<String, GroupError>,
        found: Result<Option<StoredGroup>, ExternalError>,
    ) -> (r: Result<ConversationDebugInfo, GroupError>)
        ensures
            is_debug_info(epoch, cursor, local_commit_log, remote_commit_log, found, self.group_id@, r),
    {
        let epoch: u64 = match epoch {
            Ok(epoch) => epoch,
            Err(e) => return Err(e),
        };
        let cursor = match cursor {
            Ok(cursor) => cursor,
            Err(e) => return Err(e),
        };
        let local_commit_log = match local_commit_log {
            Ok(log) => log,
            Err(e) => return Err(e),
        };
        let remote_commit_log = match remote_commit_log {
            Ok(log) => log,
            Err(e) => return Err(e),
        };
        match self.load(found) {
            Ok(row) => Ok(
                ConversationDebugInfo {
                    epoch,
                    maybe_forked: row.maybe_forked,
                    fork_details: row.fork_details,
                    is_commit_log_forked: row.is_commit_log_forked,
                    local_commit_log,
                    remote_commit_log,
                    cursor,
                },
            ),
            Err(e) => Err(e),
        }
    }

    /// Handles of the other direct conversations with the same person, in the order of their rows.
    pub fn find_duplicate_dms(&self, rows: Vec<StoredGroup>) -> (r: Vec<MlsGroup>)
        ensures
            are_handles_of(r@, rows@),
    {
        let mut out: Vec<MlsGroup> = Vec::new();
        let mut i: usize = 0;
        while i < rows.len()
            invariant
                i <= rows@.len(),
                out@.len() == i,
                forall|j: int| 0 <= j < i ==> group::is_handle_of(#[trigger] out@[j], rows@[j]),
            decreases rows@.len() - i,
        {
            out.push(
                MlsGroup::new(
                    bytes::clone_bytes(rows[i].id.as_slice()),
                    group::optional_text(&rows[i].dm_id),
                    rows[i].conversation_type,
                    rows[i].created_at_ns,
                ),
            );
            i += 1;
        }
        out
    }
}

} // verus!
