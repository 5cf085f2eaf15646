//! The handle of one conversation.

use vstd::prelude::*;
use vstd::string::*;
use crate::bytes;
use crate::error::{ExternalError, NotFound};
use crate::groups::error::GroupError;
use crate::records::{ConversationType, Cursor, GlobalCursor, StoredGroup, StoredGroupMessage};

verus! {

/// The longest description of a group, in bytes.
pub const MAX_GROUP_DESCRIPTION_LENGTH: usize = 1000;

/// The longest name of a group, in bytes.
pub const MAX_GROUP_NAME_LENGTH: usize = 100;

/// The longest address of a group's image, in bytes.
pub const MAX_GROUP_IMAGE_URL_LENGTH: usize = 2048;

/// The longest application data of a group, in bytes.
pub const MAX_APP_DATA_LENGTH: usize = 8192;

/// The handle of one conversation. It holds what identifies the conversation; its state is loaded
/// where it is needed.
#[derive(Debug)]
pub struct MlsGroup {
    pub group_id: Vec<u8>,
    pub dm_id: Option<String>,
    pub conversation_type: ConversationType,
    pub created_at_ns: i64,
    /// Where a stream takes the conversation up.
    pub stream_seed_cursor: Option<GlobalCursor>,
    /// From when on a stream repeats the messages of the conversation.
    pub stream_replay_after_ns: Option<i64>,
}

/// Whether a handle is that of a stored group.
pub open spec fn is_handle_of(group: MlsGroup, row: StoredGroup) -> bool {
    &&& group.group_id@ == row.id@
    &&& group.dm_id == row.dm_id
    &&& group.conversation_type == row.conversation_type
    &&& group.created_at_ns == row.created_at_ns
    &&& group.stream_seed_cursor is None
    &&& group.stream_replay_after_ns is None
}

/// Whether an outcome is a handle of a group that must be stored, with its row.
pub open spec fn is_cached(
    group_id: Seq<u8>,
    found: Result<Option<StoredGroup>, ExternalError>,
    r: Result<(MlsGroup, StoredGroup), GroupError>,
) -> bool {
    match found {
        Err(e) => r == Err::<(MlsGroup, StoredGroup), _>(GroupError::External(e)),
        Ok(None) => r matches Err(GroupError::NotFound(NotFound::GroupById(id))) && id@ == group_id,
        Ok(Some(row)) => {
            &&& r matches Ok((group, stored))
            &&& stored == row
            &&& group.group_id@ == group_id
            &&& group.dm_id == row.dm_id
            &&& group.conversation_type == row.conversation_type
            &&& group.created_at_ns == row.created_at_ns
            &&& group.stream_seed_cursor is None
            &&& group.stream_replay_after_ns is None
        },
    }
}

/// A handle of a stored group stands for this group, of the kind and with the age that the row says; there is none of
/// a group that is not stored.
pub proof fn handles_stand_for_stored_groups(
    group_id: Seq<u8>,
    found: Result<Option<StoredGroup>, ExternalError>,
    r: Result<(MlsGroup, StoredGroup), GroupError>,
)
    requires
        is_cached(group_id, found, r),
    ensures
        r is Ok <==> (found matches Ok(Some(_))),
        found matches Ok(Some(row)) ==> {
            let (handle, stored) = r->Ok_0;
            &&& stored == row
            &&& handle.group_id@ == group_id
            &&& handle.conversation_type == row.conversation_type
            &&& handle.created_at_ns == row.created_at_ns
            &&& handle.dm_id == row.dm_id
            &&& row.id@ == group_id ==> is_handle_of(handle, row)
        },
        found matches Ok(None) ==> (r matches Err(GroupError::NotFound(NotFound::GroupById(id))) && id@ == group_id),
        found matches Err(e) ==> r == Err::<(MlsGroup, StoredGroup), _>(GroupError::External(e)),
{
}

/// A copy of an optional text.
pub fn optional_text(text: &Option<String>) -> (r: Option<String>)
    ensures
        r == *text,
{
    match text {
        Some(t) => Some(t.clone()),
        None => None,
    }
}

impl MlsGroup {
    /// A handle, without a look at whether the group is stored.
    pub fn new(
        group_id: Vec<u8>,
        dm_id: Option<String>,
        conversation_type: ConversationType,
        created_at_ns: i64,
    ) -> (r: Self)
        ensures
            r == (MlsGroup {
                group_id,
                dm_id,
                conversation_type,
                created_at_ns,
                stream_seed_cursor: None,
                stream_replay_after_ns: None,
            }),
    {
        MlsGroup {
            group_id,
            dm_id,
            conversation_type,
            created_at_ns,
            stream_seed_cursor: None,
            stream_replay_after_ns: None,
        }
    }

    /// A handle of a group that must be stored, with its row. `found` is what the store has for the
    /// id.
    pub fn new_cached(group_id: &[u8], found: Result<Option<StoredGroup>, ExternalError>) -> (r: Result<
        (Self, StoredGroup),
        GroupError,
    >)
        ensures
            is_cached(group_id@, found, r),
    {
        match found {
            Err(e) => Err(GroupError::External(e)),
            Ok(None) => Err(GroupError::NotFound(NotFound::GroupById(bytes::clone_bytes(group_id)))),
            Ok(Some(row)) => {
                let group = MlsGroup::new(
                    bytes::clone_bytes(group_id),
                    optional_text(&row.dm_id),
                    row.conversation_type,
                    row.created_at_ns,
                );
                Ok((group, row))
            },
        }
    }

    /// Whether two handles stand for the same conversation: by their ids alone.
    pub fn is_same_group(&self, other: &MlsGroup) -> (r: bool)
        ensures
            r == (self.group_id@ == other.group_id@),
    {
        bytes::bytes_equal(self.group_id.as_slice(), other.group_id.as_slice())
    }

    /// The handle with another place at which a stream takes it up.
    pub fn with_stream_seed_cursor(self, cursor: Option<GlobalCursor>) -> (r: Self)
        ensures
            r == (MlsGroup { stream_seed_cursor: cursor, ..self }),
    {
        MlsGroup { stream_seed_cursor: cursor, ..self }
    }

    /// Where a stream takes the conversation up.
    pub fn stream_seed_cursor(&self) -> (r: Option<GlobalCursor>)
        ensures
            match self.stream_seed_cursor {
                Some(c) => r is Some && r->0.positions@ == c.positions@,
                None => r is None,
            },
    {
        match &self.stream_seed_cursor {
            Some(c) => Some(c.duplicate()),
            None => None,
        }
    }

    /// The handle with another time from which a stream repeats its messages.
    pub fn with_stream_replay_after_ns(self, replay_after_ns: Option<i64>) -> (r: Self)
        ensures
            r == (MlsGroup { stream_replay_after_ns: replay_after_ns, ..self }),
    {
        MlsGroup { stream_replay_after_ns: replay_after_ns, ..self }
    }

    /// From when on a stream repeats the messages of the conversation.
    pub fn stream_replay_after_ns(&self) -> (r: Option<i64>)
        ensures
            r == self.stream_replay_after_ns,
    {
        self.stream_replay_after_ns
    }
}

/// A conversation in a list.
#[derive(Debug)]
pub struct ConversationListItem {
    pub group: MlsGroup,
    pub last_message: Option<StoredGroupMessage>,
    pub is_commit_log_forked: Option<bool>,
}

/// What is shown of a conversation when something is wrong with it.
#[derive(Debug)]
pub struct ConversationDebugInfo {
    pub epoch: u64,
    pub maybe_forked: bool,
    pub fork_details: String,
    pub is_commit_log_forked: Option<bool>,
    pub local_commit_log: String,
    pub remote_commit_log: String,
    pub cursor: Vec<Cursor>,
}

/// A change of the lists of admins.
#[derive(Clone, Copy, Debug, PartialEq, Eq, Structural)]
pub enum UpdateAdminListType {
    Add,
    Remove,
    AddSuper,
    RemoveSuper,
}

} // verus!
