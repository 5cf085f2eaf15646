//! Rows of the local store and the values that they are made of.

use vstd::prelude::*;

verus! {

/// A place in the stream of one originator.
#[derive(Clone, Copy, Debug, PartialEq, Eq, Structural)]
pub struct Cursor {
    pub sequence_id: u64,
    pub originator_id: u32,
}

/// What a conversation is for.
#[derive(Clone, Copy, Debug, PartialEq, Eq, Structural)]
pub enum ConversationType {
    Group,
    Dm,
    Sync,
    Oneshot,
}

impl ConversationType {
    /// Whether the conversation only carries the client's own traffic and is never shown.
    pub fn is_virtual(&self) -> (r: bool)
        ensures
            r == (*self == ConversationType::Sync || *self == ConversationType::Oneshot),
    {
        match self {
            ConversationType::Sync => true,
            ConversationType::Oneshot => true,
            ConversationType::Group => false,
            ConversationType::Dm => false,
        }
    }
}

/// Whether this client takes part in a group.
#[derive(Clone, Copy, Debug, PartialEq, Eq, Structural)]
pub enum GroupMembershipState {
    Allowed,
    Rejected,
    Pending,
    Restored,
    PendingRemove,
}

/// What the user has decided about a conversation or a person.
#[derive(Clone, Copy, Debug, PartialEq, Eq, Structural)]
pub enum ConsentState {
    Unknown,
    Allowed,
    Denied,
}

/// What a consent record is about.
#[derive(Clone, Copy, Debug, PartialEq, Eq, Structural)]
pub enum ConsentType {
    ConversationId,
    InboxId,
}

/// A decision of the user about one entity.
#[derive(Clone, Debug)]
pub struct StoredConsentRecord {
    pub entity_type: ConsentType,
    pub state: ConsentState,
    pub entity: String,
    pub consented_at_ns: i64,
}

/// What a queued intent wants done.
#[derive(Clone, Copy, Debug, PartialEq, Eq, Structural)]
pub enum IntentKind {
    SendMessage,
    KeyUpdate,
    MetadataUpdate,
    UpdateGroupMembership,
    UpdateAdminList,
    UpdatePermission,
    ReaddInstallations,
    ProposeMemberUpdate,
    ProposeGroupContextExtensions,
    CommitPendingProposals,
}

/// How far a queued intent has come.
#[derive(Clone, Copy, Debug, PartialEq, Eq, Structural)]
pub enum IntentState {
    ToPublish,
    Published,
    Committed,
    Error,
    Processed,
}

/// A queued intent.
#[derive(Debug)]
pub struct StoredGroupIntent {
    pub id: i32,
    pub kind: IntentKind,
    pub group_id: Vec<u8>,
    pub data: Vec<u8>,
    pub state: IntentState,
    pub payload_hash: Option<Vec<u8>>,
    pub post_commit_data: Option<Vec<u8>>,
    pub publish_attempts: i32,
    pub staged_commit: Option<Vec<u8>>,
    pub published_in_epoch: Option<i64>,
    pub should_push: bool,
    pub sequence_id: Option<i64>,
    pub originator_id: Option<i64>,
}

/// Whether a message carries content or reports a change of the group.
#[derive(Clone, Copy, Debug, PartialEq, Eq, Structural)]
pub enum GroupMessageKind {
    Application,
    MembershipChange,
}

/// Whether a message has reached the network.
#[derive(Clone, Copy, Debug, PartialEq, Eq, Structural)]
pub enum DeliveryStatus {
    Unpublished,
    Published,
    Failed,
}

/// The kinds of content that the client treats in its own way.
#[derive(Clone, Copy, Debug, PartialEq, Eq, Structural)]
pub enum ContentType {
    Unknown,
    Text,
    Reply,
    Reaction,
    GroupUpdated,
    LeaveRequest,
    DeleteMessage,
    Other,
}

/// A message as it is kept.
#[derive(Debug)]
pub struct StoredGroupMessage {
    pub id: Vec<u8>,
    pub group_id: Vec<u8>,
    pub decrypted_message_bytes: Vec<u8>,
    pub sent_at_ns: i64,
    pub kind: GroupMessageKind,
    pub sender_installation_id: Vec<u8>,
    pub sender_inbox_id: String,
    pub delivery_status: DeliveryStatus,
    pub content_type: ContentType,
    pub version_major: i32,
    pub version_minor: i32,
    pub authority_id: String,
    pub reference_id: Option<Vec<u8>>,
    pub sequence_id: i64,
    pub originator_id: i64,
    pub expire_at_ns: Option<i64>,
    pub inserted_at_ns: i64,
    pub should_push: bool,
}

/// How a fetched commit fared.
#[derive(Clone, Copy, Debug, PartialEq, Eq, Structural)]
pub enum CommitResult {
    Unknown,
    Success,
    WrongEpoch,
    Undecryptable,
    Invalid,
}

/// How far each originator has been read.
#[derive(Clone, Debug)]
pub struct GlobalCursor {
    pub positions: Vec<Cursor>,
}

/// The last entry for an originator; the start, where there is none.
pub open spec fn position_in(positions: Seq<Cursor>, originator_id: u32) -> u64
    decreases positions.len(),
{
    if positions.len() == 0 {
        0
    } else if positions.last().originator_id == originator_id {
        positions.last().sequence_id
    } else {
        position_in(positions.drop_last(), originator_id)
    }
}

proof fn lemma_position_from(positions: Seq<Cursor>, originator_id: u32, n: int)
    requires
        0 <= n <= positions.len(),
        forall|i: int| n <= i < positions.len() ==> (#[trigger] positions[i]).originator_id != originator_id,
    ensures
        position_in(positions, originator_id) == position_in(positions.take(n), originator_id),
    decreases positions.len() - n,
{
    if n < positions.len() {
        let shorter = positions.drop_last();
        assert(shorter.take(n) =~= positions.take(n));
        assert(positions.last() == positions[positions.len() - 1]);
        assert forall|i: int| n <= i < shorter.len() implies (#[trigger] shorter[i]).originator_id != originator_id by {
            assert(shorter[i] == positions[i]);
        }
        lemma_position_from(shorter, originator_id, n);
    } else {
        assert(positions.take(n) =~= positions);
    }
}

proof fn lemma_position_update(positions: Seq<Cursor>, at: int, cursor: Cursor, other: u32)
    requires
        0 <= at < positions.len(),
        positions[at].originator_id == cursor.originator_id,
        forall|i: int|
            at < i < positions.len() ==> (#[trigger] positions[i]).originator_id != cursor.originator_id,
    ensures
        position_in(positions.update(at, cursor), other) == (if other == cursor.originator_id {
            cursor.sequence_id
        } else {
            position_in(positions, other)
        }),
    decreases positions.len(),
{
    let new = positions.update(at, cursor);
    if other == cursor.originator_id {
        lemma_position_from(new, other, at + 1);
        assert(new.take(at + 1).last() == cursor);
    } else if at == positions.len() - 1 {
        assert(new.drop_last() =~= positions.drop_last());
    } else {
        assert(new.drop_last() =~= positions.drop_last().update(at, cursor));
        assert(new.last() == positions.last());
        lemma_position_update(positions.drop_last(), at, cursor, other);
    }
}

impl GlobalCursor {
    /// How far an originator has been read.
    pub open spec fn at(self, originator_id: u32) -> u64 {
        position_in(self.positions@, originator_id)
    }

    /// The start of every originator.
    pub fn new() -> (r: Self)
        ensures
            r.positions@.len() == 0,
            forall|o: u32| #[trigger] r.at(o) == 0,
    {
        GlobalCursor { positions: Vec::new() }
    }

    /// A fresh copy.
    pub fn duplicate(&self) -> (r: Self)
        ensures
            r.positions@ == self.positions@,
    {
        let mut positions: Vec<Cursor> = Vec::new();
        let mut i: usize = 0;
        while i < self.positions.len()
            invariant
                i <= self.positions@.len(),
                positions@ == self.positions@.take(i as int),
            decreases self.positions@.len() - i,
        {
            positions.push(self.positions[i]);
            assert(positions@ =~= self.positions@.take(i + 1));
            i += 1;
        }
        assert(positions@ =~= self.positions@);
        GlobalCursor { positions }
    }

    /// Moves one originator to a place; the others stay where they are.
    pub fn set(&mut self, cursor: Cursor)
        ensures
            forall|o: u32|
                #[trigger] final(self).at(o) == (if o == cursor.originator_id {
                    cursor.sequence_id
                } else {
                    old(self).at(o)
                }),
    {
        let ghost before = self.positions@;
        let mut i: usize = self.positions.len();
        let mut found: bool = false;
        while i > 0 && !found
            invariant
                i <= self.positions@.len(),
                self.positions@ == before,
                found ==> i < before.len() && before[i as int].originator_id == cursor.originator_id,
                forall|j: int|
                    i <= j < before.len() && !(found && j == i) ==> (#[trigger] before[j]).originator_id
                        != cursor.originator_id,
            decreases i, (if found { 0int } else { 1int }),
        {
            if self.positions[i - 1].originator_id == cursor.originator_id {
                found = true;
            }
            i -= 1;
        }
        if found {
            proof {
                assert forall|o: u32|
                    #[trigger] position_in(before.update(i as int, cursor), o) == (if o == cursor.originator_id {
                        cursor.sequence_id
                    } else {
                        position_in(before, o)
                    }) by {
                    lemma_position_update(before, i as int, cursor, o);
                }
            }
            self.positions.set(i, cursor);
        } else {
            self.positions.push(cursor);
            assert(self.positions@.drop_last() =~= before);
        }
    }
}

/// A group as it is kept.
#[derive(Debug)]
pub struct StoredGroup {
    pub id: Vec<u8>,
    pub created_at_ns: i64,
    pub membership_state: GroupMembershipState,
    pub added_by_inbox_id: String,
    pub conversation_type: ConversationType,
    /// What the direct conversations of the same two people have in common.
    pub dm_id: Option<String>,
    pub message_disappear_from_ns: Option<i64>,
    pub message_disappear_in_ns: Option<i64>,
    pub should_publish_commit_log: bool,
    /// The welcome that brought the group, where one did.
    pub sequence_id: Option<i64>,
    pub originator_id: Option<i64>,
    pub maybe_forked: bool,
    pub fork_details: String,
    pub is_commit_log_forked: Option<bool>,
}

/// A deletion of a message as it is kept.
#[derive(Debug)]
pub struct StoredMessageDeletion {
    pub id: Vec<u8>,
    pub group_id: Vec<u8>,
    pub deleted_message_id: Vec<u8>,
    pub deleted_by_inbox_id: String,
    pub is_super_admin_deletion: bool,
    pub deleted_at_ns: i64,
}

/// The type of an encoded content.
#[derive(Debug)]
pub struct ContentTypeId {
    pub authority_id: String,
    pub content_type: ContentType,
    pub version_major: u32,
    pub version_minor: u32,
}

/// An attribute that an intent of this client sets.
#[derive(Debug)]
pub struct UpdateMetadataIntentData {
    pub field_name: String,
    pub field_value: String,
}

/// A change of the user's preferences.
#[derive(Clone, Debug)]
pub enum PreferenceUpdate {
    Consent(StoredConsentRecord),
    Hmac { key: Vec<u8>, cycled_at_ns: i64 },
}

impl StoredConsentRecord {
    /// A fresh copy.
    pub fn duplicate(&self) -> (r: Self)
        ensures
            r == *self,
    {
        StoredConsentRecord {
            entity_type: self.entity_type,
            state: self.state,
            entity: self.entity.clone(),
            consented_at_ns: self.consented_at_ns,
        }
    }
}

} // verus!
