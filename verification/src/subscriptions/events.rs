//! Events that stay within this client.

use vstd::prelude::*;
use vstd::string::*;
use crate::byte_map;
use crate::byte_map::ByteMap;
use crate::bytes;
use crate::codec;
use crate::error::ExternalError;
use crate::records::{
    ConsentState, ConsentType, ConversationType, GlobalCursor, PreferenceUpdate, StoredConsentRecord, StoredGroup,
};

verus! {

/// Why an event was not delivered.
#[derive(Debug)]
pub enum LocalEventError {
    Send(String),
}

impl LocalEventError {
    /// Whether trying again can help: always.
    pub fn is_retryable(&self) -> (r: bool)
        ensures
            r,
    {
        true
    }
}

/// An event for all streams of this client; `M` is a decoded message.
#[derive(Clone, Debug)]
pub enum LocalEvents<M> {
    /// A group was created.
    NewGroup(Vec<u8>),
    PreferencesChanged(PreferenceUpdatesEvent),
    /// A message was deleted.
    MessageDeleted(Box<M>),
}

/// A change of preferences, with the conversations that it affects.
#[derive(Clone, Debug)]
pub struct PreferenceUpdatesEvent {
    pub updates: Vec<PreferenceUpdate>,
    /// How far each affected conversation was read when its preference changed.
    pub conversation_cursors: ByteMap<Option<GlobalCursor>>,
    /// From when on the messages of each affected conversation are repeated, if they are.
    pub conversation_replay_after_ns: ByteMap<Option<i64>>,
}

impl PreferenceUpdatesEvent {
    /// Both maps speak of the same conversations.
    pub open spec fn wf(self) -> bool {
        &&& self.conversation_cursors.wf()
        &&& self.conversation_replay_after_ns.wf()
        &&& self.conversation_cursors@.dom() == self.conversation_replay_after_ns@.dom()
    }
}

/// An event for the worker that keeps the devices of the user in step.
#[derive(Clone, Debug)]
pub enum SyncWorkerEvent {
    NewSyncGroupFromWelcome(Vec<u8>),
    NewSyncGroupMsg,
    /// Preferences for the other devices.
    SyncPreferences(Vec<PreferenceUpdate>),
    CycleHMAC,
    Tick,
}

/// Which group a record of consent has to be looked up as.
#[derive(Debug)]
pub enum PreferenceLookup {
    /// The conversation with this id, or the one that stands for it.
    Stitched(Vec<u8>),
    /// The active direct conversation with the person of the record.
    ActiveDm,
    /// The record names no conversation.
    Nothing,
}

/// Whether a lookup is that for a record of consent.
pub open spec fn is_lookup_of(record: StoredConsentRecord, r: PreferenceLookup) -> bool {
    let t = vstd::utf8::encode_utf8(record.entity@);
    match record.entity_type {
        ConsentType::InboxId => r is ActiveDm,
        ConsentType::ConversationId => match r {
            PreferenceLookup::Stitched(id) => t.len() % 2 == 0 && codec::all_hex(t) && id@ == codec::hex_bytes(t),
            PreferenceLookup::Nothing => t.len() % 2 != 0 || !codec::all_hex(t),
            PreferenceLookup::ActiveDm => false,
        },
    }
}

/// A record about a conversation is looked up under the id that it was made for, and a record about a person as the
/// direct conversation with that person.
pub proof fn records_are_looked_up_as_what_they_are_about(
    record: StoredConsentRecord,
    group_id: Seq<u8>,
    r: PreferenceLookup,
)
    requires
        is_lookup_of(record, r),
    ensures
        record.entity_type == ConsentType::InboxId ==> r is ActiveDm,
        record.entity_type == ConsentType::ConversationId && record.entity@ == codec::hex_text(group_id) ==> (r matches
            PreferenceLookup::Stitched(id) && id@ == group_id),
        r is ActiveDm ==> record.entity_type == ConsentType::InboxId,
{
    codec::hex_round_trip(group_id);
}

/// A record about a conversation affects the group that was found for it, unless this is one between the devices of the
/// user; a record about a person affects only the direct conversation with this person.
pub proof fn records_affect_what_they_are_about(record: StoredConsentRecord, found: FoundConversation)
    ensures
        found.group is None ==> affected_id(record, found) is None,
        found.group matches Some(group) ==> {
            &&& record.entity_type == ConsentType::ConversationId && group.conversation_type != ConversationType::Sync
                ==> affected_id(record, found) == Some(group.id)
            &&& record.entity_type == ConsentType::ConversationId && group.conversation_type == ConversationType::Sync
                ==> affected_id(record, found) is None
            &&& record.entity_type == ConsentType::InboxId && group.conversation_type == ConversationType::Dm
                && group.dm_id is Some && found.peer_inbox_id@ == record.entity@ ==> affected_id(record, found) == Some(
                group.id,
            )
            &&& record.entity_type == ConsentType::InboxId && (group.conversation_type != ConversationType::Dm
                || group.dm_id is None || found.peer_inbox_id@ != record.entity@) ==> affected_id(record, found) is None
        },
{
}

/// Which group a record of consent has to be looked up as. A record about a conversation names it by
/// the hexadecimal text of its id.
pub fn preference_lookup(record: &StoredConsentRecord) -> (r: PreferenceLookup)
    ensures
        is_lookup_of(*record, r),
{
    match record.entity_type {
        ConsentType::InboxId => PreferenceLookup::ActiveDm,
        ConsentType::ConversationId => match codec::hex_decode(record.entity.as_str()) {
            Ok(id) => PreferenceLookup::Stitched(id),
            Err(_) => PreferenceLookup::Nothing,
        },
    }
}

/// Whether a record of consent affects a group that was found for it. Groups between the devices of
/// the user are not conversations; a record about a person affects only the direct conversation with
/// that person.
pub open spec fn affects(record: StoredConsentRecord, group: StoredGroup, peer_inbox_id: Seq<char>) -> bool {
    match record.entity_type {
        ConsentType::ConversationId => group.conversation_type != ConversationType::Sync,
        ConsentType::InboxId => group.conversation_type == ConversationType::Dm && group.dm_id is Some
            && peer_inbox_id == record.entity@,
    }
}

/// What the lookup for a record of consent gave, and the other person of a direct conversation that it
/// gave.
#[derive(Debug)]
pub struct FoundConversation {
    pub group: Option<StoredGroup>,
    pub peer_inbox_id: String,
}

/// The conversation that a record of consent affects, if it affects one.
pub open spec fn affected_id(record: StoredConsentRecord, found: FoundConversation) -> Option<Vec<u8>> {
    match found.group {
        Some(group) => if affects(record, group, found.peer_inbox_id@) {
            Some(group.id)
        } else {
            None
        },
        None => None,
    }
}

/// The conversation that a record of consent affects, if it affects one. `found` is what its lookup gave.
pub fn affected_conversation_ids_for_preference<'a>(record: &StoredConsentRecord, found: &'a FoundConversation) -> (r:
    Option<&'a Vec<u8>>)
    ensures
        match r {
            Some(id) => affected_id(*record, *found) == Some(*id),
            None => affected_id(*record, *found) is None,
        },
{
    let group = match &found.group {
        Some(group) => group,
        None => return None,
    };
    let affected: bool = match record.entity_type {
        ConsentType::ConversationId => group.conversation_type != ConversationType::Sync,
        ConsentType::InboxId => group.conversation_type == ConversationType::Dm && group.dm_id.is_some()
            && bytes::text_equal(found.peer_inbox_id.as_str(), record.entity.as_str()),
    };
    if affected {
        Some(&group.id)
    } else {
        None
    }
}

/// The conversation that each update affects; only records of consent affect one.
pub open spec fn affected_of(updates: Seq<PreferenceUpdate>, found: Seq<FoundConversation>) -> Seq<Option<Vec<u8>>> {
    Seq::new(
        updates.len(),
        |i: int|
            match updates[i] {
                PreferenceUpdate::Consent(record) => affected_id(record, found[i]),
                _ => None,
            },
    )
}

/// Whether an update is a record of consent that affects a conversation.
pub open spec fn update_affects(update: PreferenceUpdate, affected: Option<Vec<u8>>, id: Seq<u8>) -> bool {
    update is Consent && affected is Some && affected->0@ == id
}

/// Whether one of the first `n` updates affects a conversation.
pub open spec fn is_affected(
    updates: Seq<PreferenceUpdate>,
    affected: Seq<Option<Vec<u8>>>,
    n: int,
    id: Seq<u8>,
) -> bool {
    exists|i: int| 0 <= i < n && #[trigger] update_affects(updates[i], affected[i], id)
}

/// When the user last allowed a conversation, by the first `n` updates.
pub open spec fn last_allowed(
    updates: Seq<PreferenceUpdate>,
    affected: Seq<Option<Vec<u8>>>,
    n: int,
    id: Seq<u8>,
) -> Option<i64>
    decreases n,
{
    if n <= 0 {
        None
    } else {
        match updates[n - 1] {
            PreferenceUpdate::Consent(record) => if update_affects(updates[n - 1], affected[n - 1], id)
                && record.state == ConsentState::Allowed {
                Some(record.consented_at_ns)
            } else {
                last_allowed(updates, affected, n - 1, id)
            },
            _ => last_allowed(updates, affected, n - 1, id),
        }
    }
}

fn replay_times(updates: &Vec<PreferenceUpdate>, found: &Vec<FoundConversation>) -> (r: ByteMap<Option<i64>>)
    requires
        found@.len() == updates@.len(),
    ensures
        r.wf(),
        forall|id: Seq<u8>|
            #[trigger] r@.dom().contains(id) == is_affected(
                updates@,
                affected_of(updates@, found@),
                updates@.len() as int,
                id,
            ),
        forall|id: Seq<u8>|
            r@.dom().contains(id) ==> #[trigger] r@[id] == last_allowed(
                updates@,
                affected_of(updates@, found@),
                updates@.len() as int,
                id,
            ),
{
    let ghost affected = affected_of(updates@, found@);
    let mut times: ByteMap<Option<i64>> = ByteMap::new();
    let mut i: usize = 0;
    while i < updates.len()
        invariant
            i <= updates@.len(),
            found@.len() == updates@.len(),
            affected == affected_of(updates@, found@),
            times.wf(),
            forall|id: Seq<u8>| #[trigger] times@.dom().contains(id) == is_affected(updates@, affected, i as int, id),
            forall|id: Seq<u8>|
                times@.dom().contains(id) ==> #[trigger] times@[id] == last_allowed(updates@, affected, i as int, id),
        decreases updates@.len() - i,
    {
        let ghost before = times@;
        if let PreferenceUpdate::Consent(record) = &updates[i] {
            if let Some(group_id) = affected_conversation_ids_for_preference(record, &found[i]) {
                let replay_after_ns: Option<i64> = if record.state == ConsentState::Allowed {
                    Some(record.consented_at_ns)
                } else {
                    None
                };
                if replay_after_ns.is_some() || !times.contains_key(group_id.as_slice()) {
                    times.insert(bytes::clone_bytes(group_id.as_slice()), replay_after_ns);
                }
            }
        }
        proof {
            assert forall|id: Seq<u8>| #[trigger] times@.dom().contains(id) == is_affected(
                updates@,
                affected,
                i + 1,
                id,
            ) by {
                lemma_affected_step(updates@, affected, i as int, id);
                assert(before.dom().contains(id) == is_affected(updates@, affected, i as int, id));
            }
            assert forall|id: Seq<u8>| times@.dom().contains(id) implies #[trigger] times@[id] == last_allowed(
                updates@,
                affected,
                i + 1,
                id,
            ) by {
                lemma_affected_step(updates@, affected, i as int, id);
                assert(before.dom().contains(id) == is_affected(updates@, affected, i as int, id));
                if before.dom().contains(id) {
                    assert(before[id] == last_allowed(updates@, affected, i as int, id));
                } else {
                    lemma_unaffected(updates@, affected, i as int, id);
                }
            }
        }
        i += 1;
    }
    times
}

proof fn lemma_affected_step(updates: Seq<PreferenceUpdate>, affected: Seq<Option<Vec<u8>>>, n: int, id: Seq<u8>)
    requires
        0 <= n < updates.len(),
    ensures
        is_affected(updates, affected, n + 1, id) == (is_affected(updates, affected, n, id) || update_affects(
            updates[n],
            affected[n],
            id,
        )),
{
    if is_affected(updates, affected, n, id) {
        let i = choose|i: int| 0 <= i < n && #[trigger] update_affects(updates[i], affected[i], id);
        assert(0 <= i < n + 1 && update_affects(updates[i], affected[i], id));
    }
    if is_affected(updates, affected, n + 1, id) {
        let i = choose|i: int| 0 <= i < n + 1 && #[trigger] update_affects(updates[i], affected[i], id);
        if i < n {
            assert(0 <= i < n && update_affects(updates[i], affected[i], id));
        }
    }
}

proof fn lemma_unaffected(updates: Seq<PreferenceUpdate>, affected: Seq<Option<Vec<u8>>>, n: int, id: Seq<u8>)
    requires
        0 <= n <= updates.len(),
        !is_affected(updates, affected, n, id),
    ensures
        last_allowed(updates, affected, n, id) is None,
    decreases n,
{
    if n > 0 {
        lemma_affected_step(updates, affected, n - 1, id);
        lemma_unaffected(updates, affected, n - 1, id);
    }
}

/// Whether two optional cursors are at the same places.
pub open spec fn same_cursor(a: Option<GlobalCursor>, b: Option<GlobalCursor>) -> bool {
    match (a, b) {
        (Some(a), Some(b)) => a.positions@ == b.positions@,
        (None, None) => true,
        _ => false,
    }
}

/// How far a conversation was read, if that is known.
pub open spec fn known_cursor(current: Map<Seq<u8>, GlobalCursor>, id: Seq<u8>) -> Option<GlobalCursor> {
    if current.dom().contains(id) {
        Some(current[id])
    } else {
        None
    }
}

/// Whether an event is that of updates: it speaks of exactly the conversations that they affect, with
/// the cursors that these had, and asks for a repetition from when the user last allowed each, if the
/// user did.
pub open spec fn is_event_of(
    event: PreferenceUpdatesEvent,
    updates: Seq<PreferenceUpdate>,
    affected: Seq<Option<Vec<u8>>>,
    current: Map<Seq<u8>, GlobalCursor>,
) -> bool {
    let n = updates.len() as int;
    &&& event.wf()
    &&& event.updates@ == updates
    &&& forall|id: Seq<u8>|
        #[trigger] event.conversation_cursors@.dom().contains(id) == is_affected(updates, affected, n, id)
    &&& forall|id: Seq<u8>|
        event.conversation_cursors@.dom().contains(id) ==> same_cursor(
            #[trigger] event.conversation_cursors@[id],
            known_cursor(current, id),
        )
    &&& forall|id: Seq<u8>|
        event.conversation_replay_after_ns@.dom().contains(id)
            ==> #[trigger] event.conversation_replay_after_ns@[id] == last_allowed(updates, affected, n, id)
}

/// The conversations that updates affect.
pub fn affected_conversations(updates: &Vec<PreferenceUpdate>, found: &Vec<FoundConversation>) -> (r: Vec<Vec<u8>>)
    requires
        found@.len() == updates@.len(),
    ensures
        bytes::byte_views(r@).no_duplicates(),
        forall|id: Seq<u8>|
            #[trigger] bytes::byte_views(r@).contains(id) == is_affected(
                updates@,
                affected_of(updates@, found@),
                updates@.len() as int,
                id,
            ),
{
    let times = replay_times(updates, found);
    let mut ids: Vec<Vec<u8>> = Vec::new();
    let mut i: usize = 0;
    while i < times.entries.len()
        invariant
            i <= times.entries@.len(),
            times.wf(),
            ids@.len() == i,
            forall|j: int| 0 <= j < i ==> (#[trigger] ids@[j])@ == times.entries@[j].0@,
        decreases times.entries@.len() - i,
    {
        ids.push(bytes::clone_bytes(times.entries[i].0.as_slice()));
        i += 1;
    }
    proof {
        let views = bytes::byte_views(ids@);
        assert forall|j: int| 0 <= j < ids@.len() implies #[trigger] views[j] == times.entries@[j].0@ by {
            assert(ids@[j]@ == times.entries@[j].0@);
        }
        assert forall|id: Seq<u8>| #[trigger] views.contains(id) == times@.dom().contains(id) by {
            if views.contains(id) {
                let j = choose|j: int| 0 <= j < views.len() && views[j] == id;
                assert(byte_map::is_key_at(times.entries@, id, j));
            }
            if byte_map::has_key(times.entries@, id) {
                let j = choose|j: int| byte_map::is_key_at(times.entries@, id, j);
                assert(views[j] == id);
            }
        }
    }
    ids
}

/// How far conversations have been read; nothing is known where that could not be read.
pub open spec fn known_cursors(current: Result<ByteMap<GlobalCursor>, ExternalError>) -> Map<Seq<u8>, GlobalCursor> {
    match current {
        Ok(map) => map@,
        Err(_) => Map::empty(),
    }
}

/// The event of updates of the preferences. `found` gives for each update what its lookup gave, and
/// `current` how far the affected conversations have been read; that this could not be read is no reason
/// to keep the event back.
pub fn preference_updates_event(
    updates: Vec<PreferenceUpdate>,
    found: &Vec<FoundConversation>,
    current: Result<ByteMap<GlobalCursor>, ExternalError>,
) -> (r: PreferenceUpdatesEvent)
    requires
        found@.len() == updates@.len(),
        current matches Ok(map) ==> map.wf(),
    ensures
        is_event_of(r, updates@, affected_of(updates@, found@), known_cursors(current)),
{
    let current = match current {
        Ok(map) => map,
        Err(_) => ByteMap::new(),
    };
    let times = replay_times(&updates, found);
    let mut cursors: ByteMap<Option<GlobalCursor>> = ByteMap::new();
    let mut i: usize = 0;
    while i < times.entries.len()
        invariant
            i <= times.entries@.len(),
            times.wf(),
            current.wf(),
            cursors.wf(),
            forall|id: Seq<u8>|
                #[trigger] cursors@.dom().contains(id) == byte_map::has_key(times.entries@.take(i as int), id),
            forall|id: Seq<u8>|
                cursors@.dom().contains(id) ==> same_cursor(#[trigger] cursors@[id], known_cursor(current@, id)),
        decreases times.entries@.len() - i,
    {
        let id = times.entries[i].0.as_slice();
        let cursor: Option<GlobalCursor> = match current.get(id) {
            Some(c) => Some(c.duplicate()),
            None => None,
        };
        let ghost before = cursors@;
        cursors.insert(bytes::clone_bytes(id), cursor);
        proof {
            let shorter = times.entries@.take(i as int);
            let longer = times.entries@.take(i + 1);
            assert forall|k: Seq<u8>| #[trigger] cursors@.dom().contains(k) == byte_map::has_key(longer, k) by {
                assert(before.dom().contains(k) == byte_map::has_key(shorter, k));
                if byte_map::has_key(shorter, k) {
                    let j = choose|j: int| byte_map::is_key_at(shorter, k, j);
                    assert(byte_map::is_key_at(longer, k, j));
                }
                if byte_map::has_key(longer, k) {
                    let j = choose|j: int| byte_map::is_key_at(longer, k, j);
                    if j < i {
                        assert(byte_map::is_key_at(shorter, k, j));
                    }
                }
                if k == id@ {
                    assert(byte_map::is_key_at(longer, k, i as int));
                }
            }
        }
        i += 1;
    }
    assert(times.entries@.take(i as int) =~= times.entries@);
    assert(cursors@.dom() =~= times@.dom());
    PreferenceUpdatesEvent { updates, conversation_cursors: cursors, conversation_replay_after_ns: times }
}

/// Whether an update allows a conversation.
pub open spec fn allows(updates: Seq<PreferenceUpdate>, affected: Seq<Option<Vec<u8>>>, i: int, id: Seq<u8>) -> bool {
    &&& update_affects(updates[i], affected[i], id)
    &&& updates[i] matches PreferenceUpdate::Consent(record) && record.state == ConsentState::Allowed
}

/// An event keeps all updates. It speaks of a conversation exactly if a record of consent affects it,
/// which no record does to a group between the devices of the user. Its messages are repeated from when
/// the last record that allowed it was made; a later record that denies it does not change this, and where
/// none allowed it, nothing is repeated.
pub proof fn events_speak_of_affected_conversations(
    event: PreferenceUpdatesEvent,
    updates: Seq<PreferenceUpdate>,
    found: Seq<FoundConversation>,
    current: Map<Seq<u8>, GlobalCursor>,
    id: Seq<u8>,
)
    requires
        is_event_of(event, updates, affected_of(updates, found), current),
    ensures
        event.updates@ == updates,
        event.conversation_cursors@.dom() == event.conversation_replay_after_ns@.dom(),
        event.conversation_cursors@.dom().contains(id) <==> exists|i: int|
            0 <= i < updates.len() && update_affects(#[trigger] updates[i], affected_of(updates, found)[i], id),
        event.conversation_cursors@.dom().contains(id) ==> exists|i: int|
            0 <= i < updates.len() && ((#[trigger] found[i]).group matches Some(group) && group.id@ == id
                && group.conversation_type != ConversationType::Sync),
        event.conversation_cursors@.dom().contains(id) ==> match event.conversation_replay_after_ns@[id] {
            Some(t) => exists|i: int|
                {
                    &&& 0 <= i < updates.len()
                    &&& #[trigger] allows(updates, affected_of(updates, found), i, id)
                    &&& updates[i]->Consent_0.consented_at_ns == t
                    &&& forall|j: int|
                        i < j < updates.len() ==> !(#[trigger] allows(updates, affected_of(updates, found), j, id))
                },
            None => forall|i: int|
                0 <= i < updates.len() ==> !(#[trigger] allows(updates, affected_of(updates, found), i, id)),
        },
{
    let affected = affected_of(updates, found);
    let n = updates.len() as int;
    assert(event.conversation_cursors@.dom().contains(id) == is_affected(updates, affected, n, id));
    if is_affected(updates, affected, n, id) {
        let i = choose|i: int| 0 <= i < n && #[trigger] update_affects(updates[i], affected[i], id);
        assert(update_affects(updates[i], affected[i], id));
        assert(found[i].group is Some);
        assert(event.conversation_replay_after_ns@.dom().contains(id));
        assert(event.conversation_replay_after_ns@[id] == last_allowed(updates, affected, n, id));
        lemma_last_allowed(updates, affected, n, id);
    }
}

proof fn lemma_last_allowed(updates: Seq<PreferenceUpdate>, affected: Seq<Option<Vec<u8>>>, n: int, id: Seq<u8>)
    requires
        0 <= n <= updates.len(),
    ensures
        match last_allowed(updates, affected, n, id) {
            Some(t) => exists|i: int|
                {
                    &&& 0 <= i < n
                    &&& #[trigger] allows(updates, affected, i, id)
                    &&& updates[i]->Consent_0.consented_at_ns == t
                    &&& forall|j: int| i < j < n ==> !(#[trigger] allows(updates, affected, j, id))
                },
            None => forall|i: int| 0 <= i < n ==> !(#[trigger] allows(updates, affected, i, id)),
        },
    decreases n,
{
    if n > 0 {
        if allows(updates, affected, n - 1, id) {
            assert(0 <= n - 1 < n);
        } else {
            lemma_last_allowed(updates, affected, n - 1, id);
            if let Some(t) = last_allowed(updates, affected, n - 1, id) {
                let i = choose|i: int|
                    {
                        &&& 0 <= i < n - 1
                        &&& #[trigger] allows(updates, affected, i, id)
                        &&& updates[i]->Consent_0.consented_at_ns == t
                        &&& forall|j: int| i < j < n - 1 ==> !(#[trigger] allows(updates, affected, j, id))
                    };
                assert(0 <= i < n && allows(updates, affected, i, id));
            }
        }
    }
}

/// Records that a decision about a direct conversation leaves, one for the conversation and one for
/// the person, affect one conversation; where the user did not allow it, nothing is repeated.
pub proof fn dm_records_affect_one_conversation(
    event: PreferenceUpdatesEvent,
    updates: Seq<PreferenceUpdate>,
    affected: Seq<Option<Vec<u8>>>,
    current: Map<Seq<u8>, GlobalCursor>,
    id: Seq<u8>,
)
    requires
        is_event_of(event, updates, affected, current),
        affected.len() == updates.len(),
        updates.len() > 0,
        forall|i: int| 0 <= i < updates.len() ==> update_affects(#[trigger] updates[i], affected[i], id),
    ensures
        event.conversation_cursors@.dom() == set![id],
        event.conversation_replay_after_ns@.dom() == set![id],
        (forall|i: int|
            0 <= i < updates.len() ==> ((#[trigger] updates[i]) matches PreferenceUpdate::Consent(record)
                && record.state != ConsentState::Allowed)) ==> event.conversation_replay_after_ns@[id] is None,
{
    let n = updates.len() as int;
    assert(update_affects(updates[0], affected[0], id));
    assert forall|k: Seq<u8>| is_affected(updates, affected, n, k) implies k == id by {
        let i = choose|i: int| 0 <= i < n && #[trigger] update_affects(updates[i], affected[i], k);
        assert(update_affects(updates[i], affected[i], id));
    }
    assert forall|k: Seq<u8>| #[trigger] event.conversation_cursors@.dom().contains(k) == set![id].contains(k) by {
        assert(event.conversation_cursors@.dom().contains(k) == is_affected(updates, affected, n, k));
    }
    assert(event.conversation_cursors@.dom() =~= set![id]);
    assert(set![id].contains(id));
    assert(event.conversation_replay_after_ns@.dom().contains(id));
    if forall|i: int|
        0 <= i < updates.len() ==> ((#[trigger] updates[i]) matches PreferenceUpdate::Consent(record) && record.state
            != ConsentState::Allowed) {
        lemma_never_allowed(updates, affected, n, id);
    }
}

proof fn lemma_never_allowed(updates: Seq<PreferenceUpdate>, affected: Seq<Option<Vec<u8>>>, n: int, id: Seq<u8>)
    requires
        0 <= n <= updates.len(),
        forall|i: int|
            0 <= i < updates.len() ==> ((#[trigger] updates[i]) matches PreferenceUpdate::Consent(record)
                && record.state != ConsentState::Allowed),
    ensures
        last_allowed(updates, affected, n, id) is None,
    decreases n,
{
    if n > 0 {
        assert(updates[n - 1] matches PreferenceUpdate::Consent(record) && record.state != ConsentState::Allowed);
        lemma_never_allowed(updates, affected, n - 1, id);
    }
}

/// Updates that affect no conversation ask for nothing.
pub proof fn unaffected_conversations_are_left_alone(
    event: PreferenceUpdatesEvent,
    updates: Seq<PreferenceUpdate>,
    affected: Seq<Option<Vec<u8>>>,
    current: Map<Seq<u8>, GlobalCursor>,
)
    requires
        is_event_of(event, updates, affected, current),
        affected.len() == updates.len(),
        forall|i: int| 0 <= i < affected.len() ==> (#[trigger] affected[i]) is None,
    ensures
        event.conversation_cursors@.dom() == Set::<Seq<u8>>::empty(),
        event.conversation_replay_after_ns@.dom() == Set::<Seq<u8>>::empty(),
{
    let n = updates.len() as int;
    assert forall|k: Seq<u8>| !(#[trigger] event.conversation_cursors@.dom().contains(k)) by {
        if is_affected(updates, affected, n, k) {
            let i = choose|i: int| 0 <= i < n && #[trigger] update_affects(updates[i], affected[i], k);
            assert(affected[i] is None);
        }
    }
    assert(event.conversation_cursors@.dom() =~= Set::<Seq<u8>>::empty());
}

/// The records of consent among updates, in their order.
pub open spec fn consents(updates: Seq<PreferenceUpdate>) -> Seq<StoredConsentRecord>
    decreases updates.len(),
{
    if updates.len() == 0 {
        seq![]
    } else {
        let rest = consents(updates.drop_last());
        match updates.last() {
            PreferenceUpdate::Consent(record) => rest.push(record),
            _ => rest,
        }
    }
}

/// Whether records are those of consent in an event.
pub open spec fn is_consent_part<M>(event: LocalEvents<M>, r: Option<Vec<StoredConsentRecord>>) -> bool {
    match event {
        LocalEvents::PreferencesChanged(event) => r is Some && r->0@ == consents(event.updates@),
        _ => r is None,
    }
}

/// The updates of preferences in an event.
pub open spec fn preference_part<M>(event: LocalEvents<M>) -> Option<Vec<PreferenceUpdate>> {
    match event {
        LocalEvents::PreferencesChanged(event) => Some(event.updates),
        _ => None,
    }
}

/// The message that an event says was deleted.
pub open spec fn deletion_part<M>(event: LocalEvents<M>) -> Option<Box<M>> {
    match event {
        LocalEvents::MessageDeleted(message) => Some(message),
        _ => None,
    }
}

/// Every record of consent of a change of preferences comes through, and nothing else does.
pub proof fn all_consents_come_through(updates: Seq<PreferenceUpdate>, i: int)
    ensures
        0 <= i < updates.len() ==> (updates[i] matches PreferenceUpdate::Consent(record) ==> consents(updates).contains(
            record,
        )),
        0 <= i < consents(updates).len() ==> updates.contains(PreferenceUpdate::Consent(consents(updates)[i])),
    decreases updates.len(),
{
    if updates.len() > 0 {
        let init = updates.drop_last();
        all_consents_come_through(init, i);
        let kept = consents(init);
        let all = consents(updates);
        if 0 <= i < init.len() {
            if let PreferenceUpdate::Consent(record) = updates[i] {
                assert(init[i] == updates[i]);
                let k = choose|k: int| 0 <= k < kept.len() && kept[k] == record;
                assert(all[k] == record);
            }
        }
        if i == updates.len() - 1 {
            if let PreferenceUpdate::Consent(record) = updates[i] {
                assert(all[kept.len() as int] == record);
            }
        }
        if 0 <= i < all.len() {
            if i < kept.len() {
                let u = PreferenceUpdate::Consent(kept[i]);
                let k = choose|k: int| 0 <= k < init.len() && init[k] == u;
                assert(updates[k] == u);
                assert(all[i] == kept[i]);
            } else {
                assert(updates[updates.len() - 1] == PreferenceUpdate::Consent(all[i]));
            }
        }
    }
}

/// A change of preferences gives its records of consent and all its updates, a deletion gives its message, and no event
/// gives anything to a stream of another kind.
pub proof fn events_reach_their_streams<M>(event: LocalEvents<M>, r: Option<Vec<StoredConsentRecord>>)
    requires
        is_consent_part(event, r),
    ensures
        event matches LocalEvents::PreferencesChanged(e) ==> preference_part(event) == Some(e.updates) && r is Some && r->0@
            == consents(e.updates@) && deletion_part(event) is None,
        event matches LocalEvents::MessageDeleted(message) ==> deletion_part(event) == Some(message) && preference_part(
            event,
        ) is None && r is None,
        event matches LocalEvents::NewGroup(_) ==> preference_part(event) is None && deletion_part(event) is None && r
            is None,
{
}

impl<M> LocalEvents<M> {
    /// The records of consent of a change of preferences; nothing for other events.
    pub fn consent_filter(self) -> (r: Option<Vec<StoredConsentRecord>>)
        ensures
            is_consent_part(self, r),
    {
        let event = match self {
            LocalEvents::PreferencesChanged(event) => event,
            _ => return None,
        };
        let updates = event.updates;
        let mut out: Vec<StoredConsentRecord> = Vec::new();
        let mut i: usize = 0;
        assert(updates@.take(0) =~= Seq::<PreferenceUpdate>::empty());
        while i < updates.len()
            invariant
                i <= updates@.len(),
                out@ == consents(updates@.take(i as int)),
            decreases updates@.len() - i,
        {
            assert(updates@.take(i + 1).drop_last() =~= updates@.take(i as int));
            assert(updates@.take(i + 1).last() == updates@[i as int]);
            if let PreferenceUpdate::Consent(record) = &updates[i] {
                out.push(record.duplicate());
            }
            i += 1;
        }
        assert(updates@.take(i as int) =~= updates@);
        Some(out)
    }

    /// The updates of a change of preferences; nothing for other events.
    pub fn preference_filter(self) -> (r: Option<Vec<PreferenceUpdate>>)
        ensures
            r == preference_part(self),
    {
        match self {
            LocalEvents::PreferencesChanged(event) => Some(event.updates),
            _ => None,
        }
    }

    /// The message that was deleted; nothing for other events.
    pub fn message_deletion_filter(self) -> (r: Option<Box<M>>)
        ensures
            r == deletion_part(self),
    {
        match self {
            LocalEvents::MessageDeleted(message) => Some(message),
            _ => None,
        }
    }
}

/// Where it could not be read how far conversations were read, the event says of none how far it was, and says everything
/// else all the same.
pub proof fn unread_cursors_keep_no_event_back(
    event: PreferenceUpdatesEvent,
    updates: Seq<PreferenceUpdate>,
    found: Seq<FoundConversation>,
    error: ExternalError,
    map: ByteMap<GlobalCursor>,
    id: Seq<u8>,
)
    requires
        is_event_of(event, updates, affected_of(updates, found), known_cursors(Err(error))),
    ensures
        event.updates@ == updates,
        event.conversation_cursors@.dom().contains(id) ==> event.conversation_cursors@[id] is None,
        known_cursors(Ok(map)) == map@,
{
}

} // verus!
