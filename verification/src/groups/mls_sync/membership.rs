//! Keeping the members of a group in step with their identities.

use vstd::prelude::*;
use crate::groups::group::MlsGroup;
use crate::bytes;
use crate::error::NotFound;
use crate::groups::error::GroupError;
use crate::groups::extensions::{Extension, Extensions};
use crate::groups::group_membership::GroupMembership;
use crate::groups::mls_sync::helpers::GroupMember;
use crate::groups::mls_sync::publish_data;
use crate::records::ConversationType;
use crate::text_map;
use crate::text_map::TextMap;

verus! {

/// Whether a result tells whether the installations of a group are due for a check.
pub open spec fn is_due_check(
    group_id: Seq<u8>,
    stored: Option<ConversationType>,
    update_interval_ns: Option<i64>,
    default_interval_ns: i64,
    now_ns: i64,
    last_checked_ns: i64,
    is_active: Result<bool, GroupError>,
    r: Result<bool, GroupError>,
) -> bool {
    match stored {
        None => r matches Err(GroupError::NotFound(NotFound::GroupById(id))) && id@ == group_id,
        Some(t) => r == (if t == ConversationType::Sync || t == ConversationType::Oneshot {
            Ok(false)
        } else if now_ns - last_checked_ns > (match update_interval_ns {
            Some(interval) => interval,
            None => default_interval_ns,
        }) {
            is_active
        } else {
            Ok(false)
        }),
    }
}

/// Installations are checked exactly if the group is a conversation in which this client is active and the last
/// check is longer ago than the given interval, or than the usual one where none is given.
pub proof fn installations_are_checked_when_due(
    group_id: Seq<u8>,
    stored: Option<ConversationType>,
    update_interval_ns: Option<i64>,
    default_interval_ns: i64,
    now_ns: i64,
    last_checked_ns: i64,
    is_active: bool,
    r: Result<bool, GroupError>,
)
    requires
        is_due_check(
            group_id,
            stored,
            update_interval_ns,
            default_interval_ns,
            now_ns,
            last_checked_ns,
            Ok(is_active),
            r,
        ),
    ensures
        stored is None <==> r is Err,
        r == Ok::<_, GroupError>(true) <==> is_active && (stored == Some(ConversationType::Group) || stored == Some(
            ConversationType::Dm,
        )) && now_ns > last_checked_ns + (if update_interval_ns is Some {
            update_interval_ns->0
        } else {
            default_interval_ns
        }),
{
}

impl MlsGroup {
    /// Whether the installations of a group are due for a check, and the client is active in it.
    ///
    /// `stored` is the type of the stored group, if there is one; `is_active` is only looked at when
    /// the last check is long enough ago.
    pub fn maybe_update_installations(
        &self,
        stored: Option<ConversationType>,
        update_interval_ns: Option<i64>,
        default_interval_ns: i64,
        now_ns: i64,
        last_checked_ns: i64,
        is_active: Result<bool, GroupError>,
    ) -> (r: Result<bool, GroupError>)
        requires
            i64::MIN <= now_ns - last_checked_ns <= i64::MAX,
        ensures
            is_due_check(
                self.group_id@,
                stored,
                update_interval_ns,
                default_interval_ns,
                now_ns,
                last_checked_ns,
                is_active,
                r,
            ),
    {
        let conversation_type = match stored {
            None => return Err(GroupError::NotFound(NotFound::GroupById(bytes::clone_bytes(self.group_id.as_slice())))),
            Some(t) => t,
        };
        if conversation_type.is_virtual() {
            return Ok(false);
        }
        let interval_ns: i64 = match update_interval_ns {
            Some(interval) => interval,
            None => default_interval_ns,
        };
        if now_ns - last_checked_ns > interval_ns {
            is_active
        } else {
            Ok(false)
        }
    }
}

/// An update of the members of a group.
pub struct UpdateGroupMembershipIntentData {
    /// The inboxes that move to another sequence id, those that join among them.
    pub membership_updates: TextMap<u64>,
    pub removed_members: Vec<String>,
    pub failed_installations: Vec<Vec<u8>>,
}

impl UpdateGroupMembershipIntentData {
    /// Whether the update changes nobody.
    pub open spec fn changes_nobody(self) -> bool {
        self.membership_updates.entries@.len() == 0 && self.removed_members@.len() == 0
            && self.failed_installations@.len() == 0
    }

    /// Whether the update changes nobody.
    pub fn is_empty(&self) -> (r: bool)
        ensures
            r == self.changes_nobody(),
    {
        self.membership_updates.entries.len() == 0 && self.removed_members.len() == 0
            && self.failed_installations.len() == 0
    }
}

/// An update that moves, adds, removes or fails anybody counts as one, and one that does none of these does not.
pub proof fn updates_count_if_they_change_anybody(update: UpdateGroupMembershipIntentData, k: Seq<char>)
    ensures
        update.membership_updates@.dom().contains(k) ==> !update.changes_nobody(),
        update.removed_members@.len() > 0 ==> !update.changes_nobody(),
        update.failed_installations@.len() > 0 ==> !update.changes_nobody(),
        (update.membership_updates.entries@.len() == 0 && update.removed_members@.len() == 0
            && update.failed_installations@.len() == 0) ==> update.changes_nobody(),
{
    reveal_with_fuel(text_map::key_position, 2);
}

/// Whether missing installations lead to an update of the group: only if the update is not empty.
pub fn add_missing_installations(update: &UpdateGroupMembershipIntentData) -> (r: bool)
    ensures
        r == !update.changes_nobody(),
{
    !update.is_empty()
}

/// Whether an inbox moves to another sequence id: it is no member yet, or there are later updates of
/// its identity than the group has taken in.
pub open spec fn moves(existing: Map<Seq<char>, u64>, latest: Map<Seq<char>, i64>, inbox_id: Seq<char>) -> bool {
    !existing.dom().contains(inbox_id) || latest[inbox_id] as u64 > existing[inbox_id]
}

/// Whether updates are those that the first `n` inboxes of a list need.
pub open spec fn are_updates(
    updates: Map<Seq<char>, u64>,
    existing: Map<Seq<char>, u64>,
    latest: Map<Seq<char>, i64>,
    inbox_ids: Seq<String>,
    n: int,
) -> bool {
    &&& forall|i: int| 0 <= i < n ==> latest.dom().contains((#[trigger] inbox_ids[i])@)
    &&& forall|k: Seq<char>| #[trigger]
        updates.dom().contains(k) ==> updates[k] == latest[k] as u64 && moves(existing, latest, k)
            && bytes::text_views(inbox_ids).contains(k)
    &&& forall|i: int|
        0 <= i < n && moves(existing, latest, (#[trigger] inbox_ids[i])@) ==> updates.dom().contains(
            inbox_ids[i]@,
        )
}

/// Whether a result is the inboxes of a list that move to another sequence id.
pub open spec fn are_changes(
    existing: Map<Seq<char>, u64>,
    inbox_ids: Seq<String>,
    latest: Map<Seq<char>, i64>,
    r: Result<TextMap<u64>, GroupError>,
) -> bool {
    match r {
        Ok(updates) => are_updates(updates@, existing, latest, inbox_ids, inbox_ids.len() as int),
        Err(e) => e == GroupError::MissingSequenceId && exists|i: int|
            0 <= i < inbox_ids.len() && !latest.dom().contains((#[trigger] inbox_ids[i])@),
    }
}

/// Where the latest sequence id of every inbox is known, exactly those inboxes move that are no members yet or
/// whose latest sequence id is later than the one that the group has, and they move to the latest one.
pub proof fn inboxes_move_to_their_latest_updates(
    existing: Map<Seq<char>, u64>,
    inbox_ids: Seq<String>,
    latest: Map<Seq<char>, i64>,
    r: Result<TextMap<u64>, GroupError>,
    i: int,
    k: Seq<char>,
)
    requires
        are_changes(existing, inbox_ids, latest, r),
        0 <= i < inbox_ids.len(),
    ensures
        r is Ok ==> latest.dom().contains(inbox_ids[i]@),
        !latest.dom().contains(inbox_ids[i]@) ==> r == Err::<TextMap<u64>, _>(GroupError::MissingSequenceId),
        r matches Ok(updates) ==> {
            &&& updates@.dom().contains(inbox_ids[i]@) <==> !existing.dom().contains(inbox_ids[i]@)
                || existing[inbox_ids[i]@] < latest[inbox_ids[i]@] as u64
            &&& updates@.dom().contains(inbox_ids[i]@) ==> updates@[inbox_ids[i]@] == latest[inbox_ids[i]@] as u64
            &&& updates@.dom().contains(k) ==> exists|j: int|
                0 <= j < inbox_ids.len() && (#[trigger] inbox_ids[j])@ == k
        },
{
    if let Ok(updates) = r {
        if updates@.dom().contains(k) {
            let views = bytes::text_views(inbox_ids);
            let j = choose|j: int| 0 <= j < views.len() && views[j] == k;
            assert(inbox_ids[j]@ == k);
        }
    } else {
        let j = choose|j: int| 0 <= j < inbox_ids.len() && !latest.dom().contains((#[trigger] inbox_ids[j])@);
    }
}

/// The inboxes that move to another sequence id. Each of them needs a latest one.
pub fn changed_inbox_ids(existing: &GroupMembership, inbox_ids: &[String], latest: &TextMap<i64>) -> (r: Result<
    TextMap<u64>,
    GroupError,
>)
    ensures
        are_changes(existing.members@, inbox_ids@, latest@, r),
{
    let mut updates: TextMap<u64> = TextMap::new();
    let mut i: usize = 0;
    while i < inbox_ids.len()
        invariant
            i <= inbox_ids@.len(),
            are_updates(updates@, existing.members@, latest@, inbox_ids@, i as int),
        decreases inbox_ids@.len() - i,
    {
        let ghost id = inbox_ids@[i as int]@;
        assert(bytes::text_views(inbox_ids@)[i as int] == id);
        match latest.get(inbox_ids[i].as_str()) {
            Some(latest_id) => {
                let latest_u64: u64 = *latest_id as u64;
                let moved: bool = match existing.get(inbox_ids[i].as_str()) {
                    Some(current) => latest_u64 > current,
                    None => true,
                };
                if moved {
                    updates.insert(inbox_ids[i].clone(), latest_u64);
                }
            },
            None => {
                assert(!latest@.dom().contains(inbox_ids@[i as int]@));
                return Err(GroupError::MissingSequenceId);
            },
        }
        i += 1;
    }
    Ok(updates)
}

/// Members with updates taken in and some inboxes taken out.
pub open spec fn updated_members(
    members: Map<Seq<char>, u64>,
    updates: Map<Seq<char>, u64>,
    removed: Seq<String>,
) -> Map<Seq<char>, u64> {
    members.union_prefer_right(updates).remove_keys(bytes::text_views(removed).to_set())
}

/// Whether a membership is another one with updates taken in and some inboxes taken out.
pub open spec fn is_updated(
    existing: &GroupMembership,
    updates: Map<Seq<char>, u64>,
    removed: Seq<String>,
    r: &GroupMembership,
) -> bool {
    &&& r.members@ == updated_members(existing.members@, updates, removed)
    &&& bytes::byte_views(r.failed_installations@) == bytes::byte_views(existing.failed_installations@)
}

/// Who is removed is no member afterwards, whatever else is said of them; who is updated and not removed is a
/// member by the update; everybody else is as they were.
pub proof fn members_follow_their_updates(
    existing: &GroupMembership,
    updates: Map<Seq<char>, u64>,
    removed: Seq<String>,
    r: &GroupMembership,
    i: int,
    k: Seq<char>,
)
    requires
        is_updated(existing, updates, removed, r),
    ensures
        0 <= i < removed.len() ==> !r.members@.dom().contains(removed[i]@),
        (forall|j: int| 0 <= j < removed.len() ==> (#[trigger] removed[j])@ != k) ==> {
            &&& updates.dom().contains(k) ==> r.members@.dom().contains(k) && r.members@[k] == updates[k]
            &&& !updates.dom().contains(k) ==> r.members@.dom().contains(k) == existing.members@.dom().contains(k)
            &&& !updates.dom().contains(k) && existing.members@.dom().contains(k) ==> r.members@[k]
                == existing.members@[k]
        },
        bytes::byte_views(r.failed_installations@) == bytes::byte_views(existing.failed_installations@),
{
    lemma_updated_members(existing.members@, updates, removed, i, k);
}

proof fn lemma_updated_members(
    members: Map<Seq<char>, u64>,
    updates: Map<Seq<char>, u64>,
    removed: Seq<String>,
    i: int,
    k: Seq<char>,
)
    ensures
        0 <= i < removed.len() ==> !updated_members(members, updates, removed).dom().contains(removed[i]@),
        (forall|j: int| 0 <= j < removed.len() ==> (#[trigger] removed[j])@ != k) ==> {
            let after = updated_members(members, updates, removed);
            &&& updates.dom().contains(k) ==> after.dom().contains(k) && after[k] == updates[k]
            &&& !updates.dom().contains(k) ==> after.dom().contains(k) == members.dom().contains(k)
            &&& !updates.dom().contains(k) && members.dom().contains(k) ==> after[k] == members[k]
        },
{
    let views = bytes::text_views(removed);
    if 0 <= i < removed.len() {
        assert(views[i] == removed[i]@);
        assert(views.to_set().contains(removed[i]@));
    }
    if forall|j: int| 0 <= j < removed.len() ==> (#[trigger] removed[j])@ != k {
        if views.contains(k) {
            let j = choose|j: int| 0 <= j < views.len() && views[j] == k;
            assert(removed[j]@ == k);
        }
        assert(!views.to_set().contains(k));
    }
}

/// The membership with updates taken in and some inboxes taken out.
pub fn apply_updates(existing: &GroupMembership, updates: &TextMap<u64>, removed: &[String]) -> (r: GroupMembership)
    ensures
        is_updated(existing, updates@, removed@, &r),
{
    let mut new = existing.duplicate();
    let ghost failed = new.failed_installations;
    let ghost all = updates.entries@;
    let mut i: usize = updates.entries.len();
    // The first entry of a key counts, so entries are taken in from the last to the first.
    assert(text_map::entries_map(all.skip(all.len() as int)) =~= Map::<Seq<char>, u64>::empty()) by {
        assert(all.skip(all.len() as int).len() == 0);
    }
    assert(existing.members@.union_prefer_right(Map::<Seq<char>, u64>::empty()) =~= existing.members@);
    while i > 0
        invariant
            i <= all.len(),
            all == updates.entries@,
            new.failed_installations == failed,
            new.members@ == existing.members@.union_prefer_right(text_map::entries_map(all.skip(i as int))),
        decreases i,
    {
        i -= 1;
        let ghost before = new.members@;
        new.add(updates.entries[i].0.clone(), updates.entries[i].1);
        proof {
            let rest = all.skip(i + 1);
            let now = all.skip(i as int);
            assert(now.drop_first() =~= rest);
            assert(now[0] == all[i as int]);
            text_map::lemma_entries_map_first(now);
            assert(new.members@ =~= existing.members@.union_prefer_right(text_map::entries_map(now)));
        }
    }
    assert(all.skip(0) =~= all);
    let ghost joined = new.members@;
    let mut j: usize = 0;
    assert(joined.remove_keys(bytes::text_views(removed@).take(0).to_set()) =~= joined);
    while j < removed.len()
        invariant
            j <= removed@.len(),
            new.failed_installations == failed,
            new.members@ == joined.remove_keys(bytes::text_views(removed@).take(j as int).to_set()),
        decreases removed@.len() - j,
    {
        new.remove(removed[j].as_str());
        proof {
            let views = bytes::text_views(removed@);
            assert(views.take(j + 1) =~= views.take(j as int).push(views[j as int]));
            assert forall|k: Seq<char>| views.take(j + 1).to_set().contains(k) == (views.take(
                j as int,
            ).to_set().contains(k) || k == views[j as int]) by {
                let shorter = views.take(j as int);
                let longer = views.take(j + 1);
                assert(longer[j as int] == views[j as int]);
                if shorter.contains(k) {
                    let a = choose|a: int| 0 <= a < shorter.len() && shorter[a] == k;
                    assert(longer[a] == k);
                }
                if longer.contains(k) {
                    let a = choose|a: int| 0 <= a < longer.len() && longer[a] == k;
                    if a < j {
                        assert(shorter[a] == k);
                    }
                }
            }
            assert(new.members@ =~= joined.remove_keys(views.take(j + 1).to_set()));
        }
        j += 1;
    }
    assert(bytes::text_views(removed@).take(j as int) =~= bytes::text_views(removed@));
    new
}

/// Whether a result is the update of a group's members.
pub open spec fn is_membership_update(
    updates: TextMap<u64>,
    inbox_ids_to_add: Seq<String>,
    inbox_ids_to_remove: Seq<String>,
    new_installations: usize,
    failed_installations: Vec<Vec<u8>>,
    r: Result<UpdateGroupMembershipIntentData, GroupError>,
) -> bool {
    match r {
        Ok(data) => {
            &&& !(inbox_ids_to_add.len() > 0 && failed_installations@.len() > 0 && new_installations == 0)
            &&& data.membership_updates == updates
            &&& data.removed_members@ == inbox_ids_to_remove
            &&& data.failed_installations == failed_installations
        },
        Err(e) => e == GroupError::FailedToVerifyInstallations && inbox_ids_to_add.len() > 0
            && failed_installations@.len() > 0 && new_installations == 0,
    }
}

/// An update of the members carries what is to change, who is to leave, and the installations that failed, as they are. It
/// is refused exactly if somebody was to join, some installation failed, and none is left to add.
pub proof fn updates_carry_what_changes(
    updates: TextMap<u64>,
    inbox_ids_to_add: Seq<String>,
    inbox_ids_to_remove: Seq<String>,
    new_installations: usize,
    failed_installations: Vec<Vec<u8>>,
    r: Result<UpdateGroupMembershipIntentData, GroupError>,
)
    requires
        is_membership_update(
            updates,
            inbox_ids_to_add,
            inbox_ids_to_remove,
            new_installations,
            failed_installations,
            r,
        ),
    ensures
        r is Err <==> inbox_ids_to_add.len() > 0 && failed_installations@.len() > 0 && new_installations == 0,
        r matches Err(e) ==> e == GroupError::FailedToVerifyInstallations,
        r matches Ok(data) ==> data.membership_updates == updates && data.removed_members@ == inbox_ids_to_remove
            && data.failed_installations == failed_installations,
{
}

/// The update of a group's members once their changes are known. It is refused if inboxes were to
/// be added, some of their installations failed, and none are left to add.
pub fn membership_update(
    updates: TextMap<u64>,
    inbox_ids_to_add: &[String],
    inbox_ids_to_remove: &[String],
    new_installations: usize,
    failed_installations: Vec<Vec<u8>>,
) -> (r: Result<UpdateGroupMembershipIntentData, GroupError>)
    ensures
        is_membership_update(
            updates,
            inbox_ids_to_add@,
            inbox_ids_to_remove@,
            new_installations,
            failed_installations,
            r,
        ),
{
    if inbox_ids_to_add.len() > 0 && failed_installations.len() > 0 && new_installations == 0 {
        return Err(GroupError::FailedToVerifyInstallations);
    }
    Ok(
        UpdateGroupMembershipIntentData {
            membership_updates: updates,
            removed_members: bytes::clone_texts(inbox_ids_to_remove),
            failed_installations,
        },
    )
}

/// What a change of the members means for installations.
#[derive(Debug)]
pub struct MembershipChange {
    pub failed_installations: Vec<Vec<u8>>,
    /// How many installations there are to add, each with its key package.
    pub new_installations: usize,
}

/// What the work on an update of the members waits for.
pub enum MembershipPhase {
    /// The latest sequence ids of the inboxes, the present ones and those that join.
    Loading {
        existing: GroupMembership,
        inbox_ids: Vec<String>,
        inbox_ids_to_add: Vec<String>,
        inbox_ids_to_remove: Vec<String>,
    },
    /// What the new members mean for installations.
    Comparing { updates: TextMap<u64>, inbox_ids_to_add: Vec<String>, inbox_ids_to_remove: Vec<String> },
    Done,
}

/// What has happened outside.
pub enum MembershipEvent {
    SequenceIds(Result<TextMap<i64>, GroupError>),
    Compared(Result<MembershipChange, GroupError>),
}

/// What is to be done next outside.
pub enum MembershipAction {
    /// Load the identity updates of inboxes, and their latest sequence ids.
    LoadSequenceIds { inbox_ids: Vec<String> },
    /// Find out what a new membership means for installations.
    CompareMemberships { new_membership: GroupMembership },
    Finish(Result<UpdateGroupMembershipIntentData, GroupError>),
    Ignore,
}

/// The inboxes that are looked at: the present ones, and those that join.
pub open spec fn looked_at(existing: GroupMembership, inbox_ids_to_add: Seq<String>) -> Seq<String> {
    existing.members.entries@.map_values(|e: (String, u64)| e.0) + inbox_ids_to_add
}

/// Whether the work on an update of the members has begun.
pub open spec fn is_update_begun(
    current: Seq<Extension>,
    inbox_ids_to_add: Vec<String>,
    inbox_ids_to_remove: Vec<String>,
    phase: MembershipPhase,
    action: MembershipAction,
) -> bool {
    match publish_data::membership_of(current) {
        Err(e) => phase is Done && action == MembershipAction::Finish(Err(e)),
        Ok(m) => {
            &&& phase matches MembershipPhase::Loading {
                existing,
                inbox_ids,
                inbox_ids_to_add: add,
                inbox_ids_to_remove: remove,
            }
            &&& existing.members@ == m.members@
            &&& bytes::byte_views(existing.failed_installations@) == bytes::byte_views(m.failed_installations@)
            &&& inbox_ids@ == looked_at(m, inbox_ids_to_add@)
            &&& add == inbox_ids_to_add
            &&& remove == inbox_ids_to_remove
            &&& action matches MembershipAction::LoadSequenceIds { inbox_ids: asked }
            &&& asked@ == inbox_ids@
        },
    }
}

/// The transitions of the work on an update of the members.
pub open spec fn is_membership_step(
    before: MembershipPhase,
    event: MembershipEvent,
    after: MembershipPhase,
    action: MembershipAction,
) -> bool {
    match (before, event) {
        (
            MembershipPhase::Loading { existing, inbox_ids, inbox_ids_to_add, inbox_ids_to_remove },
            MembershipEvent::SequenceIds(outcome),
        ) => match outcome {
            Err(e) => after is Done && action == MembershipAction::Finish(Err(e)),
            Ok(latest) => if publish_data::all_known(inbox_ids@, latest@, inbox_ids@.len() as int) {
                &&& after matches MembershipPhase::Comparing {
                    updates,
                    inbox_ids_to_add: add,
                    inbox_ids_to_remove: remove,
                }
                &&& are_updates(updates@, existing.members@, latest@, inbox_ids@, inbox_ids@.len() as int)
                &&& add == inbox_ids_to_add
                &&& remove == inbox_ids_to_remove
                &&& action matches MembershipAction::CompareMemberships { new_membership }
                &&& new_membership.members@ == updated_members(existing.members@, updates@, inbox_ids_to_remove@)
                &&& bytes::byte_views(new_membership.failed_installations@) == bytes::byte_views(
                    existing.failed_installations@,
                )
            } else {
                after is Done && action == MembershipAction::Finish(Err(GroupError::MissingSequenceId))
            },
        },
        (
            MembershipPhase::Comparing { updates, inbox_ids_to_add, inbox_ids_to_remove },
            MembershipEvent::Compared(outcome),
        ) => match outcome {
            Err(e) => after is Done && action == MembershipAction::Finish(Err(e)),
            Ok(change) => if inbox_ids_to_add@.len() > 0 && change.failed_installations@.len() > 0
                && change.new_installations == 0 {
                after is Done && action == MembershipAction::Finish(Err(GroupError::FailedToVerifyInstallations))
            } else {
                &&& after is Done
                &&& action matches MembershipAction::Finish(Ok(data))
                &&& data.membership_updates == updates
                &&& data.removed_members@ == inbox_ids_to_remove@
                &&& data.failed_installations == change.failed_installations
            },
        },
        _ => after == before && action is Ignore,
    }
}

impl MlsGroup {
    /// Begins to work out an update of the members: those whose identities have changed, those that
    /// join and those that leave.
    pub fn get_membership_update_intent(
        &self,
        current: &Extensions,
        inbox_ids_to_add: Vec<String>,
        inbox_ids_to_remove: Vec<String>,
    ) -> (r: (MembershipPhase, MembershipAction))
        ensures
            is_update_begun(current.list@, inbox_ids_to_add, inbox_ids_to_remove, r.0, r.1),
    {
        let existing = match publish_data::extract_group_membership(current) {
            Ok(membership) => membership.duplicate(),
            Err(e) => return (MembershipPhase::Done, MembershipAction::Finish(Err(e))),
        };
        let mut inbox_ids = existing.inbox_ids();
        let mut joining = bytes::clone_texts(inbox_ids_to_add.as_slice());
        inbox_ids.append(&mut joining);
        let asked = bytes::clone_texts(inbox_ids.as_slice());
        (
            MembershipPhase::Loading { existing, inbox_ids, inbox_ids_to_add, inbox_ids_to_remove },
            MembershipAction::LoadSequenceIds { inbox_ids: asked },
        )
    }
}

/// Takes the work on an update of the members one step further.
pub fn membership_step(phase: MembershipPhase, event: MembershipEvent) -> (r: (MembershipPhase, MembershipAction))
    ensures
        is_membership_step(phase, event, r.0, r.1),
{
    match (phase, event) {
        (
            MembershipPhase::Loading { existing, inbox_ids, inbox_ids_to_add, inbox_ids_to_remove },
            MembershipEvent::SequenceIds(outcome),
        ) => {
            let latest = match outcome {
                Err(e) => return (MembershipPhase::Done, MembershipAction::Finish(Err(e))),
                Ok(latest) => latest,
            };
            match changed_inbox_ids(&existing, inbox_ids.as_slice(), &latest) {
                Err(e) => (MembershipPhase::Done, MembershipAction::Finish(Err(e))),
                Ok(updates) => {
                    let new_membership = apply_updates(&existing, &updates, inbox_ids_to_remove.as_slice());
                    (
                        MembershipPhase::Comparing { updates, inbox_ids_to_add, inbox_ids_to_remove },
                        MembershipAction::CompareMemberships { new_membership },
                    )
                },
            }
        },
        (
            MembershipPhase::Comparing { updates, inbox_ids_to_add, inbox_ids_to_remove },
            MembershipEvent::Compared(outcome),
        ) => match outcome {
            Err(e) => (MembershipPhase::Done, MembershipAction::Finish(Err(e))),
            Ok(change) => {
                let data = membership_update(
                    updates,
                    inbox_ids_to_add.as_slice(),
                    inbox_ids_to_remove.as_slice(),
                    change.new_installations,
                    change.failed_installations,
                );
                (MembershipPhase::Done, MembershipAction::Finish(data))
            },
        },
        (phase, _) => (phase, MembershipAction::Ignore),
    }
}

/// The installations that a change of the members brings, and those that it takes away.
#[derive(Debug)]
pub struct MembershipDiff {
    pub removed_installations: Vec<Vec<u8>>,
    pub failed_installations: Vec<Vec<u8>>,
}

/// The byte strings of a list, as a set.
pub open spec fn byte_set(list: Seq<Vec<u8>>) -> Set<Seq<u8>> {
    bytes::byte_views(list).to_set()
}

proof fn lemma_byte_set_push(list: Seq<Vec<u8>>, b: Vec<u8>)
    ensures
        byte_set(list.push(b)) == byte_set(list).insert(b@),
{
    let shorter = bytes::byte_views(list);
    let longer = bytes::byte_views(list.push(b));
    assert(longer =~= shorter.push(b@));
    assert forall|k: Seq<u8>| longer.contains(k) == (shorter.contains(k) || k == b@) by {
        assert(longer[list.len() as int] == b@);
        if shorter.contains(k) {
            let a = choose|a: int| 0 <= a < shorter.len() && shorter[a] == k;
            assert(longer[a] == k);
        }
        if longer.contains(k) {
            let a = choose|a: int| 0 <= a < longer.len() && longer[a] == k;
            if a < shorter.len() {
                assert(shorter[a] == k);
            }
        }
    }
    assert(byte_set(list.push(b)) =~= byte_set(list).insert(b@));
}

/// The members of `from` that are in neither of two lists, each once.
fn difference(from: &Vec<Vec<u8>>, a: &Vec<Vec<u8>>, b: &Vec<Vec<u8>>) -> (r: Vec<Vec<u8>>)
    ensures
        byte_set(r@) == byte_set(from@).difference(byte_set(a@).union(byte_set(b@))),
        bytes::byte_views(r@).no_duplicates(),
{
    let mut out: Vec<Vec<u8>> = Vec::new();
    let mut i: usize = 0;
    assert(byte_set(from@.take(0)) =~= Set::<Seq<u8>>::empty());
    assert(byte_set(out@) =~= Set::<Seq<u8>>::empty());
    assert(Set::<Seq<u8>>::empty().difference(byte_set(a@).union(byte_set(b@))) =~= Set::<Seq<u8>>::empty());
    while i < from.len()
        invariant
            i <= from@.len(),
            byte_set(out@) == byte_set(from@.take(i as int)).difference(byte_set(a@).union(byte_set(b@))),
            bytes::byte_views(out@).no_duplicates(),
        decreases from@.len() - i,
    {
        let ghost before = out@;
        let item = from[i].as_slice();
        proof {
            assert(from@.take(i + 1) =~= from@.take(i as int).push(from@[i as int]));
            lemma_byte_set_push(from@.take(i as int), from@[i as int]);
        }
        let skip: bool = bytes::contains_bytes(a.as_slice(), item) || bytes::contains_bytes(b.as_slice(), item)
            || bytes::contains_bytes(out.as_slice(), item);
        if !skip {
            let copy = bytes::clone_bytes(item);
            out.push(copy);
            proof {
                lemma_byte_set_push(before, copy);
                assert(bytes::byte_views(out@) =~= bytes::byte_views(before).push(copy@));
                assert(byte_set(out@) =~= byte_set(from@.take(i + 1)).difference(
                    byte_set(a@).union(byte_set(b@)),
                ));
            }
        } else {
            assert(byte_set(out@) =~= byte_set(from@.take(i + 1)).difference(
                byte_set(a@).union(byte_set(b@)),
            ));
        }
        i += 1;
    }
    assert(from@.take(i as int) =~= from@);
    out
}

/// Whether installations are sorted into those that have failed and those that are removed.
pub open spec fn is_membership_diff(
    old_failed: Seq<Vec<u8>>,
    new_failed: Seq<Vec<u8>>,
    removed: Seq<Vec<u8>>,
    r: MembershipDiff,
) -> bool {
    &&& byte_set(r.failed_installations@) == byte_set(old_failed).union(byte_set(new_failed)).difference(
        byte_set(removed),
    )
    &&& byte_set(r.removed_installations@) == byte_set(removed).difference(
        byte_set(old_failed).union(byte_set(new_failed)),
    )
    &&& bytes::byte_views(r.failed_installations@).no_duplicates()
    &&& bytes::byte_views(r.removed_installations@).no_duplicates()
}

/// An installation counts as failed exactly if it failed now or before and is not removed, and as removed
/// exactly if it is removed and has not failed; each counts once.
pub proof fn failed_installations_are_remembered(
    old_failed: Seq<Vec<u8>>,
    new_failed: Seq<Vec<u8>>,
    removed: Seq<Vec<u8>>,
    r: MembershipDiff,
    id: Seq<u8>,
)
    requires
        is_membership_diff(old_failed, new_failed, removed, r),
    ensures
        bytes::byte_views(r.failed_installations@).contains(id) <==> (bytes::byte_views(old_failed).contains(id)
            || bytes::byte_views(new_failed).contains(id)) && !bytes::byte_views(removed).contains(id),
        bytes::byte_views(r.removed_installations@).contains(id) <==> bytes::byte_views(removed).contains(id) && !(
        bytes::byte_views(old_failed).contains(id) || bytes::byte_views(new_failed).contains(id)),
        bytes::byte_views(r.failed_installations@).no_duplicates(),
        bytes::byte_views(r.removed_installations@).no_duplicates(),
{
    assert(byte_set(r.failed_installations@).contains(id) == bytes::byte_views(r.failed_installations@).contains(id));
    assert(byte_set(r.removed_installations@).contains(id) == bytes::byte_views(r.removed_installations@).contains(id));
    assert(byte_set(old_failed).contains(id) == bytes::byte_views(old_failed).contains(id));
    assert(byte_set(new_failed).contains(id) == bytes::byte_views(new_failed).contains(id));
    assert(byte_set(removed).contains(id) == bytes::byte_views(removed).contains(id));
}

/// The installations that have failed, now or before, without those that are removed; and the
/// installations that are removed, without those that had failed and were never added.
pub fn calculate_membership_changes_with_keypackages(
    old_failed: &Vec<Vec<u8>>,
    new_failed: &Vec<Vec<u8>>,
    removed: &Vec<Vec<u8>>,
) -> (r: MembershipDiff)
    ensures
        is_membership_diff(old_failed@, new_failed@, removed@, r),
{
    let removed_installations = difference(removed, old_failed, new_failed);
    let none: Vec<Vec<u8>> = Vec::new();
    let mut failed_installations = difference(old_failed, removed, &none);
    assert(byte_set(none@) =~= Set::<Seq<u8>>::empty());
    let mut more = difference(new_failed, removed, &failed_installations);
    let ghost first = failed_installations@;
    let ghost second = more@;
    failed_installations.append(&mut more);
    proof {
        lemma_byte_set_concat(first, second);
        assert(failed_installations@ =~= first + second);
        assert(byte_set(failed_installations@) =~= byte_set(old_failed@).union(byte_set(new_failed@)).difference(
            byte_set(removed@),
        ));
        let views = bytes::byte_views(failed_installations@);
        assert forall|i: int, j: int| 0 <= i < views.len() && 0 <= j < views.len() && i != j implies views[i]
            != views[j] by {
            let n = first.len() as int;
            if i < n && j < n {
                assert(views[i] == bytes::byte_views(first)[i]);
                assert(views[j] == bytes::byte_views(first)[j]);
            } else if i >= n && j >= n {
                assert(views[i] == bytes::byte_views(second)[i - n]);
                assert(views[j] == bytes::byte_views(second)[j - n]);
            } else {
                let a = if i < n { i } else { j };
                let b = if i < n { j } else { i };
                assert(views[a] == bytes::byte_views(first)[a]);
                assert(views[b] == bytes::byte_views(second)[b - n]);
                assert(byte_set(first).contains(views[a]));
                assert(byte_set(second).contains(views[b]));
            }
        }
    }
    MembershipDiff { removed_installations, failed_installations }
}

proof fn lemma_byte_set_concat(a: Seq<Vec<u8>>, b: Seq<Vec<u8>>)
    ensures
        byte_set(a + b) == byte_set(a).union(byte_set(b)),
{
    let x = bytes::byte_views(a);
    let y = bytes::byte_views(b);
    let z = bytes::byte_views(a + b);
    assert(z =~= x + y);
    assert forall|k: Seq<u8>| z.contains(k) == (x.contains(k) || y.contains(k)) by {
        if x.contains(k) {
            let i = choose|i: int| 0 <= i < x.len() && x[i] == k;
            assert(z[i] == k);
        }
        if y.contains(k) {
            let i = choose|i: int| 0 <= i < y.len() && y[i] == k;
            assert(z[x.len() + i] == k);
        }
        if z.contains(k) {
            let i = choose|i: int| 0 <= i < z.len() && z[i] == k;
            if i < x.len() {
                assert(x[i] == k);
            } else {
                assert(y[i - x.len()] == k);
            }
        }
    }
    assert(byte_set(a + b) =~= byte_set(a).union(byte_set(b)));
}

/// No installation is both failed and removed after a change.
pub proof fn failed_and_removed_are_disjoint(old_failed: Set<Seq<u8>>, new_failed: Set<Seq<u8>>, removed: Set<Seq<u8>>)
    ensures
        old_failed.union(new_failed).difference(removed).disjoint(
            removed.difference(old_failed.union(new_failed)),
        ),
{
}

/// The installations other than one's own.
pub open spec fn others_of(requested: Seq<Vec<u8>>, own: Seq<u8>) -> Seq<Seq<u8>> {
    bytes::byte_views(requested).filter(is_other(own))
}

/// What tells an installation from one's own.
pub open spec fn is_other(own: Seq<u8>) -> spec_fn(Seq<u8>) -> bool {
    |id: Seq<u8>| id != own
}

/// The key packages of all other installations are asked for, and never one's own.
pub proof fn own_key_package_is_not_asked_for(requested: Seq<Vec<u8>>, own: Seq<u8>, i: int)
    ensures
        !others_of(requested, own).contains(own),
        (0 <= i < requested.len() && requested[i]@ != own) ==> others_of(requested, own).contains(requested[i]@),
        0 <= i < others_of(requested, own).len() ==> bytes::byte_views(requested).contains(
            others_of(requested, own)[i],
        ),
{
    let p = is_other(own);
    let all = bytes::byte_views(requested);
    let kept = all.filter(p);
    if kept.contains(own) {
        let k = choose|k: int| 0 <= k < kept.len() && kept[k] == own;
        all.lemma_filter_pred(p, k);
    }
    if 0 <= i < requested.len() && requested[i]@ != own {
        assert(all[i] == requested[i]@);
        all.lemma_filter_contains(p, i);
    }
    if 0 <= i < kept.len() {
        assert(kept.contains(kept[i]));
        all.lemma_filter_contains_rev(p, kept[i]);
    }
}

/// The installations whose key packages are asked for: all but the own.
pub fn installations_to_request(requested: &Vec<Vec<u8>>, own: &[u8]) -> (r: Vec<Vec<u8>>)
    ensures
        bytes::byte_views(r@) == others_of(requested@, own@),
{
    let ghost p = is_other(own@);
    let ghost all = bytes::byte_views(requested@);
    let mut out: Vec<Vec<u8>> = Vec::new();
    let mut i: usize = 0;
    proof {
        reveal(Seq::filter);
        assert(all.take(0) =~= Seq::<Seq<u8>>::empty());
        assert(bytes::byte_views(out@) =~= all.take(0).filter(p));
    }
    while i < requested.len()
        invariant
            i <= requested@.len(),
            p == is_other(own@),
            all == bytes::byte_views(requested@),
            bytes::byte_views(out@) == all.take(i as int).filter(p),
        decreases requested@.len() - i,
    {
        let ghost before = out@;
        let is_own: bool = bytes::bytes_equal(requested[i].as_slice(), own);
        proof {
            reveal(Seq::filter);
            assert(all.take(i + 1).drop_last() =~= all.take(i as int));
            assert(all.take(i + 1).last() == all[i as int]);
        }
        if !is_own {
            let copy = bytes::clone_bytes(requested[i].as_slice());
            out.push(copy);
            assert(bytes::byte_views(out@) =~= bytes::byte_views(before).push(copy@));
        }
        i += 1;
    }
    assert(all.take(i as int) =~= all);
    out
}

/// What came of asking for the key package of an installation.
pub enum FetchedKeyPackage<K> {
    /// A key package that verifies, with what is taken from it or why nothing could be.
    Verified(Result<K, GroupError>),
    /// A key package that does not verify.
    Rejected,
}

/// What came of asking for key packages, sorted.
pub struct SortedKeyPackages<K> {
    pub fetched: Vec<K>,
    pub failed: Vec<Vec<u8>>,
}

/// The key packages that verify.
pub open spec fn verified<K>(results: Seq<(Vec<u8>, FetchedKeyPackage<K>)>) -> Seq<K>
    decreases results.len(),
{
    if results.len() == 0 {
        seq![]
    } else {
        let rest = verified(results.drop_last());
        match results.last().1 {
            FetchedKeyPackage::Verified(Ok(k)) => rest.push(k),
            _ => rest,
        }
    }
}

/// The installations whose key packages do not verify.
pub open spec fn rejected<K>(results: Seq<(Vec<u8>, FetchedKeyPackage<K>)>) -> Seq<Vec<u8>>
    decreases results.len(),
{
    if results.len() == 0 {
        seq![]
    } else {
        let rest = rejected(results.drop_last());
        match results.last().1 {
            FetchedKeyPackage::Rejected => rest.push(results.last().0),
            _ => rest,
        }
    }
}

/// Whether `n` is the first key package that verifies and yet yields nothing.
pub open spec fn is_first_broken<K>(results: Seq<(Vec<u8>, FetchedKeyPackage<K>)>, n: int, e: GroupError) -> bool {
    &&& 0 <= n < results.len()
    &&& results[n].1 == FetchedKeyPackage::Verified(Err::<K, GroupError>(e))
    &&& forall|i: int|
        0 <= i < n ==> !((#[trigger] results[i]).1 matches FetchedKeyPackage::Verified(Err(_)))
}

/// Whether key packages are sorted out.
pub open spec fn is_sorted_out<K>(
    results: Seq<(Vec<u8>, FetchedKeyPackage<K>)>,
    r: Result<SortedKeyPackages<K>, GroupError>,
) -> bool {
    match r {
        Ok(sorted) => {
            &&& sorted.fetched@ == verified(results)
            &&& sorted.failed@ == rejected(results)
            &&& forall|i: int|
                0 <= i < results.len() ==> !((#[trigger] results[i]).1 matches FetchedKeyPackage::Verified(Err(_)))
        },
        Err(e) => exists|n: int| is_first_broken(results, n, e),
    }
}

/// Every key package that verifies is kept, every installation whose key package does not is failed, and
/// nothing else is; where something cannot be taken from a key package that verifies, that is reported.
pub proof fn key_packages_are_kept_or_failed<K>(
    results: Seq<(Vec<u8>, FetchedKeyPackage<K>)>,
    r: Result<SortedKeyPackages<K>, GroupError>,
    i: int,
)
    requires
        is_sorted_out(results, r),
        0 <= i < results.len(),
    ensures
        r matches Ok(sorted) ==> {
            &&& results[i].1 matches FetchedKeyPackage::Verified(Ok(k)) ==> sorted.fetched@.contains(k)
            &&& results[i].1 is Rejected ==> sorted.failed@.contains(results[i].0)
            &&& sorted.fetched@.len() + sorted.failed@.len() == results.len()
        },
        (results[i].1 matches FetchedKeyPackage::Verified(Err(_))) ==> r is Err,
        r matches Err(e) ==> exists|n: int|
            0 <= n < results.len() && (#[trigger] results[n]).1 == FetchedKeyPackage::Verified(Err::<K, GroupError>(e)),
{
    if r is Ok {
        lemma_sorted_out(results, i);
    } else {
        let e = r->Err_0;
        let n = choose|n: int| is_first_broken(results, n, e);
        assert(results[n].1 == FetchedKeyPackage::Verified(Err::<K, GroupError>(e)));
    }
}

proof fn lemma_sorted_out<K>(results: Seq<(Vec<u8>, FetchedKeyPackage<K>)>, i: int)
    requires
        0 <= i < results.len() || results.len() == 0,
        forall|j: int| 0 <= j < results.len() ==> !((#[trigger] results[j]).1 matches FetchedKeyPackage::Verified(Err(_))),
    ensures
        verified(results).len() + rejected(results).len() == results.len(),
        results.len() > 0 ==> (results[i].1 matches FetchedKeyPackage::Verified(Ok(k)) ==> verified(results).contains(
            k,
        )),
        results.len() > 0 ==> (results[i].1 is Rejected ==> rejected(results).contains(results[i].0)),
    decreases results.len(),
{
    if results.len() > 0 {
        let init = results.drop_last();
        assert forall|j: int| 0 <= j < init.len() implies !((#[trigger] init[j]).1 matches FetchedKeyPackage::Verified(
            Err(_),
        )) by {
            assert(init[j] == results[j]);
        }
        assert(!(results[results.len() - 1].1 matches FetchedKeyPackage::Verified(Err(_))));
        let at = if i < init.len() {
            i
        } else {
            0
        };
        lemma_sorted_out(init, at);
        match results.last().1 {
            FetchedKeyPackage::Verified(Ok(k)) => {
                if i < init.len() {
                    if let FetchedKeyPackage::Verified(Ok(mine)) = results[i].1 {
                        vstd::seq_lib::lemma_seq_contains_after_push(verified(init), k, mine);
                    }
                } else {
                    vstd::seq_lib::lemma_seq_contains_after_push(verified(init), k, k);
                }
            },
            _ => {
                let id = results.last().0;
                vstd::seq_lib::lemma_seq_contains_after_push(rejected(init), id, results[i].0);
            },
        }
    }
}

/// Sorts the key packages that were asked for into those that verify and the installations whose
/// key packages do not.
#[verifier::loop_isolation(false)]
pub fn get_keypackages_for_installation_ids<K>(results: Vec<(Vec<u8>, FetchedKeyPackage<K>)>) -> (r: Result<
    SortedKeyPackages<K>,
    GroupError,
>)
    ensures
        is_sorted_out(results@, r),
{
    let ghost all = results@;
    let mut results = results;
    let mut fetched: Vec<K> = Vec::new();
    let mut failed: Vec<Vec<u8>> = Vec::new();
    let total: usize = results.len();
    let mut i: usize = 0;
    assert(all.take(0) =~= Seq::empty());
    while i < total
        invariant
            total == all.len(),
            i <= total,
            results@ == all.skip(i as int),
            fetched@ == verified(all.take(i as int)),
            failed@ == rejected(all.take(i as int)),
            forall|j: int|
                0 <= j < i ==> !((#[trigger] all[j]).1 matches FetchedKeyPackage::Verified(Err(_))),
        decreases total - i,
    {
        let (id, result) = results.remove(0);
        assert((id, result) == all[i as int]);
        proof {
            assert(all.take(i + 1).drop_last() =~= all.take(i as int));
            assert(all.take(i + 1).last() == all[i as int]);
            assert(results@ =~= all.skip(i + 1));
        }
        match result {
            FetchedKeyPackage::Verified(Ok(k)) => fetched.push(k),
            FetchedKeyPackage::Verified(Err(e)) => {
                assert(is_first_broken(all, i as int, e));
                return Err(e);
            },
            FetchedKeyPackage::Rejected => failed.push(id),
        }
        i += 1;
    }
    assert(all.take(i as int) =~= all);
    Ok(SortedKeyPackages { fetched, failed })
}

/// The leaves of the members whose installations are removed.
pub open spec fn removed_leaves(members: Seq<GroupMember>, removed_installations: Seq<Vec<u8>>) -> Seq<u32> {
    members.filter(
        |m: GroupMember| bytes::byte_views(removed_installations).contains(m.signature_key@),
    ).map_values(|m: GroupMember| m.index)
}

/// The leaf of a member is removed if the key of the member is among those removed, and every leaf that is
/// removed is that of such a member.
pub proof fn leaves_of_removed_installations_are_removed(
    members: Seq<GroupMember>,
    removed_installations: Seq<Vec<u8>>,
    i: int,
)
    ensures
        (0 <= i < members.len() && bytes::byte_views(removed_installations).contains(members[i].signature_key@))
            ==> removed_leaves(members, removed_installations).contains(members[i].index),
        0 <= i < removed_leaves(members, removed_installations).len() ==> exists|k: int|
            0 <= k < members.len() && (#[trigger] members[k]).index == removed_leaves(members, removed_installations)[i]
                && bytes::byte_views(removed_installations).contains(members[k].signature_key@),
{
    let p = |m: GroupMember| bytes::byte_views(removed_installations).contains(m.signature_key@);
    let kept = members.filter(p);
    let out = removed_leaves(members, removed_installations);
    if 0 <= i < members.len() && p(members[i]) {
        members.lemma_filter_contains(p, i);
        let k = choose|k: int| 0 <= k < kept.len() && kept[k] == members[i];
        assert(out[k] == members[i].index);
    }
    if 0 <= i < out.len() {
        members.lemma_filter_pred(p, i);
        members.lemma_filter_contains_rev(p, kept[i]);
        let k = choose|k: int| 0 <= k < members.len() && members[k] == kept[i];
        assert(members[k].index == out[i]);
    }
}

/// The leaves of the members whose installations are removed, in their order.
pub fn get_removed_leaf_nodes(members: &Vec<GroupMember>, removed_installations: &Vec<Vec<u8>>) -> (r: Vec<u32>)
    ensures
        r@ == removed_leaves(members@, removed_installations@),
{
    let ghost p = |m: GroupMember| bytes::byte_views(removed_installations@).contains(m.signature_key@);
    let ghost leaf = |m: GroupMember| m.index;
    let mut leaves: Vec<u32> = Vec::new();
    let mut i: usize = 0;
    proof {
        reveal(Seq::filter);
        assert(members@.take(0) =~= Seq::<GroupMember>::empty());
        assert(leaves@ =~= members@.take(0).filter(p).map_values(leaf));
    }
    while i < members.len()
        invariant
            i <= members@.len(),
            p == (|m: GroupMember| bytes::byte_views(removed_installations@).contains(m.signature_key@)),
            leaf == (|m: GroupMember| m.index),
            leaves@ == members@.take(i as int).filter(p).map_values(leaf),
        decreases members@.len() - i,
    {
        let ghost before = leaves@;
        let removed: bool = bytes::contains_bytes(
            removed_installations.as_slice(),
            members[i].signature_key.as_slice(),
        );
        proof {
            reveal(Seq::filter);
            assert(members@.take(i + 1).drop_last() =~= members@.take(i as int));
            assert(members@.take(i + 1).last() == members@[i as int]);
        }
        if removed {
            leaves.push(members[i].index);
        }
        proof {
            let shorter = members@.take(i as int).filter(p);
            if removed {
                assert(shorter.push(members@[i as int]).map_values(leaf) =~= before.push(members@[i as int].index));
            }
        }
        i += 1;
    }
    assert(members@.take(i as int) =~= members@);
    leaves
}

/// An update of the members goes this way where all goes well: the latest updates of everybody who is or becomes
/// a member are loaded; what the group would be with them, and without who leaves, is compared with what it is;
/// and the update says who moves to which sequence id, exactly who was asked to leave, and which installations
/// have failed.
pub proof fn members_are_updated(
    current: Seq<Extension>,
    add: Vec<String>,
    remove: Vec<String>,
    latest: TextMap<i64>,
    change: MembershipChange,
    phases: Seq<MembershipPhase>,
    actions: Seq<MembershipAction>,
    k: Seq<char>,
    i: int,
)
    requires
        phases.len() == 3,
        actions.len() == 3,
        is_update_begun(current, add, remove, phases[0], actions[0]),
        is_membership_step(phases[0], MembershipEvent::SequenceIds(Ok(latest)), phases[1], actions[1]),
        is_membership_step(phases[1], MembershipEvent::Compared(Ok(change)), phases[2], actions[2]),
        publish_data::membership_of(current) is Ok,
        forall|id: Seq<char>| latest@.dom().contains(id),
        !(add@.len() > 0 && change.failed_installations@.len() > 0 && change.new_installations == 0),
    ensures
        actions[0] matches MembershipAction::LoadSequenceIds { inbox_ids } && {
            &&& 0 <= i < add@.len() ==> inbox_ids@.contains(add@[i])
            &&& (publish_data::membership_of(current)->Ok_0).members@.dom().contains(k) ==> exists|j: int|
                0 <= j < inbox_ids@.len() && (#[trigger] inbox_ids@[j])@ == k
        },
        actions[1] matches MembershipAction::CompareMemberships { new_membership } && (0 <= i < remove@.len()
            ==> !new_membership.members@.dom().contains(remove@[i]@)),
        actions[2] matches MembershipAction::Finish(Ok(data)) && {
            let old = (publish_data::membership_of(current)->Ok_0).members@;
            &&& data.removed_members@ == remove@
            &&& data.failed_installations == change.failed_installations
            &&& 0 <= i < add@.len() && !old.dom().contains(add@[i]@) ==> data.membership_updates@.dom().contains(
                add@[i]@,
            ) && data.membership_updates@[add@[i]@] == latest@[add@[i]@] as u64
            &&& old.dom().contains(k) && latest@[k] as u64 > old[k] ==> data.membership_updates@.dom().contains(k)
                && data.membership_updates@[k] == latest@[k] as u64
            &&& old.dom().contains(k) && latest@[k] as u64 <= old[k] ==> !data.membership_updates@.dom().contains(k)
        },
{
    let m = publish_data::membership_of(current)->Ok_0;
    let ids = looked_at(m, add@);
    let firsts = m.members.entries@.map_values(|e: (String, u64)| e.0);
    if 0 <= i < add@.len() {
        assert(ids[firsts.len() + i] == add@[i]);
        assert(moves(m.members@, latest@, ids[firsts.len() + i]@) || m.members@.dom().contains(add@[i]@));
    }
    if 0 <= i < remove@.len() {
        lemma_updated_members(m.members@, phases[1]->Comparing_updates@, remove@, i, k);
    }
    if m.members@.dom().contains(k) {
        text_map::lemma_key_is_there(m.members, k);
        let j = choose|j: int| 0 <= j < m.members.entries@.len() && (#[trigger] m.members.entries@[j]).0@ == k;
        assert(firsts[j]@ == k);
        assert(ids[j]@ == k);
    }
}

/// A failure to load or to compare ends the work on an update of the members with that failure; so does an inbox
/// whose latest update is not known, and an addition of which no installation can be had though some failed.
pub proof fn membership_failures_are_reported(
    before: MembershipPhase,
    event: MembershipEvent,
    after: MembershipPhase,
    action: MembershipAction,
)
    requires
        is_membership_step(before, event, after, action),
        action !is Ignore,
    ensures
        event matches MembershipEvent::SequenceIds(Err(e)) ==> action == MembershipAction::Finish(Err(e)),
        event matches MembershipEvent::Compared(Err(e)) ==> action == MembershipAction::Finish(Err(e)),
        (before matches MembershipPhase::Comparing { updates: _, inbox_ids_to_add, inbox_ids_to_remove: _ } && (
        event matches MembershipEvent::Compared(Ok(change)) && inbox_ids_to_add@.len() > 0
            && change.failed_installations@.len() > 0 && change.new_installations == 0)) ==> action
            == MembershipAction::Finish(Err(GroupError::FailedToVerifyInstallations)),
        (action matches MembershipAction::Finish(Err(e)) && (event matches MembershipEvent::Compared(Ok(change)))) ==> (
        before matches MembershipPhase::Comparing { updates: _, inbox_ids_to_add, inbox_ids_to_remove: _ }
            && inbox_ids_to_add@.len() > 0) && (event matches MembershipEvent::Compared(Ok(change))
            && change.failed_installations@.len() > 0 && change.new_installations == 0),
{
}

/// An update that has come to its end does nothing more, and what does not fit the step that it waits for changes nothing.
pub proof fn finished_updates_stay_finished(
    before: MembershipPhase,
    event: MembershipEvent,
    after: MembershipPhase,
    action: MembershipAction,
)
    requires
        is_membership_step(before, event, after, action),
    ensures
        before is Done ==> action is Ignore,
        action is Ignore ==> after == before,
{
}

} // verus!
