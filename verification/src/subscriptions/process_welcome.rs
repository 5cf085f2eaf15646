//! What becomes of a welcome, or of a group that is already known, on its way into a stream.

use vstd::prelude::*;
use crate::bytes;
use crate::groups::group;
use crate::groups::group::MlsGroup;
use crate::records::{ConsentState, ConversationType, Cursor, GlobalCursor, StoredGroup};
use crate::subscriptions::error::SubscribeError;

verus! {

/// A welcome from the network.
#[derive(Debug)]
pub struct WelcomeMessage {
    pub cursor: Cursor,
    pub data: Vec<u8>,
}

/// What a stream of conversations takes in.
#[derive(Debug)]
pub enum WelcomeOrGroup {
    /// A group that is already stored.
    Group {
        id: Vec<u8>,
        /// Whether the group is brought up to date before it is streamed.
        catch_up_before_stream: bool,
        attach_cursor: Option<GlobalCursor>,
        replay_after_ns: Option<i64>,
    },
    Welcome(WelcomeMessage),
}

/// What came of a welcome or group.
#[derive(Debug)]
pub enum ProcessWelcomeResult {
    /// A group, and the welcome that brought it.
    New { group: MlsGroup, id: Cursor },
    /// A group that was already stored; a welcome may have brought it.
    NewStored { group: MlsGroup, maybe_sequence_id: Option<i64>, maybe_originator: Option<i64> },
    /// Nothing is streamed, but the welcome is known from now on.
    IgnoreId { id: Cursor },
    /// Nothing is streamed.
    Ignore,
}

/// Which conversations a stream wants.
#[derive(Debug)]
pub struct WelcomeFilterConfig {
    pub conversation_type: Option<ConversationType>,
    pub include_duplicate_dms: bool,
    pub consent_states: Option<Vec<ConsentState>>,
}

/// What a filter asks about a group.
#[derive(Debug)]
pub struct GroupFacts {
    pub conversation_type: Result<ConversationType, SubscribeError>,
    /// Whether there is another direct conversation with the same person.
    pub has_duplicate_dm: Result<bool, SubscribeError>,
    pub consent_state: Result<ConsentState, SubscribeError>,
}

/// Whether a conversation type is only for the client's own traffic.
pub open spec fn is_virtual(t: ConversationType) -> bool {
    t == ConversationType::Sync || t == ConversationType::Oneshot
}

/// Whether a wanted set of states, if there is one, has a state.
pub open spec fn wants_state(wanted: Option<Vec<ConsentState>>, state: ConsentState) -> bool {
    match wanted {
        Some(states) => states@.contains(state),
        None => true,
    }
}

pub(crate) fn contains_state(states: &Vec<ConsentState>, wanted: ConsentState) -> (r: bool)
    ensures
        r == states@.contains(wanted),
{
    let mut i: usize = 0;
    while i < states.len()
        invariant
            i <= states@.len(),
            forall|j: int| 0 <= j < i ==> states@[j] != wanted,
        decreases states@.len() - i,
    {
        if states[i] == wanted {
            assert(states@[i as int] == wanted);
            return true;
        }
        i += 1;
    }
    false
}

impl WelcomeFilterConfig {
    /// A filter.
    pub fn new(
        conversation_type: Option<ConversationType>,
        include_duplicate_dms: bool,
        consent_states: Option<Vec<ConsentState>>,
    ) -> (r: Self)
        ensures
            r == (WelcomeFilterConfig { conversation_type, include_duplicate_dms, consent_states }),
    {
        WelcomeFilterConfig { conversation_type, include_duplicate_dms, consent_states }
    }

    /// What is known of whether a group goes into the stream: it does or does not, or the error that keeps
    /// this from being known. Groups
    /// for the client's own traffic are kept out where they come by a welcome; a second direct
    /// conversation with the same person is kept out unless it is wanted.
    pub open spec fn inclusion(self, facts: GroupFacts, check_virtual: bool) -> Result<bool, SubscribeError> {
        match facts.conversation_type {
            Err(e) => Err(e),
            Ok(t) => if check_virtual && is_virtual(t) {
                Ok(false)
            } else {
                match facts.has_duplicate_dm {
                    Err(e) => if !self.include_duplicate_dms && t == ConversationType::Dm {
                        Err(e)
                    } else {
                        self.match_of(t, facts.consent_state)
                    },
                    Ok(has_duplicate) => if !self.include_duplicate_dms && t == ConversationType::Dm && has_duplicate {
                        Ok(false)
                    } else {
                        self.match_of(t, facts.consent_state)
                    },
                }
            },
        }
    }

    /// What is known of whether the type of a group and what the user decided about it are wanted: they are
    /// or are not, or the error that keeps this from being known.
    pub open spec fn match_of(self, t: ConversationType, consent: Result<ConsentState, SubscribeError>) -> Result<
        bool,
        SubscribeError,
    > {
        let type_matches = self.conversation_type is None || self.conversation_type == Some(t);
        match self.consent_states {
            None => Ok(type_matches),
            Some(_) => match consent {
                Err(e) => Err(e),
                Ok(state) => Ok(type_matches && wants_state(self.consent_states, state)),
            },
        }
    }

    /// Whether a group goes into the stream.
    pub fn should_include_group(&self, facts: GroupFacts, check_virtual: bool) -> (r: Result<bool, SubscribeError>)
        ensures
            r == self.inclusion(facts, check_virtual),
    {
        let conversation_type = match facts.conversation_type {
            Err(e) => return Err(e),
            Ok(t) => t,
        };
        if check_virtual && conversation_type.is_virtual() {
            return Ok(false);
        }
        if !self.include_duplicate_dms && conversation_type == ConversationType::Dm {
            match facts.has_duplicate_dm {
                Err(e) => return Err(e),
                Ok(true) => return Ok(false),
                Ok(false) => {},
            }
        }
        let type_matches: bool = match self.conversation_type {
            None => true,
            Some(t) => t == conversation_type,
        };
        match &self.consent_states {
            None => Ok(type_matches),
            Some(states) => match facts.consent_state {
                Err(e) => Err(e),
                Ok(state) => Ok(type_matches && contains_state(states, state)),
            },
        }
    }

    /// Lets a result through if its group goes into the stream; else turns it into one that streams
    /// nothing but remembers its welcome, where there is one.
    pub fn filter_processed(&self, processed: ProcessWelcomeResult, facts: GroupFacts) -> (r: Result<
        ProcessWelcomeResult,
        SubscribeError,
    >)
        ensures
            r == filtered(*self, processed, facts),
    {
        match processed {
            ProcessWelcomeResult::New { group, id } => match self.should_include_group(facts, true) {
                Err(e) => Err(e),
                Ok(true) => Ok(ProcessWelcomeResult::New { group, id }),
                Ok(false) => Ok(ProcessWelcomeResult::IgnoreId { id }),
            },
            ProcessWelcomeResult::NewStored { group, maybe_sequence_id, maybe_originator } => {
                match self.should_include_group(facts, false) {
                    Err(e) => Err(e),
                    Ok(true) => Ok(ProcessWelcomeResult::NewStored { group, maybe_sequence_id, maybe_originator }),
                    Ok(false) => match welcome_cursor(maybe_sequence_id, maybe_originator) {
                        Some(id) => Ok(ProcessWelcomeResult::IgnoreId { id }),
                        None => Ok(ProcessWelcomeResult::Ignore),
                    },
                }
            },
            other => Ok(other),
        }
    }
}

/// The welcome that brought a stored group, where one did.
pub open spec fn cursor_of(sequence_id: Option<i64>, originator_id: Option<i64>) -> Option<Cursor> {
    match (sequence_id, originator_id) {
        (Some(s), Some(o)) => Some((Cursor { sequence_id: s as u64, originator_id: o as u32 })),
        _ => None,
    }
}

/// The welcome that brought a stored group, where one did.
pub fn welcome_cursor(sequence_id: Option<i64>, originator_id: Option<i64>) -> (r: Option<Cursor>)
    ensures
        r == cursor_of(sequence_id, originator_id),
{
    match (sequence_id, originator_id) {
        (Some(s), Some(o)) => Some(Cursor { sequence_id: s as u64, originator_id: o as u32 }),
        _ => None,
    }
}

/// What a filter makes of a result.
pub open spec fn filtered(
    config: WelcomeFilterConfig,
    processed: ProcessWelcomeResult,
    facts: GroupFacts,
) -> Result<ProcessWelcomeResult, SubscribeError> {
    match processed {
        ProcessWelcomeResult::New { group, id } => match config.inclusion(facts, true) {
            Err(e) => Err(e),
            Ok(true) => Ok(processed),
            Ok(false) => Ok(ProcessWelcomeResult::IgnoreId { id }),
        },
        ProcessWelcomeResult::NewStored { group, maybe_sequence_id, maybe_originator } => match config.inclusion(
            facts,
            false,
        ) {
            Err(e) => Err(e),
            Ok(true) => Ok(processed),
            Ok(false) => match cursor_of(maybe_sequence_id, maybe_originator) {
                Some(id) => Ok(ProcessWelcomeResult::IgnoreId { id }),
                None => Ok(ProcessWelcomeResult::Ignore),
            },
        },
        _ => Ok(processed),
    }
}

/// A welcome to a group for the client's own traffic is never streamed, nor a second direct
/// conversation where duplicates are not wanted, nor a conversation of another type or another
/// consent than the wanted one.
pub proof fn unwanted_conversations_are_not_streamed(
    config: WelcomeFilterConfig,
    group: MlsGroup,
    id: Cursor,
    facts: GroupFacts,
    t: ConversationType,
    consent: ConsentState,
)
    requires
        facts.conversation_type == Ok::<_, SubscribeError>(t),
        facts.consent_state == Ok::<_, SubscribeError>(consent),
        facts.has_duplicate_dm is Ok,
        is_virtual(t) || (!config.include_duplicate_dms && t == ConversationType::Dm && facts.has_duplicate_dm == Ok::<
            _,
            SubscribeError,
        >(true)) || (config.conversation_type is Some && config.conversation_type != Some(t)) || !wants_state(
            config.consent_states,
            consent,
        ),
    ensures
        filtered(config, ProcessWelcomeResult::New { group, id }, facts) == Ok::<_, SubscribeError>(
            ProcessWelcomeResult::IgnoreId { id },
        ),
{
}

/// A conversation that is wanted in every respect is streamed.
pub proof fn wanted_conversations_are_streamed(
    config: WelcomeFilterConfig,
    group: MlsGroup,
    id: Cursor,
    facts: GroupFacts,
    t: ConversationType,
    consent: ConsentState,
)
    requires
        facts.conversation_type == Ok::<_, SubscribeError>(t),
        facts.consent_state == Ok::<_, SubscribeError>(consent),
        facts.has_duplicate_dm == Ok::<_, SubscribeError>(false) || config.include_duplicate_dms,
        !is_virtual(t),
        config.conversation_type is None || config.conversation_type == Some(t),
        wants_state(config.consent_states, consent),
    ensures
        filtered(config, ProcessWelcomeResult::New { group, id }, facts) == Ok::<_, SubscribeError>(
            ProcessWelcomeResult::New { group, id },
        ),
{
}

/// Whether an outcome is that of loading the group which a welcome brought.
pub open spec fn is_loaded(
    found: Result<Option<StoredGroup>, SubscribeError>,
    r: Result<Option<MlsGroup>, SubscribeError>,
) -> bool {
    match found {
        Err(e) => r == Err::<Option<MlsGroup>, _>(e),
        Ok(None) => r matches Ok(None),
        Ok(Some(row)) => r matches Ok(Some(group)) && group::is_handle_of(group, row),
    }
}

/// A group that is stored is loaded under its own id; one that is not stored is not there, which is no error.
pub proof fn stored_groups_are_loaded(
    found: Result<Option<StoredGroup>, SubscribeError>,
    r: Result<Option<MlsGroup>, SubscribeError>,
)
    requires
        is_loaded(found, r),
    ensures
        found matches Ok(Some(row)) ==> (r matches Ok(Some(group)) && group.group_id@ == row.id@ && group.dm_id == row.dm_id
            && group.conversation_type == row.conversation_type && group.created_at_ns == row.created_at_ns),
        found matches Ok(None) ==> r == Ok::<Option<MlsGroup>, SubscribeError>(None),
        found matches Err(e) ==> r == Err::<Option<MlsGroup>, _>(e),
{
}

/// A filter wants a group exactly if it is of the wanted kind, if any is named, if the user has decided about it in one
/// of the wanted ways, if any are named, and if it is no second direct conversation that is not wanted. Groups for the
/// client's own traffic come in only as groups that are already stored.
pub proof fn filters_want_what_they_name(
    config: WelcomeFilterConfig,
    facts: GroupFacts,
    check_virtual: bool,
    t: ConversationType,
    has_duplicate: bool,
    state: ConsentState,
)
    requires
        facts.conversation_type == Ok::<_, SubscribeError>(t),
        facts.has_duplicate_dm == Ok::<_, SubscribeError>(has_duplicate),
        facts.consent_state == Ok::<_, SubscribeError>(state),
    ensures
        config.inclusion(facts, check_virtual) == Ok::<_, SubscribeError>(
            {
                &&& check_virtual ==> t == ConversationType::Group || t == ConversationType::Dm
                &&& t == ConversationType::Dm && has_duplicate ==> config.include_duplicate_dms
                &&& config.conversation_type is Some ==> config.conversation_type->0 == t
                &&& config.consent_states is Some ==> config.consent_states->0@.contains(state)
            },
        ),
{
}

/// What cannot be found out about a group keeps it from being streamed only where it is asked for.
pub proof fn facts_are_needed_where_they_are_asked_for(
    config: WelcomeFilterConfig,
    facts: GroupFacts,
    check_virtual: bool,
    t: ConversationType,
)
    requires
        facts.conversation_type == Ok::<_, SubscribeError>(t),
        !is_virtual(t),
    ensures
        facts.consent_state matches Err(e) ==> (config.consent_states is Some && config.include_duplicate_dms
            ==> config.inclusion(facts, check_virtual) == Err::<bool, _>(e)),
        config.consent_states is None && config.include_duplicate_dms ==> config.inclusion(facts, check_virtual) is Ok,
        facts.has_duplicate_dm matches Err(e) ==> (!config.include_duplicate_dms && t == ConversationType::Dm
            ==> config.inclusion(facts, check_virtual) == Err::<bool, _>(e)),
{
}

/// The handle of a group that a welcome is known to have brought; none, where there is no such group.
pub fn load_from_store(found: Result<Option<StoredGroup>, SubscribeError>) -> (r: Result<Option<MlsGroup>, SubscribeError>)
    ensures
        is_loaded(found, r),
{
    match found {
        Err(e) => Err(e),
        Ok(None) => Ok(None),
        Ok(Some(row)) => Ok(
            Some(MlsGroup::new(row.id, row.dm_id, row.conversation_type, row.created_at_ns)),
        ),
    }
}

/// How far a welcome or group has come.
#[derive(Debug)]
pub enum WelcomePhase {
    /// The group of a welcome that is already known is loaded.
    LoadingKnown(Cursor),
    /// The welcome is processed.
    Processing(Cursor),
    /// The group of a welcome that turned out to be processed is loaded.
    LoadingProcessed(Cursor),
    /// A stored group is loaded.
    LoadingGroup { attach_cursor: Option<GlobalCursor>, replay_after_ns: Option<i64> },
    /// The filter asks about the group.
    Filtering(ProcessWelcomeResult),
    Done,
}

/// What came of processing a welcome.
#[derive(Debug)]
pub enum WelcomeOutcome {
    /// The group that it brought; none, where it was for a single message.
    Processed(Option<MlsGroup>),
    AlreadyProcessed,
    Failed(SubscribeError),
}

/// What has happened outside.
#[derive(Debug)]
pub enum WelcomeEvent {
    Loaded(Result<Option<MlsGroup>, SubscribeError>),
    Processed(WelcomeOutcome),
    GroupLoaded(Result<(MlsGroup, StoredGroup), SubscribeError>),
    Facts(GroupFacts),
}

/// What is to be done next outside.
#[derive(Debug)]
pub enum WelcomeAction {
    /// Load the group that a welcome brought.
    LoadByWelcome(Cursor),
    /// Process the welcome.
    Process,
    /// Load a stored group, and bring it up to date first where that is asked for.
    LoadGroup { id: Vec<u8>, catch_up: bool },
    /// Find out about the group of a result.
    AskFacts,
    Finish(Result<ProcessWelcomeResult, SubscribeError>),
    Ignore,
}

/// A welcome or group on its way into a stream.
#[derive(Debug)]
pub struct ProcessWelcomeFuture {
    /// The welcomes that are already known.
    pub known_welcome_ids: Vec<Cursor>,
    pub filters: WelcomeFilterConfig,
    pub phase: WelcomePhase,
}

pub(crate) fn contains_cursor(list: &Vec<Cursor>, wanted: Cursor) -> (r: bool)
    ensures
        r == list@.contains(wanted),
{
    let mut i: usize = 0;
    while i < list.len()
        invariant
            i <= list@.len(),
            forall|j: int| 0 <= j < i ==> list@[j] != wanted,
        decreases list@.len() - i,
    {
        if list[i] == wanted {
            assert(list@[i as int] == wanted);
            return true;
        }
        i += 1;
    }
    false
}

/// Whether what the processing of a welcome came to is passed on.
pub open spec fn passes_on(
    before: ProcessWelcomeFuture,
    group: Option<MlsGroup>,
    id: Cursor,
    after: ProcessWelcomeFuture,
    action: WelcomeAction,
) -> bool {
    match group {
        Some(group) => {
            &&& after == (ProcessWelcomeFuture {
                phase: WelcomePhase::Filtering(ProcessWelcomeResult::New { group, id }),
                ..before
            })
            &&& action is AskFacts
        },
        None => finishes(before, after, action, Ok(ProcessWelcomeResult::IgnoreId { id })),
    }
}

/// Whether the way of a welcome or group ends.
pub open spec fn finishes(
    before: ProcessWelcomeFuture,
    after: ProcessWelcomeFuture,
    action: WelcomeAction,
    result: Result<ProcessWelcomeResult, SubscribeError>,
) -> bool {
    &&& after == (ProcessWelcomeFuture { phase: WelcomePhase::Done, ..before })
    &&& action == WelcomeAction::Finish(result)
}

/// The transitions of a welcome or group.
pub open spec fn is_welcome_step(
    before: ProcessWelcomeFuture,
    event: WelcomeEvent,
    after: ProcessWelcomeFuture,
    action: WelcomeAction,
) -> bool {
    match (before.phase, event) {
        (WelcomePhase::LoadingKnown(id), WelcomeEvent::Loaded(outcome)) => match outcome {
            Ok(Some(group)) => passes_on(before, Some(group), id, after, action),
            _ => {
                &&& after == (ProcessWelcomeFuture { phase: WelcomePhase::Processing(id), ..before })
                &&& action is Process
            },
        },
        (WelcomePhase::Processing(id), WelcomeEvent::Processed(outcome)) => match outcome {
            WelcomeOutcome::Processed(group) => passes_on(before, group, id, after, action),
            WelcomeOutcome::AlreadyProcessed => {
                &&& after == (ProcessWelcomeFuture { phase: WelcomePhase::LoadingProcessed(id), ..before })
                &&& action == WelcomeAction::LoadByWelcome(id)
            },
            WelcomeOutcome::Failed(e) => finishes(before, after, action, Err(e)),
        },
        (WelcomePhase::LoadingProcessed(id), WelcomeEvent::Loaded(outcome)) => match outcome {
            Ok(group) => passes_on(before, group, id, after, action),
            Err(e) => finishes(before, after, action, Err(e)),
        },
        (
            WelcomePhase::LoadingGroup { attach_cursor, replay_after_ns },
            WelcomeEvent::GroupLoaded(outcome),
        ) => match outcome {
            Ok((group, row)) => {
                &&& after == (ProcessWelcomeFuture {
                    phase: WelcomePhase::Filtering(
                        ProcessWelcomeResult::NewStored {
                            group: MlsGroup {
                                stream_seed_cursor: attach_cursor,
                                stream_replay_after_ns: replay_after_ns,
                                ..group
                            },
                            maybe_sequence_id: row.sequence_id,
                            maybe_originator: row.originator_id,
                        },
                    ),
                    ..before
                })
                &&& action is AskFacts
            },
            Err(e) => finishes(before, after, action, Err(e)),
        },
        (WelcomePhase::Filtering(processed), WelcomeEvent::Facts(facts)) => finishes(
            before,
            after,
            action,
            filtered(before.filters, processed, facts),
        ),
        _ => after == before && action is Ignore,
    }
}

/// Whether a future begins with a welcome or group. A welcome that is already known is looked for in
/// the store before it is processed again.
pub open spec fn begins_with(future: ProcessWelcomeFuture, action: WelcomeAction, item: WelcomeOrGroup) -> bool {
    match item {
        WelcomeOrGroup::Welcome(welcome) => if future.known_welcome_ids@.contains(welcome.cursor) {
            &&& future.phase == WelcomePhase::LoadingKnown(welcome.cursor)
            &&& action == WelcomeAction::LoadByWelcome(welcome.cursor)
        } else {
            &&& future.phase == WelcomePhase::Processing(welcome.cursor)
            &&& action is Process
        },
        WelcomeOrGroup::Group { id, catch_up_before_stream, attach_cursor, replay_after_ns } => {
            &&& future.phase matches WelcomePhase::LoadingGroup { attach_cursor: a, replay_after_ns: t }
            &&& t == replay_after_ns
            &&& match (a, attach_cursor) {
                (Some(a), Some(c)) => a.positions@ == c.positions@,
                (None, None) => true,
                _ => false,
            }
            &&& action matches WelcomeAction::LoadGroup { id: loaded, catch_up }
            &&& loaded@ == id@
            &&& catch_up == catch_up_before_stream
        },
    }
}

/// How the way of a welcome or group begins.
pub open spec fn begins_processing(
    known_welcome_ids: Vec<Cursor>,
    filters: WelcomeFilterConfig,
    item: WelcomeOrGroup,
    future: ProcessWelcomeFuture,
    action: WelcomeAction,
) -> bool {
    &&& future.known_welcome_ids == known_welcome_ids
    &&& future.filters == filters
    &&& begins_with(future, action, item)
}

/// A welcome that is new is processed, and the group that it brings is streamed as one brought by this welcome, if it is
/// wanted. If it is not, or if the welcome brings none, the welcome alone is remembered.
pub proof fn new_welcomes_bring_their_group(
    known_welcome_ids: Vec<Cursor>,
    filters: WelcomeFilterConfig,
    welcome: WelcomeMessage,
    group: Option<MlsGroup>,
    facts: GroupFacts,
    futures: Seq<ProcessWelcomeFuture>,
    actions: Seq<WelcomeAction>,
)
    requires
        futures.len() == 3,
        actions.len() == 3,
        !known_welcome_ids@.contains(welcome.cursor),
        begins_processing(known_welcome_ids, filters, WelcomeOrGroup::Welcome(welcome), futures[0], actions[0]),
        is_welcome_step(
            futures[0],
            WelcomeEvent::Processed(WelcomeOutcome::Processed(group)),
            futures[1],
            actions[1],
        ),
        is_welcome_step(futures[1], WelcomeEvent::Facts(facts), futures[2], actions[2]),
    ensures
        actions[0] is Process,
        group is None ==> actions[1] == WelcomeAction::Finish(
            Ok(ProcessWelcomeResult::IgnoreId { id: welcome.cursor }),
        ),
        group matches Some(g) ==> {
            &&& actions[1] is AskFacts
            &&& filters.inclusion(facts, true) == Ok::<_, SubscribeError>(true) ==> actions[2] == WelcomeAction::Finish(
                Ok(ProcessWelcomeResult::New { group: g, id: welcome.cursor }),
            )
            &&& filters.inclusion(facts, true) == Ok::<_, SubscribeError>(false) ==> actions[2] == WelcomeAction::Finish(
                Ok(ProcessWelcomeResult::IgnoreId { id: welcome.cursor }),
            )
            &&& filters.inclusion(facts, true) matches Err(e) ==> actions[2] == WelcomeAction::Finish(Err(e))
        },
{
}

/// A welcome that is known is not processed again if its group is stored: the group is loaded and streamed if it is
/// wanted. Only if the group is not there is the welcome processed.
pub proof fn known_welcomes_are_not_processed_again(
    known_welcome_ids: Vec<Cursor>,
    filters: WelcomeFilterConfig,
    welcome: WelcomeMessage,
    loaded: Result<Option<MlsGroup>, SubscribeError>,
    facts: GroupFacts,
    futures: Seq<ProcessWelcomeFuture>,
    actions: Seq<WelcomeAction>,
)
    requires
        futures.len() == 3,
        actions.len() == 3,
        known_welcome_ids@.contains(welcome.cursor),
        begins_processing(known_welcome_ids, filters, WelcomeOrGroup::Welcome(welcome), futures[0], actions[0]),
        is_welcome_step(futures[0], WelcomeEvent::Loaded(loaded), futures[1], actions[1]),
        is_welcome_step(futures[1], WelcomeEvent::Facts(facts), futures[2], actions[2]),
    ensures
        actions[0] == WelcomeAction::LoadByWelcome(welcome.cursor),
        !(loaded matches Ok(Some(_))) ==> actions[1] is Process && futures[1].phase == WelcomePhase::Processing(
            welcome.cursor,
        ),
        loaded matches Ok(Some(g)) ==> {
            &&& actions[1] is AskFacts
            &&& filters.inclusion(facts, true) == Ok::<_, SubscribeError>(true) ==> actions[2] == WelcomeAction::Finish(
                Ok(ProcessWelcomeResult::New { group: g, id: welcome.cursor }),
            )
            &&& filters.inclusion(facts, true) == Ok::<_, SubscribeError>(false) ==> actions[2] == WelcomeAction::Finish(
                Ok(ProcessWelcomeResult::IgnoreId { id: welcome.cursor }),
            )
        },
{
}

/// A welcome that turns out to have been processed meanwhile leads to the group that it brought then.
pub proof fn processed_welcomes_lead_to_their_group(
    before: ProcessWelcomeFuture,
    id: Cursor,
    group: MlsGroup,
    facts: GroupFacts,
    futures: Seq<ProcessWelcomeFuture>,
    actions: Seq<WelcomeAction>,
)
    requires
        futures.len() == 3,
        actions.len() == 3,
        before.phase == WelcomePhase::Processing(id),
        is_welcome_step(before, WelcomeEvent::Processed(WelcomeOutcome::AlreadyProcessed), futures[0], actions[0]),
        is_welcome_step(futures[0], WelcomeEvent::Loaded(Ok(Some(group))), futures[1], actions[1]),
        is_welcome_step(futures[1], WelcomeEvent::Facts(facts), futures[2], actions[2]),
    ensures
        actions[0] == WelcomeAction::LoadByWelcome(id),
        actions[1] is AskFacts,
        before.filters.inclusion(facts, true) == Ok::<_, SubscribeError>(true) ==> actions[2] == WelcomeAction::Finish(
            Ok(ProcessWelcomeResult::New { group, id }),
        ),
        before.filters.inclusion(facts, true) == Ok::<_, SubscribeError>(false) ==> actions[2] == WelcomeAction::Finish(
            Ok(ProcessWelcomeResult::IgnoreId { id }),
        ),
{
}

/// A stored group is loaded under its id, brought up to date if that was asked for, and streamed from where it was asked
/// to be taken up, if it is wanted. If it is not, nothing is streamed, and the welcome that once brought it is remembered.
pub proof fn stored_groups_are_streamed_as_asked(
    known_welcome_ids: Vec<Cursor>,
    filters: WelcomeFilterConfig,
    id: Vec<u8>,
    catch_up_before_stream: bool,
    attach_cursor: Option<GlobalCursor>,
    replay_after_ns: Option<i64>,
    group: MlsGroup,
    row: StoredGroup,
    facts: GroupFacts,
    futures: Seq<ProcessWelcomeFuture>,
    actions: Seq<WelcomeAction>,
)
    requires
        futures.len() == 3,
        actions.len() == 3,
        begins_processing(
            known_welcome_ids,
            filters,
            WelcomeOrGroup::Group { id, catch_up_before_stream, attach_cursor, replay_after_ns },
            futures[0],
            actions[0],
        ),
        is_welcome_step(futures[0], WelcomeEvent::GroupLoaded(Ok((group, row))), futures[1], actions[1]),
        is_welcome_step(futures[1], WelcomeEvent::Facts(facts), futures[2], actions[2]),
    ensures
        actions[0] matches WelcomeAction::LoadGroup { id: loaded, catch_up } && loaded@ == id@ && catch_up
            == catch_up_before_stream,
        actions[1] is AskFacts,
        filters.inclusion(facts, false) == Ok::<_, SubscribeError>(true) ==> (actions[2] matches WelcomeAction::Finish(
            Ok(ProcessWelcomeResult::NewStored { group: streamed, maybe_sequence_id, maybe_originator }),
        ) && {
            &&& streamed.group_id == group.group_id
            &&& streamed.conversation_type == group.conversation_type
            &&& streamed.dm_id == group.dm_id
            &&& streamed.stream_replay_after_ns == replay_after_ns
            &&& streamed.stream_seed_cursor is Some == attach_cursor is Some
            &&& attach_cursor is Some ==> streamed.stream_seed_cursor->0.positions@ == attach_cursor->0.positions@
            &&& maybe_sequence_id == row.sequence_id
            &&& maybe_originator == row.originator_id
        }),
        filters.inclusion(facts, false) == Ok::<_, SubscribeError>(false) && row.sequence_id is Some && row.originator_id
            is Some ==> actions[2] == WelcomeAction::Finish(
            Ok(
                ProcessWelcomeResult::IgnoreId {
                    id: Cursor {
                        sequence_id: row.sequence_id->0 as u64,
                        originator_id: row.originator_id->0 as u32,
                    },
                },
            ),
        ),
        filters.inclusion(facts, false) == Ok::<_, SubscribeError>(false) && (row.sequence_id is None || row.originator_id
            is None) ==> actions[2] == WelcomeAction::Finish(Ok(ProcessWelcomeResult::Ignore)),
{
}

/// A failure ends the way of a welcome or group and is what is reported. The one exception is a failure to load the group
/// of a welcome that is known: then the welcome is processed.
pub proof fn welcomes_fail_as_their_steps_do(
    before: ProcessWelcomeFuture,
    event: WelcomeEvent,
    after: ProcessWelcomeFuture,
    action: WelcomeAction,
)
    requires
        is_welcome_step(before, event, after, action),
        action !is Ignore,
    ensures
        event matches WelcomeEvent::Processed(WelcomeOutcome::Failed(e)) ==> action == WelcomeAction::Finish(Err(e)),
        event matches WelcomeEvent::GroupLoaded(Err(e)) ==> action == WelcomeAction::Finish(Err(e)),
        event matches WelcomeEvent::Loaded(Err(e)) ==> if before.phase is LoadingKnown {
            action is Process
        } else {
            action == WelcomeAction::Finish(Err(e))
        },
        event matches WelcomeEvent::Loaded(Ok(None)) ==> (before.phase matches WelcomePhase::LoadingProcessed(id)
            ==> action == WelcomeAction::Finish(Ok(ProcessWelcomeResult::IgnoreId { id }))),
        action is Finish <==> after.phase is Done,
        after.known_welcome_ids == before.known_welcome_ids && after.filters == before.filters,
{
}

impl ProcessWelcomeFuture {
    /// Begins with a welcome or group.
    pub fn new(
        known_welcome_ids: Vec<Cursor>,
        item: &WelcomeOrGroup,
        conversation_type: Option<ConversationType>,
        include_duplicate_dms: bool,
        consent_states: Option<Vec<ConsentState>>,
    ) -> (r: (Self, WelcomeAction))
        ensures
            begins_processing(
                known_welcome_ids,
                WelcomeFilterConfig { conversation_type, include_duplicate_dms, consent_states },
                *item,
                r.0,
                r.1,
            ),
    {
        let filters = WelcomeFilterConfig::new(conversation_type, include_duplicate_dms, consent_states);
        let (phase, action) = match item {
            WelcomeOrGroup::Welcome(welcome) => {
                if contains_cursor(&known_welcome_ids, welcome.cursor) {
                    (WelcomePhase::LoadingKnown(welcome.cursor), WelcomeAction::LoadByWelcome(welcome.cursor))
                } else {
                    (WelcomePhase::Processing(welcome.cursor), WelcomeAction::Process)
                }
            },
            WelcomeOrGroup::Group { id, catch_up_before_stream, attach_cursor, replay_after_ns } => {
                let attach_cursor: Option<GlobalCursor> = match attach_cursor {
                    Some(c) => Some(c.duplicate()),
                    None => None,
                };
                (
                    WelcomePhase::LoadingGroup { attach_cursor, replay_after_ns: *replay_after_ns },
                    WelcomeAction::LoadGroup {
                        id: bytes::clone_bytes(id.as_slice()),
                        catch_up: *catch_up_before_stream,
                    },
                )
            },
        };
        (ProcessWelcomeFuture { known_welcome_ids, filters, phase }, action)
    }

    fn pass_on(self, group: Option<MlsGroup>, id: Cursor) -> (r: (Self, WelcomeAction))
        ensures
            passes_on(self, group, id, r.0, r.1),
    {
        match group {
            Some(group) => (
                ProcessWelcomeFuture {
                    phase: WelcomePhase::Filtering(ProcessWelcomeResult::New { group, id }),
                    ..self
                },
                WelcomeAction::AskFacts,
            ),
            None => self.finish(Ok(ProcessWelcomeResult::IgnoreId { id })),
        }
    }

    fn finish(self, result: Result<ProcessWelcomeResult, SubscribeError>) -> (r: (Self, WelcomeAction))
        ensures
            finishes(self, r.0, r.1, result),
    {
        (ProcessWelcomeFuture { phase: WelcomePhase::Done, ..self }, WelcomeAction::Finish(result))
    }

    /// Takes a welcome or group one step further.
    pub fn process(self, event: WelcomeEvent) -> (r: (Self, WelcomeAction))
        ensures
            is_welcome_step(self, event, r.0, r.1),
    {
        let ProcessWelcomeFuture { known_welcome_ids, filters, phase } = self;
        match (phase, event) {
            (WelcomePhase::LoadingKnown(id), WelcomeEvent::Loaded(outcome)) => {
                let rest = ProcessWelcomeFuture { known_welcome_ids, filters, phase: WelcomePhase::Processing(id) };
                match outcome {
                    Ok(Some(group)) => rest.pass_on(Some(group), id),
                    _ => (rest, WelcomeAction::Process),
                }
            },
            (WelcomePhase::Processing(id), WelcomeEvent::Processed(outcome)) => {
                let rest = ProcessWelcomeFuture { known_welcome_ids, filters, phase: WelcomePhase::LoadingProcessed(id) };
                match outcome {
                    WelcomeOutcome::Processed(group) => rest.pass_on(group, id),
                    WelcomeOutcome::AlreadyProcessed => (rest, WelcomeAction::LoadByWelcome(id)),
                    WelcomeOutcome::Failed(e) => rest.finish(Err(e)),
                }
            },
            (WelcomePhase::LoadingProcessed(id), WelcomeEvent::Loaded(outcome)) => {
                let rest = ProcessWelcomeFuture { known_welcome_ids, filters, phase: WelcomePhase::Done };
                match outcome {
                    Ok(group) => rest.pass_on(group, id),
                    Err(e) => rest.finish(Err(e)),
                }
            },
            (
                WelcomePhase::LoadingGroup { attach_cursor, replay_after_ns },
                WelcomeEvent::GroupLoaded(outcome),
            ) => match outcome {
                Ok((group, row)) => {
                    let group = group.with_stream_seed_cursor(attach_cursor).with_stream_replay_after_ns(replay_after_ns);
                    (
                        ProcessWelcomeFuture {
                            known_welcome_ids,
                            filters,
                            phase: WelcomePhase::Filtering(
                                ProcessWelcomeResult::NewStored {
                                    group,
                                    maybe_sequence_id: row.sequence_id,
                                    maybe_originator: row.originator_id,
                                },
                            ),
                        },
                        WelcomeAction::AskFacts,
                    )
                },
                Err(e) => ProcessWelcomeFuture { known_welcome_ids, filters, phase: WelcomePhase::Done }.finish(Err(e)),
            },
            (WelcomePhase::Filtering(processed), WelcomeEvent::Facts(facts)) => {
                let result = filters.filter_processed(processed, facts);
                ProcessWelcomeFuture { known_welcome_ids, filters, phase: WelcomePhase::Done }.finish(result)
            },
            (phase, _) => (ProcessWelcomeFuture { known_welcome_ids, filters, phase }, WelcomeAction::Ignore),
        }
    }
}

/// A welcome that has come to its end asks for nothing more, and what does not fit the step that it waits for changes nothing.
pub proof fn finished_welcomes_stay_finished(
    before: ProcessWelcomeFuture,
    event: WelcomeEvent,
    after: ProcessWelcomeFuture,
    action: WelcomeAction,
)
    requires
        is_welcome_step(before, event, after, action),
    ensures
        before.phase is Done ==> action is Ignore,
        action is Ignore ==> after == before,
{
}

} // verus!
