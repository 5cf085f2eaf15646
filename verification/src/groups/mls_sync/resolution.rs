//! Waiting until an intent is resolved.

use vstd::prelude::*;
use vstd::string::*;
use crate::error::ExternalError;
use crate::groups::error::GroupError;
use crate::groups::summary::SyncSummary;
use crate::records::{IntentKind, IntentState};

verus! {

/// A version of this client.
#[derive(Debug)]
pub struct LibXMTPVersion {
    pub major: u32,
    pub minor: u32,
    pub patch: u32,
    pub suffix: Option<String>,
}

/// Whether one byte string comes before another or is the same, compared byte by byte.
pub open spec fn bytes_at_most(a: Seq<u8>, b: Seq<u8>) -> bool
    decreases a.len(),
{
    if a.len() == 0 {
        true
    } else if b.len() == 0 {
        false
    } else if a[0] != b[0] {
        a[0] < b[0]
    } else {
        bytes_at_most(a.drop_first(), b.drop_first())
    }
}

impl LibXMTPVersion {
    /// Whether a version is met by another: compared by its numbers, then by its suffix, where none
    /// comes before any.
    pub open spec fn met_by(self, other: LibXMTPVersion) -> bool {
        if self.major != other.major {
            self.major < other.major
        } else if self.minor != other.minor {
            self.minor < other.minor
        } else if self.patch != other.patch {
            self.patch < other.patch
        } else {
            match (self.suffix, other.suffix) {
                (None, _) => true,
                (Some(_), None) => false,
                (Some(a), Some(b)) => bytes_at_most(
                    vstd::utf8::encode_utf8(a@),
                    vstd::utf8::encode_utf8(b@),
                ),
            }
        }
    }

    /// Whether this version is met by another.
    pub fn is_met_by(&self, other: &LibXMTPVersion) -> (r: bool)
        ensures
            r == self.met_by(*other),
    {
        if self.major != other.major {
            self.major < other.major
        } else if self.minor != other.minor {
            self.minor < other.minor
        } else if self.patch != other.patch {
            self.patch < other.patch
        } else {
            match (&self.suffix, &other.suffix) {
                (None, _) => true,
                (Some(_), None) => false,
                (Some(a), Some(b)) => at_most(a.as_str().as_bytes(), b.as_str().as_bytes()),
            }
        }
    }
}

/// Of two versions at least one is met by the other, every version is met by itself, and a version is met by
/// another exactly as the first number in which they differ says: one that is smaller is met, one that is
/// greater is not. Of two with equal numbers, one without a suffix is met by any, and one with a suffix is not
/// met by one without.
pub proof fn newer_versions_meet_older_ones(a: LibXMTPVersion, b: LibXMTPVersion)
    ensures
        a.met_by(a),
        a.met_by(b) || b.met_by(a),
        a.major < b.major ==> a.met_by(b) && !b.met_by(a),
        a.major == b.major && a.minor < b.minor ==> a.met_by(b) && !b.met_by(a),
        a.major == b.major && a.minor == b.minor && a.patch < b.patch ==> a.met_by(b) && !b.met_by(a),
        a.major == b.major && a.minor == b.minor && a.patch == b.patch && a.suffix is None ==> a.met_by(b),
        a.major == b.major && a.minor == b.minor && a.patch == b.patch && a.suffix is None && b.suffix is Some
            ==> !b.met_by(a),
{
    if let Some(x) = a.suffix {
        lemma_at_most_total(vstd::utf8::encode_utf8(x@), vstd::utf8::encode_utf8(x@));
        if let Some(y) = b.suffix {
            lemma_at_most_total(vstd::utf8::encode_utf8(x@), vstd::utf8::encode_utf8(y@));
        }
    }
}

proof fn lemma_at_most_total(a: Seq<u8>, b: Seq<u8>)
    ensures
        bytes_at_most(a, b) || bytes_at_most(b, a),
    decreases a.len(),
{
    if a.len() > 0 && b.len() > 0 && a[0] == b[0] {
        lemma_at_most_total(a.drop_first(), b.drop_first());
    }
}

/// A byte string comes before every longer one that begins with it, and before every one whose first other
/// byte is greater.
pub proof fn suffixes_are_ordered(common: Seq<u8>, a: Seq<u8>, b: Seq<u8>)
    ensures
        bytes_at_most(common, common + b),
        b.len() > 0 ==> !bytes_at_most(common + b, common),
        a.len() > 0 && b.len() > 0 && a[0] < b[0] ==> bytes_at_most(common + a, common + b) && !bytes_at_most(
            common + b,
            common + a,
        ),
    decreases common.len(),
{
    if common.len() > 0 {
        suffixes_are_ordered(common.drop_first(), a, b);
        assert((common + a).drop_first() =~= common.drop_first() + a);
        assert((common + b).drop_first() =~= common.drop_first() + b);
    } else {
        assert(common + a =~= a);
        assert(common + b =~= b);
    }
}

fn at_most(a: &[u8], b: &[u8]) -> (r: bool)
    ensures
        r == bytes_at_most(a@, b@),
{
    let mut i: usize = 0;
    assert(a@.skip(0) =~= a@);
    assert(b@.skip(0) =~= b@);
    while i < a.len() && i < b.len()
        invariant
            i <= a@.len(),
            i <= b@.len(),
            bytes_at_most(a@, b@) == bytes_at_most(a@.skip(i as int), b@.skip(i as int)),
        decreases a@.len() - i,
    {
        assert(a@.skip(i as int)[0] == a@[i as int]);
        assert(b@.skip(i as int)[0] == b@[i as int]);
        if a[i] != b[i] {
            return a[i] < b[i];
        }
        assert(a@.skip(i as int).drop_first() =~= a@.skip(i + 1));
        assert(b@.skip(i as int).drop_first() =~= b@.skip(i + 1));
        i += 1;
    }
    a.len() == i
}

/// What becomes of a group that may be paused.
#[derive(Debug)]
pub enum PauseResolution {
    /// It is not paused.
    NotPaused,
    /// This client has become new enough: the group is taken up again.
    Unpause,
}

/// Whether a result is what becomes of a group that may be paused.
pub open spec fn is_pause_resolution(
    paused: Option<String>,
    current: Result<LibXMTPVersion, GroupError>,
    required: Result<LibXMTPVersion, GroupError>,
    r: Result<PauseResolution, GroupError>,
) -> bool {
    match paused {
        None => r == Ok::<_, GroupError>(PauseResolution::NotPaused),
        Some(version) => match (current, required) {
            (Err(e), _) => r == Err::<PauseResolution, _>(e),
            (Ok(_), Err(e)) => r == Err::<PauseResolution, _>(e),
            (Ok(current), Ok(required)) => if required.met_by(current) {
                r == Ok::<_, GroupError>(PauseResolution::Unpause)
            } else {
                r == Err::<PauseResolution, _>(GroupError::GroupPausedUntilUpdate(version))
            },
        },
    }
}

/// A group that is not paused goes on. One that is paused is taken up again exactly if both versions are known
/// and that of this client meets what the group waits for; until then every use of it is refused by the
/// version that it waits for.
pub proof fn paused_groups_wait_for_their_version(
    paused: Option<String>,
    current: Result<LibXMTPVersion, GroupError>,
    required: Result<LibXMTPVersion, GroupError>,
    r: Result<PauseResolution, GroupError>,
)
    requires
        is_pause_resolution(paused, current, required, r),
    ensures
        paused is None <==> (r matches Ok(p) && p is NotPaused),
        (r matches Ok(p) && p is Unpause) <==> paused is Some && current is Ok && required is Ok && (
        required->Ok_0).met_by(current->Ok_0),
        (paused is Some && current is Ok && required is Ok && (required->Ok_0).major > (current->Ok_0).major) ==> r
            == Err::<PauseResolution, _>(GroupError::GroupPausedUntilUpdate(paused->0)),
        (paused is Some && current is Ok && required is Ok && (required->Ok_0).major < (current->Ok_0).major) ==> (
        r matches Ok(p) && p is Unpause),
        (paused is Some && current matches Err(e)) ==> r == Err::<PauseResolution, _>(current->Err_0),
        (paused is Some && current is Ok && required is Err) ==> r == Err::<PauseResolution, _>(required->Err_0),
{
}

/// Decides whether a paused group is taken up again. `paused` is the version that it waits for; the
/// version of this client is looked at first.
pub fn resolve_paused_group(
    paused: Option<String>,
    current: Result<LibXMTPVersion, GroupError>,
    required: Result<LibXMTPVersion, GroupError>,
) -> (r: Result<PauseResolution, GroupError>)
    ensures
        is_pause_resolution(paused, current, required, r),
{
    let version = match paused {
        None => return Ok(PauseResolution::NotPaused),
        Some(version) => version,
    };
    let current = match current {
        Err(e) => return Err(e),
        Ok(current) => current,
    };
    let required = match required {
        Err(e) => return Err(e),
        Ok(required) => required,
    };
    if required.is_met_by(&current) {
        Ok(PauseResolution::Unpause)
    } else {
        Err(GroupError::GroupPausedUntilUpdate(version))
    }
}

/// How far an intent has come.
#[derive(Clone, Copy, Debug, PartialEq, Eq, Structural)]
pub enum IntentResolutionStatus {
    Processed,
    Deleted,
    Error { kind: IntentKind },
    Pending { state: IntentState, kind: IntentKind },
}

/// How far an intent has come, by its row.
pub open spec fn status_of(intent: Option<(IntentState, IntentKind)>) -> IntentResolutionStatus {
    match intent {
        None => IntentResolutionStatus::Deleted,
        Some((IntentState::Processed, _)) => IntentResolutionStatus::Processed,
        Some((IntentState::Error, kind)) => IntentResolutionStatus::Error { kind },
        Some((state, kind)) => IntentResolutionStatus::Pending { state, kind },
    }
}

/// An intent is resolved exactly if it is processed or gone, has failed exactly if its row says so, and is
/// waited for in every other state.
pub proof fn intents_are_waited_for_until_they_end(intent: Option<(IntentState, IntentKind)>)
    ensures
        status_of(intent) == IntentResolutionStatus::Deleted <==> intent is None,
        status_of(intent) == IntentResolutionStatus::Processed <==> intent is Some && (intent->0).0
            == IntentState::Processed,
        status_of(intent) is Error <==> intent is Some && (intent->0).0 == IntentState::Error,
        status_of(intent) is Pending <==> intent is Some && ((intent->0).0 == IntentState::ToPublish || (intent->0).0
            == IntentState::Published || (intent->0).0 == IntentState::Committed),
        status_of(intent) matches IntentResolutionStatus::Pending { state, kind } ==> intent == Some((state, kind)),
        status_of(intent) matches IntentResolutionStatus::Error { kind } ==> intent == Some((IntentState::Error, kind)),
{
}

/// How far an intent has come, by its row.
pub fn intent_resolution_status(intent: Option<(IntentState, IntentKind)>) -> (r: IntentResolutionStatus)
    ensures
        r == status_of(intent),
{
    match intent {
        None => IntentResolutionStatus::Deleted,
        Some((IntentState::Processed, _)) => IntentResolutionStatus::Processed,
        Some((IntentState::Error, kind)) => IntentResolutionStatus::Error { kind },
        Some((state, kind)) => IntentResolutionStatus::Pending { state, kind },
    }
}

/// The last of some intents.
pub open spec fn latest_of(intents: Seq<i32>) -> Option<i32> {
    if intents.len() > 0 {
        Some(intents.last())
    } else {
        None
    }
}

/// The intent that is waited for is the one that was queued last, so that all before it are resolved by then.
pub proof fn the_last_intent_is_waited_for(intents: Seq<i32>, last: i32)
    ensures
        latest_of(intents.push(last)) == Some(last),
        latest_of(intents) is None <==> intents.len() == 0,
{
}

/// The last of the intents that are still to be resolved.
pub fn latest_resolvable_intent_id(intents: &Vec<i32>) -> (r: Option<i32>)
    ensures
        r == latest_of(intents@),
{
    if intents.len() > 0 {
        Some(intents[intents.len() - 1])
    } else {
        None
    }
}

/// What waiting for an intent waits for.
#[derive(Clone, Copy, Debug, PartialEq, Eq, Structural)]
pub enum WaitPhase {
    Syncing,
    Checking,
    Sleeping,
    Done,
}

/// Waiting for an intent.
#[derive(Debug)]
pub struct IntentWait {
    pub attempt: usize,
    pub phase: WaitPhase,
    pub summary: SyncSummary,
}

/// What has happened outside.
#[derive(Debug)]
pub enum WaitEvent {
    Synced(Result<SyncSummary, SyncSummary>),
    Checked(Result<IntentResolutionStatus, ExternalError>),
    Slept,
}

/// What is to be done next outside.
#[derive(Debug)]
pub enum WaitAction {
    Sync { attempt: usize },
    Check,
    Sleep,
    Finish(Result<(), WaitFailure>),
    Ignore,
}

/// How waiting for an intent failed.
#[derive(Clone, Copy, Debug, PartialEq, Eq, Structural)]
pub enum WaitFailure {
    /// The intent failed.
    IntentFailed,
    /// The attempts were used up.
    GaveUp,
}

/// Whether a summary is another one with a later one taken in.
pub open spec fn is_extended(before: SyncSummary, later: SyncSummary, after: SyncSummary) -> bool {
    &&& after.publish_errors@ == before.publish_errors@ + later.publish_errors@
    &&& after.post_commit_errors@ == before.post_commit_errors@ + later.post_commit_errors@
    &&& after.other@ == before.other@ + later.other@
    &&& after.process.total_messages@ == before.process.total_messages@ + later.process.total_messages@
    &&& after.process.new_messages@ == before.process.new_messages@ + later.process.new_messages@
    &&& after.process.errored@ == before.process.errored@ + later.process.errored@
}

/// What follows an attempt that did not resolve the intent.
pub open spec fn tries_again(
    before: IntentWait,
    after: IntentWait,
    action: WaitAction,
    max_retries: usize,
) -> bool {
    if before.attempt + 1 < max_retries {
        after.attempt == before.attempt && after.phase is Sleeping && action is Sleep
    } else {
        after.phase is Done && action == WaitAction::Finish(Err(WaitFailure::GaveUp))
    }
}

/// The transitions of waiting for an intent.
pub open spec fn is_wait_step(
    before: IntentWait,
    event: WaitEvent,
    max_retries: usize,
    after: IntentWait,
    action: WaitAction,
) -> bool {
    match (before.phase, event) {
        (WaitPhase::Syncing, WaitEvent::Synced(outcome)) => {
            &&& after.attempt == before.attempt
            &&& after.phase is Checking
            &&& is_extended(
                before.summary,
                match outcome {
                    Ok(s) => s,
                    Err(s) => s,
                },
                after.summary,
            )
            &&& action is Check
        },
        (WaitPhase::Checking, WaitEvent::Checked(Ok(status))) => {
            &&& after.summary == before.summary
            &&& match status {
                IntentResolutionStatus::Processed => after.phase is Done && action == WaitAction::Finish(Ok(())),
                IntentResolutionStatus::Deleted => after.phase is Done && action == WaitAction::Finish(Ok(())),
                IntentResolutionStatus::Error { kind: _ } => after.phase is Done && action == WaitAction::Finish(
                    Err(WaitFailure::IntentFailed),
                ),
                IntentResolutionStatus::Pending { state: _, kind: _ } => tries_again(
                    before,
                    after,
                    action,
                    max_retries,
                ),
            }
        },
        (WaitPhase::Checking, WaitEvent::Checked(Err(e))) => {
            &&& after.summary == (SyncSummary { other: after.summary.other, ..before.summary })
            &&& after.summary.other@ == before.summary.other@.push(GroupError::External(e))
            &&& tries_again(before, after, action, max_retries)
        },
        (WaitPhase::Sleeping, WaitEvent::Slept) => {
            &&& after.attempt == before.attempt + 1
            &&& after.phase is Syncing
            &&& after.summary == before.summary
            &&& action == WaitAction::Sync { attempt: after.attempt }
        },
        _ => after == before && action is Ignore,
    }
}

/// Whether waiting for an intent begins.
pub open spec fn begins_waiting(max_retries: usize, wait: IntentWait, action: WaitAction) -> bool {
    &&& wait.attempt == 0
    &&& wait.summary.empty()
    &&& if max_retries == 0 {
        wait.phase is Done && action == WaitAction::Finish(Err(WaitFailure::GaveUp))
    } else {
        wait.phase is Syncing && action == WaitAction::Sync { attempt: 0 }
    }
}

/// Begins to wait for an intent. With no attempt allowed, waiting has failed.
pub fn sync_until_intent_resolved(max_retries: usize) -> (r: (IntentWait, WaitAction))
    ensures
        begins_waiting(max_retries, r.0, r.1),
{
    let summary = SyncSummary::new();
    if max_retries == 0 {
        return (
            IntentWait { attempt: 0, phase: WaitPhase::Done, summary },
            WaitAction::Finish(Err(WaitFailure::GaveUp)),
        );
    }
    (IntentWait { attempt: 0, phase: WaitPhase::Syncing, summary }, WaitAction::Sync { attempt: 0 })
}

fn try_again(wait: IntentWait, max_retries: usize) -> (r: (IntentWait, WaitAction))
    requires
        wait.attempt < max_retries,
    ensures
        tries_again(wait, r.0, r.1, max_retries),
        r.0.summary == wait.summary,
{
    if wait.attempt < max_retries - 1 {
        (IntentWait { phase: WaitPhase::Sleeping, ..wait }, WaitAction::Sleep)
    } else {
        (IntentWait { phase: WaitPhase::Done, ..wait }, WaitAction::Finish(Err(WaitFailure::GaveUp)))
    }
}

/// Takes waiting for an intent one step further. A failed pass of synchronization does not end it:
/// only the state of the intent tells whether it is resolved.
pub fn sync_until_intent_resolved_inner(wait: IntentWait, event: WaitEvent, max_retries: usize) -> (r: (
    IntentWait,
    WaitAction,
))
    requires
        wait.phase !is Done ==> wait.attempt < max_retries,
        wait.phase is Sleeping ==> wait.attempt + 1 < max_retries,
    ensures
        is_wait_step(wait, event, max_retries, r.0, r.1),
        r.0.phase !is Done ==> r.0.attempt < max_retries,
        r.0.phase is Sleeping ==> r.0.attempt + 1 < max_retries,
{
    let IntentWait { attempt, phase, summary } = wait;
    match (phase, event) {
        (WaitPhase::Syncing, WaitEvent::Synced(outcome)) => {
            let mut summary = summary;
            match outcome {
                Ok(s) => summary.extend(s),
                Err(s) => summary.extend(s),
            }
            (IntentWait { attempt, phase: WaitPhase::Checking, summary }, WaitAction::Check)
        },
        (WaitPhase::Checking, WaitEvent::Checked(Ok(status))) => match status {
            IntentResolutionStatus::Processed => (
                IntentWait { attempt, phase: WaitPhase::Done, summary },
                WaitAction::Finish(Ok(())),
            ),
            IntentResolutionStatus::Deleted => (
                IntentWait { attempt, phase: WaitPhase::Done, summary },
                WaitAction::Finish(Ok(())),
            ),
            IntentResolutionStatus::Error { kind: _ } => (
                IntentWait { attempt, phase: WaitPhase::Done, summary },
                WaitAction::Finish(Err(WaitFailure::IntentFailed)),
            ),
            IntentResolutionStatus::Pending { state: _, kind: _ } => try_again(
                IntentWait { attempt, phase, summary },
                max_retries,
            ),
        },
        (WaitPhase::Checking, WaitEvent::Checked(Err(e))) => {
            let mut summary = summary;
            summary.add_other(GroupError::External(e));
            try_again(IntentWait { attempt, phase, summary }, max_retries)
        },
        (WaitPhase::Sleeping, WaitEvent::Slept) => (
            IntentWait { attempt: attempt + 1, phase: WaitPhase::Syncing, summary },
            WaitAction::Sync { attempt: attempt + 1 },
        ),
        (phase, _) => (IntentWait { attempt, phase, summary }, WaitAction::Ignore),
    }
}

/// What waiting for an intent is reported as.
pub open spec fn waited(finished: Result<(), WaitFailure>, summary: SyncSummary) -> Result<SyncSummary, GroupError> {
    match finished {
        Ok(_) => Ok(summary),
        Err(WaitFailure::IntentFailed) => Err(GroupError::Sync(Box::new(summary))),
        Err(WaitFailure::GaveUp) => Err(GroupError::SyncFailedToWait(Box::new(summary))),
    }
}

/// Waiting that succeeded is reported with its summary, an intent that failed as a failure of the passes, and
/// waiting that was given up as that; the summary is never lost.
pub proof fn waiting_is_reported(finished: Result<(), WaitFailure>, summary: SyncSummary)
    ensures
        waited(finished, summary) is Ok <==> finished is Ok,
        waited(finished, summary) matches Ok(s) ==> s == summary,
        finished == Err::<(), _>(WaitFailure::IntentFailed) ==> waited(finished, summary) == Err::<SyncSummary, _>(
            GroupError::Sync(Box::new(summary)),
        ),
        finished == Err::<(), _>(WaitFailure::GaveUp) ==> waited(finished, summary) == Err::<SyncSummary, _>(
            GroupError::SyncFailedToWait(Box::new(summary)),
        ),
{
}

/// What waiting for an intent is reported as.
pub fn wait_outcome(finished: Result<(), WaitFailure>, summary: SyncSummary) -> (r: Result<SyncSummary, GroupError>)
    ensures
        r == waited(finished, summary),
{
    match finished {
        Ok(_) => Ok(summary),
        Err(WaitFailure::IntentFailed) => Err(GroupError::Sync(Box::new(summary))),
        Err(WaitFailure::GaveUp) => Err(GroupError::SyncFailedToWait(Box::new(summary))),
    }
}

/// Waiting succeeds only where the intent was found processed or gone, and never syncs more often
/// than is allowed.
pub proof fn waiting_ends_with_the_intent(
    before: IntentWait,
    event: WaitEvent,
    max_retries: usize,
    after: IntentWait,
    action: WaitAction,
)
    requires
        is_wait_step(before, event, max_retries, after, action),
        before.phase is Sleeping ==> before.attempt + 1 < max_retries,
    ensures
        action == WaitAction::Finish(Ok(())) ==> {
            ||| event == WaitEvent::Checked(Ok(IntentResolutionStatus::Processed))
            ||| event == WaitEvent::Checked(Ok(IntentResolutionStatus::Deleted))
        },
        action matches WaitAction::Sync { attempt } ==> attempt < max_retries,
{
}

/// Whether waiting goes step by step, `actions[0]` being the first action and `actions[i + 1]` the one that event
/// `i` leads to, with no event out of place.
pub open spec fn is_wait_run(
    max_retries: usize,
    waits: Seq<IntentWait>,
    events: Seq<WaitEvent>,
    actions: Seq<WaitAction>,
) -> bool {
    &&& waits.len() == events.len() + 1
    &&& actions.len() == events.len() + 1
    &&& begins_waiting(max_retries, waits[0], actions[0])
    &&& forall|i: int|
        0 <= i < events.len() ==> is_wait_step(#[trigger] waits[i], events[i], max_retries, waits[i + 1], actions[i + 1])
    &&& forall|i: int| 0 <= i < actions.len() ==> (#[trigger] actions[i]) !is Ignore
}

/// How many passes of synchronization were made by the first `n` events.
pub open spec fn passes_made(events: Seq<WaitEvent>, n: int) -> nat
    decreases n,
{
    if n <= 0 {
        0
    } else {
        passes_made(events, n - 1) + (if events[n - 1] is Synced {
            1nat
        } else {
            0nat
        })
    }
}

/// In every run, waiting is given up only after as many passes as are allowed, no pass is made beyond these,
/// and after each pass the intent is looked at; what every pass came to is in the summary.
pub proof fn waiting_makes_all_its_passes(
    max_retries: usize,
    waits: Seq<IntentWait>,
    events: Seq<WaitEvent>,
    actions: Seq<WaitAction>,
    n: int,
)
    requires
        is_wait_run(max_retries, waits, events, actions),
        0 <= n <= events.len(),
    ensures
        passes_made(events, n) <= max_retries,
        actions[n] == WaitAction::Finish(Err(WaitFailure::GaveUp)) ==> passes_made(events, n) == max_retries,
        actions[n] matches WaitAction::Sync { attempt } ==> attempt == passes_made(events, n) && attempt < max_retries,
        (n > 0 && events[n - 1] is Synced) ==> actions[n] is Check,
        (n > 0 && events[n - 1] is Slept) ==> actions[n] is Sync,
        (n > 0 && (events[n - 1] matches WaitEvent::Checked(Ok(status)) && (status is Processed || status is Deleted)))
            ==> actions[n] == WaitAction::Finish(Ok(())),
        (n > 0 && (events[n - 1] matches WaitEvent::Checked(Ok(status)) && status is Error)) ==> actions[n]
            == WaitAction::Finish(Err(WaitFailure::IntentFailed)),
        (n > 0 && (events[n - 1] matches WaitEvent::Checked(outcome) && (outcome is Err || outcome->Ok_0 is Pending)))
            ==> if passes_made(events, n) < max_retries {
            actions[n] is Sleep
        } else {
            actions[n] == WaitAction::Finish(Err(WaitFailure::GaveUp))
        },
{
    lemma_attempts(max_retries, waits, events, actions, n);
}

proof fn lemma_attempts(
    max_retries: usize,
    waits: Seq<IntentWait>,
    events: Seq<WaitEvent>,
    actions: Seq<WaitAction>,
    n: int,
)
    requires
        is_wait_run(max_retries, waits, events, actions),
        0 <= n <= events.len(),
    ensures
        waits[n].phase is Syncing ==> passes_made(events, n) == waits[n].attempt && waits[n].attempt < max_retries,
        waits[n].phase is Checking ==> passes_made(events, n) == waits[n].attempt + 1 && waits[n].attempt < max_retries,
        waits[n].phase is Sleeping ==> passes_made(events, n) == waits[n].attempt + 1 && waits[n].attempt + 1
            < max_retries,
        passes_made(events, n) <= max_retries,
        actions[n] == WaitAction::Finish(Err(WaitFailure::GaveUp)) ==> passes_made(events, n) == max_retries,
        actions[n] matches WaitAction::Sync { attempt } ==> attempt == passes_made(events, n) && attempt < max_retries,
        n > 0 ==> match events[n - 1] {
            WaitEvent::Synced(_) => actions[n] is Check,
            WaitEvent::Slept => actions[n] is Sync,
            WaitEvent::Checked(Ok(IntentResolutionStatus::Processed)) => actions[n] == WaitAction::Finish(Ok(())),
            WaitEvent::Checked(Ok(IntentResolutionStatus::Deleted)) => actions[n] == WaitAction::Finish(Ok(())),
            WaitEvent::Checked(Ok(IntentResolutionStatus::Error { kind: _ })) => actions[n] == WaitAction::Finish(
                Err(WaitFailure::IntentFailed),
            ),
            WaitEvent::Checked(_) => if passes_made(events, n) < max_retries {
                actions[n] is Sleep
            } else {
                actions[n] == WaitAction::Finish(Err(WaitFailure::GaveUp))
            },
        },
    decreases n,
{
    if n > 0 {
        lemma_attempts(max_retries, waits, events, actions, n - 1);
        assert(is_wait_step(waits[n - 1], events[n - 1], max_retries, waits[n - 1 + 1], actions[n - 1 + 1]));
        assert(actions[n] !is Ignore);
    }
}

/// What a pass came to is added to the summary of waiting, whether the pass failed or not, and an error of
/// looking at the intent is too; nothing is ever taken out of it.
pub proof fn waiting_keeps_what_passes_came_to(
    before: IntentWait,
    event: WaitEvent,
    max_retries: usize,
    after: IntentWait,
    action: WaitAction,
)
    requires
        is_wait_step(before, event, max_retries, after, action),
        action !is Ignore,
    ensures
        event matches WaitEvent::Synced(outcome) ==> {
            let made = if outcome is Ok {
                outcome->Ok_0
            } else {
                outcome->Err_0
            };
            &&& after.summary.publish_errors@ == before.summary.publish_errors@ + made.publish_errors@
            &&& after.summary.post_commit_errors@ == before.summary.post_commit_errors@ + made.post_commit_errors@
            &&& after.summary.other@ == before.summary.other@ + made.other@
            &&& after.summary.process.total_messages@ == before.summary.process.total_messages@
                + made.process.total_messages@
            &&& after.summary.process.new_messages@ == before.summary.process.new_messages@ + made.process.new_messages@
            &&& after.summary.process.errored@ == before.summary.process.errored@ + made.process.errored@
        },
        event matches WaitEvent::Checked(Err(e)) ==> after.summary.other@ == before.summary.other@.push(
            GroupError::External(e),
        ) && after.summary.process == before.summary.process && after.summary.publish_errors
            == before.summary.publish_errors,
        (event matches WaitEvent::Checked(Ok(_))) ==> after.summary == before.summary,
        event is Slept ==> after.summary == before.summary,
{
}

/// Waiting that has come to its end does nothing more, and what does not fit the step that it waits for changes nothing.
pub proof fn finished_waiting_stays_finished(
    before: IntentWait,
    event: WaitEvent,
    max_retries: usize,
    after: IntentWait,
    action: WaitAction,
)
    requires
        is_wait_step(before, event, max_retries, after, action),
    ensures
        before.phase is Done ==> action is Ignore,
        action is Ignore ==> after == before,
{
}

} // verus!
