//! The worker that keeps devices in step.

use vstd::prelude::*;
use crate::device_sync::client::DeviceSyncClient;
use crate::device_sync::content::SyncContent;
use crate::device_sync::error::DeviceSyncError;
use crate::records::{PreferenceUpdate, StoredGroup, StoredGroupMessage};
use crate::subscriptions::events::SyncWorkerEvent;

verus! {

/// What the worker counts.
#[derive(Clone, Copy, Debug, PartialEq, Eq, Hash, Structural)]
pub enum SyncMetric {
    Init,
    SyncGroupCreated,
    SyncGroupWelcomesProcessed,
    RequestReceived,
    RequestSent,
    ConsentPayloadSent,
    ConsentPayloadProcessed,
    MessagesPayloadSent,
    MessagesPayloadProcessed,
    PayloadSent,
    PayloadTaskScheduled,
    PayloadProcessed,
    HmacSent,
    HmacReceived,
    ConsentSent,
    ConsentReceived,
}

/// What is counted for an update of the preferences that was sent.
pub open spec fn sent_metric(update: PreferenceUpdate) -> SyncMetric {
    match update {
        PreferenceUpdate::Consent(_) => SyncMetric::ConsentSent,
        PreferenceUpdate::Hmac { key: _, cycled_at_ns: _ } => SyncMetric::HmacSent,
    }
}

/// What is counted for updates of the preferences that were sent, one for each.
fn evt_sync_preferences(updates: &Vec<PreferenceUpdate>) -> (r: Vec<SyncMetric>)
    ensures
        r@ == updates@.map_values(|u: PreferenceUpdate| sent_metric(u)),
{
    let mut metrics: Vec<SyncMetric> = Vec::new();
    let mut i: usize = 0;
    while i < updates.len()
        invariant
            i <= updates@.len(),
            metrics@.len() == i,
            forall|j: int| 0 <= j < i ==> metrics@[j] == sent_metric(#[trigger] updates@[j]),
        decreases updates@.len() - i,
    {
        let metric = match &updates[i] {
            PreferenceUpdate::Consent(_) => SyncMetric::ConsentSent,
            PreferenceUpdate::Hmac { key: _, cycled_at_ns: _ } => SyncMetric::HmacSent,
        };
        metrics.push(metric);
        i += 1;
    }
    assert(metrics@ =~= updates@.map_values(|u: PreferenceUpdate| sent_metric(u)));
    metrics
}

/// What the worker waits for.
#[derive(Clone, Copy, Debug, PartialEq, Eq, Structural)]
pub enum WorkerPhase {
    /// The row of the primary group between devices.
    LookingUp,
    /// That group, which there is none of yet.
    GettingGroup,
    /// The next event.
    Listening,
    /// A new device added to the groups.
    AddingDevice,
    /// The key by which push servers filter changed.
    CyclingHmac,
    /// The messages between devices that wait.
    LoadingMessages,
    ProcessingMessages,
    SyncingPreferences,
    Done,
}

/// The worker that keeps the devices of a user in step.
#[derive(Debug)]
pub struct SyncWorker {
    pub client: DeviceSyncClient,
    /// Whether the worker has made sure that there is a group between devices.
    pub initialized: bool,
    pub phase: WorkerPhase,
}

/// What has happened outside.
#[derive(Debug)]
pub enum WorkerEvent {
    PrimaryFound(Result<Option<StoredGroup>, DeviceSyncError>),
    GroupGot(Result<(), DeviceSyncError>),
    /// The next event, or none where they have come to their end.
    Received(Option<SyncWorkerEvent>),
    DeviceAdded(Result<(), DeviceSyncError>),
    HmacCycled(Result<(), DeviceSyncError>),
    MessagesLoaded(Result<Vec<(StoredGroupMessage, Option<SyncContent>)>, DeviceSyncError>),
    MessagesProcessed(Result<(), DeviceSyncError>),
    /// The updates that were sent.
    PreferencesSynced(Result<Vec<PreferenceUpdate>, DeviceSyncError>),
}

/// What is to be done next outside.
#[derive(Debug)]
pub enum WorkerAction {
    LookUpPrimary,
    GetSyncGroup,
    Receive,
    AddDeviceToGroups,
    CycleHmac,
    LoadMessages,
    ProcessMessages(Vec<(StoredGroupMessage, Option<SyncContent>)>),
    SyncPreferences(Vec<PreferenceUpdate>),
    Finish(Result<(), DeviceSyncError>),
    Ignore,
}

/// A step of the worker: where it stands, what it counts and what it does next.
#[derive(Debug)]
pub struct WorkerStep {
    pub worker: SyncWorker,
    pub counted: Vec<SyncMetric>,
    pub action: WorkerAction,
}

/// Whether a step leads to a phase, with something counted and something done.
pub open spec fn leads_to(
    before: SyncWorker,
    phase: WorkerPhase,
    counted: Seq<SyncMetric>,
    action: WorkerAction,
    r: WorkerStep,
) -> bool {
    &&& r.worker == (SyncWorker { phase, ..before })
    &&& r.counted@ == counted
    &&& r.action == action
}

/// What the worker does about an event.
pub open spec fn is_job(before: SyncWorker, event: SyncWorkerEvent, r: WorkerStep) -> bool {
    match event {
        SyncWorkerEvent::NewSyncGroupFromWelcome(_) => leads_to(
            before,
            WorkerPhase::AddingDevice,
            seq![],
            WorkerAction::AddDeviceToGroups,
            r,
        ),
        SyncWorkerEvent::NewSyncGroupMsg => leads_to(
            before,
            WorkerPhase::LoadingMessages,
            seq![],
            WorkerAction::LoadMessages,
            r,
        ),
        SyncWorkerEvent::Tick => leads_to(
            before,
            WorkerPhase::LoadingMessages,
            seq![],
            WorkerAction::LoadMessages,
            r,
        ),
        SyncWorkerEvent::SyncPreferences(updates) => leads_to(
            before,
            WorkerPhase::SyncingPreferences,
            seq![],
            WorkerAction::SyncPreferences(updates),
            r,
        ),
        SyncWorkerEvent::CycleHMAC => leads_to(before, WorkerPhase::CyclingHmac, seq![], WorkerAction::CycleHmac, r),
    }
}

/// Whether the worker goes on to the next event, with something counted, or stops at a failure.
pub open spec fn goes_on(
    before: SyncWorker,
    outcome: Result<(), DeviceSyncError>,
    counted: Seq<SyncMetric>,
    r: WorkerStep,
) -> bool {
    match outcome {
        Ok(_) => leads_to(before, WorkerPhase::Listening, counted, WorkerAction::Receive, r),
        Err(e) => leads_to(before, WorkerPhase::Done, seq![], WorkerAction::Finish(Err(e)), r),
    }
}

/// Whether the worker is ready for events: it notes that, and counts it.
pub open spec fn is_ready(before: SyncWorker, r: WorkerStep) -> bool {
    leads_to(
        SyncWorker { initialized: true, ..before },
        WorkerPhase::Listening,
        seq![SyncMetric::Init],
        WorkerAction::Receive,
        r,
    )
}

/// How the worker begins to run.
pub open spec fn begins_running(before: SyncWorker, r: WorkerStep) -> bool {
    if before.initialized {
        is_ready(before, r)
    } else {
        leads_to(before, WorkerPhase::LookingUp, seq![], WorkerAction::LookUpPrimary, r)
    }
}

/// The transitions of the worker.
pub open spec fn is_worker_step(before: SyncWorker, event: WorkerEvent, r: WorkerStep) -> bool {
    match (before.phase, event) {
        (WorkerPhase::LookingUp, WorkerEvent::PrimaryFound(outcome)) => match outcome {
            Err(e) => leads_to(before, WorkerPhase::Done, seq![], WorkerAction::Finish(Err(e)), r),
            Ok(Some(_)) => is_ready(before, r),
            Ok(None) => leads_to(before, WorkerPhase::GettingGroup, seq![], WorkerAction::GetSyncGroup, r),
        },
        (WorkerPhase::GettingGroup, WorkerEvent::GroupGot(outcome)) => match outcome {
            Err(e) => leads_to(before, WorkerPhase::Done, seq![], WorkerAction::Finish(Err(e)), r),
            Ok(_) => is_ready(before, r),
        },
        (WorkerPhase::Listening, WorkerEvent::Received(received)) => match received {
            Some(event) => is_job(before, event, r),
            None => leads_to(before, WorkerPhase::Done, seq![], WorkerAction::Finish(Ok(())), r),
        },
        (WorkerPhase::AddingDevice, WorkerEvent::DeviceAdded(outcome)) => match outcome {
            Err(e) => leads_to(before, WorkerPhase::Done, seq![], WorkerAction::Finish(Err(e)), r),
            Ok(_) => leads_to(
                before,
                WorkerPhase::CyclingHmac,
                seq![SyncMetric::SyncGroupWelcomesProcessed],
                WorkerAction::CycleHmac,
                r,
            ),
        },
        (WorkerPhase::CyclingHmac, WorkerEvent::HmacCycled(outcome)) => goes_on(before, outcome, seq![], r),
        (WorkerPhase::LoadingMessages, WorkerEvent::MessagesLoaded(outcome)) => match outcome {
            Err(e) => leads_to(before, WorkerPhase::Done, seq![], WorkerAction::Finish(Err(e)), r),
            Ok(messages) => leads_to(
                before,
                WorkerPhase::ProcessingMessages,
                seq![],
                WorkerAction::ProcessMessages(messages),
                r,
            ),
        },
        (WorkerPhase::ProcessingMessages, WorkerEvent::MessagesProcessed(outcome)) => goes_on(
            before,
            outcome,
            seq![],
            r,
        ),
        (WorkerPhase::SyncingPreferences, WorkerEvent::PreferencesSynced(outcome)) => match outcome {
            Err(e) => leads_to(before, WorkerPhase::Done, seq![], WorkerAction::Finish(Err(e)), r),
            Ok(sent) => leads_to(
                before,
                WorkerPhase::Listening,
                sent@.map_values(|u: PreferenceUpdate| sent_metric(u)),
                WorkerAction::Receive,
                r,
            ),
        },
        _ => leads_to(before, before.phase, seq![], WorkerAction::Ignore, r),
    }
}

fn lead_to(worker: SyncWorker, phase: WorkerPhase, action: WorkerAction) -> (r: WorkerStep)
    ensures
        leads_to(worker, phase, seq![], action, r),
{
    let counted: Vec<SyncMetric> = Vec::new();
    assert(counted@ =~= seq![]);
    WorkerStep { worker: SyncWorker { phase, ..worker }, counted, action }
}

fn go_on(worker: SyncWorker, outcome: Result<(), DeviceSyncError>) -> (r: WorkerStep)
    ensures
        goes_on(worker, outcome, seq![], r),
{
    match outcome {
        Ok(_) => lead_to(worker, WorkerPhase::Listening, WorkerAction::Receive),
        Err(e) => lead_to(worker, WorkerPhase::Done, WorkerAction::Finish(Err(e))),
    }
}

fn ready(worker: SyncWorker) -> (r: WorkerStep)
    ensures
        is_ready(worker, r),
{
    let mut counted: Vec<SyncMetric> = Vec::new();
    counted.push(SyncMetric::Init);
    assert(counted@ =~= seq![SyncMetric::Init]);
    WorkerStep {
        worker: SyncWorker { client: worker.client, initialized: true, phase: WorkerPhase::Listening },
        counted,
        action: WorkerAction::Receive,
    }
}

fn begin_job(worker: SyncWorker, event: SyncWorkerEvent) -> (r: WorkerStep)
    ensures
        is_job(worker, event, r),
{
    match event {
        SyncWorkerEvent::NewSyncGroupFromWelcome(_) => lead_to(
            worker,
            WorkerPhase::AddingDevice,
            WorkerAction::AddDeviceToGroups,
        ),
        SyncWorkerEvent::NewSyncGroupMsg => lead_to(
            worker,
            WorkerPhase::LoadingMessages,
            WorkerAction::LoadMessages,
        ),
        SyncWorkerEvent::Tick => lead_to(worker, WorkerPhase::LoadingMessages, WorkerAction::LoadMessages),
        SyncWorkerEvent::SyncPreferences(updates) => lead_to(
            worker,
            WorkerPhase::SyncingPreferences,
            WorkerAction::SyncPreferences(updates),
        ),
        SyncWorkerEvent::CycleHMAC => lead_to(worker, WorkerPhase::CyclingHmac, WorkerAction::CycleHmac),
    }
}

impl SyncWorker {
    /// A worker for a device.
    pub fn new(client: DeviceSyncClient) -> (r: Self)
        ensures
            r == (SyncWorker { client, initialized: false, phase: WorkerPhase::Done }),
    {
        SyncWorker { client, initialized: false, phase: WorkerPhase::Done }
    }

    /// Begins to run. The first time the worker makes sure that there is a group between devices.
    pub fn run(self) -> (r: WorkerStep)
        ensures
            begins_running(self, r),
    {
        if self.initialized {
            ready(self)
        } else {
            lead_to(self, WorkerPhase::LookingUp, WorkerAction::LookUpPrimary)
        }
    }

    /// Takes the worker one step further. Its events are dealt with one after the other; the first
    /// failure stops it.
    pub fn run_internal(self, event: WorkerEvent) -> (r: WorkerStep)
        ensures
            is_worker_step(self, event, r),
    {
        match (self.phase, event) {
            (WorkerPhase::LookingUp, WorkerEvent::PrimaryFound(outcome)) => match outcome {
                Err(e) => lead_to(self, WorkerPhase::Done, WorkerAction::Finish(Err(e))),
                Ok(Some(_)) => ready(self),
                Ok(None) => lead_to(self, WorkerPhase::GettingGroup, WorkerAction::GetSyncGroup),
            },
            (WorkerPhase::GettingGroup, WorkerEvent::GroupGot(outcome)) => match outcome {
                Err(e) => lead_to(self, WorkerPhase::Done, WorkerAction::Finish(Err(e))),
                Ok(_) => ready(self),
            },
            (WorkerPhase::Listening, WorkerEvent::Received(received)) => match received {
                Some(event) => begin_job(self, event),
                None => lead_to(self, WorkerPhase::Done, WorkerAction::Finish(Ok(()))),
            },
            (WorkerPhase::AddingDevice, WorkerEvent::DeviceAdded(outcome)) => match outcome {
                Err(e) => lead_to(self, WorkerPhase::Done, WorkerAction::Finish(Err(e))),
                Ok(_) => {
                    let mut counted: Vec<SyncMetric> = Vec::new();
                    counted.push(SyncMetric::SyncGroupWelcomesProcessed);
                    assert(counted@ =~= seq![SyncMetric::SyncGroupWelcomesProcessed]);
                    WorkerStep {
                        worker: SyncWorker { phase: WorkerPhase::CyclingHmac, ..self },
                        counted,
                        action: WorkerAction::CycleHmac,
                    }
                },
            },
            (WorkerPhase::CyclingHmac, WorkerEvent::HmacCycled(outcome)) => go_on(self, outcome),
            (WorkerPhase::LoadingMessages, WorkerEvent::MessagesLoaded(outcome)) => match outcome {
                Err(e) => lead_to(self, WorkerPhase::Done, WorkerAction::Finish(Err(e))),
                Ok(messages) => lead_to(
                    self,
                    WorkerPhase::ProcessingMessages,
                    WorkerAction::ProcessMessages(messages),
                ),
            },
            (WorkerPhase::ProcessingMessages, WorkerEvent::MessagesProcessed(outcome)) => go_on(self, outcome),
            (WorkerPhase::SyncingPreferences, WorkerEvent::PreferencesSynced(outcome)) => match outcome {
                Err(e) => lead_to(self, WorkerPhase::Done, WorkerAction::Finish(Err(e))),
                Ok(sent) => WorkerStep {
                    counted: evt_sync_preferences(&sent),
                    worker: SyncWorker { phase: WorkerPhase::Listening, ..self },
                    action: WorkerAction::Receive,
                },
            },
            (phase, _) => lead_to(self, phase, WorkerAction::Ignore),
        }
    }
}

/// The worker listens for events only once there is a group between devices.
pub proof fn the_worker_listens_once_there_is_a_group(before: SyncWorker, event: WorkerEvent, r: WorkerStep)
    requires
        is_worker_step(before, event, r),
        before.phase == WorkerPhase::LookingUp || before.phase == WorkerPhase::GettingGroup,
        r.worker.phase == WorkerPhase::Listening,
    ensures
        r.worker.initialized,
        r.counted@ == seq![SyncMetric::Init],
        match event {
            WorkerEvent::PrimaryFound(found) => found matches Ok(Some(_)),
            WorkerEvent::GroupGot(got) => got is Ok,
            _ => false,
        },
{
}

/// A worker that runs for the first time looks for the group between devices, and gets one if there is none; one that ran
/// before listens at once. Either way it counts that it is ready when it first listens.
pub proof fn workers_make_sure_of_their_group(
    before: SyncWorker,
    first: WorkerStep,
    found: Option<StoredGroup>,
    second: WorkerStep,
    third: WorkerStep,
)
    requires
        begins_running(before, first),
        is_worker_step(first.worker, WorkerEvent::PrimaryFound(Ok(found)), second),
        is_worker_step(second.worker, WorkerEvent::GroupGot(Ok(())), third),
    ensures
        before.initialized ==> first.action is Receive && first.counted@ == seq![SyncMetric::Init],
        !before.initialized ==> first.action is LookUpPrimary && first.counted@.len() == 0,
        !before.initialized && found is Some ==> second.action is Receive && second.worker.initialized && second.counted@
            == seq![SyncMetric::Init],
        !before.initialized && found is None ==> second.action is GetSyncGroup && third.action is Receive
            && third.worker.initialized && third.counted@ == seq![SyncMetric::Init],
        second.worker.client == before.client,
{
}

/// Every event of the worker leads to its own work: a new group between devices adds the device to the groups and changes
/// the key of push servers, a message in it or a tick loads the messages, preferences are synced as they are, and the key
/// is changed when that is asked for. The end of the events ends the worker well.
pub proof fn events_lead_to_their_work(before: SyncWorker, received: Option<SyncWorkerEvent>, r: WorkerStep)
    requires
        before.phase == WorkerPhase::Listening,
        is_worker_step(before, WorkerEvent::Received(received), r),
    ensures
        received matches Some(SyncWorkerEvent::NewSyncGroupFromWelcome(_)) ==> r.action is AddDeviceToGroups
            && r.worker.phase == WorkerPhase::AddingDevice,
        received matches Some(SyncWorkerEvent::NewSyncGroupMsg) ==> r.action is LoadMessages && r.worker.phase
            == WorkerPhase::LoadingMessages,
        received matches Some(SyncWorkerEvent::Tick) ==> r.action is LoadMessages && r.worker.phase
            == WorkerPhase::LoadingMessages,
        received matches Some(SyncWorkerEvent::SyncPreferences(updates)) ==> r.action == WorkerAction::SyncPreferences(
            updates,
        ) && r.worker.phase == WorkerPhase::SyncingPreferences,
        received matches Some(SyncWorkerEvent::CycleHMAC) ==> r.action is CycleHmac && r.worker.phase
            == WorkerPhase::CyclingHmac,
        received is None ==> (r.action matches WorkerAction::Finish(Ok(_))),
        r.worker.initialized == before.initialized && r.worker.client == before.client,
{
}

/// Once its work is done the worker listens again: after a new device was added and the key changed, after all messages
/// that were loaded were processed, and after preferences were sent, which are counted one for each.
pub proof fn the_worker_goes_on(before: SyncWorker, event: WorkerEvent, r: WorkerStep, i: int)
    requires
        is_worker_step(before, event, r),
        r.action !is Ignore,
    ensures
        event matches WorkerEvent::DeviceAdded(Ok(_)) ==> r.action is CycleHmac && r.counted@
            == seq![SyncMetric::SyncGroupWelcomesProcessed],
        event matches WorkerEvent::HmacCycled(Ok(_)) ==> r.action is Receive,
        event matches WorkerEvent::MessagesLoaded(Ok(messages)) ==> r.action == WorkerAction::ProcessMessages(messages),
        event matches WorkerEvent::MessagesProcessed(Ok(_)) ==> r.action is Receive,
        event matches WorkerEvent::PreferencesSynced(Ok(sent)) ==> {
            &&& r.action is Receive
            &&& r.counted@.len() == sent@.len()
            &&& 0 <= i < sent@.len() && sent@[i] is Consent ==> r.counted@[i] == SyncMetric::ConsentSent
            &&& 0 <= i < sent@.len() && sent@[i] is Hmac ==> r.counted@[i] == SyncMetric::HmacSent
        },
        r.action is Receive ==> r.worker.phase == WorkerPhase::Listening,
{
}

/// The first failure stops the worker and is what is reported; nothing is counted for it.
pub proof fn a_failure_stops_the_worker(before: SyncWorker, event: WorkerEvent, r: WorkerStep)
    requires
        is_worker_step(before, event, r),
        r.action !is Ignore,
    ensures
        event matches WorkerEvent::PrimaryFound(Err(e)) ==> r.action == WorkerAction::Finish(Err(e)),
        event matches WorkerEvent::GroupGot(Err(e)) ==> r.action == WorkerAction::Finish(Err(e)),
        event matches WorkerEvent::DeviceAdded(Err(e)) ==> r.action == WorkerAction::Finish(Err(e)),
        event matches WorkerEvent::HmacCycled(Err(e)) ==> r.action == WorkerAction::Finish(Err(e)),
        event matches WorkerEvent::MessagesLoaded(Err(e)) ==> r.action == WorkerAction::Finish(Err(e)),
        event matches WorkerEvent::MessagesProcessed(Err(e)) ==> r.action == WorkerAction::Finish(Err(e)),
        event matches WorkerEvent::PreferencesSynced(Err(e)) ==> r.action == WorkerAction::Finish(Err(e)),
        r.action is Finish ==> r.counted@.len() == 0 && r.worker.phase == WorkerPhase::Done,
{
}

} // verus!
