//! Events that wait until what they report is stored.

use std::collections::VecDeque;
use vstd::prelude::*;
use crate::subscriptions::events::{LocalEvents, SyncWorkerEvent};

verus! {

/// An event on its way out.
#[derive(Debug)]
pub enum DeferredEvent<M> {
    Worker(SyncWorkerEvent),
    Local(LocalEvents<M>),
}

/// Events that wait until what they report is stored.
#[derive(Debug)]
pub struct DeferredEvents<M> {
    pub worker_events: VecDeque<SyncWorkerEvent>,
    pub local_events: VecDeque<LocalEvents<M>>,
}

/// Events in the order in which they leave: those for the worker first, each kind in the order in
/// which it came.
pub open spec fn in_order<M>(worker: Seq<SyncWorkerEvent>, local: Seq<LocalEvents<M>>) -> Seq<DeferredEvent<M>> {
    worker.map_values(|e: SyncWorkerEvent| DeferredEvent::<M>::Worker(e)) + local.map_values(
        |e: LocalEvents<M>| DeferredEvent::Local(e),
    )
}

/// All events leave, each once: those for the worker in the order in which they came, and behind them those for the
/// streams in theirs.
pub proof fn all_events_leave_in_order<M>(worker: Seq<SyncWorkerEvent>, local: Seq<LocalEvents<M>>, i: int)
    ensures
        in_order(worker, local).len() == worker.len() + local.len(),
        0 <= i < worker.len() ==> in_order(worker, local)[i] == DeferredEvent::<M>::Worker(worker[i]),
        0 <= i < local.len() ==> in_order(worker, local)[worker.len() + i] == DeferredEvent::Local(local[i]),
{
}

impl<M> DeferredEvents<M> {
    /// No events.
    pub fn new() -> (r: Self)
        ensures
            r.worker_events@.len() == 0,
            r.local_events@.len() == 0,
    {
        DeferredEvents { worker_events: VecDeque::new(), local_events: VecDeque::new() }
    }

    /// Keeps an event for the worker.
    pub fn add_worker_event(&mut self, event: SyncWorkerEvent)
        ensures
            final(self).worker_events@ == old(self).worker_events@.push(event),
            final(self).local_events@ == old(self).local_events@,
    {
        self.worker_events.push_back(event);
    }

    /// Keeps an event for the streams of this client.
    pub fn add_local_event(&mut self, event: LocalEvents<M>)
        ensures
            final(self).local_events@ == old(self).local_events@.push(event),
            final(self).worker_events@ == old(self).worker_events@,
    {
        self.local_events.push_back(event);
    }

    /// Lets all events go, in the order in which they are to be sent.
    pub fn send_all(&mut self) -> (r: Vec<DeferredEvent<M>>)
        ensures
            r@ == in_order(old(self).worker_events@, old(self).local_events@),
            final(self).worker_events@.len() == 0,
            final(self).local_events@.len() == 0,
    {
        let ghost worker = self.worker_events@;
        let ghost local = self.local_events@;
        let mut out: Vec<DeferredEvent<M>> = Vec::new();
        assert(worker.skip(0) =~= worker);
        while self.worker_events.len() > 0
            invariant
                out@.len() <= worker.len(),
                self.worker_events@ == worker.skip(out@.len() as int),
                self.local_events@ == local,
                forall|i: int| 0 <= i < out@.len() ==> #[trigger] out@[i] == DeferredEvent::<M>::Worker(worker[i]),
            decreases self.worker_events@.len(),
        {
            if let Some(event) = self.worker_events.pop_front() {
                out.push(DeferredEvent::Worker(event));
                assert(self.worker_events@ =~= worker.skip(out@.len() as int));
            }
        }
        assert(local.skip(0) =~= local);
        let ghost sent = worker.len();
        while self.local_events.len() > 0
            invariant
                sent == worker.len(),
                sent <= out@.len() <= sent + local.len(),
                self.worker_events@.len() == 0,
                self.local_events@ == local.skip(out@.len() - sent),
                forall|i: int| 0 <= i < sent ==> #[trigger] out@[i] == DeferredEvent::<M>::Worker(worker[i]),
                forall|i: int|
                    sent <= i < out@.len() ==> #[trigger] out@[i] == DeferredEvent::Local(local[i - sent]),
            decreases self.local_events@.len(),
        {
            if let Some(event) = self.local_events.pop_front() {
                out.push(DeferredEvent::Local(event));
                assert(self.local_events@ =~= local.skip(out@.len() - sent));
            }
        }
        assert(out@ =~= in_order(worker, local));
        out
    }
}

} // verus!
