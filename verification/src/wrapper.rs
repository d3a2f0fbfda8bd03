use vstd::prelude::*;

use crate::scheduler::{Scheduler, SchedulerTickOutcome};

verus! {

/// A struct that wraps a scheduler and provides an event queue of the events that
/// the scheduler generates.
pub struct SchedulerWrapper<S: Scheduler> {
    /// The scheduler.
    pub scheduler: S,
    /// The event queue.
    pub event_queue: Vec<SchedulerTickOutcome>,
}

impl<S: Scheduler> SchedulerWrapper<S> {
    /// Creates a new scheduler wrapper with an empty event queue.
    pub fn new(scheduler: S) -> (w: Self)
        ensures
            w.scheduler == scheduler,
            w.event_queue@ == Seq::<SchedulerTickOutcome>::empty(),
    {
        Self { scheduler, event_queue: Vec::new() }
    }

    /// Ticks the scheduler and adds the outcome to the event queue: the queue
    /// gains exactly the outcome of this tick, after the earlier ones.
    pub fn tick(&mut self)
        requires
            S::can_tick(old(self).scheduler),
        ensures
            exists|outcome: SchedulerTickOutcome|
                #[trigger] S::ticks_to(old(self).scheduler, final(self).scheduler, outcome)
                    && final(self).event_queue@ == old(self).event_queue@.push(outcome),
    {
        let outcome = self.scheduler.tick();
        self.event_queue.push(outcome);
        assert(S::ticks_to(old(self).scheduler, self.scheduler, outcome));
        assert(self.event_queue@ == old(self).event_queue@.push(outcome));
    }

    /// Takes the newest event out of the queue and drops the older ones: the
    /// result is the last event queued (`None` when the queue is empty), and
    /// the queue is empty afterwards.
    pub fn take_latest_event(&mut self) -> (latest: Option<SchedulerTickOutcome>)
        ensures
            latest == (if old(self).event_queue@.len() == 0 {
                None
            } else {
                Some(old(self).event_queue@.last())
            }),
            final(self).event_queue@ == Seq::<SchedulerTickOutcome>::empty(),
            final(self).scheduler == old(self).scheduler,
    {
        let latest = self.event_queue.pop();
        self.event_queue.clear();
        latest
    }
}

} // verus!
