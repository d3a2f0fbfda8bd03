use rand::rngs::StdRng;
use vstd::prelude::*;

use crate::io_device::{io_can_tick, io_start_spec, io_tick_spec, IODevice, IODeviceState};
use crate::process::{
    advance_spec, can_advance, draws_spec, ProcessInstruction, ProcessState,
    SchedulerProcessEntry,
};
use crate::laws::{
    lemma_register_appends, lemma_register_preserves_wf, lemma_tick_changes_one_process, lemma_tick_preserves_wf,
};
use crate::progress::{all_finished, lemma_tick_spends_one, ticks_left};
use crate::random::seeded_rng;

verus! {

/// Possible outcomes of a scheduler tick.
#[derive(PartialEq, Eq, Structural, Copy, Clone, Debug)]
pub enum SchedulerTickOutcome {
    /// An IO operation has finished, and the process that requested it is now ready.
    IOFinished(usize),
    /// An IO request was handled, and the process that requested it is now IOBlocked.
    IORequestHandled(usize),
    /// A process has started running.
    ProcessResumed(usize),
    /// A process has continued running.
    ProcessContinued(usize),
    /// A process has finished.
    ProcessFinished(usize),
    /// There is nothing to do.
    Idle,
}

/// The mathematical model of a first-come-first-serve scheduler: its process
/// table and its IO device. (Its random generator is left out: its state is
/// opaque, and the model covers every number it may produce.)
pub struct SchedulerState {
    pub processes: Seq<SchedulerProcessEntry>,
    pub io_device: IODevice,
}

/// A newly created scheduler: no processes and an idle device.
pub open spec fn fresh_state() -> SchedulerState {
    SchedulerState {
        processes: Seq::empty(),
        io_device: IODevice { state: IODeviceState::Idle, remaining_progress: 0 },
    }
}

/// The scheduler after a process of `length` slices was registered: it is
/// appended to the process table, ready and with no CPU time used.
pub open spec fn register_spec(s: SchedulerState, length: i32, io_threshold: u64) -> SchedulerState {
    SchedulerState {
        processes: s.processes.push(
            SchedulerProcessEntry {
                remaining_progress: length,
                state: ProcessState::Ready,
                io_threshold,
                time: 0,
            },
        ),
        io_device: s.io_device,
    }
}

/// No two processes of `ps` are in state `st`.
pub open spec fn at_most_one_in(ps: Seq<SchedulerProcessEntry>, st: ProcessState) -> bool {
    forall|i: int, j: int|
        0 <= i < ps.len() && 0 <= j < ps.len() && #[trigger] ps[i].state == st && #[trigger] ps[j].state
            == st ==> i == j
}

/// Some process of `ps` is in state `st`.
pub open spec fn some_in(ps: Seq<SchedulerProcessEntry>, st: ProcessState) -> bool {
    exists|i: int| 0 <= i < ps.len() && #[trigger] ps[i].state == st
}

/// The counters of a process as the scheduler keeps them: its CPU time is
/// never negative, its CPU time and remaining slices add up to at most
/// `i32::MAX`, and a process that has not finished either has slices left or
/// has not run yet (with a length above `i32::MIN`), and a finished process
/// has used up its slices (or ran its one slice, when it had none).
pub open spec fn entry_wf(e: SchedulerProcessEntry) -> bool {
    &&& 0 <= e.time
    &&& e.time + e.remaining_progress <= i32::MAX
    &&& e.state != ProcessState::Finished ==> e.remaining_progress > i32::MIN && (
    e.remaining_progress >= 1 || e.time == 0)
    &&& e.state == ProcessState::Finished ==> e.remaining_progress <= 0 && (e.remaining_progress
        == 0 || e.time == 1)
}

/// What every scheduler that was created, given processes and ticked keeps:
/// at most one process runs, at most one process waits for IO, the device is
/// busy exactly when a process waits for it (and then has between 1 and
/// `IO_REQUEST_LENGTH` slices left, while an idle device has none), and the
/// counters of every process are as `entry_wf` says.
pub open spec fn scheduler_wf(s: SchedulerState) -> bool {
    &&& forall|i: int| 0 <= i < s.processes.len() ==> entry_wf(#[trigger] s.processes[i])
    &&& at_most_one_in(s.processes, ProcessState::Running)
    &&& at_most_one_in(s.processes, ProcessState::IOBlocked)
    &&& (s.io_device.state == IODeviceState::Busy <==> some_in(
        s.processes,
        ProcessState::IOBlocked,
    ))
    &&& (s.io_device.state == IODeviceState::Busy ==> 0 < s.io_device.remaining_progress
        <= IO_REQUEST_LENGTH)
    &&& (s.io_device.state == IODeviceState::Idle ==> s.io_device.remaining_progress == 0)
}

/// The index of the process that an outcome is about, if any.
pub open spec fn outcome_process(o: SchedulerTickOutcome) -> Option<usize> {
    match o {
        SchedulerTickOutcome::IOFinished(i) => Some(i),
        SchedulerTickOutcome::IORequestHandled(i) => Some(i),
        SchedulerTickOutcome::ProcessResumed(i) => Some(i),
        SchedulerTickOutcome::ProcessContinued(i) => Some(i),
        SchedulerTickOutcome::ProcessFinished(i) => Some(i),
        SchedulerTickOutcome::Idle => None,
    }
}

/// The row of an outcome in the list of actions: idle, process resumed,
/// process continued, process finished, IO request handled, IO finished.
pub open spec fn outcome_row(o: SchedulerTickOutcome) -> usize {
    match o {
        SchedulerTickOutcome::Idle => 0,
        SchedulerTickOutcome::ProcessResumed(_) => 1,
        SchedulerTickOutcome::ProcessContinued(_) => 2,
        SchedulerTickOutcome::ProcessFinished(_) => 3,
        SchedulerTickOutcome::IORequestHandled(_) => 4,
        SchedulerTickOutcome::IOFinished(_) => 5,
    }
}

impl SchedulerTickOutcome {
    /// The index of the process that this outcome is about, if any.
    pub fn process(&self) -> (r: Option<usize>)
        ensures
            r == outcome_process(*self),
    {
        match *self {
            SchedulerTickOutcome::IOFinished(i) => Some(i),
            SchedulerTickOutcome::IORequestHandled(i) => Some(i),
            SchedulerTickOutcome::ProcessResumed(i) => Some(i),
            SchedulerTickOutcome::ProcessContinued(i) => Some(i),
            SchedulerTickOutcome::ProcessFinished(i) => Some(i),
            SchedulerTickOutcome::Idle => None,
        }
    }

    /// The row of this outcome in the list of actions (see `outcome_row`).
    pub fn row(&self) -> (r: usize)
        ensures
            r == outcome_row(*self),
            r < 6,
    {
        match *self {
            SchedulerTickOutcome::Idle => 0,
            SchedulerTickOutcome::ProcessResumed(_) => 1,
            SchedulerTickOutcome::ProcessContinued(_) => 2,
            SchedulerTickOutcome::ProcessFinished(_) => 3,
            SchedulerTickOutcome::IORequestHandled(_) => 4,
            SchedulerTickOutcome::IOFinished(_) => 5,
        }
    }
}

/// From `s` to `t` with outcome `o`, at most the process that `o` names (which
/// is in the table) changed and none did when `o` is `Idle`; the table keeps
/// its length, no threshold changed, and no finished process changed.
pub open spec fn changes_only_named(s: SchedulerState, t: SchedulerState, o: SchedulerTickOutcome) -> bool {
    &&& t.processes.len() == s.processes.len()
    &&& match outcome_process(o) {
        Some(i) => {
            &&& i < s.processes.len()
            &&& forall|j: int|
                0 <= j < s.processes.len() && j != i ==> #[trigger] t.processes[j]
                    == s.processes[j]
        },
        None => t.processes == s.processes,
    }
    &&& forall|j: int|
        0 <= j < s.processes.len() ==> #[trigger] t.processes[j].io_threshold
            == s.processes[j].io_threshold && (s.processes[j].state == ProcessState::Finished
            ==> t.processes[j] == s.processes[j])
}

/// The number of time slices the IO device needs for one request.
pub const IO_REQUEST_LENGTH: i32 = 10;

/// `i` is the first index of `ps` whose process is in state `st`.
pub open spec fn is_first_in(ps: Seq<SchedulerProcessEntry>, st: ProcessState, i: int) -> bool {
    &&& 0 <= i < ps.len()
    &&& ps[i].state == st
    &&& forall|j: int| 0 <= j < i ==> #[trigger] ps[j].state != st
}

/// The first index of `ps` whose process is in state `st`, if there is one.
pub open spec fn first_in(ps: Seq<SchedulerProcessEntry>, st: ProcessState) -> Option<int> {
    if exists|i: int| is_first_in(ps, st, i) {
        Some(choose|i: int| is_first_in(ps, st, i))
    } else {
        None
    }
}

/// `e` with its state replaced by `st`.
pub open spec fn with_state(e: SchedulerProcessEntry, st: ProcessState) -> SchedulerProcessEntry {
    SchedulerProcessEntry {
        remaining_progress: e.remaining_progress,
        state: st,
        io_threshold: e.io_threshold,
        time: e.time,
    }
}

/// The tick finishes an IO operation: the device was busy, becomes idle in
/// this slice, and a process waits for it.
pub open spec fn io_finishes(s: SchedulerState) -> bool {
    let (ps, dev) = (s.processes, s.io_device);
    &&& dev.state == IODeviceState::Busy
    &&& io_tick_spec(dev).state == IODeviceState::Idle
    &&& first_in(ps, ProcessState::IOBlocked) is Some
}

/// The tick hands an IO request to the device: no IO operation finishes, the
/// device is idle after this slice, and a process has requested IO.
pub open spec fn io_request_taken(s: SchedulerState) -> bool {
    let (ps, dev) = (s.processes, s.io_device);
    &&& !io_finishes(s)
    &&& io_tick_spec(dev).state == IODeviceState::Idle
    &&& first_in(ps, ProcessState::IORequest) is Some
}

/// The index of the process that the tick runs for one slice, if it runs one:
/// the first running process, unless the tick is spent on the IO device.
pub open spec fn ticked_process(s: SchedulerState) -> Option<int> {
    if io_finishes(s) || io_request_taken(s) {
        None
    } else {
        first_in(s.processes, ProcessState::Running)
    }
}

/// A tick stays within the range of `i32` in every counter it changes.
pub open spec fn can_tick_spec(s: SchedulerState) -> bool {
    &&& io_can_tick(s.io_device)
    &&& (ticked_process(s) matches Some(i) ==> can_advance(s.processes[i]))
}

/// The tick consults a random draw: it runs a process that does not finish.
pub open spec fn draws_on_tick(s: SchedulerState) -> bool {
    ticked_process(s) matches Some(i) && draws_spec(s.processes[i])
}

/// One first-come-first-serve tick of the scheduler `s`, where `draw` is the random number consulted when a running process
/// may request IO. In this order of priority, the tick:
/// - ticks the device, and if it became idle, makes the first IO-blocked
///   process ready;
/// - else, if the device is idle, starts it for the first process that
///   requested IO, which becomes IO-blocked;
/// - else runs the first running process for one slice;
/// - else starts the first ready process;
/// - else does nothing.
pub open spec fn tick_spec(s: SchedulerState, draw: u32) -> (SchedulerState, SchedulerTickOutcome) {
    let ps = s.processes;
    let dev1 = io_tick_spec(s.io_device);
    if io_finishes(s) {
        let i = first_in(ps, ProcessState::IOBlocked)->0;
        (
            SchedulerState { processes: ps.update(i, with_state(ps[i], ProcessState::Ready)), io_device: dev1 },
            SchedulerTickOutcome::IOFinished(i as usize),
        )
    } else if io_request_taken(s) {
        let i = first_in(ps, ProcessState::IORequest)->0;
        (
            SchedulerState {
                processes: ps.update(i, with_state(ps[i], ProcessState::IOBlocked)),
                io_device: io_start_spec(IO_REQUEST_LENGTH),
            },
            SchedulerTickOutcome::IORequestHandled(i as usize),
        )
    } else if first_in(ps, ProcessState::Running) is Some {
        let i = first_in(ps, ProcessState::Running)->0;
        let (e, instruction) = advance_spec(ps[i], draw);
        (
            SchedulerState { processes: ps.update(i, e), io_device: dev1 },
            if instruction == ProcessInstruction::Finished {
                SchedulerTickOutcome::ProcessFinished(i as usize)
            } else {
                SchedulerTickOutcome::ProcessContinued(i as usize)
            },
        )
    } else if first_in(ps, ProcessState::Ready) is Some {
        let i = first_in(ps, ProcessState::Ready)->0;
        (
            SchedulerState { processes: ps.update(i, with_state(ps[i], ProcessState::Running)), io_device: dev1 },
            SchedulerTickOutcome::ProcessResumed(i as usize),
        )
    } else {
        (SchedulerState { processes: ps, io_device: dev1 }, SchedulerTickOutcome::Idle)
    }
}

/// The first index is the only one that meets `is_first_in`.
pub proof fn lemma_first_in_is(ps: Seq<SchedulerProcessEntry>, st: ProcessState, i: int)
    requires
        is_first_in(ps, st, i),
    ensures
        first_in(ps, st) == Some(i),
{
    let k = choose|k: int| is_first_in(ps, st, k);
    assert(is_first_in(ps, st, k));
    if k < i {
        assert(ps[k].state != st);
    } else if k > i {
        assert(ps[i].state != st);
    }
}

/// Where no process is in state `st`, there is no first one.
pub proof fn lemma_first_in_none(ps: Seq<SchedulerProcessEntry>, st: ProcessState)
    requires
        forall|j: int| 0 <= j < ps.len() ==> #[trigger] ps[j].state != st,
    ensures
        first_in(ps, st) is None,
{
}

/// Finds the first process in `ps` that is in state `st`.
fn find_first(ps: &Vec<SchedulerProcessEntry>, st: ProcessState) -> (r: Option<usize>)
    ensures
        match r {
            Some(i) => first_in(ps@, st) == Some(i as int),
            None => first_in(ps@, st) is None,
        },
{
    let mut i: usize = 0;
    while i < ps.len()
        invariant
            i <= ps.len(),
            forall|j: int| 0 <= j < i ==> #[trigger] ps@[j].state != st,
        decreases ps.len() - i,
    {
        if ps[i].state == st {
            proof {
                lemma_first_in_is(ps@, st, i as int);
            }
            return Some(i);
        }
        i = i + 1;
    }
    proof {
        lemma_first_in_none(ps@, st);
    }
    None
}

/// Trait for a scheduler. A scheduler is responsible for scheduling processes.
pub trait Scheduler: Sized {
    /// A tick from this state stays within the range of every counter.
    spec fn can_tick(self) -> bool;

    /// `next` with `outcome` is a possible result of a tick from `self`.
    spec fn ticks_to(self, next: Self, outcome: SchedulerTickOutcome) -> bool;

    /// `next` is `self` with a new process of `length` slices registered.
    spec fn registers_to(self, next: Self, length: i32, io_threshold: u64) -> bool;

    /// This is a newly created scheduler.
    spec fn is_fresh(self) -> bool;

    /// Registers a new process with the scheduler. It requests IO after a time
    /// slice when a uniform 32-bit draw is below `io_threshold`.
    fn register_process(&mut self, length: i32, io_threshold: u64)
        ensures
            Self::registers_to(*old(self), *final(self), length, io_threshold),
    ;

    /// Ticks the scheduler. This should be called once per time slice (or frame,
    /// when using a graphical interface).
    fn tick(&mut self) -> (outcome: SchedulerTickOutcome)
        requires
            Self::can_tick(*old(self)),
        ensures
            Self::ticks_to(*old(self), *final(self), outcome),
    ;

    /// Create a new scheduler.
    fn new() -> (s: Self)
        ensures
            Self::is_fresh(s),
    ;
}

/// Implements the first-come-first-serve scheduling algorithm.
/// This is the simplest scheduling algorithm. It finds a READY process and runs it
/// until it finishes or requests IO. If a process requests IO, it is moved to the
/// IOBlocked state, and the scheduler will try to find another process to run in
/// the meantime.
pub struct FirstComeFirstServeScheduler {
    /// The process table.
    pub processes: Vec<SchedulerProcessEntry>,
    /// The IO device.
    pub io_device: IODevice,
    /// The rng used to determine whether a process requests IO.
    pub rng: StdRng,
}

impl View for FirstComeFirstServeScheduler {
    type V = SchedulerState;

    open spec fn view(&self) -> SchedulerState {
        SchedulerState { processes: self.processes@, io_device: self.io_device }
    }
}

impl FirstComeFirstServeScheduler {
    /// One tick, with `fixed` as the random number if it is given, and with a
    /// number drawn from the scheduler's generator otherwise (only when the
    /// tick consults one).
    fn tick_inner(&mut self, fixed: Option<u32>) -> (outcome: SchedulerTickOutcome)
        requires
            can_tick_spec(old(self)@),
        ensures
            fixed matches Some(d) ==> (final(self)@, outcome) == tick_spec(old(self)@, d),
            exists|d: u32| (final(self)@, outcome) == #[trigger] tick_spec(old(self)@, d),
            !draws_on_tick(old(self)@) ==> (final(self)@, outcome) == tick_spec(old(self)@, 0),
            fixed is Some || !draws_on_tick(old(self)@) ==> final(self).rng == old(self).rng,
            fixed is None && draws_on_tick(old(self)@) ==> final(self).rng != old(self).rng,
    {
        let ghost s0 = self@;
        let (old_io_device_state, new_io_device_state) = self.io_device.tick();

        // If the IO device was busy and is now idle, the process that is
        // IOBlocked becomes Ready.
        if old_io_device_state == IODeviceState::Busy && new_io_device_state
            == IODeviceState::Idle {
            if let Some(i) = find_first(&self.processes, ProcessState::IOBlocked) {
                let mut process = self.processes[i];
                process.state = ProcessState::Ready;
                self.processes.set(i, process);
                let outcome = SchedulerTickOutcome::IOFinished(i);
                assert((self@, outcome) == tick_spec(s0, 0));
                return outcome;
            }
        }
        if new_io_device_state == IODeviceState::Idle {
            // A process that has requested IO gets the device and is IOBlocked.
            if let Some(i) = find_first(&self.processes, ProcessState::IORequest) {
                self.io_device.start(IO_REQUEST_LENGTH);
                let mut process = self.processes[i];
                process.state = ProcessState::IOBlocked;
                self.processes.set(i, process);
                let outcome = SchedulerTickOutcome::IORequestHandled(i);
                assert((self@, outcome) == tick_spec(s0, 0));
                return outcome;
            }
        }
        // The running process runs for one slice.
        if let Some(i) = find_first(&self.processes, ProcessState::Running) {
            let mut process = self.processes[i];
            let ghost before = process;
            let instruction = match fixed {
                Some(d) => process.tick_with_draw(d),
                None => process.tick(&mut self.rng),
            };
            let ghost d: u32 = match fixed {
                Some(d) => d,
                None => choose|d: u32| (process, instruction) == advance_spec(before, d),
            };
            assert((process, instruction) == advance_spec(before, d));
            let outcome = match instruction {
                ProcessInstruction::Finished => {
                    process.state = ProcessState::Finished;
                    SchedulerTickOutcome::ProcessFinished(i)
                },
                ProcessInstruction::IORequest => {
                    process.state = ProcessState::IORequest;
                    SchedulerTickOutcome::ProcessContinued(i)
                },
                ProcessInstruction::Continue => SchedulerTickOutcome::ProcessContinued(i),
            };
            self.processes.set(i, process);
            assert((self@, outcome) == tick_spec(s0, d));
            proof {
                if !draws_on_tick(s0) {
                    assert(tick_spec(s0, d) == tick_spec(s0, 0));
                }
            }
            return outcome;
        }
        // A ready process starts running.
        if let Some(i) = find_first(&self.processes, ProcessState::Ready) {
            let mut process = self.processes[i];
            process.state = ProcessState::Running;
            self.processes.set(i, process);
            let outcome = SchedulerTickOutcome::ProcessResumed(i);
            assert((self@, outcome) == tick_spec(s0, 0));
            return outcome;
        }
        // There is nothing to do.
        let outcome = SchedulerTickOutcome::Idle;
        assert((self@, outcome) == tick_spec(s0, 0));
        outcome
    }
}

impl Scheduler for FirstComeFirstServeScheduler {
    open spec fn can_tick(self) -> bool {
        can_tick_spec(self@)
    }

    open spec fn ticks_to(self, next: Self, outcome: SchedulerTickOutcome) -> bool {
        exists|d: u32| (next@, outcome) == #[trigger] tick_spec(self@, d)
    }

    open spec fn registers_to(self, next: Self, length: i32, io_threshold: u64) -> bool {
        next@ == register_spec(self@, length, io_threshold)
    }

    open spec fn is_fresh(self) -> bool {
        self@ == fresh_state()
    }

    fn register_process(&mut self, length: i32, io_threshold: u64)
        ensures
            scheduler_wf(old(self)@) && length > i32::MIN ==> scheduler_wf(final(self)@),
            final(self)@.processes.len() == old(self)@.processes.len() + 1,
            forall|j: int|
                0 <= j < old(self)@.processes.len() ==> #[trigger] final(self)@.processes[j]
                    == old(self)@.processes[j],
            final(self)@.processes.last() == (SchedulerProcessEntry {
                remaining_progress: length,
                state: ProcessState::Ready,
                io_threshold,
                time: 0,
            }),
            final(self)@.io_device == old(self)@.io_device,
    {
        self.processes.push(SchedulerProcessEntry::new(length, io_threshold));
        proof {
            lemma_register_appends(old(self)@, length, io_threshold);
            if scheduler_wf(old(self)@) && length > i32::MIN {
                lemma_register_preserves_wf(old(self)@, length, io_threshold);
            }
        }
    }

    fn tick(&mut self) -> (outcome: SchedulerTickOutcome)
        ensures
            !draws_on_tick(old(self)@) ==> (final(self)@, outcome) == tick_spec(old(self)@, 0),
            !draws_on_tick(old(self)@) ==> final(self).rng == old(self).rng,
            draws_on_tick(old(self)@) ==> final(self).rng != old(self).rng,
            changes_only_named(old(self)@, final(self)@, outcome),
            scheduler_wf(old(self)@) ==> scheduler_wf(final(self)@),
            scheduler_wf(old(self)@) && !all_finished(old(self)@) ==> ticks_left(final(self)@)
                < ticks_left(old(self)@),
    {
        let ghost s0 = self@;
        let table_length: usize = self.processes.len();
        let outcome = self.tick_inner(None);
        proof {
            assert(s0.processes.len() == table_length);
            let d = choose|d: u32| (self@, outcome) == tick_spec(s0, d);
            lemma_tick_changes_one_process(s0, d);
            if scheduler_wf(s0) && !all_finished(s0) {
                lemma_tick_spends_one(s0, d);
            }
            if scheduler_wf(old(self)@) {
                let d = choose|d: u32| (self@, outcome) == tick_spec(old(self)@, d);
                lemma_tick_preserves_wf(old(self)@, d);
            }
        }
        outcome
    }

    fn new() -> (s: Self)
        ensures
            scheduler_wf(s@),
    {
        Self { processes: Vec::new(), io_device: IODevice::new(), rng: seeded_rng(0) }
    }
}

impl FirstComeFirstServeScheduler {
    /// Whether the next tick stays within the range of every counter it
    /// changes (the condition under which `tick` may be called).
    pub fn tick_stays_in_range(&self) -> (b: bool)
        ensures
            b == can_tick_spec(self@),
    {
        if self.io_device.state == IODeviceState::Busy && self.io_device.remaining_progress
            == i32::MIN {
            return false;
        }
        let mut device = self.io_device;
        let (old_io_device_state, new_io_device_state) = device.tick();
        if old_io_device_state == IODeviceState::Busy && new_io_device_state
            == IODeviceState::Idle {
            if find_first(&self.processes, ProcessState::IOBlocked).is_some() {
                return true;
            }
        }
        if new_io_device_state == IODeviceState::Idle {
            if find_first(&self.processes, ProcessState::IORequest).is_some() {
                return true;
            }
        }
        match find_first(&self.processes, ProcessState::Running) {
            Some(i) => {
                let process = self.processes[i];
                process.remaining_progress > i32::MIN && process.time < i32::MAX
            },
            None => true,
        }
    }

    /// Ticks the scheduler with `draw` in place of the number drawn from its
    /// generator: the tick is then fully determined.
    pub fn tick_with_draw(&mut self, draw: u32) -> (outcome: SchedulerTickOutcome)
        requires
            can_tick_spec(old(self)@),
        ensures
            (final(self)@, outcome) == tick_spec(old(self)@, draw),
            final(self).rng == old(self).rng,
            changes_only_named(old(self)@, final(self)@, outcome),
            scheduler_wf(old(self)@) ==> scheduler_wf(final(self)@),
            scheduler_wf(old(self)@) && !all_finished(old(self)@) ==> ticks_left(final(self)@)
                < ticks_left(old(self)@),
    {
        let ghost s0 = self@;
        let table_length: usize = self.processes.len();
        let outcome = self.tick_inner(Some(draw));
        proof {
            assert(s0.processes.len() == table_length);
            lemma_tick_changes_one_process(s0, draw);
            if scheduler_wf(s0) && !all_finished(s0) {
                lemma_tick_spends_one(s0, draw);
            }
            if scheduler_wf(old(self)@) {
                lemma_tick_preserves_wf(old(self)@, draw);
            }
        }
        outcome
    }
}

} // verus!
