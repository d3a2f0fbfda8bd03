use vstd::prelude::*;

use crate::io_device::{io_can_tick, io_start_spec, io_tick_spec, IODevice, IODeviceState};
use crate::process::{advance_spec, can_advance, ProcessState, SchedulerProcessEntry};
use crate::scheduler::{
    at_most_one_in, can_tick_spec, lemma_first_in_is, changes_only_named, draws_on_tick, entry_wf, first_in, io_finishes,
    io_request_taken, is_first_in, outcome_process, register_spec, scheduler_wf, some_in,
    ticked_process, tick_spec, with_state, SchedulerState, SchedulerTickOutcome,
    IO_REQUEST_LENGTH,
};

verus! {

/// Registering a process with a length above `i32::MIN` keeps the scheduler
/// well formed.
pub proof fn lemma_register_preserves_wf(s: SchedulerState, length: i32, io_threshold: u64)
    requires
        scheduler_wf(s),
        length > i32::MIN,
    ensures
        scheduler_wf(register_spec(s, length, io_threshold)),
{
    let t = register_spec(s, length, io_threshold);
    assert forall|i: int| 0 <= i < t.processes.len() implies entry_wf(#[trigger] t.processes[i]) by {
        if i < s.processes.len() {
            assert(t.processes[i] == s.processes[i]);
        }
    }
    assert(some_in(t.processes, ProcessState::IOBlocked) == some_in(s.processes, ProcessState::IOBlocked)) by {
        if some_in(s.processes, ProcessState::IOBlocked) {
            let i = choose|i: int| 0 <= i < s.processes.len() && #[trigger] s.processes[i].state == ProcessState::IOBlocked;
            assert(t.processes[i] == s.processes[i]);
        }
        if some_in(t.processes, ProcessState::IOBlocked) {
            let i = choose|i: int| 0 <= i < t.processes.len() && #[trigger] t.processes[i].state == ProcessState::IOBlocked;
            assert(t.processes[i] == s.processes[i]);
        }
    }
}

/// There is a first process in state `st` exactly when some process is in it.
pub proof fn lemma_first_in_exists(ps: Seq<SchedulerProcessEntry>, st: ProcessState)
    ensures
        first_in(ps, st) is Some <==> some_in(ps, st),
        first_in(ps, st) matches Some(i) ==> is_first_in(ps, st, i),
{
    if some_in(ps, st) {
        let k = choose|k: int| 0 <= k < ps.len() && #[trigger] ps[k].state == st;
        lemma_first_below(ps, st, k);
    }
}

/// Below or at an index in state `st` there is a first one.
proof fn lemma_first_below(ps: Seq<SchedulerProcessEntry>, st: ProcessState, k: int)
    requires
        0 <= k < ps.len(),
        ps[k].state == st,
    ensures
        exists|i: int| is_first_in(ps, st, i),
    decreases k,
{
    if forall|j: int| 0 <= j < k ==> #[trigger] ps[j].state != st {
        assert(is_first_in(ps, st, k));
    } else {
        let j = choose|j: int| 0 <= j < k && #[trigger] ps[j].state == st;
        lemma_first_below(ps, st, j);
    }
}

/// Replacing one process keeps "at most one in state `st`" when the new
/// process is in `st` only if no other process is.
proof fn lemma_update_at_most_one(
    ps: Seq<SchedulerProcessEntry>,
    i: int,
    e: SchedulerProcessEntry,
    st: ProcessState,
)
    requires
        0 <= i < ps.len(),
        at_most_one_in(ps, st),
        e.state == st ==> forall|j: int| 0 <= j < ps.len() && j != i ==> #[trigger] ps[j].state != st,
    ensures
        at_most_one_in(ps.update(i, e), st),
{
    let t = ps.update(i, e);
    assert forall|a: int, b: int|
        0 <= a < t.len() && 0 <= b < t.len() && #[trigger] t[a].state == st && #[trigger] t[b].state == st implies a == b by {
        if a != i && b != i {
            assert(ps[a].state == st && ps[b].state == st);
        } else if a == i && b != i {
            assert(ps[b].state == st);
        } else if a != i && b == i {
            assert(ps[a].state == st);
        }
    }
}

/// Whether some process is in state `st` after replacing process `i` by `e`.
proof fn lemma_update_some_in(
    ps: Seq<SchedulerProcessEntry>,
    i: int,
    e: SchedulerProcessEntry,
    st: ProcessState,
)
    requires
        0 <= i < ps.len(),
    ensures
        e.state == st ==> some_in(ps.update(i, e), st),
        e.state != st ==> (some_in(ps.update(i, e), st) <==> exists|j: int|
            0 <= j < ps.len() && j != i && #[trigger] ps[j].state == st),
{
    let t = ps.update(i, e);
    if e.state == st {
        assert(t[i].state == st);
    } else {
        if some_in(t, st) {
            let j = choose|j: int| 0 <= j < t.len() && #[trigger] t[j].state == st;
            assert(ps[j].state == st);
        }
        if exists|j: int| 0 <= j < ps.len() && j != i && #[trigger] ps[j].state == st {
            let j = choose|j: int| 0 <= j < ps.len() && j != i && #[trigger] ps[j].state == st;
            assert(t[j].state == st);
        }
    }
}

/// Registering appends exactly one process, made of the arguments alone:
/// `length` slices to go, ready, the given threshold, no CPU time; the
/// processes already there and the device stay as they were.
pub proof fn lemma_register_appends(s: SchedulerState, length: i32, io_threshold: u64)
    ensures
        ({
            let t = register_spec(s, length, io_threshold);
            &&& t.processes.len() == s.processes.len() + 1
            &&& forall|j: int|
                0 <= j < s.processes.len() ==> #[trigger] t.processes[j] == s.processes[j]
            &&& t.processes.last().remaining_progress == length
            &&& t.processes.last().state == ProcessState::Ready
            &&& t.processes.last().io_threshold == io_threshold
            &&& t.processes.last().time == 0
            &&& t.io_device == s.io_device
        }),
{
}

/// A tick keeps the scheduler well formed, whatever number it draws.
pub proof fn lemma_tick_preserves_wf(s: SchedulerState, draw: u32)
    requires
        scheduler_wf(s),
    ensures
        scheduler_wf(tick_spec(s, draw).0),
{
    let ps = s.processes;
    let dev = s.io_device;
    let dev1 = io_tick_spec(dev);
    let t = tick_spec(s, draw).0;
    lemma_first_in_exists(ps, ProcessState::IOBlocked);
    lemma_first_in_exists(ps, ProcessState::IORequest);
    lemma_first_in_exists(ps, ProcessState::Running);
    lemma_first_in_exists(ps, ProcessState::Ready);
    if io_finishes(s) {
        let i = first_in(ps, ProcessState::IOBlocked)->0;
        let e = with_state(ps[i], ProcessState::Ready);
        lemma_update_at_most_one(ps, i, e, ProcessState::Running);
        lemma_update_at_most_one(ps, i, e, ProcessState::IOBlocked);
        lemma_update_some_in(ps, i, e, ProcessState::IOBlocked);
        assert forall|j: int| 0 <= j < t.processes.len() implies entry_wf(#[trigger] t.processes[j]) by {
            assert(entry_wf(ps[j]));
        }
        assert(!some_in(t.processes, ProcessState::IOBlocked));
    } else if io_request_taken(s) {
        let i = first_in(ps, ProcessState::IORequest)->0;
        let e = with_state(ps[i], ProcessState::IOBlocked);
        assert(!some_in(ps, ProcessState::IOBlocked));
        lemma_update_at_most_one(ps, i, e, ProcessState::Running);
        lemma_update_at_most_one(ps, i, e, ProcessState::IOBlocked);
        lemma_update_some_in(ps, i, e, ProcessState::IOBlocked);
        assert forall|j: int| 0 <= j < t.processes.len() implies entry_wf(#[trigger] t.processes[j]) by {
            assert(entry_wf(ps[j]));
        }
    } else if first_in(ps, ProcessState::Running) is Some {
        let i = first_in(ps, ProcessState::Running)->0;
        let e = advance_spec(ps[i], draw).0;
        assert(entry_wf(ps[i]));
        lemma_update_at_most_one(ps, i, e, ProcessState::Running);
        lemma_update_at_most_one(ps, i, e, ProcessState::IOBlocked);
        lemma_update_some_in(ps, i, e, ProcessState::IOBlocked);
        assert forall|j: int| 0 <= j < t.processes.len() implies entry_wf(#[trigger] t.processes[j]) by {
            assert(entry_wf(ps[j]));
        }
        if some_in(ps, ProcessState::IOBlocked) {
            let j = choose|j: int| 0 <= j < ps.len() && #[trigger] ps[j].state == ProcessState::IOBlocked;
            assert(j != i);
        }
    } else if first_in(ps, ProcessState::Ready) is Some {
        let i = first_in(ps, ProcessState::Ready)->0;
        let e = with_state(ps[i], ProcessState::Running);
        lemma_update_at_most_one(ps, i, e, ProcessState::Running);
        lemma_update_at_most_one(ps, i, e, ProcessState::IOBlocked);
        lemma_update_some_in(ps, i, e, ProcessState::IOBlocked);
        assert forall|j: int| 0 <= j < t.processes.len() implies entry_wf(#[trigger] t.processes[j]) by {
            assert(entry_wf(ps[j]));
        }
        if some_in(ps, ProcessState::IOBlocked) {
            let j = choose|j: int| 0 <= j < ps.len() && #[trigger] ps[j].state == ProcessState::IOBlocked;
            assert(j != i);
        }
    }
}

/// The number of processes of `ps` in state `st`.
pub open spec fn count_in(ps: Seq<SchedulerProcessEntry>, st: ProcessState) -> nat
    decreases ps.len(),
{
    if ps.len() == 0 {
        0
    } else {
        count_in(ps.drop_last(), st) + if ps.last().state == st {
            1nat
        } else {
            0nat
        }
    }
}

proof fn lemma_count_in(ps: Seq<SchedulerProcessEntry>, st: ProcessState)
    ensures
        !some_in(ps, st) ==> count_in(ps, st) == 0,
        at_most_one_in(ps, st) ==> count_in(ps, st) <= 1,
        at_most_one_in(ps, st) && some_in(ps, st) ==> count_in(ps, st) == 1,
    decreases ps.len(),
{
    if ps.len() > 0 {
        let q = ps.drop_last();
        let n = ps.len() - 1;
        lemma_count_in(q, st);
        if some_in(q, st) {
            let j = choose|j: int| 0 <= j < q.len() && #[trigger] q[j].state == st;
            assert(ps[j].state == st);
        }
        if at_most_one_in(ps, st) {
            assert forall|a: int, b: int|
                0 <= a < q.len() && 0 <= b < q.len() && #[trigger] q[a].state == st
                    && #[trigger] q[b].state == st implies a == b by {
                assert(ps[a].state == st && ps[b].state == st);
            }
            if ps[n].state == st && some_in(q, st) {
                let j = choose|j: int| 0 <= j < q.len() && #[trigger] q[j].state == st;
                assert(ps[j].state == st);
                assert(ps[n].state == st);
            }
        }
        if some_in(ps, st) && ps[n].state != st {
            let j = choose|j: int| 0 <= j < ps.len() && #[trigger] ps[j].state == st;
            assert(q[j].state == st);
        }
    }
}

/// In a well-formed scheduler at most one process runs, exactly one process
/// waits for IO while the device is busy and none while it is idle; a busy
/// device has between 1 and `IO_REQUEST_LENGTH` slices left and an idle one
/// none.
pub proof fn lemma_wf_counts(s: SchedulerState)
    requires
        scheduler_wf(s),
    ensures
        count_in(s.processes, ProcessState::Running) <= 1,
        count_in(s.processes, ProcessState::IOBlocked) == if s.io_device.state
            == IODeviceState::Busy {
            1nat
        } else {
            0nat
        },
        s.io_device.state == IODeviceState::Busy ==> 1 <= s.io_device.remaining_progress
            <= IO_REQUEST_LENGTH,
        s.io_device.state == IODeviceState::Idle ==> s.io_device.remaining_progress == 0,
{
    lemma_count_in(s.processes, ProcessState::Running);
    lemma_count_in(s.processes, ProcessState::IOBlocked);
}

/// A well-formed scheduler can always be ticked: no counter that a tick
/// changes leaves the range of `i32`.
pub proof fn lemma_wf_can_tick(s: SchedulerState)
    requires
        scheduler_wf(s),
    ensures
        can_tick_spec(s),
{
    let ps = s.processes;
    assert(io_can_tick(s.io_device));
    if let Some(i) = ticked_process(s) {
        lemma_first_in_exists(ps, ProcessState::Running);
        assert(entry_wf(ps[i]));
        assert(can_advance(ps[i]));
    }
}

/// The order in which a tick serves the device and the processes, stated by
/// the states of the processes and the device before the tick. Say an IO
/// operation ends when the device is busy with at most one slice left and a
/// process is IO-blocked; say the device is free when it is idle or has at
/// most one slice left. Then:
/// - when an IO operation ends, the first IO-blocked process becomes ready;
/// - else, when the device is free and a process has requested IO, the first
///   such process gets the device for `IO_REQUEST_LENGTH` slices and is
///   IO-blocked, whether or not a process is running;
/// - else the first running process runs one slice: it finishes when it had
///   at most one slice left, and otherwise requests IO exactly when the draw
///   is below its threshold;
/// - else the first ready process starts running;
/// - else nothing happens.
pub proof fn lemma_tick_priority(s: SchedulerState, draw: u32)
    requires
        s.processes.len() <= usize::MAX,
    ensures
        ({
            let ps = s.processes;
            let dev = s.io_device;
            let (t, o) = tick_spec(s, draw);
            let io_ends = dev.state == IODeviceState::Busy && dev.remaining_progress <= 1
                && some_in(ps, ProcessState::IOBlocked);
            let free = dev.state == IODeviceState::Idle || dev.remaining_progress <= 1;
            let request_served = !io_ends && free && some_in(ps, ProcessState::IORequest);
            &&& forall|i: int|
                io_ends && #[trigger] is_first_in(ps, ProcessState::IOBlocked, i) ==> o
                    == SchedulerTickOutcome::IOFinished(i as usize) && t.processes[i].state
                    == ProcessState::Ready
            &&& forall|i: int|
                request_served && #[trigger] is_first_in(ps, ProcessState::IORequest, i) ==> o
                    == SchedulerTickOutcome::IORequestHandled(i as usize) && t.processes[i].state
                    == ProcessState::IOBlocked && t.io_device == (IODevice {
                    state: IODeviceState::Busy,
                    remaining_progress: IO_REQUEST_LENGTH,
                })
            &&& forall|i: int|
                !io_ends && !request_served && #[trigger] is_first_in(
                    ps,
                    ProcessState::Running,
                    i,
                ) ==> {
                    &&& ps[i].remaining_progress <= 1 ==> o
                        == SchedulerTickOutcome::ProcessFinished(i as usize)
                        && t.processes[i].state == ProcessState::Finished
                    &&& ps[i].remaining_progress > 1 ==> o
                        == SchedulerTickOutcome::ProcessContinued(i as usize)
                    &&& ps[i].remaining_progress > 1 && draw < ps[i].io_threshold
                        ==> t.processes[i].state == ProcessState::IORequest
                    &&& ps[i].remaining_progress > 1 && draw >= ps[i].io_threshold
                        ==> t.processes[i].state == ProcessState::Running
                }
            &&& forall|i: int|
                !io_ends && !request_served && !some_in(ps, ProcessState::Running)
                    && #[trigger] is_first_in(ps, ProcessState::Ready, i) ==> o
                    == SchedulerTickOutcome::ProcessResumed(i as usize) && t.processes[i].state
                    == ProcessState::Running
            &&& !io_ends && !request_served && !some_in(ps, ProcessState::Running) && !some_in(
                ps,
                ProcessState::Ready,
            ) ==> o == SchedulerTickOutcome::Idle && t.processes == ps
        }),
{
    let ps = s.processes;
    lemma_first_in_exists(ps, ProcessState::IOBlocked);
    lemma_first_in_exists(ps, ProcessState::IORequest);
    lemma_first_in_exists(ps, ProcessState::Running);
    lemma_first_in_exists(ps, ProcessState::Ready);
    assert forall|i: int| #[trigger] is_first_in(ps, ProcessState::IOBlocked, i) implies first_in(
        ps,
        ProcessState::IOBlocked,
    ) == Some(i) by {
        lemma_first_in_is(ps, ProcessState::IOBlocked, i);
    }
    assert forall|i: int| #[trigger] is_first_in(ps, ProcessState::IORequest, i) implies first_in(
        ps,
        ProcessState::IORequest,
    ) == Some(i) by {
        lemma_first_in_is(ps, ProcessState::IORequest, i);
    }
    assert forall|i: int| #[trigger] is_first_in(ps, ProcessState::Running, i) implies first_in(
        ps,
        ProcessState::Running,
    ) == Some(i) by {
        lemma_first_in_is(ps, ProcessState::Running, i);
    }
    assert forall|i: int| #[trigger] is_first_in(ps, ProcessState::Ready, i) implies first_in(
        ps,
        ProcessState::Ready,
    ) == Some(i) by {
        lemma_first_in_is(ps, ProcessState::Ready, i);
    }
}

/// A tick changes at most one process, the one its outcome names (which is
/// in the table), and never the number of processes; an idle tick changes no
/// process; no threshold ever changes, and a finished process is never
/// touched again.
pub proof fn lemma_tick_changes_one_process(s: SchedulerState, draw: u32)
    requires
        s.processes.len() <= usize::MAX,
    ensures
        changes_only_named(s, tick_spec(s, draw).0, tick_spec(s, draw).1),
{
    lemma_first_in_exists(s.processes, ProcessState::IOBlocked);
    lemma_first_in_exists(s.processes, ProcessState::IORequest);
    lemma_first_in_exists(s.processes, ProcessState::Running);
    lemma_first_in_exists(s.processes, ProcessState::Ready);
}

/// What the outcome of a tick says holds of the process it names: an IO
/// operation finished for a process that was IO-blocked and is now ready; an
/// IO request was handed to the device, which is now busy for
/// `IO_REQUEST_LENGTH` slices, by a process that had requested IO and is now
/// IO-blocked; a ready process now runs; a running process ran one slice and
/// still runs or has requested IO; a running process finished. In each case
/// the process is the first in the table in its former state: first come,
/// first served. An idle tick happens only when no process is ready or
/// running.
pub proof fn lemma_tick_outcome(s: SchedulerState, draw: u32)
    requires
        s.processes.len() <= usize::MAX,
    ensures
        ({
            let (t, o) = tick_spec(s, draw);
            let ps = s.processes;
            match o {
                SchedulerTickOutcome::IOFinished(i) => is_first_in(ps, ProcessState::IOBlocked, i as int)
                    && t.processes[i as int].state == ProcessState::Ready,
                SchedulerTickOutcome::IORequestHandled(i) => is_first_in(ps, ProcessState::IORequest, i as int)
                    && t.processes[i as int].state == ProcessState::IOBlocked
                    && t.io_device == io_start_spec(IO_REQUEST_LENGTH),
                SchedulerTickOutcome::ProcessResumed(i) => is_first_in(ps, ProcessState::Ready, i as int)
                    && t.processes[i as int].state == ProcessState::Running,
                SchedulerTickOutcome::ProcessContinued(i) => is_first_in(ps, ProcessState::Running, i as int)
                    && (t.processes[i as int].state == ProcessState::Running
                    || t.processes[i as int].state == ProcessState::IORequest),
                SchedulerTickOutcome::ProcessFinished(i) => is_first_in(ps, ProcessState::Running, i as int)
                    && t.processes[i as int].state == ProcessState::Finished,
                SchedulerTickOutcome::Idle => forall|j: int|
                    0 <= j < ps.len() ==> #[trigger] ps[j].state != ProcessState::Ready
                        && ps[j].state != ProcessState::Running,
            }
        }),
{
    let ps = s.processes;
    lemma_first_in_exists(ps, ProcessState::IOBlocked);
    lemma_first_in_exists(ps, ProcessState::IORequest);
    lemma_first_in_exists(ps, ProcessState::Running);
    lemma_first_in_exists(ps, ProcessState::Ready);
    let (t, o) = tick_spec(s, draw);
    if o == SchedulerTickOutcome::Idle {
        assert forall|j: int| 0 <= j < ps.len() implies #[trigger] ps[j].state != ProcessState::Ready
            && ps[j].state != ProcessState::Running by {
            if ps[j].state == ProcessState::Ready {
                assert(some_in(ps, ProcessState::Ready));
            }
            if ps[j].state == ProcessState::Running {
                assert(some_in(ps, ProcessState::Running));
            }
        }
    }
}

/// A tick never loses or invents work: for every process, CPU time used plus
/// slices remaining stays the same, CPU time grows by one slice for the
/// process that the tick runs and stays the same for every other, the IO
/// threshold never changes, and a finished process is never touched again.
pub proof fn lemma_tick_conserves_work(s: SchedulerState, draw: u32)
    requires
        can_tick_spec(s),
    ensures
        ({
            let t = tick_spec(s, draw).0;
            forall|j: int|
                0 <= j < s.processes.len() ==> {
                    &&& #[trigger] t.processes[j].time + t.processes[j].remaining_progress
                        == s.processes[j].time + s.processes[j].remaining_progress
                    &&& t.processes[j].time == s.processes[j].time + if ticked_process(s) == Some(j) {
                        1int
                    } else {
                        0int
                    }
                    &&& t.processes[j].io_threshold == s.processes[j].io_threshold
                    &&& s.processes[j].state == ProcessState::Finished ==> t.processes[j]
                        == s.processes[j]
                }
        }),
{
    let ps = s.processes;
    lemma_first_in_exists(ps, ProcessState::IOBlocked);
    lemma_first_in_exists(ps, ProcessState::IORequest);
    lemma_first_in_exists(ps, ProcessState::Running);
    lemma_first_in_exists(ps, ProcessState::Ready);
}

/// The scheduler does not preempt: while a process runs in a well-formed
/// scheduler, a tick either serves the IO device or runs that very process;
/// no other process is started.
pub proof fn lemma_running_process_keeps_cpu(s: SchedulerState, draw: u32, i: int)
    requires
        scheduler_wf(s),
        s.processes.len() <= usize::MAX,
        0 <= i < s.processes.len(),
        s.processes[i].state == ProcessState::Running,
    ensures
        match tick_spec(s, draw).1 {
            SchedulerTickOutcome::IOFinished(_) => true,
            SchedulerTickOutcome::IORequestHandled(_) => true,
            SchedulerTickOutcome::ProcessContinued(j) => j == i,
            SchedulerTickOutcome::ProcessFinished(j) => j == i,
            _ => false,
        },
{
    let ps = s.processes;
    lemma_first_in_exists(ps, ProcessState::Running);
    assert(some_in(ps, ProcessState::Running));
    let k = first_in(ps, ProcessState::Running)->0;
    assert(ps[k].state == ProcessState::Running);
    assert(k == i);
}

/// A tick that does not run a process on to a later slice does not depend on
/// the random draw.
pub proof fn lemma_tick_draw_irrelevant(s: SchedulerState, d1: u32, d2: u32)
    requires
        !draws_on_tick(s),
    ensures
        tick_spec(s, d1) == tick_spec(s, d2),
{
}

/// A well-formed scheduler whose processes have all finished stays as it is
/// and reports nothing to do, tick after tick.
pub proof fn lemma_all_finished_stays_idle(s: SchedulerState, draw: u32)
    requires
        scheduler_wf(s),
        forall|j: int| 0 <= j < s.processes.len() ==> #[trigger] s.processes[j].state
            == ProcessState::Finished,
    ensures
        tick_spec(s, draw) == (s, SchedulerTickOutcome::Idle),
{
    let ps = s.processes;
    lemma_first_in_exists(ps, ProcessState::IOBlocked);
    lemma_first_in_exists(ps, ProcessState::IORequest);
    lemma_first_in_exists(ps, ProcessState::Running);
    lemma_first_in_exists(ps, ProcessState::Ready);
    assert(!some_in(ps, ProcessState::IOBlocked));
    assert(!some_in(ps, ProcessState::IORequest));
    assert(!some_in(ps, ProcessState::Running));
    assert(!some_in(ps, ProcessState::Ready));
}

} // verus!
