use vstd::prelude::*;

use crate::io_device::{io_tick_spec, IODeviceState};
use crate::laws::{
    lemma_all_finished_stays_idle, lemma_first_in_exists, lemma_tick_conserves_work,
    lemma_tick_preserves_wf, lemma_wf_can_tick,
};
use crate::process::{advance_spec, ProcessState, SchedulerProcessEntry};
use crate::scheduler::{
    entry_wf, first_in, io_finishes, io_request_taken, scheduler_wf, some_in, tick_spec,
    with_state, SchedulerState, IO_REQUEST_LENGTH,
};

verus! {

/// The slices of CPU work a process still needs: none once finished, and at
/// least one while it has not finished.
pub open spec fn work_left(e: SchedulerProcessEntry) -> int {
    if e.state == ProcessState::Finished {
        0
    } else if e.remaining_progress >= 1 {
        e.remaining_progress as int
    } else {
        1
    }
}

/// The most ticks a process can still take up. Every slice of its work may
/// cost up to 13 ticks: the slice itself, handing its IO request to the
/// device, the `IO_REQUEST_LENGTH` slices of the request, and starting the
/// process again once the request has finished; the state says how much of
/// the current slice's round is already done.
pub open spec fn process_cost(e: SchedulerProcessEntry) -> int {
    let w = work_left(e);
    match e.state {
        ProcessState::Finished => 0,
        ProcessState::Running => 13 * w - 12,
        ProcessState::Ready => 13 * w - 11,
        ProcessState::IOBlocked => 13 * w - 11,
        ProcessState::IORequest => 13 * w,
    }
}

/// The sum of `process_cost` over a process table.
pub open spec fn cost_of(ps: Seq<SchedulerProcessEntry>) -> int
    decreases ps.len(),
{
    if ps.len() == 0 {
        0
    } else {
        cost_of(ps.drop_last()) + process_cost(ps.last())
    }
}

/// The sum of `work_left` over a process table.
pub open spec fn work_of(ps: Seq<SchedulerProcessEntry>) -> int
    decreases ps.len(),
{
    if ps.len() == 0 {
        0
    } else {
        work_of(ps.drop_last()) + work_left(ps.last())
    }
}

/// The most ticks that a scheduler needs to finish all its work: what its
/// processes can take up, and what is left of the device's current request.
pub open spec fn ticks_left(s: SchedulerState) -> int {
    cost_of(s.processes) + s.io_device.remaining_progress
}

/// Every process has finished.
pub open spec fn all_finished(s: SchedulerState) -> bool {
    forall|j: int| 0 <= j < s.processes.len() ==> #[trigger] s.processes[j].state
        == ProcessState::Finished
}

/// The scheduler after one tick for each number in `draws`, in order.
pub open spec fn run_ticks(s: SchedulerState, draws: Seq<u32>) -> SchedulerState
    decreases draws.len(),
{
    if draws.len() == 0 {
        s
    } else {
        tick_spec(run_ticks(s, draws.drop_last()), draws.last()).0
    }
}

proof fn lemma_cost_update(ps: Seq<SchedulerProcessEntry>, i: int, e: SchedulerProcessEntry)
    requires
        0 <= i < ps.len(),
    ensures
        cost_of(ps.update(i, e)) == cost_of(ps) - process_cost(ps[i]) + process_cost(e),
    decreases ps.len(),
{
    let t = ps.update(i, e);
    if i == ps.len() - 1 {
        assert(t.drop_last() =~= ps.drop_last());
    } else {
        assert(t.drop_last() =~= ps.drop_last().update(i, e));
        lemma_cost_update(ps.drop_last(), i, e);
    }
}

/// The cost of a table is never negative, at most 13 ticks per slice of work
/// left, and at least one tick while some process has not finished.
pub proof fn lemma_cost_bounds(ps: Seq<SchedulerProcessEntry>)
    ensures
        0 <= cost_of(ps) <= 13 * work_of(ps),
        (exists|j: int| 0 <= j < ps.len() && #[trigger] ps[j].state != ProcessState::Finished)
            ==> cost_of(ps) >= 1,
    decreases ps.len(),
{
    if ps.len() > 0 {
        let q = ps.drop_last();
        lemma_cost_bounds(q);
        if exists|j: int| 0 <= j < ps.len() && #[trigger] ps[j].state != ProcessState::Finished {
            let j = choose|j: int| 0 <= j < ps.len() && #[trigger] ps[j].state
                != ProcessState::Finished;
            if j < ps.len() - 1 {
                assert(q[j].state != ProcessState::Finished);
            }
        }
    }
}

/// A tick spends at least one tick of what a well-formed scheduler that has
/// work left can still take up, whatever number it draws.
pub proof fn lemma_tick_spends_one(s: SchedulerState, draw: u32)
    requires
        scheduler_wf(s),
        !all_finished(s),
    ensures
        ticks_left(tick_spec(s, draw).0) < ticks_left(s),
{
    let ps = s.processes;
    let dev = s.io_device;
    let dev1 = io_tick_spec(dev);
    let t = tick_spec(s, draw).0;
    lemma_first_in_exists(ps, ProcessState::IOBlocked);
    lemma_first_in_exists(ps, ProcessState::IORequest);
    lemma_first_in_exists(ps, ProcessState::Running);
    lemma_first_in_exists(ps, ProcessState::Ready);
    if io_finishes(s) {
        let i = first_in(ps, ProcessState::IOBlocked)->0;
        lemma_cost_update(ps, i, with_state(ps[i], ProcessState::Ready));
    } else if io_request_taken(s) {
        let i = first_in(ps, ProcessState::IORequest)->0;
        assert(!some_in(ps, ProcessState::IOBlocked));
        lemma_cost_update(ps, i, with_state(ps[i], ProcessState::IOBlocked));
    } else if first_in(ps, ProcessState::Running) is Some {
        let i = first_in(ps, ProcessState::Running)->0;
        assert(entry_wf(ps[i]));
        lemma_cost_update(ps, i, advance_spec(ps[i], draw).0);
        if some_in(ps, ProcessState::IOBlocked) {
            let j = choose|j: int| 0 <= j < ps.len() && #[trigger] ps[j].state
                == ProcessState::IOBlocked;
            assert(j != i);
        }
    } else if first_in(ps, ProcessState::Ready) is Some {
        let i = first_in(ps, ProcessState::Ready)->0;
        lemma_cost_update(ps, i, with_state(ps[i], ProcessState::Running));
    } else {
        let j = choose|j: int| 0 <= j < ps.len() && #[trigger] ps[j].state
            != ProcessState::Finished;
        if ps[j].state == ProcessState::IOBlocked {
            assert(some_in(ps, ProcessState::IOBlocked));
        } else if ps[j].state == ProcessState::IORequest {
            assert(some_in(ps, ProcessState::IORequest));
        } else if ps[j].state == ProcessState::Running {
            assert(some_in(ps, ProcessState::Running));
        } else {
            assert(some_in(ps, ProcessState::Ready));
        }
    }
}

/// Ticking a well-formed scheduler keeps it well formed and keeps every
/// process's CPU time plus remaining slices; it either finishes all work or
/// spends at least one tick of `ticks_left` per tick.
proof fn lemma_run(s: SchedulerState, draws: Seq<u32>)
    requires
        scheduler_wf(s),
    ensures
        ({
            let t = run_ticks(s, draws);
            &&& scheduler_wf(t)
            &&& t.processes.len() == s.processes.len()
            &&& forall|j: int|
                0 <= j < s.processes.len() ==> #[trigger] t.processes[j].time
                    + t.processes[j].remaining_progress == s.processes[j].time
                    + s.processes[j].remaining_progress
            &&& all_finished(t) || ticks_left(t) + draws.len() <= ticks_left(s)
        }),
    decreases draws.len(),
{
    if draws.len() > 0 {
        let q = draws.drop_last();
        lemma_run(s, q);
        let p = run_ticks(s, q);
        let t = run_ticks(s, draws);
        assert(t == tick_spec(p, draws.last()).0);
        lemma_tick_preserves_wf(p, draws.last());
        lemma_wf_can_tick(p);
        lemma_tick_conserves_work(p, draws.last());
        if all_finished(p) {
            lemma_all_finished_stays_idle(p, draws.last());
        } else {
            lemma_tick_spends_one(p, draws.last());
        }
        assert forall|j: int| 0 <= j < s.processes.len() implies #[trigger] t.processes[j].time
            + t.processes[j].remaining_progress == s.processes[j].time
            + s.processes[j].remaining_progress by {
            assert(p.processes[j].time + p.processes[j].remaining_progress
                == s.processes[j].time + s.processes[j].remaining_progress);
        }
    }
}

/// A well-formed scheduler finishes all its work within `ticks_left(s)`
/// ticks, which is at most 13 ticks per slice of work left plus what is left
/// of the device's current request, whatever numbers are drawn. After that
/// many ticks every process has finished, having used exactly its slices (its
/// CPU time plus remaining slices is what it was, and nothing is left unless
/// it had no slices and ran its one slice), and the device is idle; from then
/// on the scheduler stays as it is (`lemma_all_finished_stays_idle`).
pub proof fn lemma_all_work_done(s: SchedulerState, draws: Seq<u32>)
    requires
        scheduler_wf(s),
        draws.len() >= ticks_left(s),
    ensures
        ticks_left(s) <= 13 * work_of(s.processes) + IO_REQUEST_LENGTH,
        ({
            let t = run_ticks(s, draws);
            &&& all_finished(t)
            &&& t.io_device.state == IODeviceState::Idle
            &&& t.processes.len() == s.processes.len()
            &&& forall|j: int|
                0 <= j < s.processes.len() ==> {
                    &&& #[trigger] t.processes[j].time + t.processes[j].remaining_progress
                        == s.processes[j].time + s.processes[j].remaining_progress
                    &&& (t.processes[j].remaining_progress == 0 || t.processes[j].time == 1)
                }
        }),
{
    lemma_cost_bounds(s.processes);
    lemma_run(s, draws);
    let t = run_ticks(s, draws);
    lemma_cost_bounds(t.processes);
    if !all_finished(t) {
        let j = choose|j: int| 0 <= j < t.processes.len() && !(#[trigger] t.processes[j].state
            == ProcessState::Finished);
        assert(t.processes[j].state != ProcessState::Finished);
        assert(t.io_device.remaining_progress >= 0);
        assert(false);
    }
    if t.io_device.state == IODeviceState::Busy {
        let j = choose|j: int| 0 <= j < t.processes.len() && #[trigger] t.processes[j].state
            == ProcessState::IOBlocked;
        assert(t.processes[j].state == ProcessState::Finished);
    }
    assert forall|j: int| 0 <= j < s.processes.len() implies (t.processes[j].remaining_progress
        == 0 || t.processes[j].time == 1) by {
        assert(entry_wf(t.processes[j]));
        assert(t.processes[j].state == ProcessState::Finished);
    }
}

} // verus!
