use rand::rngs::StdRng;
use vstd::prelude::*;

use crate::random::draw_u32;

verus! {

/// The states in which a process can be.
#[derive(PartialEq, Eq, Structural, Copy, Clone, Debug)]
pub enum ProcessState {
    Ready,
    Running,
    IORequest,
    IOBlocked,
    Finished,
}

/// The possible instructions that a process can return to a scheduler.
#[derive(PartialEq, Eq, Structural, Copy, Clone, Debug)]
pub enum ProcessInstruction {
    /// The process has finished.
    Finished,
    /// The process has requested IO.
    IORequest,
    /// The process has not finished and has not requested IO.
    Continue,
}

/// An entry in the process table.
#[derive(Copy, Clone)]
pub struct SchedulerProcessEntry {
    /// The remaining progress of the process (number of time slices it needs to finish).
    pub remaining_progress: i32,
    /// The state of the process.
    pub state: ProcessState,
    /// How likely the process is to request IO after a time slice: it does so
    /// when a uniformly drawn 32-bit number is below this threshold, that is
    /// with probability `io_threshold / 2^32` (1 from `2^32` on).
    pub io_threshold: u64,
    /// The CPU time that the process has used.
    pub time: i32,
}

/// Whether a slice of the running process `e` consults a random draw: only a
/// process that does not finish in this slice may request IO.
pub open spec fn draws_spec(e: SchedulerProcessEntry) -> bool {
    e.remaining_progress - 1 > 0
}

/// One time slice of the running process `e`, where `draw` is the random
/// number that decides whether it requests IO: the process uses one more slice
/// of CPU time and needs one slice less; it finishes when nothing is left,
/// and otherwise requests IO exactly when `draw` is below its threshold.
pub open spec fn advance_spec(e: SchedulerProcessEntry, draw: u32) -> (
    SchedulerProcessEntry,
    ProcessInstruction,
) {
    let left = e.remaining_progress - 1;
    let (state, instruction) = if left <= 0 {
        (ProcessState::Finished, ProcessInstruction::Finished)
    } else if (draw as u64) < e.io_threshold {
        (ProcessState::IORequest, ProcessInstruction::IORequest)
    } else {
        (ProcessState::Running, ProcessInstruction::Continue)
    };
    (
        SchedulerProcessEntry {
            remaining_progress: left as i32,
            state,
            io_threshold: e.io_threshold,
            time: (e.time + 1) as i32,
        },
        instruction,
    )
}

/// A slice of `e` can be run when `e` is running and neither counter leaves
/// the range of `i32`.
pub open spec fn can_advance(e: SchedulerProcessEntry) -> bool {
    &&& e.state == ProcessState::Running
    &&& e.remaining_progress > i32::MIN
    &&& e.time < i32::MAX
}

/// The process after a run of slices, the `k`-th slice with `draws[k]` as its
/// random number, where the process is put back to running before each slice.
pub open spec fn run_slices(e: SchedulerProcessEntry, draws: Seq<u32>) -> SchedulerProcessEntry
    decreases draws.len(),
{
    if draws.len() == 0 {
        e
    } else {
        let before = run_slices(e, draws.drop_last());
        advance_spec(
            SchedulerProcessEntry {
                remaining_progress: before.remaining_progress,
                state: ProcessState::Running,
                io_threshold: before.io_threshold,
                time: before.time,
            },
            draws.last(),
        ).0
    }
}

/// A new process of length `length >= 1` needs exactly `length` slices: after
/// `k` of them it has used `k` slices of CPU time, has `length - k` left, and
/// has finished exactly when `k == length`, whatever the draws.
pub proof fn lemma_process_needs_its_length(length: i32, io_threshold: u64, draws: Seq<u32>)
    requires
        1 <= draws.len() <= length,
    ensures
        ({
            let e = run_slices(
                SchedulerProcessEntry {
                    remaining_progress: length,
                    state: ProcessState::Ready,
                    io_threshold,
                    time: 0,
                },
                draws,
            );
            &&& e.time == draws.len()
            &&& e.remaining_progress == length - draws.len()
            &&& (e.state == ProcessState::Finished <==> draws.len() == length)
        }),
    decreases draws.len(),
{
    let e0 = SchedulerProcessEntry {
        remaining_progress: length,
        state: ProcessState::Ready,
        io_threshold,
        time: 0,
    };
    if draws.len() > 1 {
        lemma_process_needs_its_length(length, io_threshold, draws.drop_last());
    } else {
        assert(draws.drop_last().len() == 0);
        assert(run_slices(e0, draws.drop_last()) == e0);
    }
    let before = run_slices(e0, draws.drop_last());
    assert(run_slices(e0, draws) == advance_spec(
        SchedulerProcessEntry {
            remaining_progress: before.remaining_progress,
            state: ProcessState::Running,
            io_threshold: before.io_threshold,
            time: before.time,
        },
        draws.last(),
    ).0);
}

/// A new process of length `length <= 0` finishes at its first slice.
pub proof fn lemma_empty_process_takes_one_slice(length: i32, io_threshold: u64, draw: u32)
    requires
        i32::MIN < length <= 0,
    ensures
        ({
            let e = run_slices(
                SchedulerProcessEntry {
                    remaining_progress: length,
                    state: ProcessState::Ready,
                    io_threshold,
                    time: 0,
                },
                seq![draw],
            );
            &&& e.time == 1
            &&& e.remaining_progress == length - 1
            &&& e.state == ProcessState::Finished
        }),
{
    let e0 = SchedulerProcessEntry {
        remaining_progress: length,
        state: ProcessState::Ready,
        io_threshold,
        time: 0,
    };
    let draws = seq![draw];
    assert(draws.drop_last().len() == 0);
    assert(run_slices(e0, draws.drop_last()) == e0);
    assert(draws.last() == draw);
}

/// One slice of a running process: it uses one more slice of CPU time and
/// needs one slice less; it finishes exactly when it had at most one slice
/// left, and otherwise requests IO exactly when the whole 32-bit draw, as a
/// number, is below its threshold, and keeps running when it is not.
pub proof fn lemma_slice(e: SchedulerProcessEntry, draw: u32)
    requires
        can_advance(e),
    ensures
        ({
            let (f, instruction) = advance_spec(e, draw);
            &&& f.time == e.time + 1
            &&& f.remaining_progress == e.remaining_progress - 1
            &&& f.io_threshold == e.io_threshold
            &&& e.remaining_progress <= 1 ==> instruction == ProcessInstruction::Finished
                && f.state == ProcessState::Finished
            &&& e.remaining_progress > 1 && draw < e.io_threshold ==> instruction
                == ProcessInstruction::IORequest && f.state == ProcessState::IORequest
            &&& e.remaining_progress > 1 && draw >= e.io_threshold ==> instruction
                == ProcessInstruction::Continue && f.state == ProcessState::Running
        }),
{
}

impl SchedulerProcessEntry {
    /// Creates a new process entry: ready, needing `length` slices, with no
    /// CPU time used.
    pub fn new(length: i32, io_threshold: u64) -> (e: Self)
        ensures
            e == (SchedulerProcessEntry {
                remaining_progress: length,
                state: ProcessState::Ready,
                io_threshold,
                time: 0,
            }),
    {
        Self { remaining_progress: length, state: ProcessState::Ready, io_threshold, time: 0 }
    }

    /// Runs one time slice of the process with `draw` as the random number that
    /// decides whether it requests IO (it is not looked at when the process
    /// finishes in this slice).
    pub fn tick_with_draw(&mut self, draw: u32) -> (instruction: ProcessInstruction)
        requires
            can_advance(*old(self)),
        ensures
            (*final(self), instruction) == advance_spec(*old(self), draw),
            final(self).time == old(self).time + 1,
            final(self).remaining_progress == old(self).remaining_progress - 1,
            final(self).io_threshold == old(self).io_threshold,
            old(self).remaining_progress <= 1 ==> instruction == ProcessInstruction::Finished
                && final(self).state == ProcessState::Finished,
            old(self).remaining_progress > 1 && draw < old(self).io_threshold ==> instruction
                == ProcessInstruction::IORequest && final(self).state == ProcessState::IORequest,
            old(self).remaining_progress > 1 && draw >= old(self).io_threshold ==> instruction
                == ProcessInstruction::Continue && final(self).state == ProcessState::Running,
    {
        proof {
            lemma_slice(*old(self), draw);
        }
        self.remaining_progress = self.remaining_progress - 1;
        self.time = self.time + 1;
        if self.remaining_progress <= 0 {
            self.state = ProcessState::Finished;
            ProcessInstruction::Finished
        } else if (draw as u64) < self.io_threshold {
            self.state = ProcessState::IORequest;
            ProcessInstruction::IORequest
        } else {
            ProcessInstruction::Continue
        }
    }

    /// Tick the process. This should be called once per time slice.
    /// Returns the instruction that the scheduler should execute.
    /// A number is drawn from `rng` exactly when the process does not finish
    /// in this slice; it decides whether the process requests IO.
    pub fn tick(&mut self, rng: &mut StdRng) -> (instruction: ProcessInstruction)
        requires
            can_advance(*old(self)),
        ensures
            exists|draw: u32| (*final(self), instruction) == #[trigger] advance_spec(*old(self), draw),
            !draws_spec(*old(self)) ==> (*final(self), instruction) == advance_spec(*old(self), 0),
            !draws_spec(*old(self)) ==> *final(rng) == *old(rng),
            draws_spec(*old(self)) ==> *final(rng) != *old(rng),
    {
        let draw: u32 = if self.remaining_progress > 1 {
            draw_u32(rng)
        } else {
            0
        };
        let instruction = self.tick_with_draw(draw);
        assert((*self, instruction) == advance_spec(*old(self), draw));
        instruction
    }
}

} // verus!
