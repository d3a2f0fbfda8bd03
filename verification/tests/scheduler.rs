use process_scheduler::io_device::{IODevice, IODeviceState};
use process_scheduler::process::{ProcessInstruction, ProcessState, SchedulerProcessEntry};
use process_scheduler::scheduler::{FirstComeFirstServeScheduler, Scheduler, SchedulerTickOutcome};
use process_scheduler::wrapper::SchedulerWrapper;
use rand::rngs::StdRng;
use rand::{Rng, SeedableRng};

/// The threshold under which a 32-bit draw `x` requests IO exactly when the
/// float draw `(x >> 8) * 2^-24` is below `probability`.
fn io_threshold(probability: f32) -> u64 {
    let scaled = (probability as f64 * 16777216.0).ceil();
    if !(scaled > 0.0) {
        0
    } else if scaled >= 16777216.0 {
        1u64 << 32
    } else {
        (scaled as u64) * 256
    }
}

const ALWAYS_IO: u64 = 1u64 << 32;

fn states(s: &FirstComeFirstServeScheduler) -> Vec<ProcessState> {
    s.processes.iter().map(|p| p.state).collect()
}

fn count(s: &FirstComeFirstServeScheduler, st: ProcessState) -> usize {
    s.processes.iter().filter(|p| p.state == st).count()
}

fn check_wf(s: &FirstComeFirstServeScheduler) {
    assert!(count(s, ProcessState::Running) <= 1);
    assert!(count(s, ProcessState::IOBlocked) <= 1);
    assert_eq!(
        s.io_device.state == IODeviceState::Busy,
        count(s, ProcessState::IOBlocked) == 1
    );
    if s.io_device.state == IODeviceState::Busy {
        assert!(s.io_device.remaining_progress > 0);
    }
    for p in &s.processes {
        assert!(p.time >= 0);
    }
}

#[test]
fn test_first_come_first_serve_scheduler() {
    let mut scheduler = FirstComeFirstServeScheduler::new();
    scheduler.register_process(4, io_threshold(0.9));
    scheduler.register_process(3, io_threshold(0.2));
    scheduler.register_process(2, io_threshold(0.1));

    // Iterate it for some ticks and print the outcome of each tick.
    for _ in 0..100 {
        let outcome = scheduler.tick();
        println!("{:?}", outcome);
    }
}

#[test]
fn random_run_keeps_invariants_and_work() {
    let mut scheduler = FirstComeFirstServeScheduler::new();
    let lengths = [4, 3, 2, 7, 1];
    let probabilities = [0.9f32, 0.2, 0.1, 0.5, 1.0];
    for k in 0..lengths.len() {
        scheduler.register_process(lengths[k], io_threshold(probabilities[k]));
    }
    check_wf(&scheduler);
    for _ in 0..200 {
        let before: Vec<SchedulerProcessEntry> = scheduler.processes.clone();
        let outcome = scheduler.tick();
        check_wf(&scheduler);
        assert_eq!(scheduler.processes.len(), before.len());
        for (j, (old, new)) in before.iter().zip(scheduler.processes.iter()).enumerate() {
            assert_eq!(old.time + old.remaining_progress, new.time + new.remaining_progress);
            assert!(new.time >= old.time);
            if old.state == ProcessState::Finished {
                assert_eq!(new.state, ProcessState::Finished);
                assert_eq!(new.time, old.time);
            }
            if outcome.process() != Some(j) {
                assert_eq!(old.state, new.state);
                assert_eq!(old.time, new.time);
            }
        }
    }
    // Every process has run to completion, with all of its slices used.
    for k in 0..lengths.len() {
        assert_eq!(scheduler.processes[k].state, ProcessState::Finished);
        assert_eq!(scheduler.processes[k].time, lengths[k]);
        assert_eq!(scheduler.processes[k].remaining_progress, 0);
    }
    assert_eq!(scheduler.tick(), SchedulerTickOutcome::Idle);
}

#[test]
fn deterministic_run_with_draws() {
    let mut s = FirstComeFirstServeScheduler::new();
    s.register_process(2, ALWAYS_IO);
    s.register_process(1, 0);
    assert_eq!(states(&s), vec![ProcessState::Ready, ProcessState::Ready]);

    assert_eq!(s.tick_with_draw(0), SchedulerTickOutcome::ProcessResumed(0));
    assert_eq!(s.processes[0].state, ProcessState::Running);
    assert_eq!(s.tick_with_draw(0), SchedulerTickOutcome::ProcessContinued(0));
    assert_eq!(s.processes[0].state, ProcessState::IORequest);
    assert_eq!(s.processes[0].time, 1);
    assert_eq!(s.processes[0].remaining_progress, 1);
    assert_eq!(s.tick_with_draw(0), SchedulerTickOutcome::IORequestHandled(0));
    assert_eq!(s.processes[0].state, ProcessState::IOBlocked);
    assert_eq!(s.io_device.state, IODeviceState::Busy);
    assert_eq!(s.io_device.remaining_progress, 10);
    assert_eq!(s.tick_with_draw(0), SchedulerTickOutcome::ProcessResumed(1));
    assert_eq!(s.tick_with_draw(0), SchedulerTickOutcome::ProcessFinished(1));
    assert_eq!(s.processes[1].state, ProcessState::Finished);
    assert_eq!(s.processes[1].time, 1);
    for _ in 0..7 {
        assert_eq!(s.tick_with_draw(0), SchedulerTickOutcome::Idle);
        assert_eq!(s.io_device.state, IODeviceState::Busy);
    }
    assert_eq!(s.io_device.remaining_progress, 1);
    assert_eq!(s.tick_with_draw(0), SchedulerTickOutcome::IOFinished(0));
    assert_eq!(s.processes[0].state, ProcessState::Ready);
    assert_eq!(s.io_device.state, IODeviceState::Idle);
    assert_eq!(s.tick_with_draw(0), SchedulerTickOutcome::ProcessResumed(0));
    assert_eq!(s.tick_with_draw(0), SchedulerTickOutcome::ProcessFinished(0));
    assert_eq!(s.processes[0].time, 2);
    assert_eq!(s.processes[0].remaining_progress, 0);
}

#[test]
fn draw_decides_io_request() {
    let mut a = FirstComeFirstServeScheduler::new();
    a.register_process(5, 100);
    a.tick_with_draw(0);
    let mut b = FirstComeFirstServeScheduler::new();
    b.register_process(5, 100);
    b.tick_with_draw(0);
    assert_eq!(a.tick_with_draw(99), SchedulerTickOutcome::ProcessContinued(0));
    assert_eq!(a.processes[0].state, ProcessState::IORequest);
    assert_eq!(b.tick_with_draw(100), SchedulerTickOutcome::ProcessContinued(0));
    assert_eq!(b.processes[0].state, ProcessState::Running);
}

#[test]
fn draw_is_irrelevant_when_not_consulted() {
    let mut a = FirstComeFirstServeScheduler::new();
    let mut b = FirstComeFirstServeScheduler::new();
    a.register_process(1, ALWAYS_IO);
    b.register_process(1, ALWAYS_IO);
    assert_eq!(a.tick_with_draw(0), b.tick_with_draw(u32::MAX));
    // The last slice finishes the process whatever the draw.
    assert_eq!(a.tick_with_draw(0), SchedulerTickOutcome::ProcessFinished(0));
    assert_eq!(b.tick_with_draw(u32::MAX), SchedulerTickOutcome::ProcessFinished(0));
}

#[test]
fn finished_scheduler_stays_idle() {
    let mut s = FirstComeFirstServeScheduler::new();
    s.register_process(1, 0);
    s.tick();
    assert_eq!(s.tick(), SchedulerTickOutcome::ProcessFinished(0));
    for _ in 0..5 {
        assert_eq!(s.tick(), SchedulerTickOutcome::Idle);
        assert_eq!(s.processes[0].state, ProcessState::Finished);
        assert_eq!(s.processes[0].time, 1);
        assert_eq!(s.io_device.state, IODeviceState::Idle);
    }
}

#[test]
fn empty_scheduler_is_idle() {
    let mut s = FirstComeFirstServeScheduler::new();
    assert!(s.processes.is_empty());
    assert_eq!(s.io_device.state, IODeviceState::Idle);
    assert_eq!(s.io_device.remaining_progress, 0);
    assert_eq!(s.tick(), SchedulerTickOutcome::Idle);
}

#[test]
fn non_positive_length_finishes_after_one_slice() {
    let mut s = FirstComeFirstServeScheduler::new();
    s.register_process(0, ALWAYS_IO);
    s.register_process(-5, 0);
    assert_eq!(s.tick(), SchedulerTickOutcome::ProcessResumed(0));
    assert_eq!(s.tick(), SchedulerTickOutcome::ProcessFinished(0));
    assert_eq!(s.processes[0].time, 1);
    assert_eq!(s.processes[0].remaining_progress, -1);
    assert_eq!(s.tick(), SchedulerTickOutcome::ProcessResumed(1));
    assert_eq!(s.tick(), SchedulerTickOutcome::ProcessFinished(1));
    assert_eq!(s.processes[1].remaining_progress, -6);
}

#[test]
fn register_appends_ready_process() {
    let mut s = FirstComeFirstServeScheduler::new();
    s.register_process(7, 42);
    s.register_process(3, 0);
    assert_eq!(s.processes.len(), 2);
    let p = &s.processes[1];
    assert_eq!(p.state, ProcessState::Ready);
    assert_eq!(p.remaining_progress, 3);
    assert_eq!(p.time, 0);
    assert_eq!(p.io_threshold, 0);
    assert_eq!(s.processes[0].io_threshold, 42);
}

#[test]
fn io_device_ticks_down_to_idle() {
    let mut d = IODevice::new();
    assert_eq!(d.state, IODeviceState::Idle);
    assert_eq!(d.remaining_progress, 0);
    assert_eq!(d.tick(), (IODeviceState::Idle, IODeviceState::Idle));
    d.start(2);
    assert_eq!(d.state, IODeviceState::Busy);
    assert_eq!(d.remaining_progress, 2);
    assert_eq!(d.tick(), (IODeviceState::Busy, IODeviceState::Busy));
    assert_eq!(d.remaining_progress, 1);
    assert_eq!(d.tick(), (IODeviceState::Busy, IODeviceState::Idle));
    assert_eq!(d.remaining_progress, 0);
    assert_eq!(d.tick(), (IODeviceState::Idle, IODeviceState::Idle));
    assert_eq!(d.remaining_progress, 0);
}

#[test]
fn io_device_started_with_nothing_to_do() {
    let mut d = IODevice::new();
    d.start(0);
    assert_eq!(d.tick(), (IODeviceState::Busy, IODeviceState::Idle));
    assert_eq!(d.remaining_progress, -1);
}

#[test]
fn process_entry_slices() {
    let mut e = SchedulerProcessEntry::new(3, 100);
    assert_eq!(e.state, ProcessState::Ready);
    e.state = ProcessState::Running;
    assert_eq!(e.tick_with_draw(100), ProcessInstruction::Continue);
    assert_eq!((e.remaining_progress, e.time, e.state), (2, 1, ProcessState::Running));
    assert_eq!(e.tick_with_draw(99), ProcessInstruction::IORequest);
    assert_eq!((e.remaining_progress, e.time, e.state), (1, 2, ProcessState::IORequest));
    e.state = ProcessState::Running;
    assert_eq!(e.tick_with_draw(0), ProcessInstruction::Finished);
    assert_eq!((e.remaining_progress, e.time, e.state), (0, 3, ProcessState::Finished));
}

#[test]
fn process_entry_tick_with_generator() {
    let mut rng = StdRng::seed_from_u64(7);
    let mut e = SchedulerProcessEntry::new(2, 0);
    e.state = ProcessState::Running;
    assert_eq!(e.tick(&mut rng), ProcessInstruction::Continue);
    assert_eq!(e.tick(&mut rng), ProcessInstruction::Finished);
    assert_eq!(e.time, 2);
    let mut always = SchedulerProcessEntry::new(2, ALWAYS_IO);
    always.state = ProcessState::Running;
    assert_eq!(always.tick(&mut rng), ProcessInstruction::IORequest);
    assert_eq!(always.state, ProcessState::IORequest);
}

#[test]
fn threshold_matches_float_draw() {
    for &p in &[0.0f32, 0.05, 0.1, 0.2, 0.5, 0.9, 0.999, 1.0, -1.0, 2.0] {
        let mut float_rng = StdRng::seed_from_u64(3);
        let mut int_rng = StdRng::seed_from_u64(3);
        let t = io_threshold(p);
        for _ in 0..2000 {
            let f: f32 = float_rng.gen::<f32>();
            let x: u32 = int_rng.gen::<u32>();
            assert_eq!(f < p, (x as u64) < t);
        }
    }
}

#[test]
fn outcome_rows_and_processes() {
    let all = [
        SchedulerTickOutcome::Idle,
        SchedulerTickOutcome::ProcessResumed(1),
        SchedulerTickOutcome::ProcessContinued(2),
        SchedulerTickOutcome::ProcessFinished(3),
        SchedulerTickOutcome::IORequestHandled(4),
        SchedulerTickOutcome::IOFinished(5),
    ];
    for (row, o) in all.iter().enumerate() {
        assert_eq!(o.row(), row);
        if row == 0 {
            assert_eq!(o.process(), None);
        } else {
            assert_eq!(o.process(), Some(row));
        }
    }
}

#[test]
fn wrapper_queues_every_outcome() {
    let mut scheduler = FirstComeFirstServeScheduler::new();
    scheduler.register_process(2, 0);
    let mut w = SchedulerWrapper::new(scheduler);
    assert!(w.event_queue.is_empty());
    for _ in 0..4 {
        w.tick();
    }
    assert_eq!(
        w.event_queue,
        vec![
            SchedulerTickOutcome::ProcessResumed(0),
            SchedulerTickOutcome::ProcessContinued(0),
            SchedulerTickOutcome::ProcessFinished(0),
            SchedulerTickOutcome::Idle,
        ]
    );
    assert_eq!(w.scheduler.processes[0].state, ProcessState::Finished);
}

#[test]
fn tick_range_check() {
    let mut s = FirstComeFirstServeScheduler::new();
    assert!(s.tick_stays_in_range());
    s.register_process(3, 0);
    assert!(s.tick_stays_in_range());
    s.tick();
    assert!(s.tick_stays_in_range());
    s.processes[0].time = i32::MAX;
    assert!(!s.tick_stays_in_range());
    s.processes[0].time = 0;
    s.io_device.start(i32::MIN);
    assert!(!s.tick_stays_in_range());
}

#[test]
fn finishing_slice_leaves_generator_untouched() {
    let mut rng = StdRng::seed_from_u64(11);
    let before = rng.clone();
    let mut e = SchedulerProcessEntry::new(1, ALWAYS_IO);
    e.state = ProcessState::Running;
    assert_eq!(e.tick(&mut rng), ProcessInstruction::Finished);
    assert!(rng == before);
    let mut longer = SchedulerProcessEntry::new(2, 0);
    longer.state = ProcessState::Running;
    longer.tick(&mut rng);
    assert!(rng != before);
}

#[test]
fn scheduler_tick_without_draw_keeps_generator() {
    let mut s = FirstComeFirstServeScheduler::new();
    s.register_process(1, ALWAYS_IO);
    let before = s.rng.clone();
    assert_eq!(s.tick(), SchedulerTickOutcome::ProcessResumed(0));
    assert_eq!(s.tick(), SchedulerTickOutcome::ProcessFinished(0));
    assert!(s.rng == before);
    s.register_process(3, 0);
    s.tick();
    assert_eq!(s.tick_with_draw(7), SchedulerTickOutcome::ProcessContinued(1));
    assert!(s.rng == before);
}

#[test]
fn take_latest_event_keeps_newest_only() {
    let mut scheduler = FirstComeFirstServeScheduler::new();
    scheduler.register_process(3, 0);
    let mut w = SchedulerWrapper::new(scheduler);
    assert_eq!(w.take_latest_event(), None);
    w.tick();
    w.tick();
    assert_eq!(w.take_latest_event(), Some(SchedulerTickOutcome::ProcessContinued(0)));
    assert!(w.event_queue.is_empty());
    assert_eq!(w.take_latest_event(), None);
}

#[test]
fn io_request_lasts_its_length() {
    for n in 1..6 {
        let mut d = IODevice::new();
        d.start(n);
        for k in 1..=n {
            let expected = if k < n {
                (IODeviceState::Busy, IODeviceState::Busy)
            } else {
                (IODeviceState::Busy, IODeviceState::Idle)
            };
            assert_eq!(d.tick(), expected);
            assert_eq!(d.remaining_progress, n - k);
        }
    }
}

#[test]
fn process_takes_exactly_its_length() {
    let length = 6;
    let mut e = SchedulerProcessEntry::new(length, 0);
    let mut rng = StdRng::seed_from_u64(1);
    for k in 1..=length {
        e.state = ProcessState::Running;
        let instruction = e.tick(&mut rng);
        assert_eq!(e.time, k);
        assert_eq!(e.remaining_progress, length - k);
        assert_eq!(instruction == ProcessInstruction::Finished, k == length);
    }
}

#[test]
fn all_work_done_within_bound() {
    // The processes of the original run: 9 slices of work, so at most
    // 13 * 9 + 10 ticks.
    let lengths = [4, 3, 2];
    let mut scheduler = FirstComeFirstServeScheduler::new();
    scheduler.register_process(lengths[0], io_threshold(0.9));
    scheduler.register_process(lengths[1], io_threshold(0.2));
    scheduler.register_process(lengths[2], io_threshold(0.1));
    for _ in 0..(13 * 9 + 10) {
        scheduler.tick();
    }
    for k in 0..3 {
        assert_eq!(scheduler.processes[k].state, ProcessState::Finished);
        assert_eq!(scheduler.processes[k].time, lengths[k]);
    }
    assert_eq!(scheduler.io_device.state, IODeviceState::Idle);
    assert_eq!(scheduler.tick(), SchedulerTickOutcome::Idle);
}

#[test]
fn worst_case_io_every_slice_within_bound() {
    let mut scheduler = FirstComeFirstServeScheduler::new();
    scheduler.register_process(3, ALWAYS_IO);
    scheduler.register_process(2, ALWAYS_IO);
    let mut ticks = 0;
    while scheduler.processes.iter().any(|p| p.state != ProcessState::Finished) {
        scheduler.tick();
        ticks += 1;
    }
    assert!(ticks <= 13 * 5 + 10);
}

#[test]
fn scheduler_tick_with_draw_moves_generator() {
    let mut s = FirstComeFirstServeScheduler::new();
    s.register_process(3, 0);
    s.tick();
    let before = s.rng.clone();
    assert_eq!(s.tick(), SchedulerTickOutcome::ProcessContinued(0));
    assert!(s.rng != before);
}
