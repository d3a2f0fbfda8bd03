# process_scheduler

A simulation of first-come-first-serve process scheduling on one CPU with one
IO device, verified with Verus.

- `src/io_device.rs`: the IO device, which serves one request at a time.
- `src/process.rs`: process states and the process table entry; one time
  slice of a running process, with the random number that decides whether it
  requests IO given as an argument (`tick_with_draw`) or drawn (`tick`).
- `src/scheduler.rs`: tick outcomes, the `Scheduler` trait, and the
  first-come-first-serve scheduler. `tick_spec` states a whole tick over the
  model `SchedulerState`; `scheduler_wf` is what every reachable scheduler
  keeps.
- `src/laws.rs`: the properties that span ticks: the invariant is kept, a
  well-formed scheduler can always be ticked, a tick changes at most the one
  process it reports, work is conserved, the scheduler does not preempt, and a
  scheduler whose processes have all finished stays idle.
- `src/progress.rs`: every well-formed scheduler finishes all its work within
  a bound of ticks (at most 13 per slice of work left, plus what remains of
  the current IO request), whatever the random draws.
- `src/wrapper.rs`: a scheduler together with the queue of its outcomes.
- `src/random.rs`: the calls into `rand`.
- `app/`: the egui front end (windows, the ticking thread, and the
  conversion of IO probabilities into thresholds, which is floating point).

A process with IO probability `p` requests IO when a 32-bit draw `x` is below
its threshold `256 * ceil(p * 2^24)`; this is exactly when rand's `f32` draw
`(x >> 8) * 2^-24` is below `p`, so the threshold form decides as the float
form does, draw for draw. This follows from rand 0.8's `Standard` float
distribution (`rand/src/distributions/float.rs`), which builds an `f32` from
the top 24 bits of one `next_u32`; the test `threshold_matches_float_draw`
compares both forms on the same stream of draws.
