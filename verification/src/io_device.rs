use vstd::prelude::*;

verus! {

/// The states in which the IO device can be.
#[derive(PartialEq, Eq, Structural, Copy, Clone, Debug)]
pub enum IODeviceState {
    Idle,
    Busy,
}

/// A single IO device that serves one request at a time.
#[derive(Copy, Clone)]
pub struct IODevice {
    /// The state of the IO device.
    pub state: IODeviceState,
    /// The number of time slices the IO device needs to finish.
    pub remaining_progress: i32,
}

/// The device after one time slice: a busy device makes one slice of progress
/// and becomes idle once no progress is left; an idle device stays as it is.
pub open spec fn io_tick_spec(d: IODevice) -> IODevice {
    if d.state == IODeviceState::Busy {
        let left = d.remaining_progress - 1;
        IODevice {
            state: if left <= 0 { IODeviceState::Idle } else { IODeviceState::Busy },
            remaining_progress: left as i32,
        }
    } else {
        d
    }
}

/// A device can be ticked when the progress counter of a busy device can be
/// decremented without leaving the range of `i32`.
pub open spec fn io_can_tick(d: IODevice) -> bool {
    d.state == IODeviceState::Busy ==> d.remaining_progress > i32::MIN
}

/// The device after a request of `length` slices was handed to it.
pub open spec fn io_start_spec(length: i32) -> IODevice {
    IODevice { state: IODeviceState::Busy, remaining_progress: length }
}

/// The device after `k` time slices.
pub open spec fn io_ticks(d: IODevice, k: nat) -> IODevice
    decreases k,
{
    if k == 0 {
        d
    } else {
        io_tick_spec(io_ticks(d, (k - 1) as nat))
    }
}

/// A request of `n >= 1` slices keeps the device busy for exactly `n` slices:
/// after `k < n` of them it is still busy with `n - k` to go, and after the
/// `n`-th it is idle with nothing left.
pub proof fn lemma_io_request_takes_its_length(n: i32, k: nat)
    requires
        1 <= k <= n,
    ensures
        io_ticks(io_start_spec(n), k) == (IODevice {
            state: if k < n { IODeviceState::Busy } else { IODeviceState::Idle },
            remaining_progress: (n - k) as i32,
        }),
    decreases k,
{
    let d = io_start_spec(n);
    assert(io_ticks(d, 0) == d);
    assert(io_ticks(d, k) == io_tick_spec(io_ticks(d, (k - 1) as nat)));
    if k > 1 {
        lemma_io_request_takes_its_length(n, (k - 1) as nat);
    }
}

/// A request of no slices (`n <= 0`) ends at the first slice.
pub proof fn lemma_io_request_without_length(n: i32)
    requires
        i32::MIN < n <= 0,
    ensures
        io_ticks(io_start_spec(n), 1) == (IODevice {
            state: IODeviceState::Idle,
            remaining_progress: (n - 1) as i32,
        }),
{
    let d = io_start_spec(n);
    assert(io_ticks(d, 0) == d);
    assert(io_ticks(d, 1) == io_tick_spec(io_ticks(d, 0)));
}

impl IODevice {
    /// Creates a new IO device: idle, with no progress left.
    pub fn new() -> (d: Self)
        ensures
            d.state == IODeviceState::Idle,
            d.remaining_progress == 0,
    {
        Self { state: IODeviceState::Idle, remaining_progress: 0 }
    }

    /// Ticks the IO device. This should be called once per time slice.
    /// Returns the old and new state of the IO device.
    pub fn tick(&mut self) -> (states: (IODeviceState, IODeviceState))
        requires
            io_can_tick(*old(self)),
        ensures
            *final(self) == io_tick_spec(*old(self)),
            states == (old(self).state, final(self).state),
            old(self).state == IODeviceState::Idle ==> *final(self) == *old(self),
            states != (IODeviceState::Idle, IODeviceState::Busy),
    {
        let old_state = self.state;
        if self.state == IODeviceState::Busy {
            self.remaining_progress = self.remaining_progress - 1;
            if self.remaining_progress <= 0 {
                self.state = IODeviceState::Idle;
            }
        }
        (old_state, self.state)
    }

    /// Starts the IO device. This should be called when a process requests IO.
    pub fn start(&mut self, length: i32)
        ensures
            *final(self) == io_start_spec(length),
    {
        self.state = IODeviceState::Busy;
        self.remaining_progress = length;
    }
}

} // verus!
