//! A simulator of process scheduling on a single CPU with a single IO device.
//!
//! Processes are registered with a scheduler, which is then ticked once per
//! time slice. Every tick either finishes an IO operation, hands a pending IO
//! request to the device, runs the running process for one slice, starts a
//! ready process, or does nothing.

pub mod io_device;
pub mod process;
mod random;
pub mod scheduler;
pub mod laws;
pub mod progress;
pub mod wrapper;
