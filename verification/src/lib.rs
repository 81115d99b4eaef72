//! Task accounting and lifecycle bookkeeping for a single-core cooperative
//! kernel: per-task status, per-syscall invocation counts and running-time
//! measurement, together with the scheduler transitions and the syscall
//! entry points that read and update them.
//!
//! The clock and the context switch are supplied by the caller: every entry
//! point that needs the time takes the current microsecond count as `now`,
//! and every entry point that changes the running task reports which task
//! has to be switched to.

pub mod config;
pub mod error;
pub mod manager;
pub mod model;
pub mod syscall;
pub mod task;
pub mod timer;
