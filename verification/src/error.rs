//! The ways in which a kernel operation fails.

use vstd::prelude::*;

verus! {

/// Why a kernel operation did nothing, or could not go on.
#[derive(Debug, Clone, Copy, PartialEq, Eq, Structural)]
pub enum KernelError {
    /// The state is not one that the operation can start from: no task is
    /// running where one must be, or a loaded task is loaded again.
    InternalInvariantViolation,
    /// The task id names no record of the store.
    UnknownTask,
    /// No task is left to run: the system halts.
    NoReadyTasks,
    /// The syscall id names none of the kernel's entry points.
    UnsupportedSyscall,
}

} // verus!
