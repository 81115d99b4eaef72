//! Constants shared by the task store and the syscall surface.

use vstd::prelude::*;

verus! {

/// Number of slots in every per-task syscall counter table; syscall ids are
/// the indices `0..MAX_SYSCALL_NUM`.
pub const MAX_SYSCALL_NUM: usize = 500;

/// Microseconds in one second.
pub const MICRO_PER_SEC: usize = 1_000_000;

/// Syscall id of `exit`.
pub const SYSCALL_EXIT: usize = 93;

/// Syscall id of `yield`.
pub const SYSCALL_YIELD: usize = 124;

/// Syscall id of `get_time`.
pub const SYSCALL_GET_TIME: usize = 169;

/// Syscall id of `task_info`.
pub const SYSCALL_TASK_INFO: usize = 410;

} // verus!
