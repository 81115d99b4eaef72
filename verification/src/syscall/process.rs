//! Process management syscalls

use vstd::prelude::*;
use crate::error::KernelError;
use crate::manager::TaskManager;
use crate::syscall::snapshot_of;
use crate::task::{TaskInfo, TaskStatus};
use crate::timer::TimeVal;

verus! {

/// task exits and submit an exit code
///
/// The current task becomes `Exited` at clock value `now`, with its last
/// running interval closed, and the next ready task runs: its id is
/// returned, for nothing returns to the task that exited. Fails with
/// `NoReadyTasks` where the exited task was the last that could run, which
/// halts the system, and with `InternalInvariantViolation`, changing nothing,
/// where no task is running.
pub fn sys_exit(mgr: &mut TaskManager, now: usize, exit_code: i32) -> (r: Result<
    usize,
    KernelError,
>)
    requires
        old(mgr)@.wf(),
        old(mgr)@.interval_start <= now,
    ensures
        match r {
            Ok(next) => {
                &&& old(mgr)@.current is Some
                &&& old(mgr)@.ready.len() > 0
                &&& next == old(mgr)@.ready[0]
                &&& final(mgr)@ == old(mgr)@.retired(now).dispatched(now)
            },
            Err(KernelError::NoReadyTasks) => {
                &&& old(mgr)@.current is Some
                &&& old(mgr)@.ready.len() == 0
                &&& final(mgr)@ == old(mgr)@.retired(now)
            },
            Err(e) => {
                &&& e == KernelError::InternalInvariantViolation
                &&& old(mgr)@.current is None
                &&& final(mgr)@ == old(mgr)@
            },
        },
        final(mgr)@.wf(),
        final(mgr)@.extends(old(mgr)@),
{
    mgr.exit_current_and_run_next(now)
}

/// current task gives up resources for other tasks
///
/// The current task goes to the back of the ready queue at clock value
/// `now` and the task at the front runs. Returns `0`, which the task gets
/// when it resumes, and the id of the task to switch to. Fails with
/// `InternalInvariantViolation`, changing nothing, where no task is running.
pub fn sys_yield(mgr: &mut TaskManager, now: usize) -> (r: Result<(isize, usize), KernelError>)
    requires
        old(mgr)@.wf(),
        old(mgr)@.interval_start <= now,
    ensures
        match r {
            Ok((ret, next)) => {
                &&& ret == 0
                &&& old(mgr)@.current is Some
                &&& final(mgr)@ == old(mgr)@.scheduled(now)
                &&& next == old(mgr)@.suspended(now).ready[0]
                &&& final(mgr)@.current == Some(next)
            },
            Err(e) => {
                &&& e == KernelError::InternalInvariantViolation
                &&& old(mgr)@.current is None
                &&& final(mgr)@ == old(mgr)@
            },
        },
        final(mgr)@.wf(),
        final(mgr)@.extends(old(mgr)@),
{
    match mgr.suspend_current_and_run_next(now) {
        Ok(next) => Ok((0, next)),
        Err(e) => Err(e),
    }
}

/// get time with second and microsecond
///
/// Writes the clock sample `us`, a raw microsecond count, to `ts` as whole
/// seconds and remaining microseconds, and returns `0`.
pub fn sys_get_time(us: usize, ts: &mut TimeVal, _tz: usize) -> (ret: isize)
    ensures
        ret == 0,
        *final(ts) == TimeVal::of_micros(us),
        final(ts).sec == us / 1_000_000,
        final(ts).usec == us % 1_000_000,
        final(ts).micros() == us,
{
    *ts = TimeVal::from_micros(us);
    0
}

/// Writes the snapshot of the current task at clock value `now` to `ti` and
/// returns `0`: the task's status, its counter table, the time it was first
/// scheduled, and its `time` up to `now` as the time policy measures it:
/// the time it has spent running, unless the policy was changed. Fails with
/// `InternalInvariantViolation`, leaving `ti` as it was, where no task is
/// running.
pub fn sys_task_info(mgr: &TaskManager, now: usize, ti: &mut TaskInfo) -> (r: Result<
    isize,
    KernelError,
>)
    requires
        mgr@.wf(),
        mgr@.interval_start <= now,
    ensures
        match r {
            Ok(ret) => {
                &&& ret == 0
                &&& mgr@.current is Some
                &&& final(ti).status == TaskStatus::Running
                &&& snapshot_of(*final(ti), mgr@, now)
            },
            Err(e) => {
                &&& e == KernelError::InternalInvariantViolation
                &&& mgr@.current is None
                &&& *final(ti) == *old(ti)
            },
        },
{
    match mgr.fetch_current_task_info(now) {
        Ok(info) => {
            *ti = info;
            Ok(0)
        },
        Err(e) => Err(e),
    }
}

} // verus!
