//! The syscall dispatch surface: counts every dispatched syscall for the
//! current task and hands it to its entry point.

use vstd::prelude::*;
use crate::config::{
    MAX_SYSCALL_NUM, SYSCALL_EXIT, SYSCALL_GET_TIME, SYSCALL_TASK_INFO, SYSCALL_YIELD,
};
use crate::error::KernelError;
use crate::manager::TaskManager;
use crate::model::{
    lemma_counted, lemma_dispatched, lemma_extends_reflexive, lemma_extends_transitive,
    lemma_stopped, KernelModel,
};
use crate::syscall::process::{sys_exit, sys_get_time, sys_task_info, sys_yield};
use crate::task::{lemma_counted_record, TaskInfo, TaskStatus};
use crate::timer::TimeVal;

pub mod process;

verus! {

/// What a dispatched syscall leaves for the trap boundary to deliver.
#[derive(Debug, Clone, Copy)]
pub enum SyscallReply {
    /// `exit`: nothing returns to the caller; the task `next` runs.
    Exited { next: usize },
    /// `yield`: the task `next` runs; the caller gets `ret` when it resumes.
    Yielded { ret: isize, next: usize },
    /// `get_time`: the caller gets `ret`, and `time` in its buffer.
    Time { ret: isize, time: TimeVal },
    /// `task_info`: the caller gets `ret`, and `info` in its buffer.
    Info { ret: isize, info: TaskInfo },
}

/// Whether `syscall_id` names one of the kernel's entry points.
pub open spec fn supported(syscall_id: usize) -> bool {
    ||| syscall_id == SYSCALL_EXIT
    ||| syscall_id == SYSCALL_YIELD
    ||| syscall_id == SYSCALL_GET_TIME
    ||| syscall_id == SYSCALL_TASK_INFO
}

/// Whether the current task's counter of `syscall_id` can take one more
/// dispatch: the counters are 32 bits wide.
pub open spec fn has_room(m: KernelModel, syscall_id: usize) -> bool {
    m.current is Some ==> m.tasks[m.current.unwrap() as int].counts[syscall_id as int] < u32::MAX
}

/// The state in which the entry point of a dispatched syscall starts: the
/// state at the trap with the dispatch counted for the current task.
pub open spec fn entered(m: KernelModel, syscall_id: usize) -> KernelModel {
    m.counted(m.current.unwrap(), syscall_id)
}

/// The state that a dispatched syscall leaves behind.
pub open spec fn handled(m: KernelModel, now: usize, syscall_id: usize) -> KernelModel {
    let at_entry = entered(m, syscall_id);
    if syscall_id == SYSCALL_EXIT {
        if m.ready.len() > 0 {
            at_entry.retired(now).dispatched(now)
        } else {
            at_entry.retired(now)
        }
    } else if syscall_id == SYSCALL_YIELD {
        at_entry.scheduled(now)
    } else {
        at_entry
    }
}

/// Every dispatch is counted exactly once, for the task that issued it and
/// under its own syscall id: that task's log grows by the id and its counter
/// of the id by one, while every other counter of every task stays as it was.
/// The state that the syscall leaves behind is well formed and extends the
/// state at the trap.
pub proof fn lemma_dispatch_is_counted(
    m: KernelModel,
    now: usize,
    syscall_id: usize,
    id: usize,
    s: usize,
)
    requires
        m.wf(),
        m.interval_start <= now,
        m.current is Some,
        supported(syscall_id),
        has_room(m, syscall_id),
        m.known(id),
        s < MAX_SYSCALL_NUM,
    ensures
        handled(m, now, syscall_id).wf(),
        handled(m, now, syscall_id).extends(m),
        handled(m, now, syscall_id).tasks[id as int].issued == (if m.current == Some(id) {
            m.tasks[id as int].issued.push(syscall_id)
        } else {
            m.tasks[id as int].issued
        }),
        handled(m, now, syscall_id).tasks[id as int].counts[s as int] == m.tasks[id as int].counts[s as int]
            + (if m.current == Some(id) && s == syscall_id {
            1int
        } else {
            0int
        }),
{
    let c = m.current.unwrap();
    let at_entry = entered(m, syscall_id);
    lemma_counted(m, c, syscall_id);
    lemma_counted_record(m.tasks[c as int], syscall_id);
    if syscall_id == SYSCALL_EXIT {
        lemma_stopped(at_entry, now, TaskStatus::Exited);
        let mid = at_entry.retired(now);
        lemma_extends_transitive(m, at_entry, mid);
        if m.ready.len() > 0 {
            lemma_dispatched(mid, now);
            assert(mid.known(mid.ready[0]));
            lemma_extends_transitive(m, mid, mid.dispatched(now));
        }
    } else if syscall_id == SYSCALL_YIELD {
        lemma_stopped(at_entry, now, TaskStatus::Ready);
        let mid = at_entry.suspended(now);
        lemma_dispatched(mid, now);
        assert(mid.known(mid.ready[0]));
        lemma_extends_transitive(m, at_entry, mid);
        lemma_extends_transitive(m, mid, mid.dispatched(now));
    }
}

/// Dispatches syscall `syscall_id`, issued by the current task at clock value
/// `now` with the arguments `args`.
///
/// Where the id names an entry point and a task is running, the dispatch is
/// first counted in that task's counter table, whichever entry point it is,
/// and the entry point runs after that: the snapshot of `task_info` holds
/// its own dispatch. Fails with `UnsupportedSyscall` where the id names no
/// entry point and with `InternalInvariantViolation` where no task is running;
/// nothing has changed after either. Fails with `NoReadyTasks` where the
/// current task exited and no task is left to run.
pub fn syscall(mgr: &mut TaskManager, now: usize, syscall_id: usize, args: [usize; 3]) -> (r:
    Result<SyscallReply, KernelError>)
    requires
        old(mgr)@.wf(),
        old(mgr)@.interval_start <= now,
        supported(syscall_id) ==> has_room(old(mgr)@, syscall_id),
    ensures
        final(mgr)@.wf(),
        final(mgr)@.extends(old(mgr)@),
        match r {
            Ok(reply) => {
                &&& supported(syscall_id)
                &&& old(mgr)@.current is Some
                &&& final(mgr)@ == handled(old(mgr)@, now, syscall_id)
                &&& match reply {
                    SyscallReply::Exited { next } => {
                        &&& syscall_id == SYSCALL_EXIT
                        &&& old(mgr)@.ready.len() > 0
                        &&& next == old(mgr)@.ready[0]
                    },
                    SyscallReply::Yielded { ret, next } => {
                        &&& syscall_id == SYSCALL_YIELD
                        &&& ret == 0
                        &&& final(mgr)@.current == Some(next)
                    },
                    SyscallReply::Time { ret, time } => {
                        &&& syscall_id == SYSCALL_GET_TIME
                        &&& ret == 0
                        &&& time == TimeVal::of_micros(now)
                    },
                    SyscallReply::Info { ret, info } => {
                        &&& syscall_id == SYSCALL_TASK_INFO
                        &&& ret == 0
                        &&& info.status == TaskStatus::Running
                        &&& snapshot_of(info, entered(old(mgr)@, syscall_id), now)
                    },
                }
            },
            Err(KernelError::NoReadyTasks) => {
                &&& syscall_id == SYSCALL_EXIT
                &&& old(mgr)@.current is Some
                &&& old(mgr)@.ready.len() == 0
                &&& final(mgr)@ == handled(old(mgr)@, now, syscall_id)
            },
            Err(KernelError::UnsupportedSyscall) => {
                &&& !supported(syscall_id)
                &&& final(mgr)@ == old(mgr)@
            },
            Err(e) => {
                &&& e == KernelError::InternalInvariantViolation
                &&& supported(syscall_id)
                &&& old(mgr)@.current is None
                &&& final(mgr)@ == old(mgr)@
            },
        },
{
    proof {
        lemma_extends_reflexive(mgr@);
    }
    if !(syscall_id == SYSCALL_EXIT || syscall_id == SYSCALL_YIELD || syscall_id
        == SYSCALL_GET_TIME || syscall_id == SYSCALL_TASK_INFO) {
        return Err(KernelError::UnsupportedSyscall);
    }
    let current = match mgr.current_task_id() {
        Ok(id) => id,
        Err(e) => {
            return Err(e);
        },
    };
    mgr.increment_syscall_count(current, syscall_id);
    let ghost at_entry = mgr@;
    let r = if syscall_id == SYSCALL_EXIT {
        match sys_exit(mgr, now, exit_code_of(args[0])) {
            Ok(next) => Ok(SyscallReply::Exited { next }),
            Err(e) => Err(e),
        }
    } else if syscall_id == SYSCALL_YIELD {
        match sys_yield(mgr, now) {
            Ok((ret, next)) => Ok(SyscallReply::Yielded { ret, next }),
            Err(e) => Err(e),
        }
    } else if syscall_id == SYSCALL_GET_TIME {
        let mut time = TimeVal { sec: 0, usec: 0 };
        let ret = sys_get_time(now, &mut time, args[1]);
        Ok(SyscallReply::Time { ret, time })
    } else {
        let mut info = TaskInfo::new();
        match sys_task_info(mgr, now, &mut info) {
            Ok(ret) => Ok(SyscallReply::Info { ret, info }),
            Err(e) => Err(e),
        }
    };
    proof {
        lemma_extends_transitive(old(mgr)@, at_entry, mgr@);
    }
    r
}

/// The exit code that a task hands over in a machine word: its low 32 bits,
/// read as a signed number.
pub fn exit_code_of(word: usize) -> (code: i32)
    ensures
        code == word as i32,
{
    #[verifier::truncate]
    (word as i32)
}

/// Whether `info` is the snapshot at `now` of the current task of `m`.
pub open spec fn snapshot_of(info: TaskInfo, m: KernelModel, now: usize) -> bool {
    let t = m.tasks[m.current.unwrap() as int];
    &&& info.status == t.status
    &&& info.syscall_times@ == t.counts
    &&& Some(info.start_time) == t.first_scheduled_at
    &&& info.time == m.reported_time(now)
}

} // verus!
