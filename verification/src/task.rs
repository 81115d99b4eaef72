//! The task control block: status, syscall counters and timing of one task,
//! and the mathematical model that the contracts of the kernel speak of.

use vstd::prelude::*;
use crate::config::MAX_SYSCALL_NUM;

verus! {

/// Where a task stands in its life cycle.
#[derive(Debug, Clone, Copy, PartialEq, Eq, Structural)]
pub enum TaskStatus {
    /// The record exists, no task image has been loaded for it.
    UnInit,
    /// Waiting in the ready queue.
    Ready,
    /// Holding the processor.
    Running,
    /// Finished; never scheduled again.
    Exited,
}

/// What the `time` of a task's snapshot measures.
#[derive(Debug, Clone, Copy, PartialEq, Eq, Structural)]
pub enum TimePolicy {
    /// The time that the task spent running: the waiting in between is left
    /// out.
    RunningOnly,
    /// The wall-clock time since the task was first scheduled.
    SinceFirstScheduled,
}

/// How often `s` occurs in a log of issued syscall ids.
pub open spec fn occurrences(log: Seq<usize>, s: usize) -> nat
    decreases log.len(),
{
    if log.len() == 0 {
        0
    } else {
        occurrences(log.drop_last(), s) + if log.last() == s {
            1nat
        } else {
            0nat
        }
    }
}

/// Appending one id to a log raises the number of its occurrences by one and
/// leaves that of every other id as it was.
pub proof fn lemma_occurrences_push(log: Seq<usize>, issued: usize, s: usize)
    ensures
        occurrences(log.push(issued), s) == occurrences(log, s) + if issued == s {
            1nat
        } else {
            0nat
        },
{
    assert(log.push(issued).drop_last() =~= log);
}

/// The mathematical model of one task control block.
pub struct TaskModel {
    /// Life-cycle status.
    pub status: TaskStatus,
    /// Counter table, one entry per syscall id.
    pub counts: Seq<u32>,
    /// Clock value at which the task first became `Running`, if it ever did.
    pub first_scheduled_at: Option<usize>,
    /// Sum of the lengths of all closed running intervals, in microseconds.
    pub total_running_time: nat,
    /// Every syscall id dispatched for the task, oldest first.
    pub issued: Seq<usize>,
}

impl TaskModel {
    /// A record for which nothing has happened yet.
    pub open spec fn fresh() -> TaskModel {
        TaskModel {
            status: TaskStatus::UnInit,
            counts: Seq::new(MAX_SYSCALL_NUM as nat, |i: int| 0u32),
            first_scheduled_at: None,
            total_running_time: 0,
            issued: Seq::empty(),
        }
    }

    /// The invariant of a record: every counter equals the number of times
    /// its syscall was dispatched for the task, and a task that was never
    /// scheduled has accrued no running time and is neither running nor
    /// exited.
    pub open spec fn wf(self) -> bool {
        &&& self.counts.len() == MAX_SYSCALL_NUM
        &&& forall|k: int| 0 <= k < self.issued.len() ==> #[trigger] self.issued[k] < MAX_SYSCALL_NUM
        &&& forall|s: usize|
            s < MAX_SYSCALL_NUM ==> self.counts[s as int] == #[trigger] occurrences(self.issued, s)
        &&& self.first_scheduled_at is None ==> {
            &&& self.total_running_time == 0
            &&& (self.status is UnInit || self.status is Ready)
        }
        &&& self.status is UnInit ==> self.first_scheduled_at is None
    }

    /// The record after one more dispatch of syscall `s`.
    pub open spec fn counted(self, s: usize) -> TaskModel {
        TaskModel {
            counts: self.counts.update(s as int, (self.counts[s as int] + 1) as u32),
            issued: self.issued.push(s),
            ..self
        }
    }

    /// The record after its task image was loaded.
    pub open spec fn loaded(self) -> TaskModel {
        TaskModel { status: TaskStatus::Ready, ..self }
    }

    /// The record after the task was given the processor at time `now`.
    pub open spec fn started(self, now: usize) -> TaskModel {
        TaskModel {
            status: TaskStatus::Running,
            first_scheduled_at: Some(
                match self.first_scheduled_at {
                    Some(t) => t,
                    None => now,
                },
            ),
            ..self
        }
    }

    /// The record after the task left the processor, having held it for
    /// `elapsed` microseconds, and took the status `status`.
    pub open spec fn stopped(self, elapsed: nat, status: TaskStatus) -> TaskModel {
        TaskModel { status, total_running_time: self.total_running_time + elapsed, ..self }
    }

    /// What one record may become over any number of kernel operations: a
    /// first scheduling time that is set stays as it is, running time and the
    /// dispatch log only grow, and an exited task stays exited.
    pub open spec fn extends(self, prev: TaskModel) -> bool {
        &&& prev.first_scheduled_at is Some ==> self.first_scheduled_at == prev.first_scheduled_at
        &&& prev.total_running_time <= self.total_running_time
        &&& prev.issued.is_prefix_of(self.issued)
        &&& prev.status is Exited ==> self.status is Exited
        &&& !(prev.status is UnInit) ==> !(self.status is UnInit)
    }
}

/// Counting a dispatch in a well-formed record whose counter has room keeps
/// the record well formed: the counter still equals the number of dispatches.
pub proof fn lemma_counted_record(t: TaskModel, s: usize)
    requires
        t.wf(),
        s < MAX_SYSCALL_NUM,
        t.counts[s as int] < u32::MAX,
    ensures
        t.counted(s).wf(),
        t.counted(s).extends(t),
        t.counted(s).counts[s as int] == t.counts[s as int] + 1,
        forall|other: usize|
            other < MAX_SYSCALL_NUM && other != s ==> #[trigger] t.counted(s).counts[other as int]
                == t.counts[other as int],
{
    let n = t.counted(s);
    assert forall|x: usize| x < MAX_SYSCALL_NUM implies n.counts[x as int] == #[trigger] occurrences(
        n.issued,
        x,
    ) by {
        lemma_occurrences_push(t.issued, s, x);
        assert(t.counts[x as int] == occurrences(t.issued, x));
    }
}

/// The snapshot of a task that `task_info` hands to user code.
#[derive(Copy, Clone, Debug)]
pub struct TaskInfo {
    /// Task status in its life cycle
    pub status: TaskStatus,
    /// The numbers of syscall called by task
    pub syscall_times: [u32; MAX_SYSCALL_NUM],
    /// First running time of task
    pub start_time: usize,
    /// Total running time of task: the time it spent running, not the time
    /// that passed since it started
    pub time: usize,
}

impl TaskInfo {
    /// Create a new TaskInfo
    pub fn new() -> (info: Self)
        ensures
            info.status == TaskStatus::UnInit,
            info.syscall_times@ == Seq::new(MAX_SYSCALL_NUM as nat, |i: int| 0u32),
            info.start_time == 0,
            info.time == 0,
    {
        let info = TaskInfo {
            status: TaskStatus::UnInit,
            syscall_times: [0; MAX_SYSCALL_NUM],
            start_time: 0,
            time: 0,
        };
        assert(info.syscall_times@ =~= Seq::new(MAX_SYSCALL_NUM as nat, |i: int| 0u32));
        info
    }
}

/// One task's record: status, syscall counters and timing.
pub struct TaskControlBlock {
    status: TaskStatus,
    syscall_counts: [u32; MAX_SYSCALL_NUM],
    first_scheduled_at: Option<usize>,
    total_running_time: usize,
    issued: Ghost<Seq<usize>>,
}

impl View for TaskControlBlock {
    type V = TaskModel;

    closed spec fn view(&self) -> TaskModel {
        TaskModel {
            status: self.status,
            counts: self.syscall_counts@,
            first_scheduled_at: self.first_scheduled_at,
            total_running_time: self.total_running_time as nat,
            issued: self.issued@,
        }
    }
}

impl TaskControlBlock {
    /// A record with status `UnInit`, all counters zero, never scheduled.
    pub fn new() -> (tcb: Self)
        ensures
            tcb@ == TaskModel::fresh(),
            tcb@.wf(),
    {
        let tcb = TaskControlBlock {
            status: TaskStatus::UnInit,
            syscall_counts: [0; MAX_SYSCALL_NUM],
            first_scheduled_at: None,
            total_running_time: 0,
            issued: Ghost(Seq::empty()),
        };
        assert(tcb@.counts =~= TaskModel::fresh().counts);
        tcb
    }

    /// The task's status.
    pub fn status(&self) -> (status: TaskStatus)
        ensures
            status == self@.status,
    {
        self.status
    }

    /// How often syscall `syscall_id` was dispatched for the task.
    pub fn syscall_count(&self, syscall_id: usize) -> (count: u32)
        requires
            syscall_id < MAX_SYSCALL_NUM,
        ensures
            count == self@.counts[syscall_id as int],
            self@.wf() ==> count == occurrences(self@.issued, syscall_id),
    {
        self.syscall_counts[syscall_id]
    }

    /// A copy of the whole counter table.
    pub fn syscall_counts(&self) -> (counts: [u32; MAX_SYSCALL_NUM])
        ensures
            counts@ == self@.counts,
    {
        self.syscall_counts
    }

    /// The clock value at which the task first became `Running`.
    pub fn first_scheduled_at(&self) -> (at: Option<usize>)
        ensures
            at == self@.first_scheduled_at,
    {
        self.first_scheduled_at
    }

    /// The sum of the task's closed running intervals, in microseconds.
    pub fn total_running_time(&self) -> (total: usize)
        ensures
            total == self@.total_running_time,
    {
        self.total_running_time
    }

    /// Counts one more dispatch of syscall `syscall_id`.
    pub(crate) fn count(&mut self, syscall_id: usize)
        requires
            old(self)@.wf(),
            syscall_id < MAX_SYSCALL_NUM,
            old(self)@.counts[syscall_id as int] < u32::MAX,
        ensures
            final(self)@ == old(self)@.counted(syscall_id),
            final(self)@.wf(),
    {
        let seen: u32 = self.syscall_counts[syscall_id];
        self.syscall_counts[syscall_id] = seen + 1;
        proof {
            self.issued@ = self.issued@.push(syscall_id);
            assert(self@.counts =~= old(self)@.counted(syscall_id).counts);
            lemma_counted_record(old(self)@, syscall_id);
        }
    }

    /// Marks the task ready to run.
    pub(crate) fn make_ready(&mut self)
        ensures
            final(self)@ == old(self)@.loaded(),
    {
        self.status = TaskStatus::Ready;
    }

    /// Gives the task the processor at time `now`.
    pub(crate) fn start(&mut self, now: usize)
        ensures
            final(self)@ == old(self)@.started(now),
    {
        self.status = TaskStatus::Running;
        if self.first_scheduled_at.is_none() {
            self.first_scheduled_at = Some(now);
        }
    }

    /// Closes a running interval of `elapsed` microseconds and leaves the
    /// task with the status `status`.
    pub(crate) fn stop(&mut self, elapsed: usize, status: TaskStatus)
        requires
            old(self)@.total_running_time + elapsed <= usize::MAX,
        ensures
            final(self)@ == old(self)@.stopped(elapsed as nat, status),
    {
        self.status = status;
        self.total_running_time = self.total_running_time + elapsed;
    }
}

} // verus!
