//! The task store and the scheduler: one record per task, the ready queue,
//! and the bookkeeping of every switch.

use std::collections::VecDeque;
use vstd::prelude::*;
use crate::config::MAX_SYSCALL_NUM;
use crate::error::KernelError;
use crate::model::{
    lemma_boot_wf, lemma_counted, lemma_dispatched, lemma_extends_reflexive,
    lemma_extends_transitive, lemma_loaded, lemma_running_total_covers, lemma_stopped,
    KernelModel,
};
use crate::task::{TaskControlBlock, TaskInfo, TaskModel, TaskStatus, TimePolicy};

verus! {

/// The kernel's task state: the records of all tasks, the queue of those
/// that wait for the processor, and which task holds it since when.
pub struct TaskManager {
    tasks: Vec<TaskControlBlock>,
    ready: VecDeque<usize>,
    current: Option<usize>,
    interval_start: usize,
    policy: TimePolicy,
}

impl View for TaskManager {
    type V = KernelModel;

    closed spec fn view(&self) -> KernelModel {
        KernelModel {
            tasks: Seq::new(self.tasks@.len(), |i: int| self.tasks@[i]@),
            ready: self.ready@,
            current: self.current,
            interval_start: self.interval_start,
            policy: self.policy,
        }
    }
}

impl TaskManager {
    /// A store of `num_tasks` uninitialized records, with nothing ready and
    /// nothing running, at clock value zero; snapshots report running time
    /// only.
    pub fn new(num_tasks: usize) -> (mgr: Self)
        ensures
            mgr@ == KernelModel::boot(num_tasks as nat),
            mgr@.wf(),
    {
        let mut tasks: Vec<TaskControlBlock> = Vec::new();
        let mut made: usize = 0;
        while made < num_tasks
            invariant
                made <= num_tasks,
                tasks@.len() == made,
                forall|i: int| 0 <= i < made ==> (#[trigger] tasks@[i])@ == TaskModel::fresh(),
            decreases num_tasks - made,
        {
            tasks.push(TaskControlBlock::new());
            made = made + 1;
        }
        let mgr = TaskManager {
            tasks,
            ready: VecDeque::new(),
            current: None,
            interval_start: 0,
            policy: TimePolicy::RunningOnly,
        };
        proof {
            assert(mgr@.tasks =~= KernelModel::boot(num_tasks as nat).tasks);
            assert(mgr@.ready =~= KernelModel::boot(num_tasks as nat).ready);
            lemma_boot_wf(num_tasks as nat);
        }
        mgr
    }

    /// The number of records in the store.
    pub fn num_tasks(&self) -> (n: usize)
        ensures
            n == self@.tasks.len(),
    {
        self.tasks.len()
    }

    /// The clock value of the latest scheduling event.
    pub fn interval_start(&self) -> (at: usize)
        ensures
            at == self@.interval_start,
    {
        self.interval_start
    }

    /// What the `time` of a snapshot measures.
    pub fn time_policy(&self) -> (policy: TimePolicy)
        ensures
            policy == self@.policy,
    {
        self.policy
    }

    /// Chooses what the `time` of a snapshot measures; nothing else changes.
    pub fn set_time_policy(&mut self, policy: TimePolicy)
        ensures
            final(self)@ == old(self)@.measured_by(policy),
            old(self)@.wf() ==> final(self)@.wf(),
            final(self)@.extends(old(self)@),
    {
        self.policy = policy;
        proof {
            assert(self@.tasks =~= old(self)@.tasks);
        }
    }

    /// The number of tasks that wait for the processor.
    pub fn num_ready(&self) -> (n: usize)
        ensures
            n == self@.ready.len(),
    {
        self.ready.len()
    }

    /// The id of the task that holds the processor. Fails with
    /// `InternalInvariantViolation` where no task is running.
    pub fn current_task_id(&self) -> (r: Result<usize, KernelError>)
        requires
            self@.wf(),
        ensures
            match r {
                Ok(id) => {
                    &&& self@.current == Some(id)
                    &&& self@.known(id)
                    &&& self@.tasks[id as int].status is Running
                },
                Err(e) => {
                    &&& e == KernelError::InternalInvariantViolation
                    &&& self@.current is None
                    &&& forall|i: usize|
                        self@.known(i) ==> !((#[trigger] self@.tasks[i as int]).status is Running)
                },
            },
    {
        match self.current {
            Some(id) => Ok(id),
            None => Err(KernelError::InternalInvariantViolation),
        }
    }

    /// The record of task `id`. Fails with `UnknownTask` where the store has
    /// no such record.
    pub fn record_for(&self, id: usize) -> (r: Result<&TaskControlBlock, KernelError>)
        ensures
            match r {
                Ok(tcb) => self@.known(id) && tcb@ == self@.tasks[id as int],
                Err(e) => e == KernelError::UnknownTask && !self@.known(id),
            },
    {
        if id < self.tasks.len() {
            Ok(&self.tasks[id])
        } else {
            Err(KernelError::UnknownTask)
        }
    }

    /// Counts one dispatch of syscall `syscall_id` for task `id`. Where the
    /// store has no such task or the table no such syscall, nothing changes.
    pub fn increment_syscall_count(&mut self, id: usize, syscall_id: usize)
        requires
            old(self)@.wf(),
            old(self)@.known(id) && syscall_id < MAX_SYSCALL_NUM ==> old(self)@.tasks[id as int].counts[syscall_id as int]
                < u32::MAX,
        ensures
            final(self)@ == (if old(self)@.known(id) && syscall_id < MAX_SYSCALL_NUM {
                old(self)@.counted(id, syscall_id)
            } else {
                old(self)@
            }),
            final(self)@.wf(),
            final(self)@.extends(old(self)@),
    {
        if id < self.tasks.len() && syscall_id < MAX_SYSCALL_NUM {
            self.tasks[id].count(syscall_id);
            proof {
                assert(self@.tasks =~= old(self)@.counted(id, syscall_id).tasks);
                lemma_counted(old(self)@, id, syscall_id);
            }
        } else {
            proof {
                lemma_extends_reflexive(self@);
            }
        }
    }

    /// Loads task `id`: an uninitialized task becomes `Ready` and joins the
    /// back of the ready queue. Fails with `UnknownTask` where the store has
    /// no such record, and with `InternalInvariantViolation` where the task
    /// is not uninitialized; nothing has changed then.
    pub fn mark_ready(&mut self, id: usize) -> (r: Result<(), KernelError>)
        requires
            old(self)@.wf(),
        ensures
            match r {
                Ok(_) => {
                    &&& old(self)@.known(id)
                    &&& old(self)@.tasks[id as int].status is UnInit
                    &&& final(self)@ == old(self)@.loaded(id)
                },
                Err(e) => {
                    &&& final(self)@ == old(self)@
                    &&& e == (if old(self)@.known(id) {
                        KernelError::InternalInvariantViolation
                    } else {
                        KernelError::UnknownTask
                    })
                    &&& old(self)@.known(id) ==> !(old(self)@.tasks[id as int].status is UnInit)
                },
            },
            final(self)@.wf(),
            final(self)@.extends(old(self)@),
    {
        if id >= self.tasks.len() {
            proof {
                lemma_extends_reflexive(self@);
            }
            return Err(KernelError::UnknownTask);
        }
        if self.tasks[id].status() != TaskStatus::UnInit {
            proof {
                lemma_extends_reflexive(self@);
            }
            return Err(KernelError::InternalInvariantViolation);
        }
        self.tasks[id].make_ready();
        self.ready.push_back(id);
        proof {
            assert(self@.tasks =~= old(self)@.loaded(id).tasks);
            lemma_loaded(old(self)@, id);
        }
        Ok(())
    }

    /// Takes the current task, if there is one, off the processor at `now`
    /// with the status `status`.
    fn stop_current(&mut self, now: usize, status: TaskStatus)
        requires
            old(self)@.wf(),
            old(self)@.interval_start <= now,
            status is Ready || status is Exited,
        ensures
            final(self)@ == old(self)@.stopped(now, status),
            final(self)@.wf(),
            final(self)@.extends(old(self)@),
    {
        proof {
            lemma_stopped(self@, now, status);
        }
        if let Some(c) = self.current {
            proof {
                lemma_running_total_covers(self@.tasks, c as int);
            }
            let elapsed: usize = now - self.interval_start;
            self.tasks[c].stop(elapsed, status);
            if status == TaskStatus::Ready {
                self.ready.push_back(c);
            }
            self.current = None;
            self.interval_start = now;
            proof {
                assert(self@.tasks =~= old(self)@.stopped(now, status).tasks);
            }
        }
    }

    /// Gives the processor to the front of the ready queue at `now`.
    fn run_next(&mut self, now: usize) -> (r: Result<usize, KernelError>)
        requires
            old(self)@.wf(),
            old(self)@.current is None,
            old(self)@.interval_start <= now,
        ensures
            match r {
                Ok(next) => {
                    &&& old(self)@.ready.len() > 0
                    &&& next == old(self)@.ready[0]
                    &&& final(self)@ == old(self)@.dispatched(now)
                },
                Err(e) => {
                    &&& e == KernelError::NoReadyTasks
                    &&& old(self)@.ready.len() == 0
                    &&& final(self)@ == old(self)@
                },
            },
            final(self)@.wf(),
            final(self)@.extends(old(self)@),
    {
        match self.ready.pop_front() {
            Some(next) => {
                proof {
                    lemma_dispatched(old(self)@, now);
                    assert(old(self)@.known(old(self)@.ready[0]));
                }
                self.tasks[next].start(now);
                self.current = Some(next);
                self.interval_start = now;
                proof {
                    assert(self@.tasks =~= old(self)@.dispatched(now).tasks);
                }
                Ok(next)
            },
            None => {
                proof {
                    lemma_extends_reflexive(self@);
                }
                Err(KernelError::NoReadyTasks)
            },
        }
    }

    /// One scheduling step at clock value `now`: the current task, if there
    /// is one, closes its running interval and goes to the back of the ready
    /// queue; the task at the front of the queue becomes `Running`, with
    /// `now` as its first scheduling time if it had none. Returns the id of
    /// the task to switch to. Fails with `NoReadyTasks`, and changes nothing,
    /// where no task runs and none waits.
    pub fn schedule_next(&mut self, now: usize) -> (r: Result<usize, KernelError>)
        requires
            old(self)@.wf(),
            old(self)@.interval_start <= now,
        ensures
            match r {
                Ok(next) => {
                    &&& old(self)@.runnable()
                    &&& final(self)@ == old(self)@.scheduled(now)
                    &&& next == old(self)@.suspended(now).ready[0]
                    &&& final(self)@.current == Some(next)
                },
                Err(e) => {
                    &&& e == KernelError::NoReadyTasks
                    &&& !old(self)@.runnable()
                    &&& final(self)@ == old(self)@
                },
            },
            final(self)@.wf(),
            final(self)@.extends(old(self)@),
    {
        self.stop_current(now, TaskStatus::Ready);
        let ghost mid = self@;
        let r = self.run_next(now);
        proof {
            lemma_extends_transitive(old(self)@, mid, self@);
        }
        r
    }

    /// The current task gives up the processor at `now` and the next ready
    /// task runs: a scheduling step that fails with
    /// `InternalInvariantViolation`, and changes nothing, where no task is
    /// running. Returns the id of the task to switch to.
    pub fn suspend_current_and_run_next(&mut self, now: usize) -> (r: Result<usize, KernelError>)
        requires
            old(self)@.wf(),
            old(self)@.interval_start <= now,
        ensures
            match r {
                Ok(next) => {
                    &&& old(self)@.current is Some
                    &&& final(self)@ == old(self)@.scheduled(now)
                    &&& next == old(self)@.suspended(now).ready[0]
                    &&& final(self)@.current == Some(next)
                },
                Err(e) => {
                    &&& e == KernelError::InternalInvariantViolation
                    &&& old(self)@.current is None
                    &&& final(self)@ == old(self)@
                },
            },
            final(self)@.wf(),
            final(self)@.extends(old(self)@),
    {
        if self.current.is_none() {
            proof {
                lemma_extends_reflexive(self@);
            }
            return Err(KernelError::InternalInvariantViolation);
        }
        self.schedule_next(now)
    }

    /// The current task exits at `now`: it becomes `Exited`, its last running
    /// interval is closed, and the next ready task runs. Returns the id of
    /// the task to switch to. Fails with `InternalInvariantViolation`, and
    /// changes nothing, where no task is running; fails with `NoReadyTasks`
    /// where the exited task was the last that could run.
    pub fn exit_current_and_run_next(&mut self, now: usize) -> (r: Result<usize, KernelError>)
        requires
            old(self)@.wf(),
            old(self)@.interval_start <= now,
        ensures
            match r {
                Ok(next) => {
                    &&& old(self)@.current is Some
                    &&& old(self)@.ready.len() > 0
                    &&& next == old(self)@.ready[0]
                    &&& final(self)@ == old(self)@.retired(now).dispatched(now)
                },
                Err(KernelError::NoReadyTasks) => {
                    &&& old(self)@.current is Some
                    &&& old(self)@.ready.len() == 0
                    &&& final(self)@ == old(self)@.retired(now)
                },
                Err(e) => {
                    &&& e == KernelError::InternalInvariantViolation
                    &&& old(self)@.current is None
                    &&& final(self)@ == old(self)@
                },
            },
            final(self)@.wf(),
            final(self)@.extends(old(self)@),
    {
        if self.current.is_none() {
            proof {
                lemma_extends_reflexive(self@);
            }
            return Err(KernelError::InternalInvariantViolation);
        }
        self.stop_current(now, TaskStatus::Exited);
        let ghost mid = self@;
        let r = self.run_next(now);
        proof {
            lemma_extends_transitive(old(self)@, mid, self@);
        }
        r
    }

    /// The snapshot of the current task at clock value `now`: its status,
    /// its counter table, the time it was first scheduled, and its `time` up
    /// to `now` as the time policy measures it. Fails with
    /// `InternalInvariantViolation` where no task is running.
    pub fn fetch_current_task_info(&self, now: usize) -> (r: Result<TaskInfo, KernelError>)
        requires
            self@.wf(),
            self@.interval_start <= now,
        ensures
            match r {
                Ok(info) => {
                    &&& self@.current is Some
                    &&& info.status == TaskStatus::Running
                    &&& info.syscall_times@ == self@.tasks[self@.current.unwrap() as int].counts
                    &&& Some(info.start_time) == self@.tasks[self@.current.unwrap() as int].first_scheduled_at
                    &&& info.time == self@.reported_time(now)
                },
                Err(e) => e == KernelError::InternalInvariantViolation && self@.current is None,
            },
    {
        match self.current {
            Some(c) => {
                proof {
                    lemma_running_total_covers(self@.tasks, c as int);
                }
                let tcb = &self.tasks[c];
                let start_time: usize = match tcb.first_scheduled_at() {
                    Some(at) => at,
                    None => now,
                };
                let time: usize = match self.policy {
                    TimePolicy::RunningOnly => tcb.total_running_time() + (now
                        - self.interval_start),
                    TimePolicy::SinceFirstScheduled => now - start_time,
                };
                Ok(
                    TaskInfo {
                        status: tcb.status(),
                        syscall_times: tcb.syscall_counts(),
                        start_time,
                        time,
                    },
                )
            },
            None => Err(KernelError::InternalInvariantViolation),
        }
    }
}

} // verus!
