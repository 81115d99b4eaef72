//! The mathematical model of the task store and the scheduler: the state,
//! its invariant, the transitions, and the laws that hold of them.

use vstd::prelude::*;
use crate::config::MAX_SYSCALL_NUM;
use crate::task::{lemma_counted_record, occurrences, TaskModel, TaskStatus, TimePolicy};

verus! {

/// The running time that all the records of a store have accrued together.
pub open spec fn running_total(tasks: Seq<TaskModel>) -> nat
    decreases tasks.len(),
{
    if tasks.len() == 0 {
        0
    } else {
        running_total(tasks.drop_last()) + tasks.last().total_running_time
    }
}

/// Replacing one record changes the accrued total by the difference of the
/// two records' running times.
pub proof fn lemma_running_total_update(tasks: Seq<TaskModel>, i: int, t: TaskModel)
    requires
        0 <= i < tasks.len(),
    ensures
        running_total(tasks.update(i, t)) == running_total(tasks) - tasks[i].total_running_time
            + t.total_running_time,
    decreases tasks.len(),
{
    if i == tasks.len() - 1 {
        assert(tasks.update(i, t).drop_last() =~= tasks.drop_last());
    } else {
        lemma_running_total_update(tasks.drop_last(), i, t);
        assert(tasks.update(i, t).drop_last() =~= tasks.drop_last().update(i, t));
    }
}

/// No record has accrued more than all records together.
pub proof fn lemma_running_total_covers(tasks: Seq<TaskModel>, i: int)
    requires
        0 <= i < tasks.len(),
    ensures
        tasks[i].total_running_time <= running_total(tasks),
    decreases tasks.len(),
{
    if i < tasks.len() - 1 {
        lemma_running_total_covers(tasks.drop_last(), i);
    }
}

/// A store of records that have accrued nothing has accrued nothing.
pub proof fn lemma_running_total_zero(tasks: Seq<TaskModel>)
    requires
        forall|i: int| 0 <= i < tasks.len() ==> (#[trigger] tasks[i]).total_running_time == 0,
    ensures
        running_total(tasks) == 0,
    decreases tasks.len(),
{
    if tasks.len() > 0 {
        lemma_running_total_zero(tasks.drop_last());
    }
}

/// The model of the kernel's task state.
pub struct KernelModel {
    /// One record per task, indexed by task id.
    pub tasks: Seq<TaskModel>,
    /// The ids of the tasks that wait for the processor, next one first.
    pub ready: Seq<usize>,
    /// The id of the task that holds the processor, if one does.
    pub current: Option<usize>,
    /// The clock value of the latest scheduling event: where a task runs,
    /// the start of its open running interval.
    pub interval_start: usize,
    /// What the `time` of a snapshot measures.
    pub policy: TimePolicy,
}

impl KernelModel {
    /// The state with `n` uninitialized records at clock value zero.
    pub open spec fn boot(n: nat) -> KernelModel {
        KernelModel {
            tasks: Seq::new(n, |i: int| TaskModel::fresh()),
            ready: Seq::empty(),
            current: None,
            interval_start: 0,
            policy: TimePolicy::RunningOnly,
        }
    }

    /// Whether `id` names a record of the store.
    pub open spec fn known(self, id: usize) -> bool {
        id < self.tasks.len()
    }

    /// The invariant of the state. Every record is well formed; the ready
    /// queue holds exactly the ids of the `Ready` tasks, each once; a task is
    /// `Running` exactly if it is the current one, so at most one is; the
    /// running time of all tasks together is no more than the clock value of
    /// the latest scheduling event; and no task was first scheduled after
    /// that event.
    pub open spec fn wf(self) -> bool {
        &&& forall|i: int| 0 <= i < self.tasks.len() ==> (#[trigger] self.tasks[i]).wf()
        &&& forall|k: int|
            0 <= k < self.ready.len() ==> {
                &&& self.known(#[trigger] self.ready[k])
                &&& self.tasks[self.ready[k] as int].status is Ready
            }
        &&& self.ready.no_duplicates()
        &&& forall|i: usize|
            self.known(i) && (#[trigger] self.tasks[i as int]).status is Ready
                ==> self.ready.contains(i)
        &&& match self.current {
            Some(c) => self.known(c) && self.tasks[c as int].status is Running,
            None => true,
        }
        &&& forall|i: usize|
            self.known(i) && (#[trigger] self.tasks[i as int]).status is Running ==> self.current
                == Some(i)
        &&& running_total(self.tasks) <= self.interval_start
        &&& forall|i: int|
            0 <= i < self.tasks.len() ==> match (#[trigger] self.tasks[i]).first_scheduled_at {
                Some(at) => at <= self.interval_start,
                None => true,
            }
    }

    /// The `time` of the current task's snapshot at `now`: under
    /// `RunningOnly` its closed running intervals and the open one up to
    /// `now`, under `SinceFirstScheduled` all that passed since it first ran.
    pub open spec fn reported_time(self, now: usize) -> int
        recommends
            self.current is Some,
    {
        let t = self.tasks[self.current.unwrap() as int];
        match self.policy {
            TimePolicy::RunningOnly => (t.total_running_time + self.elapsed(now)) as int,
            TimePolicy::SinceFirstScheduled => now - t.first_scheduled_at.unwrap(),
        }
    }

    /// The state with the snapshot's `time` measured as `policy` says.
    pub open spec fn measured_by(self, policy: TimePolicy) -> KernelModel {
        KernelModel { policy, ..self }
    }

    /// The length at `now` of the interval that began with the latest
    /// scheduling event.
    pub open spec fn elapsed(self, now: usize) -> nat {
        (now - self.interval_start) as nat
    }

    /// The state after the image of task `id` was loaded: the task is
    /// `Ready`, at the back of the ready queue.
    pub open spec fn loaded(self, id: usize) -> KernelModel {
        KernelModel {
            tasks: self.tasks.update(id as int, self.tasks[id as int].loaded()),
            ready: self.ready.push(id),
            ..self
        }
    }

    /// The state after one dispatch of syscall `s` was counted for task `id`.
    pub open spec fn counted(self, id: usize, s: usize) -> KernelModel {
        KernelModel {
            tasks: self.tasks.update(id as int, self.tasks[id as int].counted(s)),
            ..self
        }
    }

    /// The state after the current task, if there is one, left the processor
    /// at `now` with the status `status`: its open interval is added to its
    /// running time, and where it stays runnable it goes to the back of the
    /// ready queue.
    pub open spec fn stopped(self, now: usize, status: TaskStatus) -> KernelModel {
        match self.current {
            Some(c) => KernelModel {
                tasks: self.tasks.update(
                    c as int,
                    self.tasks[c as int].stopped(self.elapsed(now), status),
                ),
                ready: if status is Ready {
                    self.ready.push(c)
                } else {
                    self.ready
                },
                current: None,
                interval_start: now,
                ..self
            },
            None => self,
        }
    }

    /// The state after the current task gave up the processor at `now`.
    pub open spec fn suspended(self, now: usize) -> KernelModel {
        self.stopped(now, TaskStatus::Ready)
    }

    /// The state after the current task exited at `now`.
    pub open spec fn retired(self, now: usize) -> KernelModel {
        self.stopped(now, TaskStatus::Exited)
    }

    /// The state after the task at the front of the ready queue was given
    /// the processor at `now`.
    pub open spec fn dispatched(self, now: usize) -> KernelModel
        recommends
            self.ready.len() > 0,
    {
        let next = self.ready[0];
        KernelModel {
            tasks: self.tasks.update(next as int, self.tasks[next as int].started(now)),
            ready: self.ready.drop_first(),
            current: Some(next),
            interval_start: now,
            ..self
        }
    }

    /// Whether a scheduling step finds a task to run: the current one, which
    /// joins the queue, or one that waits already.
    pub open spec fn runnable(self) -> bool {
        self.current is Some || self.ready.len() > 0
    }

    /// The state after one scheduling step at `now`: the current task is
    /// suspended, and the front of the ready queue runs.
    pub open spec fn scheduled(self, now: usize) -> KernelModel {
        self.suspended(now).dispatched(now)
    }

    /// What a state may become over any number of kernel operations: the
    /// store keeps its size, and every record extends what it was.
    pub open spec fn extends(self, prev: KernelModel) -> bool {
        &&& self.tasks.len() == prev.tasks.len()
        &&& forall|i: int|
            0 <= i < self.tasks.len() ==> (#[trigger] self.tasks[i]).extends(prev.tasks[i])
    }
}

/// The booted state is well formed.
pub proof fn lemma_boot_wf(n: nat)
    ensures
        KernelModel::boot(n).wf(),
{
    let m = KernelModel::boot(n);
    assert forall|i: int| 0 <= i < m.tasks.len() implies (#[trigger] m.tasks[i]).wf() by {
        lemma_fresh_wf();
    }
    lemma_running_total_zero(m.tasks);
}

/// A fresh record is well formed.
pub proof fn lemma_fresh_wf()
    ensures
        TaskModel::fresh().wf(),
{
}

/// Every state extends itself.
pub proof fn lemma_extends_reflexive(m: KernelModel)
    ensures
        m.extends(m),
{
}

/// Extension carries over any number of steps: what extends an extension of
/// a state extends that state. So no sequence of operations changes a first
/// scheduling time that was set, lowers a running time, or revives an exited
/// task.
pub proof fn lemma_extends_transitive(a: KernelModel, b: KernelModel, c: KernelModel)
    requires
        b.extends(a),
        c.extends(b),
    ensures
        c.extends(a),
{
    assert forall|i: int| 0 <= i < c.tasks.len() implies (#[trigger] c.tasks[i]).extends(
        a.tasks[i],
    ) by {
        assert(b.tasks[i].extends(a.tasks[i]));
        assert(c.tasks[i].extends(b.tasks[i]));
    }
}

/// Loading the image of an uninitialized task keeps the invariant, and the
/// new state extends the one before.
pub proof fn lemma_loaded(m: KernelModel, id: usize)
    requires
        m.wf(),
        m.known(id),
        m.tasks[id as int].status is UnInit,
    ensures
        m.loaded(id).wf(),
        m.loaded(id).extends(m),
{
    let n = m.loaded(id);
    lemma_running_total_update(m.tasks, id as int, m.tasks[id as int].loaded());
    lemma_queue_push(m, n, id);
}

/// Counting a dispatch keeps the invariant, and the new state extends the one
/// before.
pub proof fn lemma_counted(m: KernelModel, id: usize, s: usize)
    requires
        m.wf(),
        m.known(id),
        s < MAX_SYSCALL_NUM,
        m.tasks[id as int].counts[s as int] < u32::MAX,
    ensures
        m.counted(id, s).wf(),
        m.counted(id, s).extends(m),
{
    let n = m.counted(id, s);
    lemma_counted_record(m.tasks[id as int], s);
    lemma_running_total_update(m.tasks, id as int, m.tasks[id as int].counted(s));
    assert forall|i: usize| n.known(i) && (#[trigger] n.tasks[i as int]).status is Ready implies n.ready.contains(i) by {
        assert(m.tasks[i as int].status is Ready);
    }
    assert forall|i: usize| n.known(i) && (#[trigger] n.tasks[i as int]).status is Running implies n.current == Some(i) by {
        assert(m.tasks[i as int].status is Running);
    }
}

/// Taking the current task off the processor, as ready or as exited, at a
/// clock value not before the latest scheduling event keeps the invariant;
/// the new state extends the one before, no task is running in it, and only
/// the task that ran has accrued running time: the length of its interval.
pub proof fn lemma_stopped(m: KernelModel, now: usize, status: TaskStatus)
    requires
        m.wf(),
        m.interval_start <= now,
        status is Ready || status is Exited,
    ensures
        m.stopped(now, status).wf(),
        m.stopped(now, status).extends(m),
        m.stopped(now, status).current is None,
        running_total(m.stopped(now, status).tasks) == running_total(m.tasks) + (if m.current is Some {
            m.elapsed(now)
        } else {
            0
        }),
{
    let n = m.stopped(now, status);
    if let Some(c) = m.current {
        lemma_running_total_update(
            m.tasks,
            c as int,
            m.tasks[c as int].stopped(m.elapsed(now), status),
        );
        if status is Ready {
            lemma_queue_push(m, n, c);
        } else {
            assert forall|i: usize| n.known(i) && (#[trigger] n.tasks[i as int]).status is Ready implies n.ready.contains(i) by {
                assert(m.tasks[i as int].status is Ready);
            }
        }
        assert forall|i: usize| n.known(i) && (#[trigger] n.tasks[i as int]).status is Running implies n.current == Some(i) by {
            if i != c {
                assert(m.tasks[i as int].status is Running);
            }
        }
    }
}

/// Giving the processor to the front of the ready queue, while no task runs
/// and at a clock value not before the latest scheduling event, keeps the
/// invariant; the new state extends the one before, and no running time has
/// changed.
pub proof fn lemma_dispatched(m: KernelModel, now: usize)
    requires
        m.wf(),
        m.current is None,
        m.ready.len() > 0,
        m.interval_start <= now,
    ensures
        m.dispatched(now).wf(),
        m.dispatched(now).extends(m),
        running_total(m.dispatched(now).tasks) == running_total(m.tasks),
{
    let n = m.dispatched(now);
    let next = m.ready[0];
    assert(m.known(next));
    lemma_running_total_update(m.tasks, next as int, m.tasks[next as int].started(now));
    assert forall|k: int| 0 <= k < n.ready.len() implies {
        &&& n.known(#[trigger] n.ready[k])
        &&& n.tasks[n.ready[k] as int].status is Ready
    } by {
        assert(n.ready[k] == m.ready[k + 1]);
        assert(m.known(m.ready[k + 1]));
    }
    assert(n.ready.no_duplicates()) by {
        assert forall|a: int, b: int| 0 <= a < n.ready.len() && 0 <= b < n.ready.len() && a != b implies n.ready[a] != n.ready[b] by {
            assert(n.ready[a] == m.ready[a + 1]);
            assert(n.ready[b] == m.ready[b + 1]);
        }
    }
    assert forall|i: usize| n.known(i) && (#[trigger] n.tasks[i as int]).status is Ready implies n.ready.contains(i) by {
        assert(i != next);
        assert(m.tasks[i as int].status is Ready);
        let k = m.ready.index_of(i);
        assert(m.ready.contains(i));
        assert(k != 0);
        assert(n.ready[k - 1] == i);
    }
    assert forall|i: usize| n.known(i) && (#[trigger] n.tasks[i as int]).status is Running implies n.current == Some(i) by {
        if i != next {
            assert(m.tasks[i as int].status is Running);
        }
    }
}

/// A scheduling step at a clock value not before the latest scheduling event
/// keeps the invariant wherever it finds a task to run, and the new state
/// extends the one before.
pub proof fn lemma_scheduled(m: KernelModel, now: usize)
    requires
        m.wf(),
        m.runnable(),
        m.interval_start <= now,
    ensures
        m.scheduled(now).wf(),
        m.scheduled(now).extends(m),
        m.scheduled(now).current == Some(m.suspended(now).ready[0]),
{
    lemma_stopped(m, now, TaskStatus::Ready);
    lemma_dispatched(m.suspended(now), now);
    lemma_extends_transitive(m, m.suspended(now), m.scheduled(now));
}

/// A scheduling step gives the task that it starts its first scheduling
/// time, the clock value of the step, where the task had none; it changes
/// the first scheduling time of no other task, and none that was set.
pub proof fn lemma_first_scheduling(m: KernelModel, now: usize, id: usize)
    requires
        m.wf(),
        m.runnable(),
        m.interval_start <= now,
        m.known(id),
    ensures
        m.scheduled(now).tasks[id as int].first_scheduled_at == (if m.scheduled(now).current
            == Some(id) && m.tasks[id as int].first_scheduled_at is None {
            Some(now)
        } else {
            m.tasks[id as int].first_scheduled_at
        }),
{
    lemma_stopped(m, now, TaskStatus::Ready);
    let mid = m.suspended(now);
    assert(mid.known(mid.ready[0]));
}

/// No two tasks run at once.
pub proof fn lemma_single_running(m: KernelModel, i: usize, j: usize)
    requires
        m.wf(),
        m.known(i),
        m.known(j),
        m.tasks[i as int].status is Running,
        m.tasks[j as int].status is Running,
    ensures
        i == j,
{
}

/// Running intervals never overlap: at any clock value not before the latest
/// scheduling event, the running time of all tasks together, the open
/// interval of the current task included, is no more than the clock value.
pub proof fn lemma_running_time_within_clock(m: KernelModel, now: usize)
    requires
        m.wf(),
        m.interval_start <= now,
    ensures
        running_total(m.tasks) + (if m.current is Some {
            m.elapsed(now)
        } else {
            0
        }) <= now,
{
}

/// A task that was never scheduled has accrued no running time, and is
/// neither running nor exited.
pub proof fn lemma_never_scheduled(m: KernelModel, id: usize)
    requires
        m.wf(),
        m.known(id),
        m.tasks[id as int].first_scheduled_at is None,
    ensures
        m.tasks[id as int].total_running_time == 0,
        m.tasks[id as int].status is UnInit || m.tasks[id as int].status is Ready,
{
}

/// A task that is running or has exited was scheduled once.
pub proof fn lemma_ran_was_scheduled(m: KernelModel, id: usize)
    requires
        m.wf(),
        m.known(id),
        m.tasks[id as int].status is Running || m.tasks[id as int].status is Exited,
    ensures
        m.tasks[id as int].first_scheduled_at is Some,
{
}

/// Every counter of every task equals the number of dispatches of its
/// syscall that the task's log holds.
pub proof fn lemma_counts_are_exact(m: KernelModel, id: usize, s: usize)
    requires
        m.wf(),
        m.known(id),
        s < MAX_SYSCALL_NUM,
    ensures
        m.tasks[id as int].counts[s as int] == occurrences(m.tasks[id as int].issued, s),
{
}

/// Putting a task that is in no queue at the back of the ready queue, with
/// the status `Ready`, keeps the queue's part of the invariant.
proof fn lemma_queue_push(m: KernelModel, n: KernelModel, id: usize)
    requires
        m.wf(),
        m.known(id),
        !(m.tasks[id as int].status is Ready),
        n.tasks.len() == m.tasks.len(),
        n.ready == m.ready.push(id),
        n.tasks[id as int].status is Ready,
        forall|i: int| 0 <= i < m.tasks.len() && i != id ==> n.tasks[i] == m.tasks[i],
    ensures
        n.ready.no_duplicates(),
        forall|k: int|
            0 <= k < n.ready.len() ==> {
                &&& n.known(#[trigger] n.ready[k])
                &&& n.tasks[n.ready[k] as int].status is Ready
            },
        forall|i: usize|
            n.known(i) && (#[trigger] n.tasks[i as int]).status is Ready ==> n.ready.contains(i),
{
    assert forall|k: int| 0 <= k < n.ready.len() implies {
        &&& n.known(#[trigger] n.ready[k])
        &&& n.tasks[n.ready[k] as int].status is Ready
    } by {
        if k < m.ready.len() {
            assert(n.ready[k] == m.ready[k]);
            assert(m.known(m.ready[k]));
        }
    }
    assert forall|a: int, b: int| 0 <= a < n.ready.len() && 0 <= b < n.ready.len() && a != b implies n.ready[a] != n.ready[b] by {
        if a < m.ready.len() {
            assert(m.tasks[m.ready[a] as int].status is Ready);
        }
        if b < m.ready.len() {
            assert(m.tasks[m.ready[b] as int].status is Ready);
        }
    }
    assert forall|i: usize| n.known(i) && (#[trigger] n.tasks[i as int]).status is Ready implies n.ready.contains(i) by {
        if i == id {
            assert(n.ready[m.ready.len() as int] == id);
        } else {
            assert(m.tasks[i as int].status is Ready);
            let k = m.ready.index_of(i);
            assert(m.ready.contains(i));
            assert(n.ready[k] == i);
        }
    }
}

} // verus!
