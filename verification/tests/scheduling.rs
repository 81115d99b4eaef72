use task_accounting::config::{
    MAX_SYSCALL_NUM, SYSCALL_EXIT, SYSCALL_GET_TIME, SYSCALL_TASK_INFO, SYSCALL_YIELD,
};
use task_accounting::error::KernelError;
use task_accounting::manager::TaskManager;
use task_accounting::syscall::process::{sys_exit, sys_task_info, sys_yield};
use task_accounting::syscall::{exit_code_of, syscall, SyscallReply};
use task_accounting::task::{TaskControlBlock, TaskInfo, TaskStatus, TimePolicy};
use task_accounting::timer::TimeVal;

fn booted(n: usize) -> TaskManager {
    let mut mgr = TaskManager::new(n);
    for id in 0..n {
        assert_eq!(mgr.mark_ready(id), Ok(()));
    }
    mgr
}

fn status_of(mgr: &TaskManager, id: usize) -> TaskStatus {
    mgr.record_for(id).unwrap().status()
}

fn running_time_of(mgr: &TaskManager, id: usize) -> usize {
    mgr.record_for(id).unwrap().total_running_time()
}

fn first_run_of(mgr: &TaskManager, id: usize) -> Option<usize> {
    mgr.record_for(id).unwrap().first_scheduled_at()
}

fn count_of(mgr: &TaskManager, id: usize, syscall_id: usize) -> u32 {
    mgr.record_for(id).unwrap().syscall_count(syscall_id)
}

#[test]
fn new_record_is_uninitialized() {
    let tcb = TaskControlBlock::new();
    assert_eq!(tcb.status(), TaskStatus::UnInit);
    assert_eq!(tcb.first_scheduled_at(), None);
    assert_eq!(tcb.total_running_time(), 0);
    assert_eq!(tcb.syscall_count(0), 0);
    assert_eq!(tcb.syscall_count(MAX_SYSCALL_NUM - 1), 0);
    assert!(tcb.syscall_counts().iter().all(|c| *c == 0));
}

#[test]
fn new_store_has_uninitialized_records() {
    let mgr = TaskManager::new(3);
    assert_eq!(mgr.num_tasks(), 3);
    assert_eq!(mgr.num_ready(), 0);
    assert_eq!(mgr.interval_start(), 0);
    for id in 0..3 {
        assert_eq!(status_of(&mgr, id), TaskStatus::UnInit);
    }
    assert_eq!(mgr.current_task_id(), Err(KernelError::InternalInvariantViolation));
}

#[test]
fn record_for_unknown_task_fails() {
    let mgr = TaskManager::new(2);
    assert!(mgr.record_for(1).is_ok());
    assert!(matches!(mgr.record_for(2), Err(KernelError::UnknownTask)));
    assert!(matches!(mgr.record_for(usize::MAX), Err(KernelError::UnknownTask)));
}

#[test]
fn mark_ready_queues_the_task_once() {
    let mut mgr = TaskManager::new(2);
    assert_eq!(mgr.mark_ready(1), Ok(()));
    assert_eq!(status_of(&mgr, 1), TaskStatus::Ready);
    assert_eq!(status_of(&mgr, 0), TaskStatus::UnInit);
    assert_eq!(mgr.num_ready(), 1);
    assert_eq!(mgr.mark_ready(1), Err(KernelError::InternalInvariantViolation));
    assert_eq!(mgr.num_ready(), 1);
    assert_eq!(mgr.mark_ready(2), Err(KernelError::UnknownTask));
    assert_eq!(mgr.num_ready(), 1);
}

#[test]
fn schedule_next_without_tasks_fails() {
    let mut mgr = TaskManager::new(2);
    assert_eq!(mgr.schedule_next(10), Err(KernelError::NoReadyTasks));
    assert_eq!(mgr.interval_start(), 0);
    assert_eq!(mgr.current_task_id(), Err(KernelError::InternalInvariantViolation));
}

#[test]
fn schedule_next_is_first_in_first_out() {
    let mut mgr = TaskManager::new(3);
    assert_eq!(mgr.mark_ready(2), Ok(()));
    assert_eq!(mgr.mark_ready(0), Ok(()));
    assert_eq!(mgr.mark_ready(1), Ok(()));
    assert_eq!(mgr.schedule_next(5), Ok(2));
    assert_eq!(mgr.current_task_id(), Ok(2));
    assert_eq!(mgr.schedule_next(6), Ok(0));
    assert_eq!(mgr.schedule_next(7), Ok(1));
    assert_eq!(mgr.schedule_next(8), Ok(2));
    assert_eq!(mgr.schedule_next(9), Ok(0));
    assert_eq!(status_of(&mgr, 0), TaskStatus::Running);
    assert_eq!(status_of(&mgr, 1), TaskStatus::Ready);
    assert_eq!(status_of(&mgr, 2), TaskStatus::Ready);
    assert_eq!(mgr.num_ready(), 2);
}

#[test]
fn a_single_task_yields_to_itself() {
    let mut mgr = booted(1);
    assert_eq!(mgr.schedule_next(100), Ok(0));
    assert_eq!(sys_yield(&mut mgr, 130), Ok((0, 0)));
    assert_eq!(status_of(&mgr, 0), TaskStatus::Running);
    assert_eq!(running_time_of(&mgr, 0), 30);
    assert_eq!(first_run_of(&mgr, 0), Some(100));
    assert_eq!(mgr.interval_start(), 130);
}

#[test]
fn running_time_is_the_sum_of_the_intervals() {
    let mut mgr = booted(2);
    assert_eq!(mgr.schedule_next(10), Ok(0));
    assert_eq!(mgr.schedule_next(25), Ok(1));
    assert_eq!(running_time_of(&mgr, 0), 15);
    assert_eq!(running_time_of(&mgr, 1), 0);
    assert_eq!(mgr.schedule_next(65), Ok(0));
    assert_eq!(running_time_of(&mgr, 1), 40);
    assert_eq!(mgr.schedule_next(70), Ok(1));
    assert_eq!(running_time_of(&mgr, 0), 20);
    assert_eq!(running_time_of(&mgr, 1), 40);
}

#[test]
fn running_intervals_never_overlap() {
    let mut mgr = booted(3);
    let times = [7usize, 7, 19, 40, 41, 100, 250, 251, 1_000];
    for now in times {
        assert!(mgr.schedule_next(now).is_ok());
        let mut running = 0;
        let mut total = 0;
        for id in 0..3 {
            if status_of(&mgr, id) == TaskStatus::Running {
                running += 1;
            }
            total += running_time_of(&mgr, id);
        }
        assert_eq!(running, 1);
        assert_eq!(total, now - 7);
        assert!(total <= mgr.interval_start());
    }
}

#[test]
fn first_scheduled_at_is_set_once() {
    let mut mgr = booted(2);
    assert_eq!(first_run_of(&mgr, 0), None);
    assert_eq!(mgr.schedule_next(11), Ok(0));
    assert_eq!(first_run_of(&mgr, 0), Some(11));
    assert_eq!(first_run_of(&mgr, 1), None);
    assert_eq!(mgr.schedule_next(20), Ok(1));
    assert_eq!(first_run_of(&mgr, 1), Some(20));
    for now in [30usize, 40, 50, 60] {
        assert!(mgr.schedule_next(now).is_ok());
        assert_eq!(first_run_of(&mgr, 0), Some(11));
        assert_eq!(first_run_of(&mgr, 1), Some(20));
    }
    assert_eq!(sys_exit(&mut mgr, 70, 0), Ok(0));
    assert_eq!(first_run_of(&mgr, 0), Some(11));
    assert_eq!(first_run_of(&mgr, 1), Some(20));
}

#[test]
fn a_task_that_never_runs_has_no_times() {
    let mut mgr = booted(2);
    assert_eq!(mgr.schedule_next(3), Ok(0));
    let mut ti = TaskInfo::new();
    assert_eq!(sys_task_info(&mgr, 500, &mut ti), Ok(0));
    assert_eq!(status_of(&mgr, 1), TaskStatus::Ready);
    assert_eq!(first_run_of(&mgr, 1), None);
    assert_eq!(running_time_of(&mgr, 1), 0);
}

#[test]
fn task_info_before_any_yield() {
    let mut mgr = booted(1);
    assert_eq!(mgr.schedule_next(1_000), Ok(0));
    let reply = syscall(&mut mgr, 1_750, SYSCALL_TASK_INFO, [0, 0, 0]);
    match reply {
        Ok(SyscallReply::Info { ret, info }) => {
            assert_eq!(ret, 0);
            assert_eq!(info.status, TaskStatus::Running);
            assert_eq!(info.start_time, 1_000);
            assert_eq!(info.time, 750);
            assert_eq!(info.syscall_times[SYSCALL_TASK_INFO], 1);
            assert_eq!(info.syscall_times[SYSCALL_YIELD], 0);
        }
        other => panic!("unexpected reply: {:?}", other),
    }
}

#[test]
fn task_info_time_leaves_out_the_waiting() {
    let mut mgr = booted(2);
    assert_eq!(mgr.schedule_next(100), Ok(0));
    assert_eq!(sys_yield(&mut mgr, 150), Ok((0, 1)));
    assert_eq!(sys_yield(&mut mgr, 400), Ok((0, 0)));
    let mut ti = TaskInfo::new();
    assert_eq!(sys_task_info(&mgr, 425, &mut ti), Ok(0));
    assert_eq!(ti.status, TaskStatus::Running);
    assert_eq!(ti.start_time, 100);
    assert_eq!(ti.time, 75);
}

#[test]
fn task_info_counts_its_own_dispatch() {
    let mut mgr = booted(1);
    assert_eq!(mgr.schedule_next(0), Ok(0));
    for round in 1..=4u32 {
        match syscall(&mut mgr, 10, SYSCALL_TASK_INFO, [0, 0, 0]) {
            Ok(SyscallReply::Info { ret, info }) => {
                assert_eq!(ret, 0);
                assert_eq!(info.syscall_times[SYSCALL_TASK_INFO], round);
            }
            other => panic!("unexpected reply: {:?}", other),
        }
    }
    assert_eq!(count_of(&mgr, 0, SYSCALL_TASK_INFO), 4);
}

#[test]
fn every_dispatch_is_counted_for_the_current_task_only() {
    let mut mgr = booted(2);
    assert_eq!(mgr.schedule_next(0), Ok(0));
    for _ in 0..5 {
        assert!(matches!(
            syscall(&mut mgr, 1, SYSCALL_GET_TIME, [0, 0, 0]),
            Ok(SyscallReply::Time { ret: 0, time: TimeVal { sec: 0, usec: 1 } })
        ));
    }
    assert!(matches!(
        syscall(&mut mgr, 2, SYSCALL_YIELD, [0, 0, 0]),
        Ok(SyscallReply::Yielded { ret: 0, next: 1 })
    ));
    for _ in 0..2 {
        assert!(syscall(&mut mgr, 3, SYSCALL_GET_TIME, [0, 0, 0]).is_ok());
    }
    assert_eq!(count_of(&mgr, 0, SYSCALL_GET_TIME), 5);
    assert_eq!(count_of(&mgr, 0, SYSCALL_YIELD), 1);
    assert_eq!(count_of(&mgr, 1, SYSCALL_GET_TIME), 2);
    assert_eq!(count_of(&mgr, 1, SYSCALL_YIELD), 0);
    let total: u32 = mgr.record_for(0).unwrap().syscall_counts().iter().sum();
    assert_eq!(total, 6);
}

#[test]
fn get_time_through_dispatch_gives_the_sample() {
    let mut mgr = booted(1);
    assert_eq!(mgr.schedule_next(0), Ok(0));
    match syscall(&mut mgr, 61_000_007, SYSCALL_GET_TIME, [0, 0, 0]) {
        Ok(SyscallReply::Time { ret, time }) => {
            assert_eq!(ret, 0);
            assert_eq!(time, TimeVal { sec: 61, usec: 7 });
        }
        other => panic!("unexpected reply: {:?}", other),
    }
    assert_eq!(running_time_of(&mgr, 0), 0);
    assert_eq!(mgr.interval_start(), 0);
}

#[test]
fn unsupported_syscall_changes_nothing() {
    let mut mgr = booted(1);
    assert_eq!(mgr.schedule_next(0), Ok(0));
    assert!(matches!(syscall(&mut mgr, 1, 64, [0, 0, 0]), Err(KernelError::UnsupportedSyscall)));
    assert!(matches!(
        syscall(&mut mgr, 1, MAX_SYSCALL_NUM, [0, 0, 0]),
        Err(KernelError::UnsupportedSyscall)
    ));
    assert_eq!(count_of(&mgr, 0, 64), 0);
    assert_eq!(status_of(&mgr, 0), TaskStatus::Running);
}

#[test]
fn syscalls_without_a_running_task_fail() {
    let mut mgr = booted(1);
    assert_eq!(sys_yield(&mut mgr, 1), Err(KernelError::InternalInvariantViolation));
    assert_eq!(sys_exit(&mut mgr, 1, 0), Err(KernelError::InternalInvariantViolation));
    let mut ti = TaskInfo::new();
    assert_eq!(sys_task_info(&mgr, 1, &mut ti), Err(KernelError::InternalInvariantViolation));
    assert_eq!(ti.status, TaskStatus::UnInit);
    assert!(matches!(
        syscall(&mut mgr, 1, SYSCALL_YIELD, [0, 0, 0]),
        Err(KernelError::InternalInvariantViolation)
    ));
    assert_eq!(status_of(&mgr, 0), TaskStatus::Ready);
    assert_eq!(count_of(&mgr, 0, SYSCALL_YIELD), 0);
    assert_eq!(mgr.num_ready(), 1);
}

#[test]
fn increment_syscall_count_ignores_what_is_out_of_range() {
    let mut mgr = booted(1);
    mgr.increment_syscall_count(0, 7);
    mgr.increment_syscall_count(0, 7);
    mgr.increment_syscall_count(0, MAX_SYSCALL_NUM);
    mgr.increment_syscall_count(1, 7);
    assert_eq!(count_of(&mgr, 0, 7), 2);
    let total: u32 = mgr.record_for(0).unwrap().syscall_counts().iter().sum();
    assert_eq!(total, 2);
}

#[test]
fn exit_of_the_last_task_halts() {
    let mut mgr = booted(1);
    assert_eq!(mgr.schedule_next(10), Ok(0));
    assert_eq!(sys_exit(&mut mgr, 35, 0), Err(KernelError::NoReadyTasks));
    assert_eq!(status_of(&mgr, 0), TaskStatus::Exited);
    assert_eq!(running_time_of(&mgr, 0), 25);
    assert_eq!(mgr.current_task_id(), Err(KernelError::InternalInvariantViolation));
    assert_eq!(mgr.schedule_next(40), Err(KernelError::NoReadyTasks));
    assert_eq!(status_of(&mgr, 0), TaskStatus::Exited);
    assert_eq!(running_time_of(&mgr, 0), 25);
}

#[test]
fn an_exited_task_is_never_scheduled_again() {
    let mut mgr = booted(3);
    assert_eq!(mgr.schedule_next(0), Ok(0));
    assert_eq!(sys_exit(&mut mgr, 5, -1), Ok(1));
    for now in 6..20usize {
        let next = mgr.schedule_next(now).unwrap();
        assert!(next == 1 || next == 2);
        assert_eq!(status_of(&mgr, 0), TaskStatus::Exited);
        assert_eq!(running_time_of(&mgr, 0), 5);
    }
}

#[test]
fn three_yields_and_an_exit_beside_an_immediate_exit() {
    let a = 0;
    let b = 1;
    let mut mgr = booted(2);
    assert_eq!(mgr.schedule_next(100), Ok(a));

    // A yields for the first time: B gets its only turn.
    assert!(matches!(
        syscall(&mut mgr, 110, SYSCALL_YIELD, [0, 0, 0]),
        Ok(SyscallReply::Yielded { ret: 0, next: 1 })
    ));
    assert_eq!(mgr.current_task_id(), Ok(b));
    // B exits at once.
    assert!(matches!(
        syscall(&mut mgr, 140, SYSCALL_EXIT, [0, 0, 0]),
        Ok(SyscallReply::Exited { next: 0 })
    ));
    assert_eq!(status_of(&mgr, b), TaskStatus::Exited);
    assert_eq!(running_time_of(&mgr, b), 30);
    assert_eq!(first_run_of(&mgr, b), Some(110));
    assert_eq!(count_of(&mgr, b, SYSCALL_EXIT), 1);
    assert_eq!(count_of(&mgr, b, SYSCALL_YIELD), 0);

    // A yields twice more, alone.
    assert!(matches!(
        syscall(&mut mgr, 150, SYSCALL_YIELD, [0, 0, 0]),
        Ok(SyscallReply::Yielded { ret: 0, next: 0 })
    ));
    assert!(matches!(
        syscall(&mut mgr, 160, SYSCALL_YIELD, [0, 0, 0]),
        Ok(SyscallReply::Yielded { ret: 0, next: 0 })
    ));
    assert_eq!(status_of(&mgr, b), TaskStatus::Exited);
    assert_eq!(running_time_of(&mgr, b), 30);

    match syscall(&mut mgr, 165, SYSCALL_TASK_INFO, [0, 0, 0]) {
        Ok(SyscallReply::Info { ret, info }) => {
            assert_eq!(ret, 0);
            assert_eq!(info.status, TaskStatus::Running);
            assert_eq!(info.syscall_times[SYSCALL_YIELD], 3);
            assert_eq!(info.syscall_times[SYSCALL_EXIT], 0);
            assert_eq!(info.syscall_times[SYSCALL_TASK_INFO], 1);
            assert_eq!(info.start_time, 100);
            assert_eq!(info.time, 35);
        }
        other => panic!("unexpected reply: {:?}", other),
    }

    // A exits: nothing is left to run.
    assert!(matches!(
        syscall(&mut mgr, 170, SYSCALL_EXIT, [3, 0, 0]),
        Err(KernelError::NoReadyTasks)
    ));
    assert_eq!(status_of(&mgr, a), TaskStatus::Exited);
    assert_eq!(count_of(&mgr, a, SYSCALL_YIELD), 3);
    assert_eq!(count_of(&mgr, a, SYSCALL_EXIT), 1);
    assert_eq!(running_time_of(&mgr, a), 40);
    assert_eq!(first_run_of(&mgr, a), Some(100));
}

#[test]
fn exit_code_is_the_low_word_as_signed() {
    assert_eq!(exit_code_of(0), 0);
    assert_eq!(exit_code_of(7), 7);
    assert_eq!(exit_code_of(0xffff_ffff), -1);
    assert_eq!(exit_code_of(0x8000_0000), i32::MIN);
}

#[test]
fn time_policy_is_running_only_unless_chosen() {
    let mgr = TaskManager::new(1);
    assert_eq!(mgr.time_policy(), TimePolicy::RunningOnly);
}

#[test]
fn task_info_time_since_first_scheduled_keeps_the_waiting() {
    let mut mgr = booted(2);
    mgr.set_time_policy(TimePolicy::SinceFirstScheduled);
    assert_eq!(mgr.time_policy(), TimePolicy::SinceFirstScheduled);
    assert_eq!(mgr.schedule_next(100), Ok(0));
    assert_eq!(sys_yield(&mut mgr, 150), Ok((0, 1)));
    assert_eq!(sys_yield(&mut mgr, 400), Ok((0, 0)));
    let mut ti = TaskInfo::new();
    assert_eq!(sys_task_info(&mgr, 425, &mut ti), Ok(0));
    assert_eq!(ti.start_time, 100);
    assert_eq!(ti.time, 325);
    assert_eq!(running_time_of(&mgr, 0), 50);
    mgr.set_time_policy(TimePolicy::RunningOnly);
    assert_eq!(sys_task_info(&mgr, 425, &mut ti), Ok(0));
    assert_eq!(ti.time, 75);
}

#[test]
fn both_time_policies_agree_before_any_yield() {
    for policy in [TimePolicy::RunningOnly, TimePolicy::SinceFirstScheduled] {
        let mut mgr = booted(1);
        mgr.set_time_policy(policy);
        assert_eq!(mgr.schedule_next(2_000), Ok(0));
        let mut ti = TaskInfo::new();
        assert_eq!(sys_task_info(&mgr, 2_600, &mut ti), Ok(0));
        assert_eq!(ti.status, TaskStatus::Running);
        assert_eq!(ti.start_time, 2_000);
        assert_eq!(ti.time, 600);
    }
}

#[test]
fn suspend_and_exit_through_the_store() {
    let mut mgr = booted(2);
    assert_eq!(mgr.suspend_current_and_run_next(1), Err(KernelError::InternalInvariantViolation));
    assert_eq!(mgr.exit_current_and_run_next(1), Err(KernelError::InternalInvariantViolation));
    assert!(mgr.fetch_current_task_info(1).is_err());
    assert_eq!(mgr.schedule_next(1), Ok(0));
    assert_eq!(mgr.suspend_current_and_run_next(4), Ok(1));
    assert_eq!(mgr.exit_current_and_run_next(9), Ok(0));
    assert_eq!(running_time_of(&mgr, 0), 3);
    assert_eq!(running_time_of(&mgr, 1), 5);
    let info = mgr.fetch_current_task_info(12).unwrap();
    assert_eq!(info.status, TaskStatus::Running);
    assert_eq!(info.start_time, 1);
    assert_eq!(info.time, 6);
    assert_eq!(mgr.exit_current_and_run_next(20), Err(KernelError::NoReadyTasks));
    assert_eq!(status_of(&mgr, 0), TaskStatus::Exited);
    assert_eq!(status_of(&mgr, 1), TaskStatus::Exited);
    assert_eq!(running_time_of(&mgr, 0), 14);
}
