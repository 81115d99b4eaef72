use task_accounting::config::{MAX_SYSCALL_NUM, MICRO_PER_SEC};
use task_accounting::syscall::process::sys_get_time;
use task_accounting::task::{TaskInfo, TaskStatus};
use task_accounting::timer::TimeVal;

#[test]
fn time_val_splits_raw_microseconds() {
    let tv = TimeVal::from_micros(3_750_042);
    assert_eq!(tv.sec, 3);
    assert_eq!(tv.usec, 750_042);
    assert_eq!(tv, TimeVal { sec: 3, usec: 750_042 });
}

#[test]
fn time_val_round_trip_recovers_the_count() {
    for v in [0usize, 1, 999_999, 1_000_000, 1_000_001, 86_400_000_000, usize::MAX] {
        let tv = TimeVal::from_micros(v);
        assert_eq!(tv.sec, v / 1_000_000);
        assert_eq!(tv.usec, v % 1_000_000);
        assert!(tv.usec < MICRO_PER_SEC);
        assert_eq!(tv.to_micros(), Some(v));
    }
}

#[test]
fn time_val_at_the_second_boundary() {
    assert_eq!(TimeVal::from_micros(999_999), TimeVal { sec: 0, usec: 999_999 });
    assert_eq!(TimeVal::from_micros(1_000_000), TimeVal { sec: 1, usec: 0 });
    assert_eq!(TimeVal::from_micros(0), TimeVal { sec: 0, usec: 0 });
}

#[test]
fn to_micros_puts_the_parts_together() {
    assert_eq!(TimeVal { sec: 2, usec: 5 }.to_micros(), Some(2_000_005));
    assert_eq!(TimeVal { sec: 0, usec: 1_500_000 }.to_micros(), Some(1_500_000));
}

#[test]
fn to_micros_is_none_where_the_count_does_not_fit() {
    assert_eq!(TimeVal { sec: usize::MAX, usec: 0 }.to_micros(), None);
    let whole = usize::MAX / 1_000_000;
    let rest = usize::MAX % 1_000_000;
    assert_eq!(TimeVal { sec: whole, usec: rest }.to_micros(), Some(usize::MAX));
    assert_eq!(TimeVal { sec: whole, usec: rest + 1 }.to_micros(), None);
    assert_eq!(TimeVal { sec: whole, usec: usize::MAX }.to_micros(), None);
}

#[test]
fn sys_get_time_writes_the_sample() {
    let mut ts = TimeVal { sec: 77, usec: 77 };
    let ret = sys_get_time(12_345_678, &mut ts, 0);
    assert_eq!(ret, 0);
    assert_eq!(ts.sec, 12);
    assert_eq!(ts.usec, 345_678);
}

#[test]
fn two_samples_differ_by_the_clock_advance() {
    let first_raw: usize = 4_999_990;
    let d: usize = 2_000_025;
    let mut first = TimeVal { sec: 0, usec: 0 };
    let mut second = TimeVal { sec: 0, usec: 0 };
    assert_eq!(sys_get_time(first_raw, &mut first, 0), 0);
    assert_eq!(sys_get_time(first_raw + d, &mut second, 0), 0);
    assert_eq!(first, TimeVal { sec: 4, usec: 999_990 });
    assert_eq!(second, TimeVal { sec: 7, usec: 15 });
    assert_eq!(second.to_micros().unwrap() - first.to_micros().unwrap(), d);
}

#[test]
fn new_task_info_is_blank() {
    let info = TaskInfo::new();
    assert_eq!(info.status, TaskStatus::UnInit);
    assert_eq!(info.syscall_times.len(), MAX_SYSCALL_NUM);
    assert!(info.syscall_times.iter().all(|c| *c == 0));
    assert_eq!(info.start_time, 0);
    assert_eq!(info.time, 0);
}
