use std::time::Instant;

use task_manager::config::{MAX_APP_NUM, MAX_SYSCALL_NUM};
use task_manager::syscall::process::{
    sys_exit, sys_get_time, sys_task_info, sys_yield, TaskInfo, TimeVal,
};
use task_manager::task::{
    get_current_running_time, get_syscall_times, record_syscall_times, run_first_task, Handoff,
    TaskManager, TaskStatus,
};

const SYSCALL_YIELD: usize = 124;
const SYSCALL_GET_TIME: usize = 169;
const SYSCALL_TASK_INFO: usize = 410;

fn booted(num_app: usize, now_ms: usize) -> TaskManager {
    let mut tm = TaskManager::new(num_app, 0x8020_0000, &[0x8100_0000; MAX_APP_NUM]);
    run_first_task(&mut tm, now_ms);
    tm
}

fn blank_info() -> TaskInfo {
    TaskInfo { status: TaskStatus::UnInit, syscall_times: [0; MAX_SYSCALL_NUM], time: 0 }
}

#[test]
fn five_yields_are_counted_for_the_task() {
    let mut tm = booted(1, 0);
    for round in 0..5 {
        record_syscall_times(&mut tm, SYSCALL_YIELD);
        let (handoff, ret) = sys_yield(&mut tm, round + 1);
        assert_eq!(handoff, Handoff::Switch { current: 0, next: 0 });
        assert_eq!(ret, 0);
    }
    record_syscall_times(&mut tm, SYSCALL_TASK_INFO);
    let mut info = blank_info();
    assert_eq!(sys_task_info(&tm, &mut info, 50), 0);
    assert_eq!(info.syscall_times[SYSCALL_YIELD], 5);
    assert_eq!(info.syscall_times[SYSCALL_TASK_INFO], 1);
    assert_eq!(info.status, TaskStatus::Running);
    assert_eq!(info.time, 50);
}

#[test]
fn yields_of_other_tasks_are_not_counted() {
    let mut tm = booted(3, 0);
    // Every task yields on each of its turns; slot 0 gets five turns.
    for round in 0..13 {
        record_syscall_times(&mut tm, SYSCALL_YIELD);
        sys_yield(&mut tm, round);
    }
    assert_eq!(tm.current_task(), 1);
    assert_eq!(tm.task(0).syscall_times[SYSCALL_YIELD], 5);
    assert_eq!(tm.task(1).syscall_times[SYSCALL_YIELD], 4);
    assert_eq!(tm.task(2).syscall_times[SYSCALL_YIELD], 4);
    let mut info = blank_info();
    sys_task_info(&tm, &mut info, 20);
    assert_eq!(info.syscall_times[SYSCALL_YIELD], 4);
}

#[test]
fn counting_changes_one_entry_only() {
    let mut tm = booted(2, 0);
    for k in 1..=7u32 {
        record_syscall_times(&mut tm, SYSCALL_GET_TIME);
        let times = get_syscall_times(&tm);
        for (id, &n) in times.iter().enumerate() {
            assert_eq!(n, if id == SYSCALL_GET_TIME { k } else { 0 });
        }
    }
    assert!(tm.task(1).syscall_times.iter().all(|&n| n == 0));
}

#[test]
fn counters_cover_the_first_and_the_last_id() {
    let mut tm = booted(1, 0);
    record_syscall_times(&mut tm, 0);
    record_syscall_times(&mut tm, MAX_SYSCALL_NUM - 1);
    record_syscall_times(&mut tm, MAX_SYSCALL_NUM - 1);
    let times = get_syscall_times(&tm);
    assert_eq!(times[0], 1);
    assert_eq!(times[MAX_SYSCALL_NUM - 1], 2);
    assert_eq!(times.iter().map(|&n| n as u64).sum::<u64>(), 3);
}

#[test]
fn counters_survive_scheduling() {
    let mut tm = booted(2, 0);
    record_syscall_times(&mut tm, 64);
    record_syscall_times(&mut tm, 64);
    sys_yield(&mut tm, 1);
    record_syscall_times(&mut tm, 64);
    assert_eq!(tm.task(0).syscall_times[64], 2);
    assert_eq!(tm.task(1).syscall_times[64], 1);
    sys_exit(&mut tm, 0, 2);
    assert_eq!(tm.task(0).syscall_times[64], 2);
    assert_eq!(tm.task(1).syscall_times[64], 1);
    assert_eq!(get_syscall_times(&tm)[64], 2);
}

#[test]
fn new_manager_starts_counters_from_zero() {
    let mut tm = booted(1, 0);
    record_syscall_times(&mut tm, 93);
    assert_eq!(get_syscall_times(&tm)[93], 1);
    let tm = booted(1, 0);
    assert_eq!(get_syscall_times(&tm)[93], 0);
}

#[test]
fn exit_runs_the_next_task() {
    let mut tm = booted(2, 0);
    assert_eq!(sys_exit(&mut tm, 0, 5), Handoff::Switch { current: 0, next: 1 });
    assert_eq!(tm.task(0).task_status, TaskStatus::Exited);
    assert_eq!(tm.task(1).task_status, TaskStatus::Running);
    assert_eq!(tm.task(1).first_time, Some(5));
}

#[test]
fn exit_code_does_not_matter() {
    let mut a = booted(2, 0);
    let mut b = booted(2, 0);
    assert_eq!(sys_exit(&mut a, 0, 5), sys_exit(&mut b, -1, 5));
    assert_eq!(a.current_task(), b.current_task());
    assert_eq!(a.task(0).task_status, b.task(0).task_status);
}

#[test]
fn exit_of_last_ready_task_halts() {
    let mut tm = booted(3, 0);
    assert_eq!(sys_exit(&mut tm, 0, 1), Handoff::Switch { current: 0, next: 1 });
    assert_eq!(sys_exit(&mut tm, 0, 2), Handoff::Switch { current: 1, next: 2 });
    // Slot 2 is the last task alive.
    assert_eq!(sys_exit(&mut tm, 0, 3), Handoff::Halt);
    for i in 0..3 {
        assert_eq!(tm.task(i).task_status, TaskStatus::Exited);
    }
}

#[test]
fn yield_returns_zero() {
    let mut tm = booted(2, 0);
    let (handoff, ret) = sys_yield(&mut tm, 1);
    assert_eq!(handoff, Handoff::Switch { current: 0, next: 1 });
    assert_eq!(ret, 0);
    assert_eq!(tm.task(0).task_status, TaskStatus::Ready);
}

#[test]
fn get_time_splits_microseconds() {
    let mut ts = TimeVal { sec: 9, usec: 9 };
    assert_eq!(sys_get_time(&mut ts, 0, 1_234_567), 0);
    assert_eq!(ts.sec, 1);
    assert_eq!(ts.usec, 234_567);

    assert_eq!(sys_get_time(&mut ts, 0, 0), 0);
    assert_eq!((ts.sec, ts.usec), (0, 0));

    sys_get_time(&mut ts, 0, 999_999);
    assert_eq!((ts.sec, ts.usec), (0, 999_999));

    sys_get_time(&mut ts, 0, 1_000_000);
    assert_eq!((ts.sec, ts.usec), (1, 0));

    sys_get_time(&mut ts, 7, 3_600_000_001);
    assert_eq!((ts.sec, ts.usec), (3600, 1));
}

#[test]
fn get_time_ignores_the_reserved_argument() {
    let mut a = TimeVal { sec: 0, usec: 0 };
    let mut b = TimeVal { sec: 0, usec: 0 };
    sys_get_time(&mut a, 0, 42_000_042);
    sys_get_time(&mut b, usize::MAX, 42_000_042);
    assert_eq!((a.sec, a.usec), (b.sec, b.usec));
}

#[test]
fn get_time_totals_do_not_decrease() {
    let start = Instant::now();
    let mut first = TimeVal { sec: 0, usec: 0 };
    let mut second = TimeVal { sec: 0, usec: 0 };

    sys_get_time(&mut first, 0, start.elapsed().as_micros() as usize);
    let mut spin = 0u64;
    while start.elapsed().as_micros() < 2_000 {
        spin = spin.wrapping_add(1);
    }
    sys_get_time(&mut second, 0, start.elapsed().as_micros() as usize);

    let total = |tv: &TimeVal| tv.sec * 1_000_000 + tv.usec;
    assert!(total(&first) <= total(&second));
    assert!(total(&second) >= 2_000);
    assert!(first.usec < 1_000_000 && second.usec < 1_000_000);
    assert!(spin > 0);
}

#[test]
fn time_val_prints_its_fields() {
    let tv = TimeVal { sec: 3, usec: 14 };
    assert_eq!(format!("{:?}", tv), "TimeVal { sec: 3, usec: 14 }");
}

#[test]
fn task_info_reports_the_current_task() {
    let mut tm = booted(2, 1_000);
    record_syscall_times(&mut tm, SYSCALL_GET_TIME);
    sys_yield(&mut tm, 1_500);
    record_syscall_times(&mut tm, SYSCALL_TASK_INFO);

    let mut info = blank_info();
    assert_eq!(sys_task_info(&tm, &mut info, 1_800), 0);
    assert_eq!(info.status, TaskStatus::Running);
    assert_eq!(info.time, 300);
    assert_eq!(info.syscall_times[SYSCALL_TASK_INFO], 1);
    assert_eq!(info.syscall_times[SYSCALL_GET_TIME], 0);
    assert_eq!(info.syscall_times.to_vec(), get_syscall_times(&tm).to_vec());
}

#[test]
fn running_time_counts_from_first_dispatch_and_covers_waiting() {
    let mut tm = booted(2, 100);
    assert_eq!(get_current_running_time(&tm, 100), 0);
    assert_eq!(get_current_running_time(&tm, 130), 30);
    sys_yield(&mut tm, 150);
    assert_eq!(get_current_running_time(&tm, 175), 25);
    sys_yield(&mut tm, 400);
    // Slot 0 runs again: the 250 ms it spent waiting are part of its time.
    assert_eq!(tm.current_task(), 0);
    assert_eq!(get_current_running_time(&tm, 450), 350);
}
