//! Process management syscalls.
//!
//! Each function is what a syscall does once the trap has been decoded. The
//! kernel reads the timer before the call, and after it stores the result in
//! the memory of the caller and carries out the handoff, if there is one.

use vstd::prelude::*;
use crate::config::MAX_SYSCALL_NUM;
use crate::task::{
    exit_current_and_run_next, get_current_running_time, get_status, get_syscall_times,
    suspend_current_and_run_next, Handoff, TaskManager, TaskStatus,
};

verus! {

/// Microseconds in a second.
pub const MICROS_PER_SEC: usize = 1_000_000;

/// A point in time, split into whole seconds and the microseconds beyond
/// them.
#[derive(Debug)]
pub struct TimeVal {
    pub sec: usize,
    pub usec: usize,
}

/// Task information.
pub struct TaskInfo {
    /// Task status in its life cycle.
    pub status: TaskStatus,
    /// How often the task has issued each syscall, by syscall id.
    pub syscall_times: [u32; MAX_SYSCALL_NUM],
    /// Milliseconds since the task was first dispatched.
    pub time: usize,
}

impl TimeVal {
    /// The point in time in microseconds.
    pub open spec fn total_micros(self) -> int {
        self.sec * MICROS_PER_SEC + self.usec
    }
}

/// The current task exits and the next task runs. The exit code is of no
/// consequence to scheduling.
///
/// The exiting task stays `Exited` and is not selected again; see
/// [`crate::task::trace`].
pub fn sys_exit(tm: &mut TaskManager, _exit_code: i32, now_ms: usize) -> (handoff: Handoff)
    ensures
        final(tm)@ == old(tm)@.exit_current_and_run_next(now_ms),
        handoff == old(tm)@.mark_current_exited().next_handoff(),
{
    exit_current_and_run_next(tm, now_ms)
}

/// The current task gives up the processor for other tasks.
///
/// The second component is the value that the syscall returns to the task
/// once it runs again: always 0.
pub fn sys_yield(tm: &mut TaskManager, now_ms: usize) -> (res: (Handoff, isize))
    ensures
        final(tm)@ == old(tm)@.suspend_current_and_run_next(now_ms),
        res.0 == old(tm)@.mark_current_suspended().next_handoff(),
        res.1 == 0,
{
    let handoff = suspend_current_and_run_next(tm, now_ms);
    (handoff, 0)
}

/// Get the time with seconds and microseconds: `now_us`, the reading of the
/// timer in microseconds, is split into `ts`. Returns 0.
pub fn sys_get_time(ts: &mut TimeVal, _tz: usize, now_us: usize) -> (ret: isize)
    ensures
        final(ts).sec == now_us / MICROS_PER_SEC,
        final(ts).usec == now_us % MICROS_PER_SEC,
        final(ts).total_micros() == now_us,
        ret == 0,
{
    *ts = TimeVal { sec: now_us / MICROS_PER_SEC, usec: now_us % MICROS_PER_SEC };
    0
}

/// Report on the current task: its status, its syscall counters, and the
/// milliseconds from its first dispatch to `now_ms`. Returns 0.
pub fn sys_task_info(tm: &TaskManager, ti: &mut TaskInfo, now_ms: usize) -> (ret: isize)
    requires
        tm@.current().first_time is Some,
        tm@.current().first_time.unwrap() <= now_ms,
    ensures
        final(ti).status == tm@.current().task_status,
        final(ti).syscall_times@ == tm@.current().syscall_times,
        final(ti).time == tm@.current_running_time(now_ms),
        ret == 0,
{
    *ti = TaskInfo {
        status: get_status(tm),
        syscall_times: get_syscall_times(tm),
        time: get_current_running_time(tm, now_ms),
    };
    0
}

} // verus!
