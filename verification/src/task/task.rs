//! Task control block and task status.

use vstd::prelude::*;
use crate::config::MAX_SYSCALL_NUM;
use super::context::{TaskContext, TaskContextView};

verus! {

/// Life-cycle state of a task.
///
/// A task is built as `UnInit`, becomes `Ready` as soon as its context is
/// primed, alternates between `Ready` and `Running` while it is scheduled,
/// and ends in `Exited`, which it never leaves.
#[derive(Copy, Clone, Debug, PartialEq, Eq, Structural)]
pub enum TaskStatus {
    /// Built, not yet runnable.
    UnInit,
    /// Eligible for selection.
    Ready,
    /// Holds the processor.
    Running,
    /// Finished for good.
    Exited,
}

/// Per-task record of the task table.
#[derive(Copy, Clone)]
pub struct TaskControlBlock {
    /// Where the task is in its life cycle.
    pub task_status: TaskStatus,
    /// Registers to resume the task from.
    pub task_cx: TaskContext,
    /// How often the task has issued each syscall, by syscall id.
    pub syscall_times: [u32; MAX_SYSCALL_NUM],
    /// Time in milliseconds at which the task first got the processor;
    /// `None` until that happens.
    pub first_time: Option<usize>,
}

/// Mathematical view of a [`TaskControlBlock`].
pub struct TaskControlBlockView {
    pub task_status: TaskStatus,
    pub task_cx: TaskContextView,
    pub syscall_times: Seq<u32>,
    pub first_time: Option<usize>,
}

impl View for TaskControlBlock {
    type V = TaskControlBlockView;

    open spec fn view(&self) -> TaskControlBlockView {
        TaskControlBlockView {
            task_status: self.task_status,
            task_cx: self.task_cx@,
            syscall_times: self.syscall_times@,
            first_time: self.first_time,
        }
    }
}

impl TaskControlBlockView {
    /// The same record with another status.
    pub open spec fn with_status(self, status: TaskStatus) -> Self {
        TaskControlBlockView { task_status: status, ..self }
    }

    /// The record after the task is given the processor at time `now`: it is
    /// `Running`, and `now` becomes its first-dispatch time unless it already
    /// has one.
    pub open spec fn dispatched(self, now: usize) -> Self {
        TaskControlBlockView {
            task_status: TaskStatus::Running,
            first_time: if self.first_time is None {
                Some(now)
            } else {
                self.first_time
            },
            ..self
        }
    }

    /// The record after one more syscall with id `id` is counted.
    pub open spec fn counted(self, id: int) -> Self {
        TaskControlBlockView {
            syscall_times: self.syscall_times.update(id, (self.syscall_times[id] + 1) as u32),
            ..self
        }
    }
}

} // verus!
