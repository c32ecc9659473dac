//! The task table as a mathematical value, and the scheduling operations as
//! functions on it.
//!
//! Every operation of [`super::TaskManager`] changes the view of the manager
//! as one function on [`TaskManagerView`] says; where the two can share a
//! name they do.

use vstd::prelude::*;
use vstd::arithmetic::div_mod::lemma_fundamental_div_mod_converse;
use crate::config::{MAX_APP_NUM, MAX_SYSCALL_NUM};
use super::Handoff;
use super::context::TaskContextView;
use super::task::{TaskControlBlockView, TaskStatus};

verus! {

/// Mathematical view of a [`super::TaskManager`].
pub struct TaskManagerView {
    /// Number of loaded applications: slots `0 .. num_app` take part in
    /// scheduling.
    pub num_app: nat,
    /// Slot of the task that holds the processor.
    pub current_task: nat,
    /// All slots of the table, loaded or not.
    pub tasks: Seq<TaskControlBlockView>,
}

impl TaskManagerView {
    /// Shape of every task table: full capacity, no more applications than
    /// slots, counters for every syscall id, and a current slot that belongs
    /// to a loaded application (slot 0 where none is loaded).
    pub open spec fn wf(self) -> bool {
        &&& self.tasks.len() == MAX_APP_NUM
        &&& self.num_app <= MAX_APP_NUM
        &&& (self.current_task < self.num_app || self.current_task == 0)
        &&& forall|i: int|
            0 <= i < MAX_APP_NUM ==> (#[trigger] self.tasks[i]).syscall_times.len()
                == MAX_SYSCALL_NUM
    }

    /// The table as it is built for `num_app` applications: every slot is
    /// `Ready` with zeroed counters and no first-dispatch time, slot `i`
    /// resumes at `restore_entry` on the stack `kernel_sps[i]`, and slot 0 is
    /// current.
    pub open spec fn primed(num_app: nat, restore_entry: usize, kernel_sps: Seq<usize>) -> Self {
        TaskManagerView {
            num_app,
            current_task: 0,
            tasks: Seq::new(
                MAX_APP_NUM as nat,
                |i: int|
                    TaskControlBlockView {
                        task_status: TaskStatus::Ready,
                        task_cx: TaskContextView::cleared(restore_entry, kernel_sps[i]),
                        syscall_times: Seq::new(MAX_SYSCALL_NUM as nat, |j: int| 0u32),
                        first_time: None,
                    },
            ),
        }
    }

    /// No task has been dispatched yet: every slot is `Ready` without a
    /// first-dispatch time, and slot 0 is current.
    pub open spec fn is_primed(self) -> bool {
        &&& self.wf()
        &&& self.current_task == 0
        &&& forall|i: int|
            0 <= i < MAX_APP_NUM ==> {
                &&& (#[trigger] self.tasks[i]).task_status == TaskStatus::Ready
                &&& self.tasks[i].first_time is None
            }
    }

    /// Record of the current task.
    pub open spec fn current(self) -> TaskControlBlockView {
        self.tasks[self.current_task as int]
    }

    /// Whether slot `i` holds a `Ready` task.
    pub open spec fn is_ready(self, i: int) -> bool {
        self.tasks[i].task_status == TaskStatus::Ready
    }

    /// The table with the record of slot `i` replaced.
    pub open spec fn with_task(self, i: int, task: TaskControlBlockView) -> Self {
        TaskManagerView { tasks: self.tasks.update(i, task), ..self }
    }

    /// The current task becomes `Ready`; nothing else changes.
    pub open spec fn mark_current_suspended(self) -> Self {
        self.with_task(self.current_task as int, self.current().with_status(TaskStatus::Ready))
    }

    /// The current task becomes `Exited`; nothing else changes.
    pub open spec fn mark_current_exited(self) -> Self {
        self.with_task(self.current_task as int, self.current().with_status(TaskStatus::Exited))
    }

    /// The slot that the round-robin scan visits at step `k`. The scan takes
    /// the steps `1 ..= num_app`: it starts just after the current slot,
    /// wraps around, and visits the current slot last.
    pub open spec fn candidate(self, k: int) -> int {
        (self.current_task + k) % (self.num_app as int)
    }

    /// First `Ready` slot that the scan meets from step `k` on.
    pub open spec fn find_next_from(self, k: int) -> Option<int>
        decreases self.num_app + 1 - k,
    {
        if k > self.num_app {
            None
        } else if self.is_ready(self.candidate(k)) {
            Some(self.candidate(k))
        } else {
            self.find_next_from(k + 1)
        }
    }

    /// The task to run next: the first `Ready` slot in scan order, if any.
    pub open spec fn find_next_task(self) -> Option<int> {
        self.find_next_from(1)
    }

    /// Slot `next` gets the processor at time `now`.
    pub open spec fn dispatch(self, next: int, now: usize) -> Self {
        TaskManagerView {
            current_task: next as nat,
            tasks: self.tasks.update(next, self.tasks[next].dispatched(now)),
            ..self
        }
    }

    /// The first task is started at time `now`.
    pub open spec fn run_first_task(self, now: usize) -> Self {
        self.dispatch(0, now)
    }

    /// The next `Ready` task, if there is one, is dispatched at time `now`;
    /// otherwise the table stays as it is.
    pub open spec fn run_next_task(self, now: usize) -> Self {
        match self.find_next_task() {
            Some(next) => self.dispatch(next, now),
            None => self,
        }
    }

    /// What [`Self::run_next_task`] asks of the kernel.
    pub open spec fn next_handoff(self) -> Handoff {
        match self.find_next_task() {
            Some(next) => Handoff::Switch {
                current: self.current_task as usize,
                next: next as usize,
            },
            None => Handoff::Halt,
        }
    }

    /// The current task yields at time `now`.
    pub open spec fn suspend_current_and_run_next(self, now: usize) -> Self {
        self.mark_current_suspended().run_next_task(now)
    }

    /// The current task exits at time `now`.
    pub open spec fn exit_current_and_run_next(self, now: usize) -> Self {
        self.mark_current_exited().run_next_task(now)
    }

    /// One more syscall with id `id` is counted for the current task.
    pub open spec fn record_syscall_times(self, id: int) -> Self {
        self.with_task(self.current_task as int, self.current().counted(id))
    }

    /// Milliseconds from the first dispatch of the current task to `now`.
    pub open spec fn current_running_time(self, now: usize) -> int {
        now - self.current().first_time.unwrap()
    }

    /// Step `k` of the scan lands on slot `current_task + k`, wrapped once.
    pub proof fn lemma_candidate(self, k: int)
        requires
            self.wf(),
            0 <= k <= self.num_app,
            0 < self.num_app,
        ensures
            0 <= self.candidate(k) < self.num_app,
            self.candidate(k) == if self.current_task + k < self.num_app {
                self.current_task + k
            } else {
                self.current_task + k - self.num_app
            },
    {
        let n: int = self.num_app as int;
        let x: int = self.current_task + k;
        if x < n {
            lemma_fundamental_div_mod_converse(x, n, 0, x);
        } else {
            lemma_fundamental_div_mod_converse(x, n, 1, x - n);
        }
    }

    /// Every loaded slot is visited by exactly one step of the scan.
    pub proof fn lemma_scan_covers(self, i: int) -> (k: int)
        requires
            self.wf(),
            0 <= i < self.num_app,
        ensures
            1 <= k <= self.num_app,
            self.candidate(k) == i,
            forall|j: int| 1 <= j <= self.num_app && self.candidate(j) == i ==> j == k,
    {
        let k: int = if i > self.current_task {
            i - self.current_task
        } else {
            i - self.current_task + self.num_app
        };
        self.lemma_candidate(k);
        assert forall|j: int| 1 <= j <= self.num_app && self.candidate(j) == i implies j == k by {
            self.lemma_candidate(j);
        }
        k
    }

    /// What the scan from step `k` finds: the slot of the first step at or
    /// after `k` that lands on a `Ready` task, and nothing exactly when none
    /// of those steps does.
    pub proof fn lemma_find_next_from(self, k: int)
        requires
            self.wf(),
            1 <= k <= self.num_app + 1,
        ensures
            match self.find_next_from(k) {
                Some(next) => exists|j: int|
                    {
                        &&& k <= j <= self.num_app
                        &&& next == #[trigger] self.candidate(j)
                        &&& self.is_ready(next)
                        &&& forall|l: int| k <= l < j ==> !self.is_ready(#[trigger] self.candidate(l))
                    },
                None => forall|j: int|
                    k <= j <= self.num_app ==> !self.is_ready(#[trigger] self.candidate(j)),
            },
        decreases self.num_app + 1 - k,
    {
        if k > self.num_app {
        } else if self.is_ready(self.candidate(k)) {
            assert(self.find_next_from(k) == Some(self.candidate(k)));
        } else {
            self.lemma_find_next_from(k + 1);
            if let Some(next) = self.find_next_from(k + 1) {
                let j: int = choose|j: int|
                    {
                        &&& k + 1 <= j <= self.num_app
                        &&& next == #[trigger] self.candidate(j)
                        &&& self.is_ready(next)
                        &&& forall|l: int|
                            k + 1 <= l < j ==> !self.is_ready(#[trigger] self.candidate(l))
                    };
                assert forall|l: int| k <= l < j implies !self.is_ready(
                    #[trigger] self.candidate(l),
                ) by {}
            }
        }
    }

    /// The task that is found is a loaded, `Ready` task, and it is the first
    /// such task in scan order.
    pub proof fn lemma_find_next_some(self) -> (k: int)
        requires
            self.wf(),
            self.find_next_task() is Some,
        ensures
            1 <= k <= self.num_app,
            self.find_next_task() == Some(self.candidate(k)),
            0 <= self.candidate(k) < self.num_app,
            self.is_ready(self.candidate(k)),
            forall|j: int| 1 <= j < k ==> !self.is_ready(#[trigger] self.candidate(j)),
    {
        self.lemma_find_next_from(1);
        let next: int = self.find_next_task().unwrap();
        let k: int = choose|j: int|
            {
                &&& 1 <= j <= self.num_app
                &&& next == #[trigger] self.candidate(j)
                &&& self.is_ready(next)
                &&& forall|l: int| 1 <= l < j ==> !self.is_ready(#[trigger] self.candidate(l))
            };
        self.lemma_candidate(k);
        k
    }

    /// No task is found exactly when no loaded task is `Ready`.
    pub proof fn lemma_find_next_none(self)
        requires
            self.wf(),
        ensures
            self.find_next_task() is None <==> forall|i: int|
                0 <= i < self.num_app ==> !self.is_ready(i),
    {
        self.lemma_find_next_from(1);
        if self.find_next_task() is None {
            assert forall|i: int| 0 <= i < self.num_app implies !self.is_ready(i) by {
                let k: int = self.lemma_scan_covers(i);
                assert(!self.is_ready(self.candidate(k)));
            }
        } else {
            let k: int = self.lemma_find_next_some();
        }
    }

    /// What the handoff of a scheduling attempt says: a switch leads from
    /// the current slot to a loaded `Ready` task, and the kernel is asked to
    /// halt exactly when no loaded task is `Ready`.
    pub proof fn lemma_next_handoff(self)
        requires
            self.wf(),
        ensures
            match self.next_handoff() {
                Handoff::Switch { current, next } => {
                    &&& current == self.current_task
                    &&& next < self.num_app
                    &&& self.is_ready(next as int)
                    &&& self.find_next_task() == Some(next as int)
                },
                Handoff::Halt => forall|i: int| 0 <= i < self.num_app ==> !self.is_ready(i),
                Handoff::Start { next } => false,
            },
    {
        self.lemma_find_next_none();
        if self.find_next_task() is Some {
            let k: int = self.lemma_find_next_some();
        }
    }
}

} // verus!
