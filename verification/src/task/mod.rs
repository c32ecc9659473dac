//! Task management.
//!
//! [`TaskManager`] owns the task table and carries out every task state
//! transition. The module-level functions are the entry points of the rest
//! of the kernel; each takes the manager it acts on.

pub mod context;
pub mod model;
#[allow(clippy::module_inception)]
pub mod task;
pub mod trace;

use vstd::prelude::*;
use crate::config::{MAX_APP_NUM, MAX_SYSCALL_NUM};

pub use context::TaskContext;
pub use model::TaskManagerView;
pub use task::{TaskControlBlock, TaskControlBlockView, TaskStatus};
pub use trace::Event;

verus! {

/// What the kernel has to do after a scheduling operation.
///
/// The manager only decides; the kernel carries the decision out once it has
/// let go of the manager. After a `Switch` the caller continues only when
/// some later handoff names its task as `next`.
#[derive(Copy, Clone, Debug, PartialEq, Eq, Structural)]
pub enum Handoff {
    /// Resume the task in slot `next` from a scratch context that is never
    /// resumed itself.
    Start { next: usize },
    /// Save the running registers into the context of slot `current` and
    /// resume the task in slot `next`.
    Switch { current: usize, next: usize },
    /// No task is `Ready`: every application has completed and the kernel
    /// halts.
    Halt,
}

/// The task manager, where all the tasks are managed.
///
/// `num_app` is fixed when the manager is built; the table behind `inner`
/// changes as tasks are scheduled. A `&mut TaskManager` is the exclusive
/// access that every change of the table needs.
pub struct TaskManager {
    /// Total number of tasks.
    num_app: usize,
    /// The part that changes while tasks run.
    inner: TaskManagerInner,
}

/// The mutable part of the task manager.
pub struct TaskManagerInner {
    /// Task list.
    tasks: [TaskControlBlock; MAX_APP_NUM],
    /// Slot of the `Running` task.
    current_task: usize,
}

impl View for TaskManager {
    type V = TaskManagerView;

    closed spec fn view(&self) -> TaskManagerView {
        TaskManagerView {
            num_app: self.num_app as nat,
            current_task: self.inner.current_task as nat,
            tasks: Seq::new(MAX_APP_NUM as nat, |i: int| self.inner.tasks[i]@),
        }
    }
}

impl TaskManager {
    /// Well-formedness: the view has the shape of a task table. This is the
    /// type invariant: [`TaskManager::new`] establishes it, every operation
    /// keeps it, and no caller has to ask for it.
    #[verifier::type_invariant]
    pub open spec fn wf(&self) -> bool {
        self@.wf()
    }

    /// Build the manager for `num_app` loaded applications.
    ///
    /// Every slot of the table starts as `UnInit` with a zeroed context and
    /// is primed at once: the context of slot `i` resumes at `restore_entry`
    /// on the kernel stack `kernel_sps[i]`, and the slot becomes `Ready`.
    pub fn new(num_app: usize, restore_entry: usize, kernel_sps: &[usize; MAX_APP_NUM]) -> (tm:
        Self)
        requires
            num_app <= MAX_APP_NUM,
        ensures
            tm@ == TaskManagerView::primed(num_app as nat, restore_entry, kernel_sps@),
            tm@.is_primed(),
    {
        let mut tasks = [TaskControlBlock {
            task_cx: TaskContext::zero_init(),
            task_status: TaskStatus::UnInit,
            syscall_times: [0; MAX_SYSCALL_NUM],
            first_time: None,
        };MAX_APP_NUM];
        let mut i: usize = 0;
        while i < MAX_APP_NUM
            invariant
                i <= MAX_APP_NUM,
                forall|j: int|
                    0 <= j < i ==> (#[trigger] tasks[j])@ == TaskManagerView::primed(
                        num_app as nat,
                        restore_entry,
                        kernel_sps@,
                    ).tasks[j],
                forall|j: int|
                    i <= j < MAX_APP_NUM ==> {
                        &&& (#[trigger] tasks[j]).first_time is None
                        &&& tasks[j].syscall_times@ =~= Seq::new(
                            MAX_SYSCALL_NUM as nat,
                            |l: int| 0u32,
                        )
                    },
            decreases MAX_APP_NUM - i,
        {
            tasks[i].task_cx = TaskContext::goto_restore(restore_entry, kernel_sps[i]);
            tasks[i].task_status = TaskStatus::Ready;
            i += 1;
        }
        let tm = TaskManager { num_app, inner: TaskManagerInner { tasks, current_task: 0 } };
        assert(tm@.tasks =~= TaskManagerView::primed(
            num_app as nat,
            restore_entry,
            kernel_sps@,
        ).tasks);
        tm
    }

    /// Number of loaded applications.
    pub fn num_app(&self) -> (n: usize)
        ensures
            n == self@.num_app,
            n <= MAX_APP_NUM,
    {
        proof {
            use_type_invariant(self);
        }
        self.num_app
    }

    /// Slot of the current task.
    pub fn current_task(&self) -> (id: usize)
        ensures
            id == self@.current_task,
            id < MAX_APP_NUM,
    {
        proof {
            use_type_invariant(self);
        }
        self.inner.current_task
    }

    /// The record of slot `id`.
    pub fn task(&self, id: usize) -> (task: &TaskControlBlock)
        requires
            id < MAX_APP_NUM,
        ensures
            task@ == self@.tasks[id as int],
    {
        &self.inner.tasks[id]
    }

    /// The context of slot `id`, for the switch routine to save into. The
    /// rest of the table stays as it is.
    pub fn task_cx_mut(&mut self, id: usize) -> (cx: &mut TaskContext)
        requires
            id < MAX_APP_NUM,
        ensures
            cx@ == old(self)@.tasks[id as int].task_cx,
            final(self)@.num_app == old(self)@.num_app,
            final(self)@.current_task == old(self)@.current_task,
            final(self)@.tasks == old(self)@.tasks.update(
                id as int,
                TaskControlBlockView { task_cx: final(cx)@, ..old(self)@.tasks[id as int] },
            ),
    {
        proof {
            use_type_invariant(&*self);
        }
        context_slot(&mut self.inner, id)
    }

    /// Whether no task has been dispatched yet, so that
    /// [`TaskManager::run_first_task`] may be called.
    pub fn is_primed(&self) -> (primed: bool)
        ensures
            primed == self@.is_primed(),
    {
        proof {
            use_type_invariant(&*self);
        }
        if self.inner.current_task != 0 {
            return false;
        }
        let mut i: usize = 0;
        while i < MAX_APP_NUM
            invariant
                i <= MAX_APP_NUM,
                self.wf(),
                self.inner.current_task == 0,
                forall|j: int|
                    0 <= j < i ==> {
                        &&& (#[trigger] self@.tasks[j]).task_status == TaskStatus::Ready
                        &&& self@.tasks[j].first_time is None
                    },
            decreases MAX_APP_NUM - i,
        {
            if self.inner.tasks[i].task_status != TaskStatus::Ready
                || self.inner.tasks[i].first_time.is_some() {
                assert(!(self@.tasks[i as int].task_status == TaskStatus::Ready
                    && self@.tasks[i as int].first_time is None));
                return false;
            }
            i += 1;
        }
        true
    }

    /// Count one more syscall with id `syscall_id` for the current task.
    pub fn syscall_count(&mut self, syscall_id: usize)
        requires
            syscall_id < MAX_SYSCALL_NUM,
            old(self)@.current().syscall_times[syscall_id as int] < u32::MAX,
        ensures
            final(self)@ == old(self)@.record_syscall_times(syscall_id as int),
    {
        proof {
            use_type_invariant(&*self);
        }
        let current: usize = self.inner.current_task;
        self.inner.tasks[current].syscall_times[syscall_id] += 1;
        assert(self@.tasks =~= old(self)@.record_syscall_times(syscall_id as int).tasks);
    }

    /// Run the first task in the task list: slot 0 becomes `Running` and
    /// `now_ms` is recorded as its first-dispatch time.
    ///
    /// Called once, on a manager on which nothing has been dispatched yet.
    pub fn run_first_task(&mut self, now_ms: usize) -> (handoff: Handoff)
        requires
            old(self)@.is_primed(),
        ensures
            final(self)@ == old(self)@.run_first_task(now_ms),
            handoff == (Handoff::Start { next: 0 }),
    {
        proof {
            use_type_invariant(&*self);
        }
        self.inner.tasks[0].task_status = TaskStatus::Running;
        self.inner.tasks[0].first_time = Some(now_ms);
        assert(self@.tasks =~= old(self)@.run_first_task(now_ms).tasks);
        Handoff::Start { next: 0 }
    }

    /// Change the status of the current task into `Ready`.
    pub fn mark_current_suspended(&mut self)
        ensures
            final(self)@ == old(self)@.mark_current_suspended(),
    {
        proof {
            use_type_invariant(&*self);
        }
        let current: usize = self.inner.current_task;
        self.inner.tasks[current].task_status = TaskStatus::Ready;
        assert(self@.tasks =~= old(self)@.mark_current_suspended().tasks);
    }

    /// Change the status of the current task into `Exited`.
    pub fn mark_current_exited(&mut self)
        ensures
            final(self)@ == old(self)@.mark_current_exited(),
    {
        proof {
            use_type_invariant(&*self);
        }
        let current: usize = self.inner.current_task;
        self.inner.tasks[current].task_status = TaskStatus::Exited;
        assert(self@.tasks =~= old(self)@.mark_current_exited().tasks);
    }

    /// Find the next task to run: the first `Ready` task after the current
    /// one in round-robin order, the current one last.
    pub fn find_next_task(&self) -> (next: Option<usize>)
        ensures
            match next {
                Some(id) => {
                    &&& self@.find_next_task() == Some(id as int)
                    &&& id < self@.num_app
                    &&& self@.is_ready(id as int)
                },
                None => {
                    &&& self@.find_next_task() is None
                    &&& forall|i: int| 0 <= i < self@.num_app ==> !self@.is_ready(i)
                },
            },
    {
        proof {
            use_type_invariant(&*self);
            self@.lemma_find_next_none();
            if self@.find_next_task() is Some {
                let k: int = self@.lemma_find_next_some();
            }
        }
        let current: usize = self.inner.current_task;
        let mut k: usize = 1;
        while k <= self.num_app
            invariant
                self.wf(),
                current == self.inner.current_task,
                1 <= k <= self.num_app + 1,
                self@.find_next_from(k as int) == self@.find_next_task(),
            decreases self.num_app + 1 - k,
        {
            let id: usize = (current + k) % self.num_app;
            proof {
                self@.lemma_candidate(k as int);
            }
            if self.inner.tasks[id].task_status == TaskStatus::Ready {
                return Some(id);
            }
            k += 1;
        }
        None
    }

    /// Give the processor to the next `Ready` task: it becomes `Running` and
    /// current, and `now_ms` becomes its first-dispatch time if it has none.
    /// The answer names the context switch to perform. Where no task is
    /// `Ready` the table stays as it is and the answer is [`Handoff::Halt`].
    pub fn run_next_task(&mut self, now_ms: usize) -> (handoff: Handoff)
        ensures
            final(self)@ == old(self)@.run_next_task(now_ms),
            handoff == old(self)@.next_handoff(),
            handoff == Handoff::Halt <==> forall|i: int|
                0 <= i < old(self)@.num_app ==> !old(self)@.is_ready(i),
    {
        proof {
            use_type_invariant(&*self);
        }
        if let Some(next) = self.find_next_task() {
            proof {
                let k: int = self@.lemma_find_next_some();
            }
            let current: usize = self.inner.current_task;
            self.inner.tasks[next].task_status = TaskStatus::Running;
            self.inner.current_task = next;
            if self.inner.tasks[next].first_time.is_none() {
                self.inner.tasks[next].first_time = Some(now_ms);
            }
            assert(self@.tasks =~= old(self)@.run_next_task(now_ms).tasks);
            Handoff::Switch { current, next }
        } else {
            Handoff::Halt
        }
    }

    /// The syscall counters of the current task.
    pub fn get_syscall_times(&self) -> (times: [u32; MAX_SYSCALL_NUM])
        ensures
            times@ == self@.current().syscall_times,
    {
        proof {
            use_type_invariant(&*self);
        }
        let current: usize = self.inner.current_task;
        self.inner.tasks[current].syscall_times.clone()
    }

    /// The status of the current task.
    pub fn get_status(&self) -> (status: TaskStatus)
        ensures
            status == self@.current().task_status,
    {
        proof {
            use_type_invariant(&*self);
        }
        let current: usize = self.inner.current_task;
        self.inner.tasks[current].task_status
    }

    /// Milliseconds from the first dispatch of the current task to `now_ms`.
    /// The time that the task spent `Ready` in between is counted too.
    pub fn get_current_running_time(&self, now_ms: usize) -> (elapsed: usize)
        requires
            self@.current().first_time is Some,
            self@.current().first_time.unwrap() <= now_ms,
        ensures
            elapsed == self@.current_running_time(now_ms),
    {
        proof {
            use_type_invariant(&*self);
        }
        let current: usize = self.inner.current_task;
        now_ms - self.inner.tasks[current].first_time.unwrap()
    }
}

/// The context of slot `id` of the table, borrowed for writing.
fn context_slot(inner: &mut TaskManagerInner, id: usize) -> (cx: &mut TaskContext)
    requires
        id < MAX_APP_NUM,
    ensures
        *cx == old(inner).tasks[id as int].task_cx,
        final(inner).current_task == old(inner).current_task,
        final(inner).tasks@ == old(inner).tasks@.update(
            id as int,
            TaskControlBlock { task_cx: *final(cx), ..old(inner).tasks[id as int] },
        ),
    no_unwind
{
    &mut inner.tasks[id].task_cx
}

/// Run the first task in the task list.
pub fn run_first_task(tm: &mut TaskManager, now_ms: usize) -> (handoff: Handoff)
    requires
        old(tm)@.is_primed(),
    ensures
        final(tm)@ == old(tm)@.run_first_task(now_ms),
        handoff == (Handoff::Start { next: 0 }),
{
    tm.run_first_task(now_ms)
}

/// Switch from the current task to the next `Ready` task, or report that
/// every application has completed.
fn run_next_task(tm: &mut TaskManager, now_ms: usize) -> (handoff: Handoff)
    ensures
        final(tm)@ == old(tm)@.run_next_task(now_ms),
        handoff == old(tm)@.next_handoff(),
{
    tm.run_next_task(now_ms)
}

/// Change the status of the current task into `Ready`.
fn mark_current_suspended(tm: &mut TaskManager)
    ensures
        final(tm)@ == old(tm)@.mark_current_suspended(),
{
    tm.mark_current_suspended();
}

/// Change the status of the current task into `Exited`.
fn mark_current_exited(tm: &mut TaskManager)
    ensures
        final(tm)@ == old(tm)@.mark_current_exited(),
{
    tm.mark_current_exited();
}

/// Suspend the current task and run the next task in the task list.
pub fn suspend_current_and_run_next(tm: &mut TaskManager, now_ms: usize) -> (handoff: Handoff)
    ensures
        final(tm)@ == old(tm)@.suspend_current_and_run_next(now_ms),
        handoff == old(tm)@.mark_current_suspended().next_handoff(),
{
    mark_current_suspended(tm);
    run_next_task(tm, now_ms)
}

/// Exit the current task and run the next task in the task list.
pub fn exit_current_and_run_next(tm: &mut TaskManager, now_ms: usize) -> (handoff: Handoff)
    ensures
        final(tm)@ == old(tm)@.exit_current_and_run_next(now_ms),
        handoff == old(tm)@.mark_current_exited().next_handoff(),
{
    mark_current_exited(tm);
    run_next_task(tm, now_ms)
}

/// Count one more syscall with id `syscall_id` for the current task.
pub fn record_syscall_times(tm: &mut TaskManager, syscall_id: usize)
    requires
        syscall_id < MAX_SYSCALL_NUM,
        old(tm)@.current().syscall_times[syscall_id as int] < u32::MAX,
    ensures
        final(tm)@ == old(tm)@.record_syscall_times(syscall_id as int),
{
    tm.syscall_count(syscall_id);
}

/// The syscall counters of the current task.
pub fn get_syscall_times(tm: &TaskManager) -> (times: [u32; MAX_SYSCALL_NUM])
    ensures
        times@ == tm@.current().syscall_times,
{
    tm.get_syscall_times()
}

/// The status of the current task.
pub fn get_status(tm: &TaskManager) -> (status: TaskStatus)
    ensures
        status == tm@.current().task_status,
{
    tm.get_status()
}

/// Milliseconds from the first dispatch of the current task to `now_ms`.
pub fn get_current_running_time(tm: &TaskManager, now_ms: usize) -> (elapsed: usize)
    requires
        tm@.current().first_time is Some,
        tm@.current().first_time.unwrap() <= now_ms,
    ensures
        elapsed == tm@.current_running_time(now_ms),
{
    tm.get_current_running_time(now_ms)
}

} // verus!
