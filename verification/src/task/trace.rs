//! Runs of the scheduler.
//!
//! Between two scheduling operations one task holds the processor, and what
//! it does reaches the manager as an [`Event`]. This module states what
//! holds of the task table at every such moment, whatever the tasks do, and
//! proves it from the definitions in [`super::model`].

use vstd::prelude::*;
use vstd::arithmetic::div_mod::lemma_add_mod_noop_right;
use crate::config::{MAX_APP_NUM, MAX_SYSCALL_NUM};
use super::Handoff;
use super::model::TaskManagerView;
use super::task::TaskStatus;

verus! {

/// Something the running task does that reaches the manager.
pub enum Event {
    /// It issues the syscall with id `id`, which is counted.
    Syscall { id: usize },
    /// It yields at time `now`.
    Yield { now: usize },
    /// It exits at time `now`.
    Exit { now: usize },
}

/// Every event of `es` is a yield.
pub open spec fn all_yields(es: Seq<Event>) -> bool {
    forall|j: int| 0 <= j < es.len() ==> (#[trigger] es[j]) is Yield
}

impl TaskManagerView {
    /// One task holds the processor. This is the state of the table whenever
    /// a task runs:
    /// the current slot belongs to a loaded application and is the only
    /// `Running` one, no loaded task is `UnInit`, a task that runs or has
    /// exited has a first-dispatch time, and the slots beyond the loaded
    /// applications are as they were built.
    pub open spec fn scheduled(self) -> bool {
        &&& self.wf()
        &&& self.current_task < self.num_app
        &&& forall|i: int|
            0 <= i < MAX_APP_NUM ==> ((#[trigger] self.tasks[i]).task_status == TaskStatus::Running
                <==> i == self.current_task)
        &&& forall|i: int|
            0 <= i < self.num_app ==> (#[trigger] self.tasks[i]).task_status != TaskStatus::UnInit
        &&& forall|i: int|
            0 <= i < MAX_APP_NUM && ((#[trigger] self.tasks[i]).task_status == TaskStatus::Running
                || self.tasks[i].task_status == TaskStatus::Exited)
                ==> self.tasks[i].first_time is Some
        &&& forall|i: int|
            self.num_app <= i < MAX_APP_NUM ==> {
                &&& (#[trigger] self.tasks[i]).task_status == TaskStatus::Ready
                &&& self.tasks[i].first_time is None
            }
    }

    /// No loaded application has exited.
    pub open spec fn all_alive(self) -> bool {
        forall|i: int|
            0 <= i < self.num_app ==> (#[trigger] self.tasks[i]).task_status != TaskStatus::Exited
    }

    /// Nothing runs, as between the moment the current task is marked and the
    /// moment the next one is dispatched; the rest is as in
    /// [`Self::scheduled`].
    spec fn parked(self) -> bool {
        &&& self.wf()
        &&& forall|i: int|
            0 <= i < MAX_APP_NUM ==> (#[trigger] self.tasks[i]).task_status != TaskStatus::Running
        &&& forall|i: int|
            0 <= i < self.num_app ==> (#[trigger] self.tasks[i]).task_status != TaskStatus::UnInit
        &&& forall|i: int|
            0 <= i < MAX_APP_NUM && (#[trigger] self.tasks[i]).task_status == TaskStatus::Exited
                ==> self.tasks[i].first_time is Some
        &&& forall|i: int|
            self.num_app <= i < MAX_APP_NUM ==> {
                &&& (#[trigger] self.tasks[i]).task_status == TaskStatus::Ready
                &&& self.tasks[i].first_time is None
            }
    }

    /// Every loaded application has exited and nothing runs: the state in
    /// which the kernel halts.
    pub open spec fn finished(self) -> bool {
        &&& self.wf()
        &&& forall|i: int|
            0 <= i < self.num_app ==> (#[trigger] self.tasks[i]).task_status == TaskStatus::Exited
        &&& forall|i: int|
            0 <= i < MAX_APP_NUM ==> (#[trigger] self.tasks[i]).task_status != TaskStatus::Running
    }

    /// The event can be handled and leaves a task running: a counted syscall
    /// has a valid id and a counter with room left, and an exit is not the
    /// exit of the last task that is alive.
    pub open spec fn accepts(self, e: Event) -> bool {
        match e {
            Event::Syscall { id } => id < MAX_SYSCALL_NUM && self.current().syscall_times[id as int]
                < u32::MAX,
            Event::Yield { now } => self.mark_current_suspended().find_next_task() is Some,
            Event::Exit { now } => self.mark_current_exited().find_next_task() is Some,
        }
    }

    /// The table after the event.
    pub open spec fn step(self, e: Event) -> Self {
        match e {
            Event::Syscall { id } => self.record_syscall_times(id as int),
            Event::Yield { now } => self.suspend_current_and_run_next(now),
            Event::Exit { now } => self.exit_current_and_run_next(now),
        }
    }

    /// The table after the events of `es`, in order.
    pub open spec fn after(self, es: Seq<Event>) -> Self
        decreases es.len(),
    {
        if es.len() == 0 {
            self
        } else {
            self.after(es.drop_last()).step(es.last())
        }
    }

    /// Every event of `es` is accepted by the table that it meets.
    pub open spec fn accepts_all(self, es: Seq<Event>) -> bool
        decreases es.len(),
    {
        es.len() == 0 || (self.accepts_all(es.drop_last()) && self.after(es.drop_last()).accepts(
            es.last(),
        ))
    }

    /// How many events of `es` are a syscall with id `id` issued while slot
    /// `task` was current.
    pub open spec fn issued(self, es: Seq<Event>, task: int, id: usize) -> nat
        decreases es.len(),
    {
        if es.len() == 0 {
            0
        } else {
            let counts = es.last() == (Event::Syscall { id }) && self.after(
                es.drop_last(),
            ).current_task == task;
            self.issued(es.drop_last(), task, id) + if counts {
                1nat
            } else {
                0nat
            }
        }
    }

    /// Starting the first task of a freshly built table with at least one
    /// application leaves exactly that task running, with every application
    /// alive.
    pub proof fn lemma_first_task_is_scheduled(self, now: usize)
        requires
            self.is_primed(),
            0 < self.num_app,
        ensures
            self.run_first_task(now).scheduled(),
            self.run_first_task(now).all_alive(),
            self.run_first_task(now).current_task == 0,
            self.run_first_task(now).tasks[0].first_time == Some(now),
    {
    }

    /// A yield never halts the kernel: the yielding task itself is `Ready`
    /// and is found if no other task is.
    pub proof fn lemma_yield_finds_a_task(self)
        requires
            self.scheduled(),
        ensures
            self.mark_current_suspended().find_next_task() is Some,
    {
        let s = self.mark_current_suspended();
        s.lemma_find_next_none();
        assert(s.is_ready(self.current_task as int));
    }

    /// Dispatching a loaded `Ready` task of a table in which nothing runs
    /// leaves exactly that task running.
    proof fn lemma_dispatch_is_scheduled(self, next: int, now: usize)
        requires
            self.parked(),
            0 <= next < self.num_app,
            self.is_ready(next),
        ensures
            self.dispatch(next, now).scheduled(),
    {
    }

    /// An accepted event leaves one task holding the processor.
    pub proof fn lemma_step_keeps_scheduled(self, e: Event)
        requires
            self.scheduled(),
            self.accepts(e),
        ensures
            self.step(e).scheduled(),
    {
        match e {
            Event::Syscall { id } => {},
            Event::Yield { now } => {
                let s = self.mark_current_suspended();
                let k: int = s.lemma_find_next_some();
                s.lemma_dispatch_is_scheduled(s.candidate(k), now);
            },
            Event::Exit { now } => {
                let s = self.mark_current_exited();
                let k: int = s.lemma_find_next_some();
                s.lemma_dispatch_is_scheduled(s.candidate(k), now);
            },
        }
    }

    /// Exclusivity: as long as the kernel has not halted, exactly one task is
    /// `Running`, and it is the current one.
    pub proof fn lemma_exactly_one_running(self, es: Seq<Event>)
        requires
            self.scheduled(),
            self.accepts_all(es),
        ensures
            self.after(es).scheduled(),
            forall|i: int|
                0 <= i < MAX_APP_NUM ==> (self.after(es).tasks[i].task_status == TaskStatus::Running
                    <==> i == self.after(es).current_task),
        decreases es.len(),
    {
        if es.len() > 0 {
            self.lemma_exactly_one_running(es.drop_last());
            self.after(es.drop_last()).lemma_step_keeps_scheduled(es.last());
        }
    }

    /// An exit that finds no `Ready` task is the exit of the last task alive:
    /// the kernel is asked to halt, every loaded application has exited and
    /// nothing runs.
    pub proof fn lemma_last_exit_halts(self, now: usize)
        requires
            self.scheduled(),
            !self.accepts(Event::Exit { now }),
        ensures
            self.mark_current_exited().next_handoff() == Handoff::Halt,
            self.exit_current_and_run_next(now) == self.mark_current_exited(),
            self.exit_current_and_run_next(now).finished(),
    {
        let s = self.mark_current_exited();
        s.lemma_find_next_none();
        assert forall|i: int| 0 <= i < s.num_app implies (#[trigger] s.tasks[i]).task_status
            == TaskStatus::Exited by {
            assert(!s.is_ready(i));
            if i != self.current_task {
                assert(s.tasks[i] == self.tasks[i]);
            }
        }
    }

    /// Termination: once every loaded application has exited, a scheduling
    /// attempt selects no task, leaves the table as it is and asks the
    /// kernel to halt.
    pub proof fn lemma_all_exited_halts(self, now: usize)
        requires
            self.wf(),
            forall|i: int|
                0 <= i < self.num_app ==> (#[trigger] self.tasks[i]).task_status
                    == TaskStatus::Exited,
        ensures
            self.find_next_task() is None,
            self.run_next_task(now) == self,
            self.next_handoff() == Handoff::Halt,
    {
        self.lemma_find_next_none();
    }

    /// The number of applications never changes.
    pub proof fn lemma_num_app_is_fixed(self, es: Seq<Event>)
        ensures
            self.after(es).num_app == self.num_app,
        decreases es.len(),
    {
        if es.len() > 0 {
            self.lemma_num_app_is_fixed(es.drop_last());
        }
    }

    /// An accepted event keeps the shape of the table.
    pub proof fn lemma_step_keeps_wf(self, e: Event)
        requires
            self.wf(),
            self.accepts(e),
        ensures
            self.step(e).wf(),
    {
        match e {
            Event::Syscall { id } => {},
            Event::Yield { now } => {
                let k: int = self.mark_current_suspended().lemma_find_next_some();
            },
            Event::Exit { now } => {
                let k: int = self.mark_current_exited().lemma_find_next_some();
            },
        }
    }

    /// Accepted events keep the shape of the table.
    pub proof fn lemma_after_keeps_wf(self, es: Seq<Event>)
        requires
            self.wf(),
            self.accepts_all(es),
        ensures
            self.after(es).wf(),
        decreases es.len(),
    {
        if es.len() > 0 {
            self.lemma_after_keeps_wf(es.drop_last());
            self.after(es.drop_last()).lemma_step_keeps_wf(es.last());
        }
    }

    /// First-dispatch stability: a first-dispatch time that has been set is
    /// the same after any further events, however many other tasks are
    /// scheduled in between.
    pub proof fn lemma_first_time_is_stable(self, es: Seq<Event>, task: int)
        requires
            self.wf(),
            self.accepts_all(es),
            0 <= task < MAX_APP_NUM,
            self.tasks[task].first_time is Some,
        ensures
            self.after(es).tasks[task].first_time == self.tasks[task].first_time,
        decreases es.len(),
    {
        if es.len() > 0 {
            let before = self.after(es.drop_last());
            self.lemma_first_time_is_stable(es.drop_last(), task);
            self.lemma_after_keeps_wf(es.drop_last());
            match es.last() {
                Event::Syscall { id } => {},
                Event::Yield { now } => {
                    let k: int = before.mark_current_suspended().lemma_find_next_some();
                },
                Event::Exit { now } => {
                    let k: int = before.mark_current_exited().lemma_find_next_some();
                },
            }
        }
    }

    /// Counters count: after any events, the counter of a task for a syscall
    /// id has grown by the number of syscalls with that id that the task
    /// issued, and by nothing else. So no counter ever decreases, scheduling
    /// changes none, and a syscall changes one entry of one task only.
    pub proof fn lemma_counters_count_issued(self, es: Seq<Event>, task: int, id: usize)
        requires
            self.wf(),
            self.accepts_all(es),
            0 <= task < MAX_APP_NUM,
            id < MAX_SYSCALL_NUM,
        ensures
            self.after(es).tasks[task].syscall_times[id as int]
                == self.tasks[task].syscall_times[id as int] + self.issued(es, task, id),
        decreases es.len(),
    {
        if es.len() > 0 {
            let before = self.after(es.drop_last());
            self.lemma_counters_count_issued(es.drop_last(), task, id);
            self.lemma_after_keeps_wf(es.drop_last());
            match es.last() {
                Event::Syscall { id: issued_id } => {},
                Event::Yield { now } => {
                    let k: int = before.mark_current_suspended().lemma_find_next_some();
                },
                Event::Exit { now } => {
                    let k: int = before.mark_current_exited().lemma_find_next_some();
                },
            }
        }
    }

    /// `Exited` is final: a task that has exited stays so whatever happens
    /// afterwards.
    pub proof fn lemma_exited_is_final(self, es: Seq<Event>, task: int)
        requires
            self.scheduled(),
            self.accepts_all(es),
            0 <= task < MAX_APP_NUM,
            self.tasks[task].task_status == TaskStatus::Exited,
        ensures
            self.after(es).tasks[task].task_status == TaskStatus::Exited,
        decreases es.len(),
    {
        if es.len() > 0 {
            let before = self.after(es.drop_last());
            self.lemma_exited_is_final(es.drop_last(), task);
            self.lemma_exactly_one_running(es.drop_last());
            match es.last() {
                Event::Syscall { id } => {},
                Event::Yield { now } => {
                    let k: int = before.mark_current_suspended().lemma_find_next_some();
                },
                Event::Exit { now } => {
                    let k: int = before.mark_current_exited().lemma_find_next_some();
                },
            }
        }
    }

    /// While every loaded application is alive, a yield hands the processor
    /// to the very next slot, wrapping around after the last one.
    pub proof fn lemma_yield_runs_next_slot(self, now: usize)
        requires
            self.scheduled(),
            self.all_alive(),
        ensures
            self.accepts(Event::Yield { now }),
            self.suspend_current_and_run_next(now).current_task == self.candidate(1),
            self.suspend_current_and_run_next(now).scheduled(),
            self.suspend_current_and_run_next(now).all_alive(),
    {
        let s = self.mark_current_suspended();
        s.lemma_candidate(1);
        self.lemma_step_keeps_scheduled(Event::Yield { now });
    }

    /// Round-robin order: while every loaded application is alive, `n`
    /// yields in a row move the processor `n` slots ahead, counted modulo
    /// the number of applications.
    pub proof fn lemma_round_robin(self, es: Seq<Event>)
        requires
            self.scheduled(),
            self.all_alive(),
            all_yields(es),
        ensures
            self.accepts_all(es),
            self.after(es).current_task == self.candidate(es.len() as int),
            self.after(es).scheduled(),
            self.after(es).all_alive(),
        decreases es.len(),
    {
        let n: int = self.num_app as int;
        if es.len() == 0 {
            self.lemma_candidate(0);
        } else {
            let now: usize = es.last()->Yield_now;
            assert(es.last() == Event::Yield { now });
            self.lemma_round_robin(es.drop_last());
            self.lemma_num_app_is_fixed(es.drop_last());
            let before = self.after(es.drop_last());
            before.lemma_yield_runs_next_slot(now);
            assert(before.candidate(1) == self.candidate(es.len() as int)) by {
                lemma_add_mod_noop_right(1, self.current_task + es.len() - 1, n);
            }
        }
    }

    /// Round-robin completeness: while every loaded application is alive, a
    /// full cycle of yields, one per application, gives the processor to
    /// every application exactly once, and the cycle ends where it began.
    /// The answer is the number of yields after which `task` runs.
    pub proof fn lemma_full_cycle_runs_each_once(self, es: Seq<Event>, task: int) -> (k: int)
        requires
            self.scheduled(),
            self.all_alive(),
            all_yields(es),
            es.len() == self.num_app,
            0 <= task < self.num_app,
        ensures
            1 <= k <= self.num_app,
            self.after(es.take(k)).current_task == task,
            forall|j: int|
                1 <= j <= self.num_app && self.after(#[trigger] es.take(j)).current_task == task
                    ==> j == k,
            self.after(es).current_task == self.current_task,
    {
        let k: int = self.lemma_scan_covers(task);
        assert forall|j: int| 1 <= j <= self.num_app implies self.after(
            #[trigger] es.take(j),
        ).current_task == self.candidate(j) by {
            self.lemma_round_robin(es.take(j));
        }
        self.lemma_round_robin(es);
        self.lemma_candidate(self.num_app as int);
        k
    }
}

} // verus!
