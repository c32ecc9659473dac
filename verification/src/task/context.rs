//! The saved execution context of a task.

use vstd::prelude::*;

verus! {

/// Number of callee-saved registers kept in a context.
pub const SAVED_REGS: usize = 12;

/// Number of machine words in a context: the resume address, the stack
/// pointer and the callee-saved registers.
pub const CONTEXT_WORDS: usize = 14;

/// Register snapshot from which a suspended task resumes.
///
/// The scheduler never looks inside a context. It stores one per task and
/// hands the slots of the outgoing and the incoming task to the switch
/// routine, which overwrites the former and reads the latter.
///
/// A context is one array of words, so that the switch routine finds every
/// register at a fixed place: word 0 is the address at which execution
/// resumes, word 1 the kernel stack pointer, and the words from 2 on are the
/// callee-saved registers in order.
#[derive(Copy, Clone)]
pub struct TaskContext {
    pub regs: [usize; CONTEXT_WORDS],
}

/// Mathematical view of a [`TaskContext`].
pub struct TaskContextView {
    /// Address at which execution resumes.
    pub ra: usize,
    /// Kernel stack pointer.
    pub sp: usize,
    /// Callee-saved registers.
    pub s: Seq<usize>,
}

impl TaskContextView {
    /// The context whose resume address is `ra`, whose stack pointer is `sp`
    /// and whose saved registers are all zero.
    pub open spec fn cleared(ra: usize, sp: usize) -> Self {
        TaskContextView { ra, sp, s: Seq::new(SAVED_REGS as nat, |i: int| 0usize) }
    }
}

impl View for TaskContext {
    type V = TaskContextView;

    open spec fn view(&self) -> TaskContextView {
        TaskContextView {
            ra: self.regs[0],
            sp: self.regs[1],
            s: self.regs@.subrange(2, CONTEXT_WORDS as int),
        }
    }
}

impl TaskContext {
    /// A context with every register zero.
    pub fn zero_init() -> (cx: Self)
        ensures
            cx@ == TaskContextView::cleared(0, 0),
    {
        let cx = TaskContext { regs: [0; CONTEXT_WORDS] };
        assert(cx@.s =~= Seq::new(SAVED_REGS as nat, |i: int| 0usize));
        cx
    }

    /// The context of a task that has not run yet: resuming it enters the
    /// trap-return path at `restore_entry` on the kernel stack `kstack_ptr`,
    /// where the initial trap frame of the task lies.
    pub fn goto_restore(restore_entry: usize, kstack_ptr: usize) -> (cx: Self)
        ensures
            cx@ == TaskContextView::cleared(restore_entry, kstack_ptr),
    {
        let mut regs = [0usize; CONTEXT_WORDS];
        regs[0] = restore_entry;
        regs[1] = kstack_ptr;
        let cx = TaskContext { regs };
        assert(cx@.s =~= Seq::new(SAVED_REGS as nat, |i: int| 0usize));
        cx
    }

    /// Address at which execution resumes.
    pub fn ra(&self) -> (ra: usize)
        ensures
            ra == self@.ra,
    {
        self.regs[0]
    }

    /// Kernel stack pointer.
    pub fn sp(&self) -> (sp: usize)
        ensures
            sp == self@.sp,
    {
        self.regs[1]
    }
}

} // verus!
