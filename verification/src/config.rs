//! Build-time limits of the task table.

use vstd::prelude::*;

verus! {

/// Capacity of the task table.
pub const MAX_APP_NUM: usize = 16;

/// Length of every per-task syscall counter array; valid syscall ids lie below it.
pub const MAX_SYSCALL_NUM: usize = 500;

} // verus!
