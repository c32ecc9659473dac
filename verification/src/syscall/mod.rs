//! Syscalls that reach the scheduler.

pub mod process;
