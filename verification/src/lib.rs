//! Task-scheduling core of a small cooperative kernel.
//!
//! The crate keeps the task table of a single-processor kernel: the life
//! cycle of every loaded application, the round-robin choice of the task that
//! runs next, and the per-task accounting that the syscall layer reports.
//! Saving and restoring registers, reading the timer and loading applications
//! are the job of the kernel that embeds the crate. Scheduling operations
//! therefore take the current time as an argument and answer with a
//! [`task::Handoff`] that tells the kernel which context switch to perform.

pub mod config;
pub mod syscall;
pub mod task;
