//! Stride scheduling and CPU dispatch for a single-core kernel.
//!
//! - [`config`]: the constants of the policy and of the memory layout.
//! - [`mm`]: a task's address space, as its mapped pages.
//! - [`task`]: the task control block and its share of the CPU.
//! - [`manager`]: the ready pool, which gives each turn to the task with the
//!   least stride.
//! - [`fairness`]: what the policy guarantees over a run of turns.
//! - [`processor`]: the task bound to the CPU, the context records that a
//!   transfer of control exchanges, and the memory-mapping calls.

pub mod config;
pub mod mm;
pub mod task;
pub mod manager;
pub mod fairness;
pub mod processor;
