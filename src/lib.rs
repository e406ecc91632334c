//! Task scheduling and syscall dispatch for a single-core batch kernel.
//!
//! The scheduler is an explicitly owned [`task::TaskManager`]; every decision
//! it takes is a verified function from state (and a clock reading) to the
//! next state and an action that the platform layer carries out.
pub mod config;
pub mod task;
pub mod syscall;
pub mod theorems;
