//! Cooperative kernel-thread scheduling: processor contexts, kernel threads
//! with dedicated stacks, and a round-robin scheduler.
//!
//! The actual control transfer between contexts is a platform primitive that
//! lives outside this library; the library owns the data model and every
//! scheduling decision.

pub mod context;
pub mod kernel_thread;
pub mod round_robin;
pub mod task_id;
pub mod thread_scheduler;
