//! The data model: errors, queues, jobs, workers and the worker runtime.

pub mod command;
pub mod enqueue_file;
pub mod error;
pub mod job;
pub mod process;
pub mod progress_bar;
pub mod queue;
pub mod store;
pub mod types;
pub mod worker;
