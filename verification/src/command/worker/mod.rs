//! The worker command.

pub mod main;
pub mod run_on_job;
pub mod util;
