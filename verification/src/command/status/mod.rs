//! The status command.

pub mod check_status;
