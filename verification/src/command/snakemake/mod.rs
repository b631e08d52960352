//! The commands that a workflow engine issues: submit, status and cancel, and
//! the profile that makes it issue them.

pub mod cancel;
pub mod config;
pub mod status;
pub mod submit;
