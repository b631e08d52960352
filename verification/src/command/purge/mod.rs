//! The purge commands.

pub mod all;
pub mod queue;
