//! A minimal Redis-backed job queue: the data model of queues and jobs, the
//! decisions of the worker runtime, and the command pipelines that move a job
//! from one state to the next.
//!
//! The library computes and decides; it opens no connection, starts no
//! process and reads no clock. Its callers hand it what they read, and send
//! the pipelines that it builds.

pub mod command;
pub mod config;
pub mod model;
pub mod util;
