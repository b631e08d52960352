//! Jobs: the record, its fields and its status.

pub mod key;
pub mod rsrq_job;
pub mod status;
