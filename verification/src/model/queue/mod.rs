//! Queues: the four state containers of a queue name.

pub mod queue_type;
pub mod rsrq_queue;
