//! Workers: records, messages, results and the pool.

pub mod key;
pub mod message;
pub mod pool;
pub mod result;
pub mod rsrq_worker;
