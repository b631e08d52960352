//! Worker processes: the record, its fields and its state.

pub mod rsrq_process;
pub mod rsrq_process_key;
pub mod rsrq_process_state;
