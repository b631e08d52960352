//! Names of the Redis keys.

use vstd::prelude::*;

verus! {

/// Environment variable that holds the Redis connection string.
pub const REDIS_ENV_URL: &'static str = "REDIS_URL";

/// Prefix of the list of running jobs of a queue.
pub const Q_RUNNING: &'static str = "rsrq:running";

/// Prefix of the list of queued jobs of a queue.
pub const Q_QUEUED: &'static str = "rsrq:queued";

/// Prefix of the set of finished jobs of a queue.
pub const Q_FINISHED: &'static str = "rsrq:finished";

/// Prefix of the set of failed jobs of a queue.
pub const Q_FAILED: &'static str = "rsrq:failed";

/// Prefix of the hash of a job.
pub const JOB_KEY: &'static str = "rsrq:job";

/// Prefix of the hash of a worker.
pub const WORKER_KEY: &'static str = "rsrq:worker";

/// Prefix of the hash of a worker process.
pub const PROC_KEY: &'static str = "rsrq:proc";

/// Counter from which job identifiers are drawn.
pub const UID_KEY_JOB: &'static str = "rsrq:uid:job";

/// Counter from which worker identifiers are drawn.
pub const UID_KEY_WORKER: &'static str = "rsrq:uid:worker";

/// Counter from which process identifiers are drawn.
pub const UID_KEY_PROC: &'static str = "rsrq:uid:proc";

} // verus!
