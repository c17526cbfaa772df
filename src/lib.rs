//! A database-backed background task queue: the scheduling and execution
//! engine, with its task state machine, schedule resolution, exclusive claim
//! protocol, retry policy, idle backoff and retention rule.

pub mod retention;
pub mod schedule;
pub mod scheduler;
pub mod sleep;
pub mod store;
pub mod task;
pub mod worker;

pub use retention::RetentionMode;
pub use schedule::{CronError, Scheduled};
pub use sleep::SleepParams;
pub use task::FangError;
