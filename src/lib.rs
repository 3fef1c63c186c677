//! A cron-driven delayed task scheduler: a one-second hashed timing wheel,
//! the task life cycle that drives it, and the bookkeeping of in-flight runs.
pub mod cron;
pub mod expression;
pub mod task;
pub mod wheel;
pub mod supervisor;
pub mod convenience;
pub mod laws;
