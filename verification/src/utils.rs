//! Small collections used by the job scheduler.
pub mod map;
