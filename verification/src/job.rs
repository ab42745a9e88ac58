//! The outcomes of the first job board: why a job could not be
//! descheduled, and why no job could be run.
use vstd::prelude::*;

verus! {

/// Why a job could not be descheduled.
#[derive(Clone, Copy, Debug, PartialEq, Eq, Structural)]
pub enum DescheduleError {
    AlreadyScheduled,
    JobDoesNotExist,
    General,
}

/// Why no job was run: none was left, the one picked had no time left, or
/// it was marked for deletion.
#[derive(Clone, Copy, Debug, PartialEq, Eq, Structural)]
pub enum JobError {
    NoMoreJobs,
    JobFinished,
    ScheduledForDeletion,
}

} // verus!
