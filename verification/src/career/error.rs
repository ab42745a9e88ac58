//! Why a job could not be descheduled.
use vstd::prelude::*;

verus! {

/// Why a job could not be marked for deletion: it already was (with its
/// id), or the board could not be reached (with the reason).
#[derive(Debug)]
pub enum DescheduleError {
    AlreadyScheduled(usize),
    LockPoisioned(String),
}

} // verus!
