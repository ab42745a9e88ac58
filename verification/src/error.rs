//! The errors of parsing a cron expression.
use vstd::prelude::*;

use crate::table::BuildError;

verus! {

/// Why a cron expression could not be turned into a schedule.
#[derive(Debug, Clone, Copy)]
pub enum ParseError {
    Empty,
    WrongNumberOfFields,
    InvalidMacro,
    Unknown,
    BelowRange,
    AboveRange,
    DuplicateValue,
    IntervalWithoutWildcard,
    IntervalAndMultiple,
    InvalidToken,
    BadEnd,
    Build(BuildError),
}

} // verus!
