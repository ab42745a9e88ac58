//! A second form of the field table, split into a time half and a date half.
use vstd::prelude::*;

use self::fields::{DateBuilder, TimeBuilder};

pub mod fields;

verus! {

/// Why one half (time or date) of a field table could not be built.
#[derive(Clone, Copy, Debug, PartialEq, Eq, Structural)]
pub enum Error {
    MissingField,
    EmptyRing,
    OutOfRange,
}

/// The errors of the time half and of the date half of a failed build.
#[derive(Clone, Copy, Debug, PartialEq, Eq, Structural)]
pub struct BuildError {
    pub time: Option<Error>,
    pub date: Option<Error>,
}

/// Types that build a field table.
pub trait FieldTableBuilder {}

/// The field table of this form (it holds no field yet).
#[derive(Clone, Debug)]
pub struct FieldTable {}

/// Collects the fields of a `FieldTable`: a time half and a date half.
pub struct Builder {
    pub time: TimeBuilder,
    pub date: DateBuilder,
}

impl FieldTable {
    /// A builder with no field supplied.
    pub fn builder() -> (r: Builder)
        ensures
            r.time.is_blank(),
            r.date.is_blank(),
    {
        Builder { time: TimeBuilder::new(), date: DateBuilder::new() }
    }
}

} // verus!
