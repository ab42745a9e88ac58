//! Borrowed views of the rings that `Days` holds.
use vstd::prelude::*;

use super::DayCache;
use crate::CopyRing;

verus! {

/// Both rings of `Days::Both`, borrowed.
#[derive(Debug)]
pub struct Both<'a> {
    pub month: &'a mut CopyRing<u8>,
    pub week: &'a mut (CopyRing<u8>, DayCache),
}

/// The month-day ring of `Days::Month`, borrowed.
#[derive(Debug)]
pub struct Month<'a>(pub &'a mut CopyRing<u8>);

/// The weekday ring and cache of `Days::Week`, borrowed.
#[derive(Debug)]
pub struct Week<'a>(pub &'a mut (CopyRing<u8>, DayCache));

} // verus!
