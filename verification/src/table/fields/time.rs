//! The time fields: rings of allowed seconds, minutes and hours.
use vstd::prelude::*;

use super::spec_first_after;
use crate::CopyRing;

verus! {

broadcast use crate::collection::copy_ring::group_ring_set;

/// The allowed seconds.
#[derive(Clone, Debug)]
pub struct Seconds(pub CopyRing<u8>);

/// The allowed minutes.
#[derive(Clone, Debug)]
pub struct Minutes(pub CopyRing<u8>);

/// The allowed hours.
#[derive(Clone, Debug)]
pub struct Hours(pub CopyRing<u8>);

impl Seconds {
    /// The seconds of `copy_ring`.
    pub fn new(copy_ring: CopyRing<u8>) -> (r: Self)
        ensures
            r.0 == copy_ring,
    {
        Self(copy_ring)
    }

    /// Returns the first second that occurs after the given
    /// number of seconds. Rotates the inner buffer so that
    /// calling `next` yields the following value.
    ///
    /// If the inner buffer wrapped back to the earliest second,
    /// then overflow has occurred and the bool is `true`.
    ///
    /// Otherwise, the bool is `false` and no overflow
    /// has occurred.
    pub fn after(&mut self, sec: u8) -> (r: (u8, bool))
        requires
            old(self).0.size() > 0,
        ensures
            (r, final(self).0) == spec_first_after(old(self).0.spec_reset(), false, sec),
    {
        self.0.reset();
        super::first_after(&mut self.0, false, sec)
    }
}

impl Minutes {
    /// The minutes of `copy_ring`.
    pub fn new(copy_ring: CopyRing<u8>) -> (r: Self)
        ensures
            r.0 == copy_ring,
    {
        Self(copy_ring)
    }

    /// Returns the first minute that occurs after the given
    /// number of minutes. Rotates the inner buffer so that
    /// calling `next` yields the following value.
    ///
    /// If the inner buffer wrapped back to the earliest minute,
    /// then overflow has occurred and the bool is `true`.
    ///
    /// Otherwise, the bool is `false` and no overflow
    /// has occurred.
    pub fn after(&mut self, min: u8, sec_overflow: bool) -> (r: (u8, bool))
        requires
            old(self).0.size() > 0,
            !(sec_overflow && min == 255),
        ensures
            (r, final(self).0) == spec_first_after(old(self).0.spec_reset(), sec_overflow, min),
    {
        self.0.reset();
        super::first_after(&mut self.0, sec_overflow, min)
    }
}

impl Hours {
    /// The hours of `copy_ring`.
    pub fn new(copy_ring: CopyRing<u8>) -> (r: Self)
        ensures
            r.0 == copy_ring,
    {
        Self(copy_ring)
    }

    /// Returns the first hour that occurs after the given
    /// number of hours.
    ///
    /// If the inner buffer wrapped back to the earliest hour,
    /// then overflow has occurred and the bool is `true`.
    ///
    /// Otherwise, the bool is `false` and no overflow
    /// has occurred.
    pub fn after(&mut self, hr: u8, min_overflow: bool) -> (r: (u8, bool))
        requires
            old(self).0.size() > 0,
            !(min_overflow && hr == 255),
        ensures
            (r, final(self).0) == spec_first_after(old(self).0.spec_reset(), min_overflow, hr),
    {
        self.0.reset();
        super::first_after(&mut self.0, min_overflow, hr)
    }
}

} // verus!
