//! Iterators over a `CopyRing`.
use vstd::prelude::*;

use super::copy_ring::CopyRing;

verus! {

/// Reads a bounded number of values from a borrowed `CopyRing`,
/// moving the ring's cursor as it goes.
pub struct CycleIterMut<'b, T: Copy> {
    pub ring: &'b mut CopyRing<T>,
    pub n: usize,
}

impl<'b, T: Copy> CycleIterMut<'b, T> {
    /// The ring as it stands now.
    pub closed spec fn ring(&self) -> CopyRing<T> {
        *self.ring
    }

    /// How many more values this iterator will read.
    pub closed spec fn remaining(&self) -> nat {
        self.n as nat
    }

    /// Makes an iterator that reads at most `n` values from `ring`.
    pub fn new(ring: &'b mut CopyRing<T>, n: usize) -> (r: Self)
        ensures
            r.ring() == *old(ring),
            r.remaining() == n,
            *final(ring) == *final(r.ring),
    {
        CycleIterMut { ring, n }
    }
}

} // verus!

verus! {

impl<'b, T: Copy> CycleIterMut<'b, T> {
    /// Reads the next value, or `None` once `n` values were read
    /// (or the ring is empty).
    pub fn next(&mut self) -> (r: Option<T>)
        ensures
            *final(final(self).ring) == *final(old(self).ring),
            final(self).ring().items() == old(self).ring().items(),
            old(self).remaining() == 0 ==> r.is_none() && final(self).ring() == old(self).ring()
                && final(self).remaining() == 0,
            old(self).remaining() > 0 ==> {
                &&& final(self).remaining() == old(self).remaining() - 1
                &&& old(self).ring().size() == 0 ==> r.is_none() && final(self).ring() == old(self).ring()
                &&& old(self).ring().size() > 0 ==> {
                    &&& r == Some(old(self).ring().items()[old(self).ring().pos() as int])
                    &&& final(self).ring().pos() == old(self).ring().step(old(self).ring().pos())
                    &&& final(self).ring().started()
                }
            },
    {
        if self.n == 0 {
            None
        } else {
            self.n = self.n - 1;
            self.ring.next()
        }
    }
}

} // verus!

verus! {

impl<'b, T: Copy> CycleIterMut<'b, T> {
    /// Like `next`, but also tells whether the ring wrapped (see `CopyRing::checked_next`).
    pub fn checked_next(&mut self) -> (r: Option<(T, bool)>)
        ensures
            *final(final(self).ring) == *final(old(self).ring),
            final(self).ring().items() == old(self).ring().items(),
            old(self).remaining() == 0 ==> r.is_none() && final(self).ring() == old(self).ring()
                && final(self).remaining() == 0,
            old(self).remaining() > 0 ==> {
                &&& final(self).remaining() == old(self).remaining() - 1
                &&& old(self).ring().size() == 0 ==> r.is_none() && final(self).ring() == old(self).ring()
                &&& old(self).ring().size() > 0 ==> {
                    &&& r == Some((old(self).ring().items()[old(self).ring().pos() as int],
                            old(self).ring().started() && old(self).ring().pos() == 0))
                    &&& final(self).ring().pos() == old(self).ring().step(old(self).ring().pos())
                    &&& final(self).ring().started()
                }
            },
    {
        if self.n == 0 {
            None
        } else {
            self.n = self.n - 1;
            self.ring.checked_next()
        }
    }

    /// Turns this iterator into one that yields `checked_next` results.
    pub fn checked(self) -> (r: Checked<'b, T>)
        ensures
            r.inner() == self,
    {
        Checked(self)
    }

    /// The exact number of values left to read, as a lower and an upper bound.
    pub fn size_hint(&self) -> (r: (usize, Option<usize>))
        ensures
            r == (self.remaining() as usize, Some(self.remaining() as usize)),
    {
        (self.n, Some(self.n))
    }
}

/// A `CycleIterMut` that yields each value together with its wrap flag.
pub struct Checked<'b, T: Copy>(pub CycleIterMut<'b, T>);

impl<'b, T: Copy> Checked<'b, T> {
    /// The wrapped iterator.
    pub closed spec fn inner(self) -> CycleIterMut<'b, T> {
        self.0
    }

    /// Reads the next value and its wrap flag (see `CycleIterMut::checked_next`).
    pub fn next(&mut self) -> (r: Option<(T, bool)>)
        ensures
            *final(final(self).0.ring) == *final(old(self).0.ring),
            final(self).inner().ring().items() == old(self).inner().ring().items(),
            old(self).inner().remaining() == 0 ==> r.is_none()
                && final(self).inner().ring() == old(self).inner().ring()
                && final(self).inner().remaining() == 0,
            old(self).inner().remaining() > 0 ==> {
                &&& final(self).inner().remaining() == old(self).inner().remaining() - 1
                &&& old(self).inner().ring().size() == 0 ==> r.is_none()
                    && final(self).inner().ring() == old(self).inner().ring()
                &&& old(self).inner().ring().size() > 0 ==> {
                    &&& r == Some((old(self).inner().ring().items()[old(self).inner().ring().pos() as int],
                            old(self).inner().ring().started() && old(self).inner().ring().pos() == 0))
                    &&& final(self).inner().ring().pos()
                        == old(self).inner().ring().step(old(self).inner().ring().pos())
                    &&& final(self).inner().ring().started()
                }
            },
    {
        self.0.checked_next()
    }

    /// The exact number of values left to read.
    pub fn size_hint(&self) -> (r: (usize, Option<usize>))
        ensures
            r == (self.inner().remaining() as usize, Some(self.inner().remaining() as usize)),
    {
        self.0.size_hint()
    }
}

/// Reads a bounded number of values from a slice taken as a cycle,
/// starting at a given index.
pub struct CycleIter<'a, T: Copy> {
    ring_buf: &'a [T],
    index: usize,
    n: usize,
}

impl<'a, T: Copy> CycleIter<'a, T> {
    /// The values of the cycle.
    pub closed spec fn items(&self) -> Seq<T> {
        self.ring_buf@
    }

    /// The index of the next value to read.
    pub closed spec fn pos(&self) -> nat {
        self.index as nat
    }

    /// How many more values this iterator will read.
    pub closed spec fn remaining(&self) -> nat {
        self.n as nat
    }

    /// Makes an iterator that reads `n` values of `ring_buf` from `index` on, wrapping around.
    pub fn new(ring_buf: &'a [T], index: usize, n: usize) -> (r: Self)
        ensures
            r.items() == ring_buf@,
            r.pos() == index,
            r.remaining() == n,
    {
        CycleIter { ring_buf, index, n }
    }

    /// Reads the next value, or `None` once all were read.
    pub fn next(&mut self) -> (r: Option<T>)
        requires
            old(self).remaining() > 0 ==> old(self).pos() < old(self).items().len(),
        ensures
            final(self).items() == old(self).items(),
            final(self).remaining() > 0 ==> final(self).pos() < final(self).items().len(),
            old(self).remaining() == 0 ==> r.is_none() && *final(self) == *old(self),
            old(self).remaining() > 0 ==> {
                &&& r == Some(old(self).items()[old(self).pos() as int])
                &&& final(self).remaining() == old(self).remaining() - 1
                &&& final(self).pos() == (old(self).pos() + 1) % old(self).items().len()
            },
    {
        if self.n == 0 {
            None
        } else {
            self.n = self.n - 1;
            let index = self.index;
            let len = self.ring_buf.len();
            assert(index < len);
            self.index = (self.index + 1) % self.ring_buf.len();
            Some(self.ring_buf[index])
        }
    }

    /// The exact number of values left to read.
    pub fn size_hint(&self) -> (r: (usize, Option<usize>))
        ensures
            r == (self.remaining() as usize, Some(self.remaining() as usize)),
    {
        (self.n, Some(self.n))
    }
}

} // verus!
