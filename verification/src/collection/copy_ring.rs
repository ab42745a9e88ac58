//! `CopyRing`: a fixed buffer of `Copy` values read as an endless cycle.
use vstd::prelude::*;

use super::iter::{CycleIter, CycleIterMut};

verus! {

/// A ring over a fixed buffer of `Copy` values.
///
/// The ring keeps a cursor (`index`) into the buffer. Reading the next
/// value yields the value under the cursor and moves the cursor one place
/// forward, wrapping back to the start after the last value, so the ring
/// cycles through the buffer forever. The ring also remembers whether any
/// value has been read since it was made or reset (`is_init`).
#[derive(Debug)]
pub struct CopyRing<T: Copy> {
    buf: Vec<T>,
    index: usize,
    init: bool,
}

impl<T: Copy> CopyRing<T> {
    #[verifier::type_invariant]
    spec fn inv(self) -> bool {
        if self.buf.len() == 0 {
            self.index == 0
        } else {
            self.index < self.buf.len()
        }
    }

    /// The values of the buffer, in order.
    pub closed spec fn items(self) -> Seq<T> {
        self.buf@
    }

    /// The position of the cursor.
    pub closed spec fn pos(self) -> nat {
        self.index as nat
    }

    /// Whether a value has been read since the ring was made or reset.
    pub closed spec fn started(self) -> bool {
        self.init
    }

    /// This ring with the same buffer, the cursor at `pos` and the read flag `started`.
    pub closed spec fn spec_set(self, pos: nat, started: bool) -> Self {
        CopyRing { buf: self.buf, index: pos as usize, init: started }
    }

    /// Changing the cursor and the read flag keeps the buffer.
    pub broadcast proof fn lemma_spec_set(self, pos: nat, started: bool)
        requires
            pos <= usize::MAX,
        ensures
            #[trigger] self.spec_set(pos, started).items() == self.items(),
            self.spec_set(pos, started).pos() == pos,
            self.spec_set(pos, started).started() == started,
    {
    }

    /// The buffer of a ring has at most `usize::MAX` values.
    pub broadcast proof fn lemma_size_fits(self)
        ensures
            #[trigger] self.size() <= usize::MAX,
    {
        assert(self.buf.len() == self.buf@.len());
    }

    /// Setting the cursor twice keeps only the second setting.
    pub broadcast proof fn lemma_spec_set_twice(self, p1: nat, s1: bool, p2: nat, s2: bool)
        ensures
            #[trigger] self.spec_set(p1, s1).spec_set(p2, s2) == self.spec_set(p2, s2),
    {
    }

    /// Setting the cursor and flag to their current values changes nothing.
    pub broadcast proof fn lemma_spec_set_same(self)
        ensures
            #[trigger] self.spec_set(self.pos(), self.started()) == self,
    {
    }

    /// Whether this is a ring over `items` with the cursor at the start and
    /// nothing read.
    pub open spec fn is_fresh(self, items: Seq<T>) -> bool {
        self.items() == items && self.pos() == 0 && !self.started()
    }

    /// The ring after `reset`.
    pub open spec fn spec_reset(self) -> Self {
        self.spec_set(0, false)
    }

    /// The value read by `next` and the ring after it.
    pub open spec fn spec_next(self) -> (Option<T>, Self) {
        if self.size() == 0 {
            (None, self)
        } else {
            (Some(self.items()[self.pos() as int]), self.spec_set(self.step(self.pos()), true))
        }
    }

    /// The value and wrap flag read by `checked_next` and the ring after it.
    pub open spec fn spec_checked_next(self) -> (Option<(T, bool)>, Self) {
        if self.size() == 0 {
            (None, self)
        } else {
            (
                Some((self.items()[self.pos() as int], self.started() && self.pos() == 0)),
                self.spec_set(self.step(self.pos()), true),
            )
        }
    }

    /// The value under the cursor, if any.
    pub open spec fn spec_peek(self) -> Option<T> {
        if self.size() == 0 { None } else { Some(self.items()[self.pos() as int]) }
    }

    /// The value read by `prev` and the ring after it.
    pub open spec fn spec_prev(self) -> (Option<T>, Self) {
        if self.size() == 0 {
            (None, self)
        } else {
            (Some(self.items()[self.back(self.pos()) as int]), self.spec_set(self.back(self.pos()), self.started()))
        }
    }

    /// The ring with its cursor moved `k` places forward (backward for a
    /// negative `k`), wrapping around.
    pub open spec fn spec_rotated(self, k: int) -> Self {
        if self.size() == 0 {
            self
        } else {
            self.spec_set(((self.pos() + k) % (self.size() as int)) as nat, self.started())
        }
    }

    /// The values read by `n` calls of `next`, in order.
    pub open spec fn spec_reads(self, n: nat) -> Seq<T>
        decreases n,
    {
        if n == 0 || self.size() == 0 {
            Seq::empty()
        } else {
            seq![self.spec_next().0.unwrap()] + self.spec_next().1.spec_reads((n - 1) as nat)
        }
    }

    /// The number of values in the buffer.
    pub open spec fn size(self) -> nat {
        self.items().len()
    }

    /// The position one place forward of `i`, wrapping at the end.
    pub open spec fn step(self, i: nat) -> nat {
        if i + 1 >= self.size() { 0 } else { i + 1 }
    }

    /// The position one place back of `i`, wrapping at the start.
    pub open spec fn back(self, i: nat) -> nat {
        if i == 0 { (self.size() - 1) as nat } else { (i - 1) as nat }
    }

    /// Makes a ring over `buf` with the cursor at the first value.
    pub fn new(buf: Vec<T>) -> (r: Self)
        ensures
            r.items() == buf@,
            r.pos() == 0,
            !r.started(),
    {
        CopyRing { buf, index: 0, init: false }
    }

    /// Makes a ring that holds the single value `value`.
    pub fn from_value(value: T) -> (r: Self)
        ensures
            r.items() == seq![value],
            r.pos() == 0,
            !r.started(),
    {
        let mut buf = Vec::new();
        buf.push(value);
        CopyRing { buf, index: 0, init: false }
    }

    /// Whether the buffer holds no value.
    pub fn is_empty(&self) -> (r: bool)
        ensures
            r == (self.size() == 0),
    {
        self.buf.len() == 0
    }

    /// The number of values in one cycle of the ring.
    pub fn period(&self) -> (r: usize)
        ensures
            r == self.size(),
    {
        self.buf.len()
    }

    /// The position of the cursor.
    pub fn index(&self) -> (r: usize)
        ensures
            r == self.pos(),
            self.size() == 0 ==> r == 0,
            self.size() > 0 ==> r < self.size(),
    {
        proof { use_type_invariant(self); }
        self.index
    }

    /// Whether a value has been read since the ring was made or reset.
    pub fn is_init(&self) -> (r: bool)
        ensures
            r == self.started(),
    {
        self.init
    }

    /// The first value of the buffer, if any.
    pub fn first(&self) -> (r: Option<T>)
        ensures
            r == (if self.size() == 0 { None } else { Some(self.items()[0]) }),
    {
        if self.buf.len() == 0 {
            None
        } else {
            Some(self.buf[0])
        }
    }

    /// The value at place `i` of the buffer, if there is one.
    pub fn get(&self, i: usize) -> (r: Option<T>)
        ensures
            r == (if i < self.size() { Some(self.items()[i as int]) } else { None }),
    {
        if i < self.buf.len() {
            Some(self.buf[i])
        } else {
            None
        }
    }

    /// The last value of the buffer, if any.
    pub fn last(&self) -> (r: Option<T>)
        ensures
            r == (if self.size() == 0 { None } else { Some(self.items()[self.size() - 1]) }),
    {
        if self.buf.len() == 0 {
            None
        } else {
            Some(self.buf[self.buf.len() - 1])
        }
    }

    /// The value under the cursor, without moving it.
    pub fn peek(&self) -> (r: Option<T>)
        ensures
            r == (if self.size() == 0 { None } else { Some(self.items()[self.pos() as int]) }),
            r == self.spec_peek(),
    {
        proof { use_type_invariant(self); }
        if self.buf.len() == 0 {
            None
        } else {
            Some(self.buf[self.index])
        }
    }

    /// The value one place before the cursor (the value read last,
    /// when the cursor has just moved), without moving the cursor.
    pub fn peek_prev(&self) -> (r: Option<T>)
        ensures
            r == (if self.size() == 0 { None } else { Some(self.items()[self.back(self.pos()) as int]) }),
    {
        proof { use_type_invariant(self); }
        if self.buf.len() == 0 {
            None
        } else if self.index == 0 {
            Some(self.buf[self.buf.len() - 1])
        } else {
            Some(self.buf[self.index - 1])
        }
    }

    /// Reads the value under the cursor and moves the cursor forward.
    pub fn next(&mut self) -> (r: Option<T>)
        ensures
            final(self).items() == old(self).items(),
            old(self).size() == 0 ==> r.is_none() && *final(self) == *old(self),
            old(self).size() > 0 ==> {
                &&& r == Some(old(self).items()[old(self).pos() as int])
                &&& final(self).pos() == old(self).step(old(self).pos())
                &&& final(self).started()
            },
            (r, *final(self)) == old(self).spec_next(),
    {
        proof { use_type_invariant(&*self); }
        if self.buf.len() == 0 {
            None
        } else {
            let value = self.buf[self.index];
            let i = if self.index + 1 >= self.buf.len() { 0 } else { self.index + 1 };
            self.index = i;
            self.init = true;
            Some(value)
        }
    }

    /// Reads the value under the cursor and moves the cursor forward,
    /// also telling whether the ring wrapped: the value read is the first
    /// of the buffer and an earlier value had been read.
    pub fn checked_next(&mut self) -> (r: Option<(T, bool)>)
        ensures
            final(self).items() == old(self).items(),
            old(self).size() == 0 ==> r.is_none() && *final(self) == *old(self),
            old(self).size() > 0 ==> {
                &&& r == Some((old(self).items()[old(self).pos() as int],
                        old(self).started() && old(self).pos() == 0))
                &&& final(self).pos() == old(self).step(old(self).pos())
                &&& final(self).started()
            },
            (r, *final(self)) == old(self).spec_checked_next(),
    {
        proof { use_type_invariant(&*self); }
        if self.buf.len() == 0 {
            None
        } else {
            let wrapped = self.init && self.index == 0;
            let value = self.buf[self.index];
            let i = if self.index + 1 >= self.buf.len() { 0 } else { self.index + 1 };
            self.index = i;
            self.init = true;
            Some((value, wrapped))
        }
    }

    /// Moves the cursor one place back and reads the value found there.
    pub fn prev(&mut self) -> (r: Option<T>)
        ensures
            final(self).items() == old(self).items(),
            final(self).started() == old(self).started(),
            old(self).size() == 0 ==> r.is_none() && *final(self) == *old(self),
            old(self).size() > 0 ==> {
                &&& final(self).pos() == old(self).back(old(self).pos())
                &&& r == Some(old(self).items()[final(self).pos() as int])
            },
            *final(self) == old(self).spec_set(final(self).pos(), old(self).started()),
            (r, *final(self)) == old(self).spec_prev(),
    {
        proof { use_type_invariant(&*self); }
        if self.buf.len() == 0 {
            None
        } else {
            let i = if self.index == 0 { self.buf.len() - 1 } else { self.index - 1 };
            self.index = i;
            Some(self.buf[i])
        }
    }

    /// Puts the cursor back on the first value and forgets that any value was read.
    pub fn reset(&mut self)
        ensures
            final(self).items() == old(self).items(),
            final(self).pos() == 0,
            !final(self).started(),
            *final(self) == old(self).spec_reset(),
    {
        self.index = 0;
        self.init = false;
    }

    /// Moves the cursor `n` places forward, wrapping around.
    pub fn rotate_left(&mut self, n: usize)
        ensures
            final(self).items() == old(self).items(),
            final(self).started() == old(self).started(),
            old(self).size() == 0 ==> final(self).pos() == 0,
            old(self).size() > 0 ==> final(self).pos() == (old(self).pos() + n) % (old(self).size() as int),
            *final(self) == old(self).spec_set(final(self).pos(), old(self).started()),
            n == 1 && old(self).size() > 0 ==> final(self).pos() == old(self).step(old(self).pos()),
            *final(self) == old(self).spec_rotated(n as int),
    {
        proof { use_type_invariant(&*self); }
        let len = self.buf.len();
        if len > 0 {
            let m = n % len;
            let i = if m >= len - self.index { self.index - (len - m) } else { self.index + m };
            proof {
                if n == 1 {
                    if len == 1 { assert(m == 0); } else { vstd::arithmetic::div_mod::lemma_small_mod(1, len as nat); assert(m == 1); }
                }
                let c = old(self).index as int;
                let q = n as int / len as int;
                vstd::arithmetic::div_mod::lemma_fundamental_div_mod(n as int, len as int);
                let k: int = if m >= len - c { q + 1 } else { q };
                assert(c + n == len * k + i) by (nonlinear_arith)
                    requires
                        n as int == len * q + m,
                        k == (if m >= len - c { q + 1 } else { q }),
                        i as int == (if m >= len - c { c - (len - m) } else { c + m });
                super::lemma_mod_decompose(c + n, k, i as int, len as int);
            }
            self.index = i;
        }
    }

    /// Moves the cursor `n` places back, wrapping around.
    pub fn rotate_right(&mut self, n: usize)
        ensures
            final(self).items() == old(self).items(),
            final(self).started() == old(self).started(),
            old(self).size() == 0 ==> final(self).pos() == 0,
            old(self).size() > 0 ==> final(self).pos() == (old(self).pos() - n) % (old(self).size() as int),
            *final(self) == old(self).spec_set(final(self).pos(), old(self).started()),
            n == 1 && old(self).size() > 0 ==> final(self).pos() == old(self).back(old(self).pos()),
            *final(self) == old(self).spec_rotated(-n),
    {
        proof { use_type_invariant(&*self); }
        let len = self.buf.len();
        if len > 0 {
            let c = self.index;
            let m = n % len;
            let i = if c >= m { c - m } else { c + (len - m) };
            proof {
                if n == 1 {
                    if len == 1 { assert(m == 0); } else { vstd::arithmetic::div_mod::lemma_small_mod(1, len as nat); assert(m == 1); }
                }
                let q = n as int / len as int;
                vstd::arithmetic::div_mod::lemma_fundamental_div_mod(n as int, len as int);
                let k: int = if c >= m { -q } else { -q - 1 };
                assert(c - n == len * k + i) by (nonlinear_arith)
                    requires
                        n as int == len * q + m,
                        k == (if c >= m { -q } else { -q - 1 }),
                        i as int == (if c >= m { c - m } else { c + len - m });
                super::lemma_mod_decompose(c - n, k, i as int, len as int);
            }
            self.index = i;
        }
    }

    /// An iterator that reads `n` values from the ring, moving its cursor.
    pub fn take_mut(&mut self, n: usize) -> (r: CycleIterMut<'_, T>)
        ensures
            r.ring() == *old(self),
            r.remaining() == n,
            *final(self) == *final(r.ring),
    {
        CycleIterMut::new(self, n)
    }

    /// An iterator that reads one full cycle of the ring, moving its cursor.
    pub fn one_cycle(&mut self) -> (r: CycleIterMut<'_, T>)
        ensures
            r.ring() == *old(self),
            r.remaining() == old(self).size(),
            *final(self) == *final(r.ring),
    {
        let n = self.buf.len();
        CycleIterMut::new(self, n)
    }

    /// An iterator that reads from the cursor up to the end of the buffer,
    /// so that the cursor is back at the start once it is spent.
    pub fn until_start(&mut self) -> (r: CycleIterMut<'_, T>)
        ensures
            r.ring() == *old(self),
            r.remaining() == old(self).size() - old(self).pos(),
            *final(self) == *final(r.ring),
    {
        proof { use_type_invariant(&*self); }
        let n = self.buf.len() - self.index;
        CycleIterMut::new(self, n)
    }


    /// An iterator that reads `n` values from the cursor on, leaving the ring unmoved.
    pub fn take_ref(&self, n: usize) -> (r: CycleIter<'_, T>)
        ensures
            r.items() == self.items(),
            r.pos() == self.pos(),
            r.remaining() == n,
            self.size() > 0 ==> r.pos() < r.items().len(),
    {
        proof { use_type_invariant(self); }
        CycleIter::new(self.buf.as_slice(), self.index, n)
    }
}


/// Facts about rings whose cursor and read flag were set.
pub broadcast group group_ring_set {
    CopyRing::lemma_spec_set,
    CopyRing::lemma_size_fits,
    CopyRing::lemma_spec_set_twice,
    CopyRing::lemma_spec_set_same,
}

impl<T: Copy> Clone for CopyRing<T> {
    /// A ring with the same buffer, cursor and read flag.
    fn clone(&self) -> (r: Self)
        ensures
            r.items() == self.items(),
            r.pos() == self.pos(),
            r.started() == self.started(),
    {
        proof { use_type_invariant(self); }
        let mut buf: Vec<T> = Vec::new();
        let mut i: usize = 0;
        while i < self.buf.len()
            invariant
                i <= self.buf@.len(),
                buf@ == self.buf@.take(i as int),
            decreases self.buf@.len() - i,
        {
            buf.push(self.buf[i]);
            i = i + 1;
            proof { assert(buf@ =~= self.buf@.take(i as int)); }
        }
        proof { assert(buf@ =~= self.buf@); }
        CopyRing { buf, index: self.index, init: self.init }
    }
}

/// Whether `x` passes the bound `then`: strictly above it when `strict`,
/// else at or above it.
pub open spec fn spec_passes(x: u8, then: u8, strict: bool) -> bool {
    if strict { x > then } else { x >= then }
}

/// The first position at or after `from` whose value passes `then`
/// (see `spec_passes`), or the length of `items` if there is none.
pub open spec fn spec_scan(items: Seq<u8>, from: int, then: u8, strict: bool) -> int
    decreases items.len() - from,
{
    if from >= items.len() || from < 0 {
        items.len() as int
    } else if spec_passes(items[from], then, strict) {
        from
    } else {
        spec_scan(items, from + 1, then, strict)
    }
}

/// The position found by `spec_scan` lies between `from` and the length, and
/// no value before it passes.
pub proof fn lemma_scan_bounds(items: Seq<u8>, from: int, then: u8, strict: bool)
    requires
        0 <= from <= items.len(),
    ensures
        from <= spec_scan(items, from, then, strict) <= items.len(),
        spec_scan(items, from, then, strict) < items.len() ==> spec_passes(
            items[spec_scan(items, from, then, strict)],
            then,
            strict,
        ),
        forall|k: int| from <= k < spec_scan(items, from, then, strict) ==> !spec_passes(items[k], then, strict),
    decreases items.len() - from,
{
    if from < items.len() && !spec_passes(items[from], then, strict) {
        lemma_scan_bounds(items, from + 1, then, strict);
    }
}

impl CopyRing<u8> {
    /// The value found by `find_from_cursor` and the ring after it.
    pub open spec fn spec_find_from_cursor(self, then: u8, strict: bool) -> (Option<u8>, Self) {
        let j = spec_scan(self.items(), self.pos() as int, then, strict);
        if self.size() == 0 {
            (None, self)
        } else if j < self.size() {
            (Some(self.items()[j]), self.spec_set(self.step(j as nat), true))
        } else {
            (None, self.spec_set(0, true))
        }
    }

    /// The result of `binary_search_or_greater` and the ring after it.
    pub open spec fn spec_search_or_greater(self, x: u8) -> (Option<(u8, bool)>, Self) {
        let j = spec_scan(self.items(), 0, x, false);
        if self.size() == 0 {
            (None, self)
        } else if j < self.size() {
            (Some((self.items()[j], false)), self.spec_set(self.step(j as nat), true))
        } else {
            (Some((self.items()[0], true)), self.spec_set(self.step(0), true))
        }
    }

    /// Finds the first value of the buffer (from its start) that is at or
    /// above `x` and moves the cursor just past it, returning it with `false`;
    /// when no value is, returns the first value with `true` (a wrap) and
    /// moves the cursor past it. `None` for an empty ring.
    pub fn binary_search_or_greater(&mut self, x: &u8) -> (r: Option<(u8, bool)>)
        ensures
            (r, *final(self)) == old(self).spec_search_or_greater(*x),
            final(self).items() == old(self).items(),
            r matches Some((v, false)) ==> v >= *x,
    {
        let len = self.buf.len();
        if len == 0 {
            return None;
        }
        let mut j: usize = 0;
        proof {
            lemma_scan_bounds(self.buf@, 0, *x, false);
        }
        while j < len
            invariant
                len == self.buf@.len(),
                0 < len,
                j <= len,
                forall|k: int| 0 <= k < j ==> !spec_passes(self.buf@[k], *x, false),
                *self == *old(self),
            decreases len - j,
        {
            if self.buf[j] >= *x {
                proof {
                    lemma_scan_skip(self.buf@, 0, j as int, *x, false);
                    assert(spec_scan(self.buf@, j as int, *x, false) == j);
                }
                let v = self.buf[j];
                self.index = if j + 1 >= len { 0 } else { j + 1 };
                self.init = true;
                return Some((v, false));
            }
            j = j + 1;
        }
        proof {
            lemma_scan_skip(self.buf@, 0, len as int, *x, false);
            assert(spec_scan(self.buf@, len as int, *x, false) == len);
        }
        let v = self.buf[0];
        self.index = if 1 >= len { 0 } else { 1 };
        self.init = true;
        Some((v, true))
    }

    /// Reads values from the cursor up to the end of the buffer and stops at
    /// the first that passes `then` (strictly above it when `strict`, else at
    /// or above it), leaving the cursor just after it; when none passes, the
    /// cursor ends back at the start.
    pub fn find_from_cursor(&mut self, then: u8, strict: bool) -> (r: Option<u8>)
        ensures
            (r, *final(self)) == old(self).spec_find_from_cursor(then, strict),
            final(self).items() == old(self).items(),
            r is Some ==> spec_scan(old(self).items(), old(self).pos() as int, then, strict) < old(self).size()
                && final(self).pos() == old(self).step(
                spec_scan(old(self).items(), old(self).pos() as int, then, strict) as nat,
            ),
            r matches Some(x) ==> spec_passes(x, then, strict),
    {
        proof { use_type_invariant(&*self); }
        let len = self.buf.len();
        if len == 0 {
            return None;
        }
        proof {
            lemma_scan_bounds(self.items(), self.pos() as int, then, strict);
        }
        let ghost start = self.index as int;
        let ghost orig = *self;
        loop
            invariant
                self.buf == orig.buf,
                len == self.buf@.len(),
                0 < len,
                start <= self.index < len,
                self.index == start || self.init,
                orig.started() ==> self.init,
                *self == orig.spec_set(self.index as nat, self.init),
                self.index == start ==> self.init == orig.started(),
                forall|k: int| start <= k < self.index ==> !spec_passes(self.buf@[k], then, strict),
                start == orig.pos(),
                orig == *old(self),
            decreases len - self.index,
        {
            let x = self.buf[self.index];
            let passes = if strict { x > then } else { x >= then };
            proof {
                lemma_scan_skip(orig.items(), start, self.index as int, then, strict);
                assert(self.buf@[self.index as int] == x);
                assert(spec_scan(orig.items(), self.index as int, then, strict) == (if passes {
                    self.index as int
                } else {
                    spec_scan(orig.items(), self.index + 1, then, strict)
                }));
                assert(spec_scan(orig.items(), len as int, then, strict) == len);
            }
            if self.index + 1 >= len {
                let ghost idx = self.index as int;
                self.index = 0;
                self.init = true;
                assert(*self == orig.spec_set(0, true));
                if passes {
                    assert(spec_scan(orig.items(), start, then, strict) == idx);
                    assert(orig.step(idx as nat) == 0);
                    return Some(x);
                } else {
                    assert(spec_scan(orig.items(), start, then, strict) == len);
                    return None;
                }
            } else {
                let ghost idx = self.index as int;
                self.index = self.index + 1;
                self.init = true;
                assert(*self == orig.spec_set((idx + 1) as nat, true));
                if passes {
                    assert(spec_scan(orig.items(), start, then, strict) == idx);
                    assert(orig.step(idx as nat) == idx + 1);
                    return Some(x);
                }
            }
        }
    }
}

/// When no value between `from` and `k` passes, the scan from `from`
/// continues from `k`.
pub proof fn lemma_scan_skip(items: Seq<u8>, from: int, k: int, then: u8, strict: bool)
    requires
        0 <= from <= k <= items.len(),
        forall|i: int| from <= i < k ==> !spec_passes(items[i], then, strict),
    ensures
        spec_scan(items, from, then, strict) == spec_scan(items, k, then, strict),
    decreases k - from,
{
    if from < k {
        lemma_scan_skip(items, from + 1, k, then, strict);
    }
}

/// Whether the cursor of `ring` lies within its buffer (at 0 for an empty
/// buffer), as it does for every ring the library makes.
pub open spec fn spec_valid<T: Copy>(ring: CopyRing<T>) -> bool {
    if ring.size() == 0 {
        ring.pos() == 0
    } else {
        ring.pos() < ring.size()
    }
}

/// Reading the previous value right after reading the next one gives the
/// same value back and puts the cursor where it was.
pub proof fn law_prev_undoes_next<T: Copy>(ring: CopyRing<T>)
    requires
        spec_valid(ring),
        ring.size() > 0,
    ensures
        ring.spec_next().1.spec_prev().0 == ring.spec_next().0,
        ring.spec_next().1.spec_prev().1 == ring.spec_set(ring.pos(), true),
{
    broadcast use group_ring_set;

}

/// Moving the cursor `n` places forward and then `n` places back leaves the
/// ring as it was.
pub proof fn law_rotate_round_trip<T: Copy>(ring: CopyRing<T>, n: int)
    requires
        spec_valid(ring),
    ensures
        ring.spec_rotated(n).spec_rotated(-n) == ring,
{
    broadcast use group_ring_set;

    if ring.size() > 0 {
        let len = ring.size() as int;
        let p = ring.pos() as int;
        let q = (p + n) % len;
        vstd::arithmetic::div_mod::lemma_fundamental_div_mod(p + n, len);
        vstd::arithmetic::div_mod::lemma_mod_bound(p + n, len);
        let k = (p + n) / len;
        assert(q - n == p - len * k);
        vstd::arithmetic::div_mod::lemma_mod_multiples_vanish(-k, p, len);
        assert(len * (-k) + p == p - len * k) by (nonlinear_arith);
        vstd::arithmetic::div_mod::lemma_small_mod(p as nat, len as nat);
        assert((q - n) % len == p);
    }
}

/// Moving the cursor a whole period (the length of the buffer) leaves the
/// ring as it was.
pub proof fn law_rotate_period<T: Copy>(ring: CopyRing<T>)
    requires
        spec_valid(ring),
    ensures
        ring.spec_rotated(ring.size() as int) == ring,
        ring.spec_rotated(-(ring.size() as int)) == ring,
{
    broadcast use group_ring_set;

    if ring.size() > 0 {
        let len = ring.size() as int;
        let p = ring.pos() as int;
        vstd::arithmetic::div_mod::lemma_mod_multiples_vanish(1, p, len);
        vstd::arithmetic::div_mod::lemma_mod_multiples_vanish(-1, p, len);
        vstd::arithmetic::div_mod::lemma_small_mod(p as nat, len as nat);
    }
}

/// Reading `k` values from position `p` (before the end of the buffer)
/// gives the values of the buffer from `p` on, in order.
proof fn lemma_reads_from<T: Copy>(ring: CopyRing<T>, k: nat)
    requires
        spec_valid(ring),
        ring.pos() + k <= ring.size(),
    ensures
        ring.spec_reads(k) == ring.items().subrange(ring.pos() as int, (ring.pos() + k) as int),
    decreases k,
{
    broadcast use group_ring_set;

    if k > 0 && ring.size() > 0 {
        let next = ring.spec_next().1;
        if ring.pos() + 1 < ring.size() {
            lemma_reads_from(next, (k - 1) as nat);
        } else {
            assert(k == 1);
            assert(next.spec_reads(0) == Seq::<T>::empty());
        }
        assert(ring.spec_reads(k) =~= ring.items().subrange(ring.pos() as int, (ring.pos() + k) as int));
    }
}

/// A ring read for one full cycle from the start of its buffer gives the
/// buffer's values, in order.
pub proof fn law_one_cycle_reads_buffer<T: Copy>(ring: CopyRing<T>)
    requires
        ring.pos() == 0,
    ensures
        ring.spec_reads(ring.size()) == ring.items(),
{
    lemma_reads_from(ring, ring.size());
    assert(ring.items().subrange(0, ring.size() as int) =~= ring.items());
}

} // verus!
