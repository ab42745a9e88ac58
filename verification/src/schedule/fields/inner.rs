//! The fields of a schedule's field table: rings of allowed seconds,
//! minutes, hours, days and months, each searched for the first allowed
//! value at or after a given one.
use vstd::prelude::*;

use crate::schedule::table::fields::date::spec_num_weekdays_since;
use crate::CopyRing;

verus! {

broadcast use crate::collection::copy_ring::group_ring_set;

/// The allowed seconds.
#[derive(Clone, Debug)]
pub struct Seconds(pub CopyRing<u8>);

/// The allowed minutes.
#[derive(Clone, Debug)]
pub struct Minutes(pub CopyRing<u8>);

/// The allowed hours.
#[derive(Clone, Debug)]
pub struct Hours(pub CopyRing<u8>);

/// The allowed months.
#[derive(Clone, Debug)]
pub struct Months(pub CopyRing<u8>);

/// Which ring gave the last day found: the weekdays, the days of the
/// month, or both at once.
#[derive(Clone, Copy, Debug, PartialEq, Eq, Structural)]
pub enum LastUsed {
    Week,
    Month,
    Both,
}

/// What the last search over the weekdays found: the day of the month and
/// the weekday it fell on, and which ring gave it.
#[derive(Clone, Copy, Debug, PartialEq, Eq, Structural)]
pub struct WeekSummary {
    pub last_month_day: u8,
    pub last_weekday: u8,
    pub last_used: LastUsed,
}

/// The allowed days: the days of the month, the weekdays (with a summary of
/// the last search), or both.
#[derive(Debug)]
pub enum Days {
    Both { month: CopyRing<u8>, week: (CopyRing<u8>, WeekSummary) },
    Month(CopyRing<u8>),
    Week((CopyRing<u8>, WeekSummary)),
}

impl Default for LastUsed {
    /// The month-day ring.
    fn default() -> (r: Self)
        ensures
            r == LastUsed::Month,
    {
        LastUsed::Month
    }
}

impl Default for WeekSummary {
    /// Day 0, weekday 0, given by the month-day ring.
    fn default() -> (r: Self)
        ensures
            r == WeekSummary::default_value(),
    {
        WeekSummary { last_weekday: 0, last_month_day: 0, last_used: LastUsed::default() }
    }
}

impl WeekSummary {
    /// The summary before any search: day 0, weekday 0, given by the
    /// month-day ring.
    pub open spec fn default_value() -> WeekSummary {
        WeekSummary { last_month_day: 0, last_weekday: 0, last_used: LastUsed::Month }
    }

    /// Overwrites this summary with `new_summary`.
    pub fn set(&mut self, new_summary: WeekSummary)
        ensures
            *final(self) == new_summary,
    {
        self.last_month_day = new_summary.last_month_day;
        self.last_used = new_summary.last_used;
        self.last_weekday = new_summary.last_weekday;
    }

    /// The day of the month last found.
    pub fn last_month_day(&self) -> (r: u8)
        ensures
            r == self.last_month_day,
    {
        self.last_month_day
    }

    /// The weekday last found.
    pub fn last_weekday(&self) -> (r: u8)
        ensures
            r == self.last_weekday,
    {
        self.last_weekday
    }

    /// The ring that gave the last day.
    pub fn last_used(&self) -> (r: LastUsed)
        ensures
            r == self.last_used,
    {
        self.last_used
    }

    /// Records which ring gave the last day.
    pub fn set_last_used(&mut self, last_used: LastUsed)
        ensures
            *final(self) == (WeekSummary { last_used, ..*old(self) }),
    {
        self.last_used = last_used;
    }
}

/// The ring with its cursor one place forward (what `rotate_left(1)` does).
pub open spec fn spec_rotated_left(r: CopyRing<u8>) -> CopyRing<u8> {
    r.spec_set(r.step(r.pos()), r.started())
}

/// The ring with its cursor one place back (what `rotate_right(1)` does).
pub open spec fn spec_rotated_right(r: CopyRing<u8>) -> CopyRing<u8> {
    r.spec_set(r.back(r.pos()), r.started())
}

/// The search of `Seconds::first_after`: the first value of the buffer at or
/// above `then`, with no wrap and the cursor just past it; when there is
/// none, the first value of the buffer with a wrap, the cursor just past it.
pub open spec fn spec_secs_first_after(ring: CopyRing<u8>, then: u8) -> ((u8, bool), CopyRing<u8>) {
    let (found, r1) = ring.spec_reset().spec_find_from_cursor(then, false);
    let r2 = if found is Some { spec_rotated_right(r1) } else { r1 };
    let (v, r3) = r2.spec_next();
    ((v.unwrap(), found is None), r3)
}

/// The search shared by minutes, hours and months: the first value of the
/// buffer at or above `then` (above it when the field below carried over),
/// with no wrap and the cursor on it; when there is none, the first value
/// of the buffer with a wrap, the cursor on it.
pub open spec fn spec_carry_first_after(ring: CopyRing<u8>, then: u8, carry: bool) -> ((u8, bool), CopyRing<u8>) {
    let (found, r1) = ring.spec_reset().spec_find_from_cursor(then, carry);
    match found {
        Some(v) => ((v, false), spec_rotated_right(r1)),
        None => ((r1.spec_peek().unwrap(), true), r1),
    }
}

/// The read of `next` for minutes, hours and months: when the field below
/// carried over, the cursor moves one place forward and the value under it
/// is read, with a wrap when the cursor went back to the start; else the
/// value under the cursor (the one found or read last), unchanged.
pub open spec fn spec_carry_next(ring: CopyRing<u8>, carry: bool) -> ((u8, bool), CopyRing<u8>) {
    if carry {
        let r1 = spec_rotated_left(ring);
        ((r1.spec_peek().unwrap(), r1.pos() == 0), r1)
    } else {
        ((ring.spec_peek().unwrap(), false), ring)
    }
}

/// Moves the cursor of a non-empty ring one place forward.
fn rotate_left_one(ring: &mut CopyRing<u8>)
    requires
        old(ring).size() > 0,
    ensures
        *final(ring) == spec_rotated_left(*old(ring)),
        final(ring).items() == old(ring).items(),
{
    ring.rotate_left(1);
}

/// Moves the cursor of a non-empty ring one place back.
fn rotate_right_one(ring: &mut CopyRing<u8>)
    requires
        old(ring).size() > 0,
    ensures
        *final(ring) == spec_rotated_right(*old(ring)),
        final(ring).items() == old(ring).items(),
{
    ring.rotate_right(1);
}

/// The value under the cursor of a non-empty ring.
fn peek_some(ring: &CopyRing<u8>) -> (r: u8)
    requires
        ring.size() > 0,
    ensures
        r == ring.spec_peek().unwrap(),
{
    match ring.peek() {
        Some(v) => v,
        None => {
            assert(false);
            0
        },
    }
}

/// Reads the next value of a non-empty ring, with its wrap flag.
fn checked_next_some(ring: &mut CopyRing<u8>) -> (r: (u8, bool))
    requires
        old(ring).size() > 0,
    ensures
        (Some(r), *final(ring)) == old(ring).spec_checked_next(),
        final(ring).items() == old(ring).items(),
{
    match ring.checked_next() {
        Some(v) => v,
        None => {
            assert(false);
            (0, false)
        },
    }
}

/// Reads the next value of a non-empty ring.
fn next_some(ring: &mut CopyRing<u8>) -> (r: u8)
    requires
        old(ring).size() > 0,
    ensures
        (Some(r), *final(ring)) == old(ring).spec_next(),
        final(ring).items() == old(ring).items(),
{
    match ring.next() {
        Some(v) => v,
        None => {
            assert(false);
            0
        },
    }
}

/// The search shared by minutes, hours and months (see `spec_carry_first_after`).
fn carry_first_after(ring: &mut CopyRing<u8>, then: u8, carry: bool) -> (r: (u8, bool))
    requires
        old(ring).size() > 0,
    ensures
        (r, *final(ring)) == spec_carry_first_after(*old(ring), then, carry),
{
    ring.reset();
    match ring.find_from_cursor(then, carry) {
        Some(v) => {
            rotate_right_one(ring);
            (v, false)
        },
        None => (peek_some(ring), true),
    }
}

/// The read of `next` for minutes, hours and months (see `spec_carry_next`).
fn carry_next(ring: &mut CopyRing<u8>, carry: bool) -> (r: (u8, bool))
    requires
        old(ring).size() > 0,
    ensures
        (r, *final(ring)) == spec_carry_next(*old(ring), carry),
{
    if carry {
        rotate_left_one(ring);
        let v = peek_some(ring);
        (v, ring.index() == 0)
    } else {
        (peek_some(ring), false)
    }
}

impl Seconds {
    /// The seconds of `copy_ring`.
    pub fn new(copy_ring: CopyRing<u8>) -> (r: Self)
        ensures
            r.0 == copy_ring,
    {
        Self(copy_ring)
    }

    /// Returns the first second that occurs after the given
    /// number of seconds. Rotates the inner buffer so that
    /// calling `next` yields the following value.
    ///
    /// If the inner buffer wrapped back to the earliest second,
    /// then overflow has occurred and the bool is `true`.
    ///
    /// Otherwise, the bool is `false` and no overflow
    /// has occurred.
    pub fn first_after(&mut self, secs: u8) -> (r: (u8, bool))
        requires
            old(self).0.size() > 0,
        ensures
            (r, final(self).0) == spec_secs_first_after(old(self).0, secs),
            !r.1 ==> r.0 >= secs,
            r.1 ==> forall|i: int| 0 <= i < old(self).0.size() ==> old(self).0.items()[i] < secs,
            spec_is_first_at_or_after(old(self).0.items(), secs, false, r),
    {
        proof {
            lemma_secs_first_after_is_first(old(self).0, secs);
        }
        self.0.reset();
        proof {
            crate::collection::copy_ring::lemma_scan_bounds(self.0.items(), 0, secs, false);
        }
        let found = self.0.find_from_cursor(secs, false);
        if found.is_some() {
            rotate_right_one(&mut self.0);
            (next_some(&mut self.0), false)
        } else {
            (next_some(&mut self.0), true)
        }
    }

    /// Returns the next second in the inner
    /// buffer, along with whether overflow
    /// occurred. For seconds, overflow
    /// occurs when the seconds passes 59
    /// and wraps back to 0.
    pub fn next(&mut self) -> (r: (u8, bool))
        requires
            old(self).0.size() > 0,
        ensures
            (Some(r), final(self).0) == old(self).0.spec_checked_next(),
    {
        checked_next_some(&mut self.0)
    }
}

impl Minutes {
    /// The minutes of `copy_ring`.
    pub fn new(copy_ring: CopyRing<u8>) -> (r: Self)
        ensures
            r.0 == copy_ring,
    {
        Self(copy_ring)
    }

    /// Returns the first minute that occurs after the given
    /// number of minutes. Rotates the inner buffer so that
    /// calling `next` yields the following value.
    ///
    /// If the inner buffer wrapped back to the earliest minute,
    /// then overflow has occurred and the bool is `true`.
    ///
    /// Otherwise, the bool is `false` and no overflow
    /// has occurred.
    pub fn first_after(&mut self, mins: u8, secs_overflow: bool) -> (r: (u8, bool))
        requires
            old(self).0.size() > 0,
        ensures
            (r, final(self).0) == spec_carry_first_after(old(self).0, mins, secs_overflow),
            spec_is_first_at_or_after(old(self).0.items(), mins, secs_overflow, r),
    {
        proof {
            lemma_carry_first_after_is_first(old(self).0, mins, secs_overflow);
        }
        carry_first_after(&mut self.0, mins, secs_overflow)
    }

    /// Returns the next minute in the inner
    /// buffer, along with whether overflow
    /// occurred. For minutes, overflow
    /// occurs when the minutes passes 59
    /// and wraps back to 0.
    pub fn next(&mut self, secs_overflow: bool) -> (r: (u8, bool))
        requires
            old(self).0.size() > 0,
        ensures
            (r, final(self).0) == spec_carry_next(old(self).0, secs_overflow),
    {
        carry_next(&mut self.0, secs_overflow)
    }
}

impl Hours {
    /// The hours of `copy_ring`.
    pub fn new(copy_ring: CopyRing<u8>) -> (r: Self)
        ensures
            r.0 == copy_ring,
    {
        Self(copy_ring)
    }

    /// Returns the first hour that occurs after the given
    /// number of hours. Rotates the inner buffer so that
    /// calling `next` yields the following value.
    ///
    /// If the inner buffer wrapped back to the earliest hour,
    /// then overflow has occurred and the bool is `true`.
    ///
    /// Otherwise, the bool is `false` and no overflow
    /// has occurred.
    pub fn first_after(&mut self, hrs: u8, mins_overflow: bool) -> (r: (u8, bool))
        requires
            old(self).0.size() > 0,
        ensures
            (r, final(self).0) == spec_carry_first_after(old(self).0, hrs, mins_overflow),
            spec_is_first_at_or_after(old(self).0.items(), hrs, mins_overflow, r),
    {
        proof {
            lemma_carry_first_after_is_first(old(self).0, hrs, mins_overflow);
        }
        carry_first_after(&mut self.0, hrs, mins_overflow)
    }

    /// Returns the next hour in the inner
    /// buffer, along with whether overflow
    /// occurred. For hours, overflow
    /// occurs when the hours passes 23
    /// and wraps back to 0.
    pub fn next(&mut self, mins_overflow: bool) -> (r: (u8, bool))
        requires
            old(self).0.size() > 0,
        ensures
            (r, final(self).0) == spec_carry_next(old(self).0, mins_overflow),
    {
        carry_next(&mut self.0, mins_overflow)
    }
}

impl Months {
    /// The months of `copy_ring`.
    pub fn new(copy_ring: CopyRing<u8>) -> (r: Self)
        ensures
            r.0 == copy_ring,
    {
        Self(copy_ring)
    }

    /// Returns the first month at or after `month`, moving on by one when
    /// the days carried over (see `spec_carry_first_after`), and whether
    /// the months wrapped into the next year.
    pub fn first_after(&mut self, day_overflow: bool, month: u8) -> (r: (u8, bool))
        requires
            old(self).0.size() > 0,
        ensures
            (r, final(self).0) == spec_carry_first_after(old(self).0, month, day_overflow),
            spec_is_first_at_or_after(old(self).0.items(), month, day_overflow, r),
    {
        proof {
            lemma_carry_first_after_is_first(old(self).0, month, day_overflow);
        }
        carry_first_after(&mut self.0, month, day_overflow)
    }

    /// Returns the next month when the days carried over (with whether the
    /// months wrapped), else the current month.
    pub fn next(&mut self, days_overflow: bool) -> (r: (u8, bool))
        requires
            old(self).0.size() > 0,
        ensures
            (r, final(self).0) == spec_carry_next(old(self).0, days_overflow),
    {
        carry_next(&mut self.0, days_overflow)
    }
}

/// Whether `Days::num_weekdays_since(first, second)` computes without an
/// overflow of its `i8` arithmetic.
pub open spec fn spec_weekdays_since_ok(first: int, second: int) -> bool {
    7 + second <= i8::MAX && i8::MIN <= 7 + second - first <= i8::MAX
}

/// The weekday of day `next_day_month`, counting from weekday
/// `last_weekday` on day `last_day_of_month` of a month of
/// `days_in_curr_month` days (a smaller day lies in the next month).
pub open spec fn spec_next_weekday_from_last(
    last_weekday: u8,
    next_day_month: u8,
    days_in_curr_month: u8,
    last_day_of_month: u8,
) -> u8 {
    ((last_weekday + (next_day_month + days_in_curr_month - last_day_of_month) % (days_in_curr_month as int))
        % 7) as u8
}

/// Whether `next_weekday_from_last` computes without an overflow.
pub open spec fn spec_next_weekday_from_last_ok(
    last_weekday: u8,
    next_day_month: u8,
    days_in_curr_month: u8,
    last_day_of_month: u8,
) -> bool {
    &&& days_in_curr_month > 0
    &&& next_day_month + days_in_curr_month <= u8::MAX
    &&& next_day_month + days_in_curr_month >= last_day_of_month
    &&& last_weekday + (next_day_month + days_in_curr_month - last_day_of_month) % (days_in_curr_month as int)
        <= u8::MAX
}

/// The weekday of day `next_day_month`, counting from weekday `last_weekday`
/// on day `last_day_of_month`, in a month of `days_in_curr_month` days; a
/// day before `last_day_of_month` is taken to lie in the next month.
pub fn next_weekday_from_last(
    last_weekday: u8,
    next_day_month: u8,
    days_in_curr_month: u8,
    last_day_of_month: u8,
) -> (r: u8)
    requires
        spec_next_weekday_from_last_ok(last_weekday, next_day_month, days_in_curr_month, last_day_of_month),
    ensures
        r == spec_next_weekday_from_last(last_weekday, next_day_month, days_in_curr_month, last_day_of_month),
        r < 7,
{
    let days_in_a_week: u8 = 7;
    let days_between = (next_day_month + days_in_curr_month - last_day_of_month) % days_in_curr_month;
    (last_weekday + days_between) % days_in_a_week
}

impl Days {
    /// The number of days from weekday `first_weekday` forward to weekday
    /// `second_weekday`.
    pub fn num_weekdays_since(first_weekday: i8, second_weekday: i8) -> (r: u8)
        requires
            spec_weekdays_since_ok(first_weekday as int, second_weekday as int),
        ensures
            r == spec_num_weekdays_since(first_weekday as int, second_weekday as int),
    {
        let days_in_a_week: i8 = 7;
        let diff = days_in_a_week + second_weekday - first_weekday;
        let m = diff % days_in_a_week;
        proof {
            if diff >= 0 {
                assert(m == diff % 7);
            } else {
                assert(m == -((-diff) % 7));
                assert(-7 < m <= 0);
                assert(m < 0 ==> m as u8 == (m + 256) as u8) by (bit_vector)
                    requires
                        -7 < m <= 0,
                ;
            }
        }
        m as u8
    }
}

/// The search of `Days::next_day_of_the_month`: the first day of the ring at
/// or above `day_of_month` (one further when the hours carried over), kept
/// when it is within the month; past the month, or when there is none, the
/// first day of the ring with a wrap.
pub open spec fn spec_next_day_of_the_month(
    days: CopyRing<u8>,
    hours_overflow: bool,
    day_of_month: u8,
    days_in_curr_month: u8,
) -> ((u8, bool), CopyRing<u8>) {
    let (found, r1) = days.spec_reset().spec_find_from_cursor(day_of_month, false);
    let r2 = if hours_overflow { spec_rotated_left(r1) } else { r1 };
    if found is Some {
        let r3 = spec_rotated_right(r2);
        let next = r3.spec_peek().unwrap();
        if next > days_in_curr_month {
            ((r3.spec_reset().spec_peek().unwrap(), true), r3.spec_reset())
        } else {
            ((next, false), r3)
        }
    } else {
        ((r2.spec_peek().unwrap(), true), r2)
    }
}

/// The weekday ring after the search of `Days::next_day_of_the_week`: its
/// cursor on the first weekday at or above `day_of_week` (on its first
/// weekday when there is none), one further when the hours carried over.
pub open spec fn spec_week_ring_after(days: CopyRing<u8>, hours_overflow: bool, day_of_week: u8) -> CopyRing<u8> {
    let (found, r1) = days.spec_reset().spec_find_from_cursor(day_of_week, false);
    let r2 = if found is Some { spec_rotated_right(r1) } else { r1 };
    if hours_overflow { spec_rotated_left(r2) } else { r2 }
}

/// The days from weekday `day_of_week` to the weekday picked by the search
/// of `Days::next_day_of_the_week`.
pub open spec fn spec_days_to_weekday(days: CopyRing<u8>, hours_overflow: bool, day_of_week: u8) -> u8 {
    let weekday = spec_week_ring_after(days, hours_overflow, day_of_week).spec_peek().unwrap();
    spec_num_weekdays_since((day_of_week as i8) as int, (weekday as i8) as int)
}

/// The search of `Days::next_day_of_the_week`: the day of the month of the
/// picked weekday, counting from day `day_of_month` (weekday
/// `day_of_week`); past the month, that day modulo the month's length with
/// a wrap.
pub open spec fn spec_next_day_of_the_week(
    days: CopyRing<u8>,
    hours_overflow: bool,
    day_of_week: u8,
    day_of_month: u8,
    days_in_curr_month: u8,
) -> ((u8, bool), CopyRing<u8>) {
    let r = spec_week_ring_after(days, hours_overflow, day_of_week);
    let next = day_of_month + spec_days_to_weekday(days, hours_overflow, day_of_week);
    if next > days_in_curr_month {
        (((next % (days_in_curr_month as int)) as u8, true), r)
    } else {
        ((next as u8, false), r)
    }
}

/// Whether `Days::next_day_of_the_week` runs without a panic or an overflow.
pub open spec fn spec_next_day_of_the_week_ok(
    days: CopyRing<u8>,
    hours_overflow: bool,
    day_of_week: u8,
    day_of_month: u8,
    days_in_curr_month: u8,
) -> bool {
    let weekday = spec_week_ring_after(days, hours_overflow, day_of_week).spec_peek().unwrap();
    &&& days.size() > 0
    &&& spec_weekdays_since_ok((day_of_week as i8) as int, (weekday as i8) as int)
    &&& day_of_month + spec_days_to_weekday(days, hours_overflow, day_of_week) <= u8::MAX
    &&& days_in_curr_month > 0
}

/// How `Days::first_after` records a day given by the month-day ring: the
/// weekday is counted on from `day_of_week` on `day_of_month`.
pub open spec fn spec_month_summary(
    day_of_week: u8,
    month_day: u8,
    days_in_curr_month: u8,
    day_of_month: u8,
) -> WeekSummary {
    WeekSummary {
        last_used: LastUsed::Month,
        last_month_day: month_day,
        last_weekday: spec_next_weekday_from_last(day_of_week, month_day, days_in_curr_month, day_of_month),
    }
}

/// Which ring wins in `Days::first_after` with both rings: the one that did
/// not wrap; when both or neither wrapped, the earlier day, or both on a tie.
pub open spec fn spec_pick(month_day: (u8, bool), week_day: (u8, bool)) -> LastUsed {
    if month_day.1 == week_day.1 {
        if month_day.0 < week_day.0 {
            LastUsed::Month
        } else if month_day.0 == week_day.0 {
            LastUsed::Both
        } else {
            LastUsed::Week
        }
    } else if week_day.1 {
        LastUsed::Month
    } else {
        LastUsed::Week
    }
}

impl Days {
    /// Whether `first_after` runs without a panic or an overflow.
    pub open spec fn spec_first_after_ok(
        self,
        day_of_month: u8,
        day_of_week: u8,
        hours_overflow: bool,
        month: u8,
        year: u32,
    ) -> bool {
        let dim = crate::spec_days_in_month(month as int, year as int) as u8;
        &&& 1 <= month <= 12
        &&& match self {
            Days::Month(m) => m.size() > 0,
            Days::Week(week) => spec_next_day_of_the_week_ok(week.0, hours_overflow, day_of_week, day_of_month, dim),
            Days::Both { month: m, week } => {
                let md = spec_next_day_of_the_month(m, hours_overflow, day_of_month, dim).0;
                let wd = spec_next_day_of_the_week(week.0, hours_overflow, day_of_week, day_of_month, dim).0;
                &&& m.size() > 0
                &&& spec_next_day_of_the_week_ok(week.0, hours_overflow, day_of_week, day_of_month, dim)
                &&& spec_pick(md, wd) == LastUsed::Month ==> spec_next_weekday_from_last_ok(
                    day_of_week,
                    md.0,
                    dim,
                    day_of_month,
                )
            },
        }
    }

    /// The day and wrap flag found by `first_after`, and the days after it.
    pub open spec fn spec_first_after(
        self,
        day_of_month: u8,
        day_of_week: u8,
        hours_overflow: bool,
        month: u8,
        year: u32,
    ) -> ((u8, bool), Days) {
        let dim = crate::spec_days_in_month(month as int, year as int) as u8;
        match self {
            Days::Month(m) => {
                let (md, m1) = spec_next_day_of_the_month(m, hours_overflow, day_of_month, dim);
                (md, Days::Month(m1))
            },
            Days::Week(week) => {
                let (wd, w1) = spec_next_day_of_the_week(week.0, hours_overflow, day_of_week, day_of_month, dim);
                let summary = WeekSummary {
                    last_used: LastUsed::Week,
                    last_month_day: wd.0,
                    last_weekday: w1.spec_peek().unwrap(),
                };
                (wd, Days::Week((w1, summary)))
            },
            Days::Both { month: m, week } => {
                let (wd, w1) = spec_next_day_of_the_week(week.0, hours_overflow, day_of_week, day_of_month, dim);
                let (md, m1) = spec_next_day_of_the_month(m, hours_overflow, day_of_month, dim);
                let wv = w1.spec_peek().unwrap();
                match spec_pick(md, wd) {
                    LastUsed::Month => (
                        md,
                        Days::Both { month: m1, week: (w1, spec_month_summary(day_of_week, md.0, dim, day_of_month)) },
                    ),
                    LastUsed::Both => (
                        md,
                        Days::Both {
                            month: m1,
                            week: (w1, WeekSummary { last_used: LastUsed::Both, last_month_day: md.0, last_weekday: wv }),
                        },
                    ),
                    LastUsed::Week => (
                        wd,
                        Days::Both {
                            month: m1,
                            week: (w1, WeekSummary { last_used: LastUsed::Week, last_month_day: wd.0, last_weekday: wv }),
                        },
                    ),
                }
            },
        }
    }

    /// Finds the first allowed day at or after day `day_of_month` (weekday
    /// `day_of_week`, Sunday 0) of `month` of `year`, moving on by one when
    /// the hours carried over; the bool tells whether the days wrapped into
    /// the next month. With both rings the earlier day wins, and the
    /// summary records which ring gave it.
    pub fn first_after(
        &mut self,
        day_of_month: u8,
        day_of_week: u8,
        hours_overflow: bool,
        month: u8,
        year: u32,
    ) -> (r: (u8, bool))
        requires
            old(self).spec_first_after_ok(day_of_month, day_of_week, hours_overflow, month, year),
        ensures
            (r, *final(self)) == old(self).spec_first_after(day_of_month, day_of_week, hours_overflow, month, year),
    {
        let days_in_curr_month = crate::days_in_a_month(month, year);
        match self {
            Days::Both { month, week: (week, summary) } => {
                let next_day_week = Self::next_day_of_the_week(
                    week,
                    hours_overflow,
                    day_of_week,
                    day_of_month,
                    days_in_curr_month,
                );
                let next_day_month = Self::next_day_of_the_month(
                    month,
                    hours_overflow,
                    day_of_month,
                    days_in_curr_month,
                );
                let month_first = if next_day_week.1 == next_day_month.1 {
                    if next_day_month.0 < next_day_week.0 {
                        Some(true)
                    } else if next_day_month.0 == next_day_week.0 {
                        None
                    } else {
                        Some(false)
                    }
                } else {
                    Some(next_day_week.1)
                };
                match month_first {
                    Some(true) => {
                        // the month day was sooner: commit to the month day
                        summary.last_used = LastUsed::Month;
                        summary.last_month_day = next_day_month.0;
                        summary.last_weekday = next_weekday_from_last(
                            day_of_week,
                            next_day_month.0,
                            days_in_curr_month,
                            day_of_month,
                        );
                        next_day_month
                    },
                    None => {
                        // both rings give the same day
                        summary.last_used = LastUsed::Both;
                        summary.last_month_day = next_day_month.0;
                        summary.last_weekday = peek_some(week);
                        next_day_month
                    },
                    Some(false) => {
                        // the weekday was sooner: commit to the weekday
                        summary.last_used = LastUsed::Week;
                        summary.last_month_day = next_day_week.0;
                        summary.last_weekday = peek_some(week);
                        next_day_week
                    },
                }
            },
            Days::Month(month) => {
                Self::next_day_of_the_month(month, hours_overflow, day_of_month, days_in_curr_month)
            },
            Days::Week((week, summary)) => {
                let next = Self::next_day_of_the_week(
                    week,
                    hours_overflow,
                    day_of_week,
                    day_of_month,
                    days_in_curr_month,
                );
                summary.last_used = LastUsed::Week;
                summary.last_month_day = next.0;
                summary.last_weekday = peek_some(week);
                next
            },
        }
    }

    /// The first day of the month-day ring at or after `day_of_month` (see
    /// `spec_next_day_of_the_month`).
    fn next_day_of_the_month(
        days: &mut CopyRing<u8>,
        hours_overflow: bool,
        day_of_month: u8,
        days_in_curr_month: u8,
    ) -> (r: (u8, bool))
        requires
            old(days).size() > 0,
        ensures
            (r, *final(days)) == spec_next_day_of_the_month(*old(days), hours_overflow, day_of_month, days_in_curr_month),
            final(days).items() == old(days).items(),
    {
        days.reset();
        let found = days.find_from_cursor(day_of_month, false);
        if hours_overflow {
            rotate_left_one(days);
        }
        if found.is_some() {
            rotate_right_one(days);
            let next = peek_some(days);
            if next > days_in_curr_month {
                days.reset();
                (peek_some(days), true)
            } else {
                (next, false)
            }
        } else {
            (peek_some(days), true)
        }
    }

    /// The day of the month of the first weekday of the ring at or after
    /// `day_of_week` (see `spec_next_day_of_the_week`).
    fn next_day_of_the_week(
        days: &mut CopyRing<u8>,
        hours_overflow: bool,
        day_of_week: u8,
        day_of_month: u8,
        days_in_curr_month: u8,
    ) -> (r: (u8, bool))
        requires
            spec_next_day_of_the_week_ok(*old(days), hours_overflow, day_of_week, day_of_month, days_in_curr_month),
        ensures
            (r, *final(days)) == spec_next_day_of_the_week(
                *old(days),
                hours_overflow,
                day_of_week,
                day_of_month,
                days_in_curr_month,
            ),
            final(days).items() == old(days).items(),
    {
        days.reset();
        let found = days.find_from_cursor(day_of_week, false);
        if found.is_some() {
            rotate_right_one(days);
        }
        if hours_overflow {
            rotate_left_one(days);
        }
        let weekday = peek_some(days);
        let days_since_now = Self::num_weekdays_since(day_of_week as i8, weekday as i8);
        let next_day_unmodded = day_of_month + days_since_now;
        if next_day_unmodded > days_in_curr_month {
            (next_day_unmodded % days_in_curr_month, true)
        } else {
            (next_day_unmodded, false)
        }
    }
}

/// The days from the weekday last found to `weekday`.
pub open spec fn spec_days_since_last(weekday: u8, last_weekday: u8) -> u8 {
    spec_num_weekdays_since((last_weekday as i8) as int, (weekday as i8) as int)
}

/// The day of the month of `weekday` as `Days::next` reckons it: the last
/// weekday plus the days from it to `weekday`, less the month's length
/// (with a wrap) when that passes the month.
pub open spec fn spec_weekday_to_month_day(weekday: u8, last_weekday: u8, days_in_curr_month: u8) -> (u8, bool) {
    let next = last_weekday + spec_days_since_last(weekday, last_weekday);
    if next > days_in_curr_month {
        ((next - days_in_curr_month) as u8, true)
    } else {
        (next as u8, false)
    }
}

/// Whether that reckoning runs without a panic: the `u8` arithmetic stays in
/// range, the month's length subtracted included, which is computed
/// whether or not it is used.
pub open spec fn spec_weekday_to_month_day_ok(weekday: u8, last_weekday: u8, days_in_curr_month: u8) -> bool {
    &&& spec_weekdays_since_ok((last_weekday as i8) as int, (weekday as i8) as int)
    &&& last_weekday + spec_days_since_last(weekday, last_weekday) <= u8::MAX
    &&& last_weekday + spec_days_since_last(weekday, last_weekday) >= days_in_curr_month
}

/// The month-day ring's read in `Days::next` with both rings: the next day
/// with its wrap flag when that ring gave the last day (alone or with the
/// weekdays), else the day under the cursor.
pub open spec fn spec_both_month_read(month: CopyRing<u8>, last_used: LastUsed) -> ((u8, bool), CopyRing<u8>) {
    if last_used == LastUsed::Week {
        ((month.spec_peek().unwrap(), false), month)
    } else {
        (month.spec_checked_next().0.unwrap(), month.spec_checked_next().1)
    }
}

/// The weekday ring's read in `Days::next` with both rings: the next weekday
/// when that ring gave the last day (alone or with the month days), else the
/// weekday under the cursor.
pub open spec fn spec_both_week_read(week: CopyRing<u8>, last_used: LastUsed) -> (u8, CopyRing<u8>) {
    if last_used == LastUsed::Month {
        (week.spec_peek().unwrap(), week)
    } else {
        (week.spec_next().0.unwrap(), week.spec_next().1)
    }
}

impl Days {
    /// Whether `next` runs without a panic or an overflow.
    pub open spec fn spec_next_ok(self, hours_overflow: bool, curr_month: u8, curr_year: u32) -> bool {
        let dim = crate::spec_days_in_month(curr_month as int, curr_year as int) as u8;
        &&& 1 <= curr_month <= 12
        &&& match self {
            Days::Month(m) => m.size() > 0,
            Days::Week(week) => hours_overflow ==> {
                &&& week.0.size() > 0
                &&& spec_weekday_to_month_day_ok(week.0.spec_next().0.unwrap(), week.1.last_weekday, dim)
            },
            Days::Both { month: m, week } => hours_overflow ==> {
                let s = week.1;
                let ((md, mo), m1) = spec_both_month_read(m, s.last_used);
                let (wv, w1) = spec_both_week_read(week.0, s.last_used);
                &&& m.size() > 0
                &&& week.0.size() > 0
                &&& spec_weekday_to_month_day_ok(wv, s.last_weekday, dim)
                &&& spec_next_weekday_from_last_ok(s.last_weekday, md, dim, s.last_month_day)
            },
        }
    }

    /// The day and wrap flag given by `next`, and the days after it.
    pub open spec fn spec_next(self, hours_overflow: bool, curr_month: u8, curr_year: u32) -> ((u8, bool), Days) {
        let dim = crate::spec_days_in_month(curr_month as int, curr_year as int) as u8;
        match self {
            Days::Month(m) => {
                let (d, m1) = spec_carry_next(m, hours_overflow);
                (d, Days::Month(m1))
            },
            Days::Week(week) => if hours_overflow {
                let (w, w1) = week.0.spec_next();
                let (next, overflow) = spec_weekday_to_month_day(w.unwrap(), week.1.last_weekday, dim);
                (
                    (next, overflow),
                    Days::Week((w1, WeekSummary { last_month_day: next, last_weekday: w.unwrap(), last_used: LastUsed::Week })),
                )
            } else {
                ((week.1.last_month_day, false), self)
            },
            Days::Both { month: m, week } => if hours_overflow {
                let s = week.1;
                let ((md, mo), m1) = spec_both_month_read(m, s.last_used);
                let (wv, w1) = spec_both_week_read(week.0, s.last_used);
                let (wd, wo) = spec_weekday_to_month_day(wv, s.last_weekday, dim);
                let week_summary = WeekSummary { last_month_day: wd, last_weekday: wv, last_used: LastUsed::Week };
                let month_summary = WeekSummary {
                    last_month_day: md,
                    last_weekday: spec_next_weekday_from_last(s.last_weekday, md, dim, s.last_month_day),
                    last_used: LastUsed::Month,
                };
                match spec_pick((md, mo), (wd, wo)) {
                    LastUsed::Month => ((md, mo), Days::Both { month: m1, week: (w1, month_summary) }),
                    LastUsed::Both => (
                        (md, mo),
                        Days::Both { month: m1, week: (w1, WeekSummary { last_used: LastUsed::Both, ..month_summary }) },
                    ),
                    LastUsed::Week => ((wd, wo), Days::Both { month: m1, week: (w1, week_summary) }),
                }
            } else {
                ((week.1.last_month_day, false), self)
            },
        }
    }

    /// The day of the month of `weekday`, reckoned from the last weekday
    /// found (see `spec_weekday_to_month_day`).
    fn weekday_to_month_day(weekday: u8, last_weekday: u8, days_in_curr_month: u8) -> (r: (u8, bool))
        requires
            spec_weekday_to_month_day_ok(weekday, last_weekday, days_in_curr_month),
        ensures
            r == spec_weekday_to_month_day(weekday, last_weekday, days_in_curr_month),
    {
        let days_since_last = Self::num_weekdays_since(last_weekday as i8, weekday as i8);
        let next_day_of_the_month = last_weekday + days_since_last;
        let overflow = next_day_of_the_month > days_in_curr_month;
        let wrapped_day = next_day_of_the_month - days_in_curr_month;
        let month_day = if overflow { wrapped_day } else { next_day_of_the_month };
        (month_day, overflow)
    }

    /// Returns the next allowed day after the last one found, when the hours
    /// carried over, and whether the days wrapped into the next month; else
    /// the last day found again.
    ///
    /// With both rings, the ring that gave the last day moves on and the
    /// other is read where it stands; the earlier of the two days wins, as
    /// in `first_after`, and the summary records it.
    pub fn next(&mut self, hours_overflow: bool, curr_month: u8, curr_year: u32) -> (r: (u8, bool))
        requires
            old(self).spec_next_ok(hours_overflow, curr_month, curr_year),
        ensures
            (r, *final(self)) == old(self).spec_next(hours_overflow, curr_month, curr_year),
    {
        let days_in_curr_month = crate::days_in_a_month(curr_month, curr_year);
        match self {
            Days::Both { month, week: (week, summary) } => {
                if hours_overflow {
                    let ((monthday, monthday_overflow), weekday) = match summary.last_used() {
                        LastUsed::Week => {
                            let week = next_some(week);
                            let month = (peek_some(month), false);
                            (month, week)
                        },
                        LastUsed::Month => {
                            let month = checked_next_some(month);
                            let week = peek_some(week);
                            (month, week)
                        },
                        LastUsed::Both => {
                            let month = checked_next_some(month);
                            let week = next_some(week);
                            (month, week)
                        },
                    };

                    // Week
                    let (next_day_of_the_month, weekday_overflow) = Self::weekday_to_month_day(
                        weekday,
                        summary.last_weekday(),
                        days_in_curr_month,
                    );
                    let week_summary = WeekSummary {
                        last_month_day: next_day_of_the_month,
                        last_weekday: weekday,
                        last_used: LastUsed::Week,
                    };

                    // Month
                    let next_day_of_the_week = next_weekday_from_last(
                        summary.last_weekday(),
                        monthday,
                        days_in_curr_month,
                        summary.last_month_day(),
                    );
                    let mut month_summary = WeekSummary {
                        last_month_day: monthday,
                        last_weekday: next_day_of_the_week,
                        last_used: LastUsed::Month,
                    };

                    // Compare
                    if monthday_overflow == weekday_overflow {
                        if monthday < next_day_of_the_month {
                            summary.set(month_summary);
                            (summary.last_month_day(), monthday_overflow)
                        } else if monthday == next_day_of_the_month {
                            month_summary.set_last_used(LastUsed::Both);
                            summary.set(month_summary);
                            (summary.last_month_day(), monthday_overflow)
                        } else {
                            summary.set(week_summary);
                            (summary.last_month_day(), weekday_overflow)
                        }
                    } else if monthday_overflow {
                        // the weekday was sooner
                        summary.set(week_summary);
                        (summary.last_month_day(), weekday_overflow)
                    } else {
                        // the month day was sooner
                        summary.set(month_summary);
                        (summary.last_month_day(), monthday_overflow)
                    }
                } else {
                    (summary.last_month_day(), false)
                }
            },
            Days::Month(month) => carry_next(month, hours_overflow),
            Days::Week((week, summary)) => {
                if hours_overflow {
                    let next_day_of_the_week = next_some(week);
                    let (next, overflow) = Self::weekday_to_month_day(
                        next_day_of_the_week,
                        summary.last_weekday(),
                        days_in_curr_month,
                    );
                    let week_summary = WeekSummary {
                        last_month_day: next,
                        last_weekday: next_day_of_the_week,
                        last_used: LastUsed::Week,
                    };
                    summary.set(week_summary);
                    (summary.last_month_day(), overflow)
                } else {
                    (summary.last_month_day(), false)
                }
            },
        }
    }
}

/// Whether the values of `ring` are strictly increasing.
pub open spec fn spec_increasing(ring: CopyRing<u8>) -> bool {
    forall|i: int, j: int| 0 <= i < j < ring.size() ==> ring.items()[i] < ring.items()[j]
}

/// What the search shared by minutes, hours and months gives, by the
/// position `j` of the first value at or above `then` (above it with a
/// carry): that value, with no wrap and the cursor on it; when there is
/// none, the first value with a wrap and the cursor on it.
pub(crate) proof fn lemma_carry_first_after_facts(ring: CopyRing<u8>, then: u8, carry: bool)
    requires
        ring.size() > 0,
    ensures
        ({
            let j = crate::collection::copy_ring::spec_scan(ring.items(), 0, then, carry);
            &&& 0 <= j <= ring.size()
            &&& forall|k: int| 0 <= k < j ==> !crate::collection::copy_ring::spec_passes(#[trigger] ring.items()[k], then, carry)
            &&& j < ring.size() ==> crate::collection::copy_ring::spec_passes(ring.items()[j], then, carry)
                && spec_carry_first_after(ring, then, carry) == ((ring.items()[j], false), ring.spec_set(j as nat, true))
            &&& j == ring.size() ==> spec_carry_first_after(ring, then, carry) == ((ring.items()[0], true), ring.spec_set(0, true))
        }),
{
    let r0 = ring.spec_reset();
    crate::collection::copy_ring::lemma_scan_bounds(r0.items(), 0, then, carry);
    let j = crate::collection::copy_ring::spec_scan(ring.items(), 0, then, carry);
    ring.lemma_spec_set(0, false);
    if j < ring.size() {
        let r1 = r0.spec_set(r0.step(j as nat), true);
        r0.lemma_spec_set(r0.step(j as nat), true);
        r1.lemma_spec_set(r1.back(r1.pos()), true);
        assert(r1.back(r1.pos()) == j);
        assert(spec_rotated_right(r1) == ring.spec_set(j as nat, true));
    } else {
        r0.lemma_spec_set(0, true);
        assert(r0.spec_set(0, true) == ring.spec_set(0, true));
    }
}

/// What the search shared by minutes, hours and months promises of its
/// result `r` on the values `items`: no wrap exactly when some value is at
/// or above `then` (above it with a carry); then `r.0` is such a value, the
/// least of them when the values increase; with a wrap, the first value.
pub open spec fn spec_is_first_at_or_after(items: Seq<u8>, then: u8, carry: bool, r: (u8, bool)) -> bool {
    &&& !r.1 <==> exists|i: int| 0 <= i < items.len() && crate::collection::copy_ring::spec_passes(#[trigger] items[i], then, carry)
    &&& !r.1 ==> crate::collection::copy_ring::spec_passes(r.0, then, carry) && items.contains(r.0)
    &&& r.1 ==> r.0 == items[0]
    &&& (forall|i: int, j: int| 0 <= i < j < items.len() ==> items[i] < items[j]) && !r.1 ==> forall|i: int|
        0 <= i < items.len() && crate::collection::copy_ring::spec_passes(#[trigger] items[i], then, carry) ==> r.0 <= items[i]
}

/// The search shared by minutes, hours and months keeps the promise of
/// `spec_is_first_at_or_after`.
pub(crate) proof fn lemma_carry_first_after_is_first(ring: CopyRing<u8>, then: u8, carry: bool)
    requires
        ring.size() > 0,
    ensures
        spec_is_first_at_or_after(ring.items(), then, carry, spec_carry_first_after(ring, then, carry).0),
{
    lemma_carry_first_after_facts(ring, then, carry);
    let j = crate::collection::copy_ring::spec_scan(ring.items(), 0, then, carry);
    let items = ring.items();
    if j < ring.size() {
        assert(items.contains(items[j]));
        if forall|a: int, b: int| 0 <= a < b < items.len() ==> items[a] < items[b] {
            assert forall|i: int| 0 <= i < items.len() && crate::collection::copy_ring::spec_passes(#[trigger] items[i], then, carry) implies items[j] <= items[i] by {
                if i < j {
                    assert(!crate::collection::copy_ring::spec_passes(items[i], then, carry));
                } else if i > j {
                    assert(items[j] < items[i]);
                }
            }
        }
    } else {
        assert forall|i: int| 0 <= i < items.len() implies !crate::collection::copy_ring::spec_passes(#[trigger] items[i], then, carry) by {}
    }
}

/// On a ring of increasing values, the search shared by minutes, hours and
/// months reports a wrap exactly when the value it gives is below `then`:
/// a value without a wrap is at or above `then`, a value with a wrap below
/// it. With a carry from the field below this needs two values or more (a
/// ring of one value at or above `then` gives it back with a wrap).
pub proof fn law_carry_first_after_wrap(ring: CopyRing<u8>, then: u8, carry: bool)
    requires
        spec_increasing(ring),
        ring.size() >= 1,
        carry ==> ring.size() >= 2,
    ensures
        spec_carry_first_after(ring, then, carry).0.1 ==> spec_carry_first_after(ring, then, carry).0.0 < then,
        !spec_carry_first_after(ring, then, carry).0.1 ==> spec_carry_first_after(ring, then, carry).0.0 >= then,
{
    lemma_carry_first_after_facts(ring, then, carry);
    let j = crate::collection::copy_ring::spec_scan(ring.items(), 0, then, carry);
    if j >= ring.size() && carry {
        assert(!crate::collection::copy_ring::spec_passes(ring.items()[1], then, carry));
        assert(ring.items()[0] < ring.items()[1]);
    }
}

/// Between two weekdays (0 to 6) the count of days forward is below 7, and
/// counting that many days on from the first lands on the second.
pub proof fn law_weekdays_since(first: int, second: int)
    requires
        0 <= first < 7,
        0 <= second < 7,
    ensures
        spec_num_weekdays_since(first, second) < 7,
        (first + spec_num_weekdays_since(first, second)) % 7 == second,
{
    let d = second + 7 - first;
    assert(0 < d < 14);
    if d >= 7 {
        assert(d % 7 == d - 7);
    } else {
        assert(d % 7 == d);
    }
}

/// The value the seconds' search gives is a value of the ring.
pub(crate) proof fn lemma_secs_value_in_ring(ring: CopyRing<u8>, then: u8)
    requires
        ring.size() > 0,
    ensures
        ring.items().contains(spec_secs_first_after(ring, then).0.0),
{
    let r0 = ring.spec_reset();
    crate::collection::copy_ring::lemma_scan_bounds(r0.items(), 0, then, false);
    let j = crate::collection::copy_ring::spec_scan(r0.items(), 0, then, false);
    if j < ring.size() {
        let r1 = r0.spec_find_from_cursor(then, false).1;
        assert(r1 == r0.spec_set(r0.step(j as nat), true));
        assert(r1.items() == r0.items());
        let r2 = spec_rotated_right(r1);
        assert(r2.items() == r1.items());
        assert(r2.pos() == j);
        assert(ring.items()[j] == spec_secs_first_after(ring, then).0.0);
    } else {
        assert(ring.items()[0] == spec_secs_first_after(ring, then).0.0);
    }
}

/// The value the search shared by minutes, hours and months gives is a
/// value of the ring.
pub(crate) proof fn lemma_carry_value_in_ring(ring: CopyRing<u8>, then: u8, carry: bool)
    requires
        ring.size() > 0,
    ensures
        ring.items().contains(spec_carry_first_after(ring, then, carry).0.0),
{
    lemma_carry_first_after_facts(ring, then, carry);
    let j = crate::collection::copy_ring::spec_scan(ring.items(), 0, then, carry);
    if j < ring.size() {
        assert(ring.items()[j] == spec_carry_first_after(ring, then, carry).0.0);
    } else {
        assert(ring.items()[0] == spec_carry_first_after(ring, then, carry).0.0);
    }
}

/// The value the month-day search of `Days::first_after` gives is a value
/// of the ring.
pub(crate) proof fn lemma_month_day_in_ring(days: CopyRing<u8>, hours_overflow: bool, day_of_month: u8, dim: u8)
    requires
        days.size() > 0,
    ensures
        days.items().contains(spec_next_day_of_the_month(days, hours_overflow, day_of_month, dim).0.0),
{
    let r0 = days.spec_reset();
    crate::collection::copy_ring::lemma_scan_bounds(r0.items(), 0, day_of_month, false);
    let (found, r1) = r0.spec_find_from_cursor(day_of_month, false);
    let r2 = if hours_overflow { spec_rotated_left(r1) } else { r1 };
    if found is Some {
        let r3 = spec_rotated_right(r2);
        if r3.spec_peek().unwrap() > dim {
            assert(days.items()[0] == spec_next_day_of_the_month(days, hours_overflow, day_of_month, dim).0.0);
        } else {
            assert(days.items()[r3.pos() as int] == spec_next_day_of_the_month(days, hours_overflow, day_of_month, dim).0.0);
        }
    } else {
        assert(days.items()[r2.pos() as int] == spec_next_day_of_the_month(days, hours_overflow, day_of_month, dim).0.0);
    }
}

/// On a ring of increasing values, the seconds' search gives, without a
/// wrap, a value at or above `then`.
pub(crate) proof fn lemma_secs_not_before(ring: CopyRing<u8>, then: u8)
    requires
        spec_increasing(ring),
        ring.size() > 0,
    ensures
        !spec_secs_first_after(ring, then).0.1 ==> spec_secs_first_after(ring, then).0.0 >= then,
{
    let r0 = ring.spec_reset();
    crate::collection::copy_ring::lemma_scan_bounds(r0.items(), 0, then, false);
    let j = crate::collection::copy_ring::spec_scan(r0.items(), 0, then, false);
    if j < ring.size() {
        let r1 = r0.spec_find_from_cursor(then, false).1;
        assert(r1 == r0.spec_set(r0.step(j as nat), true));
        let r2 = spec_rotated_right(r1);
        assert(r2.items() == r1.items());
        assert(r2.pos() == j);
    }
}

/// On a ring of increasing values, the search shared by minutes, hours and
/// months gives, without a wrap, a value at or above `then`, and above it
/// when the field below carried over.
pub(crate) proof fn lemma_carry_not_before(ring: CopyRing<u8>, then: u8, carry: bool)
    requires
        spec_increasing(ring),
        ring.size() > 0,
    ensures
        !spec_carry_first_after(ring, then, carry).0.1 ==> spec_carry_first_after(ring, then, carry).0.0 >= then
            + if carry {
            1int
        } else {
            0int
        },
{
    lemma_carry_first_after_facts(ring, then, carry);
}

impl Days {
    /// Whether the day search of `first_after`, with the hours carried over,
    /// comes back to a day not after `day_of_month` without reporting a
    /// wrap: the month-day search steps past the last value of the ring
    /// (the first one at or above `day_of_month`) back to the first value,
    /// which is not after `day_of_month` and within the month; or the
    /// weekday search picks `day_of_week` itself, counting no days forward,
    /// with `day_of_month` within the month.
    pub open spec fn spec_day_search_falls_back(self, day_of_month: u8, day_of_week: u8, month: u8, year: u32) -> bool {
        let dim = crate::spec_days_in_month(month as int, year as int) as u8;
        let month_falls = |m: CopyRing<u8>|
            crate::collection::copy_ring::spec_scan(m.items(), 0, day_of_month, false) == m.size() - 1
                && m.items()[0] <= day_of_month && m.items()[0] <= dim;
        let week_falls = |w: CopyRing<u8>| spec_days_to_weekday(w, true, day_of_week) == 0 && day_of_month <= dim;
        match self {
            Days::Month(m) => month_falls(m),
            Days::Week(week) => week_falls(week.0),
            Days::Both { month: m, week } => month_falls(m) || week_falls(week.0),
        }
    }

    /// Whether the rings of the days are in increasing order, with weekdays
    /// below 7.
    pub open spec fn spec_rings_ordered(self) -> bool {
        match self {
            Days::Month(m) => spec_increasing(m),
            Days::Week(week) => spec_increasing(week.0) && forall|i: int|
                0 <= i < week.0.size() ==> #[trigger] week.0.items()[i] < 7,
            Days::Both { month: m, week } => spec_increasing(m) && spec_increasing(week.0) && forall|i: int|
                0 <= i < week.0.size() ==> #[trigger] week.0.items()[i] < 7,
        }
    }
}

/// The weekday ring after the weekday search keeps its buffer, with its
/// cursor within it.
proof fn lemma_week_ring_after_valid(w: CopyRing<u8>, hours_overflow: bool, day_of_week: u8)
    requires
        w.size() > 0,
    ensures
        spec_week_ring_after(w, hours_overflow, day_of_week).items() == w.items(),
        spec_week_ring_after(w, hours_overflow, day_of_week).pos() < w.size(),
{
    let r0 = w.spec_reset();
    crate::collection::copy_ring::lemma_scan_bounds(r0.items(), 0, day_of_week, false);
    let j = crate::collection::copy_ring::spec_scan(r0.items(), 0, day_of_week, false);
    let (found, r1) = r0.spec_find_from_cursor(day_of_week, false);
    if found is Some {
        r0.lemma_spec_set(r0.step(j as nat), true);
    } else {
        r0.lemma_spec_set(0, true);
    }
    let r2 = if found is Some { spec_rotated_right(r1) } else { r1 };
    r1.lemma_spec_set(r1.back(r1.pos()), r1.started());
    r2.lemma_spec_set(r2.step(r2.pos()), r2.started());
}

/// The month-day search gives, without a wrap, a day at or after
/// `day_of_month`, after it when the hours carried over, unless it falls
/// back (see `Days::spec_day_search_falls_back`).
proof fn lemma_month_day_not_before(m: CopyRing<u8>, hours_overflow: bool, day_of_month: u8, dim: u8)
    requires
        spec_increasing(m),
        m.size() > 0,
        !(hours_overflow && crate::collection::copy_ring::spec_scan(m.items(), 0, day_of_month, false) == m.size() - 1
            && m.items()[0] <= day_of_month && m.items()[0] <= dim),
    ensures
        !spec_next_day_of_the_month(m, hours_overflow, day_of_month, dim).0.1 ==> spec_next_day_of_the_month(
            m,
            hours_overflow,
            day_of_month,
            dim,
        ).0.0 >= day_of_month + if hours_overflow {
            1int
        } else {
            0int
        },
{
    let r0 = m.spec_reset();
    crate::collection::copy_ring::lemma_scan_bounds(r0.items(), 0, day_of_month, false);
    let j = crate::collection::copy_ring::spec_scan(r0.items(), 0, day_of_month, false);
    let (found, r1) = r0.spec_find_from_cursor(day_of_month, false);
    if found is Some {
        r0.lemma_spec_set(r0.step(j as nat), true);
        let r2 = if hours_overflow { spec_rotated_left(r1) } else { r1 };
        r1.lemma_spec_set(r1.step(r1.pos()), r1.started());
        let r3 = spec_rotated_right(r2);
        r2.lemma_spec_set(r2.back(r2.pos()), r2.started());
        if hours_overflow {
            if j + 1 < m.size() {
                assert(r3.pos() == j + 1);
                assert(m.items()[j] < m.items()[j + 1]);
            } else {
                assert(r3.pos() == 0);
            }
        } else {
            assert(r3.pos() == j);
        }
    }
}

/// The weekday search gives, without a wrap, a day at or after
/// `day_of_month`, after it when the hours carried over, unless it counts
/// no days forward then.
proof fn lemma_week_day_not_before(w: CopyRing<u8>, hours_overflow: bool, day_of_week: u8, day_of_month: u8, dim: u8)
    requires
        w.size() > 0,
        day_of_week < 7,
        forall|i: int| 0 <= i < w.size() ==> #[trigger] w.items()[i] < 7,
        day_of_month + spec_days_to_weekday(w, hours_overflow, day_of_week) <= u8::MAX,
        !(hours_overflow && spec_days_to_weekday(w, true, day_of_week) == 0 && day_of_month <= dim),
    ensures
        !spec_next_day_of_the_week(w, hours_overflow, day_of_week, day_of_month, dim).0.1 ==> spec_next_day_of_the_week(
            w,
            hours_overflow,
            day_of_week,
            day_of_month,
            dim,
        ).0.0 >= day_of_month + if hours_overflow {
            1int
        } else {
            0int
        },
{
    lemma_week_ring_after_valid(w, hours_overflow, day_of_week);
    let r = spec_week_ring_after(w, hours_overflow, day_of_week);
    let wd = r.spec_peek().unwrap();
    assert(wd == w.items()[r.pos() as int]);
    assert(wd < 7);
    assert((wd as i8) as int == wd as int);
    assert((day_of_week as i8) as int == day_of_week as int);
    let k = spec_days_to_weekday(w, hours_overflow, day_of_week);
    assert(k == spec_num_weekdays_since(day_of_week as int, wd as int));
}

/// The day `Days::first_after` finds without a wrap is at or after
/// `day_of_month`, and after it when the hours carried over, for rings in
/// increasing order with weekdays below 7, unless the search falls back
/// (see `Days::spec_day_search_falls_back`).
pub(crate) proof fn lemma_days_not_before(
    days: Days,
    day_of_month: u8,
    day_of_week: u8,
    hours_overflow: bool,
    month: u8,
    year: u32,
)
    requires
        days.spec_first_after_ok(day_of_month, day_of_week, hours_overflow, month, year),
        days.spec_rings_ordered(),
        day_of_week < 7,
        !(hours_overflow && days.spec_day_search_falls_back(day_of_month, day_of_week, month, year)),
    ensures
        !days.spec_first_after(day_of_month, day_of_week, hours_overflow, month, year).0.1 ==> days.spec_first_after(
            day_of_month,
            day_of_week,
            hours_overflow,
            month,
            year,
        ).0.0 >= day_of_month + if hours_overflow {
            1int
        } else {
            0int
        },
{
    let dim = crate::spec_days_in_month(month as int, year as int) as u8;
    match days {
        Days::Month(m) => {
            lemma_month_day_not_before(m, hours_overflow, day_of_month, dim);
        },
        Days::Week(week) => {
            lemma_week_day_not_before(week.0, hours_overflow, day_of_week, day_of_month, dim);
        },
        Days::Both { month: m, week } => {
            lemma_month_day_not_before(m, hours_overflow, day_of_month, dim);
            lemma_week_day_not_before(week.0, hours_overflow, day_of_week, day_of_month, dim);
        },
    }
}

/// The seconds' search keeps the promise of `spec_is_first_at_or_after`
/// (with no carry).
pub(crate) proof fn lemma_secs_first_after_is_first(ring: CopyRing<u8>, then: u8)
    requires
        ring.size() > 0,
    ensures
        spec_is_first_at_or_after(ring.items(), then, false, spec_secs_first_after(ring, then).0),
{
    let r0 = ring.spec_reset();
    crate::collection::copy_ring::lemma_scan_bounds(r0.items(), 0, then, false);
    let j = crate::collection::copy_ring::spec_scan(r0.items(), 0, then, false);
    let items = ring.items();
    if j < ring.size() {
        let r1 = r0.spec_find_from_cursor(then, false).1;
        assert(r1 == r0.spec_set(r0.step(j as nat), true));
        assert(r1.items() == r0.items());
        let r2 = spec_rotated_right(r1);
        assert(r2.items() == r1.items());
        assert(r2.pos() == j);
        assert(spec_secs_first_after(ring, then).0 == (items[j], false));
        assert(items.contains(items[j]));
        if forall|a: int, b: int| 0 <= a < b < items.len() ==> items[a] < items[b] {
            assert forall|i: int|
                0 <= i < items.len() && crate::collection::copy_ring::spec_passes(
                    #[trigger] items[i],
                    then,
                    false,
                ) implies items[j] <= items[i] by {
                if i < j {
                    assert(!crate::collection::copy_ring::spec_passes(items[i], then, false));
                } else if i > j {
                    assert(items[j] < items[i]);
                }
            }
        }
    } else {
        let r1 = r0.spec_find_from_cursor(then, false).1;
        assert(r1 == r0.spec_set(0, true));
        assert(r1.items() == r0.items());
        assert(spec_secs_first_after(ring, then).0 == (items[0], true));
        assert forall|i: int| 0 <= i < items.len() implies !crate::collection::copy_ring::spec_passes(
            #[trigger] items[i],
            then,
            false,
        ) by {}
    }
}

/// After the search shared by minutes, hours and months finds `v` (the
/// value at place `j` of the buffer), reading without a carry gives `v`
/// again and changes nothing, and reading with a carry gives the value
/// that follows `v` in the buffer (the first one after the last), with a
/// wrap exactly when `v` is the last value, the largest of a ring of
/// increasing values.
pub proof fn law_next_after_search(ring: CopyRing<u8>, then: u8, carry: bool)
    requires
        ring.size() > 0,
    ensures
        ({
            let ((v, _), r1) = spec_carry_first_after(ring, then, carry);
            let n = ring.size() as int;
            &&& spec_carry_next(r1, false) == ((v, false), r1)
            &&& exists|j: int|
                0 <= j < n && #[trigger] ring.items()[j] == v && spec_carry_next(r1, true).0 == (
                    ring.items()[(j + 1) % n],
                    j == n - 1,
                )
            &&& spec_increasing(ring) ==> (spec_carry_next(r1, true).0.1 <==> v == ring.items()[n - 1])
        }),
{
    lemma_carry_first_after_facts(ring, then, carry);
    let j = crate::collection::copy_ring::spec_scan(ring.items(), 0, then, carry);
    let n = ring.size() as int;
    let p: int = if j < n { j } else { 0 };
    let r1 = ring.spec_set(p as nat, true);
    ring.lemma_spec_set(p as nat, true);
    r1.lemma_spec_set(r1.step(r1.pos()), true);
    if p + 1 < n {
        assert((p + 1) % n == p + 1) by (nonlinear_arith)
            requires
                0 <= p + 1 < n,
        ;
    } else {
        assert((p + 1) % n == 0) by (nonlinear_arith)
            requires
                p + 1 == n,
                n > 0,
        ;
    }
    assert(ring.items()[p] == spec_carry_first_after(ring, then, carry).0.0);
    if spec_increasing(ring) && p != n - 1 {
        assert(ring.items()[p] < ring.items()[n - 1]);
    }
}

} // verus!
