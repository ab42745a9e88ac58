//! The time half and the date half of the field table, and the search for
//! the first allowed time and date at or after a given one.
use vstd::prelude::*;

use self::date::{DayCache, Days, LastUsed, Months, NextDay};
use self::time::{Hours, Minutes, Seconds};
use super::Error;
use crate::clock::{from_hms_opt, from_ymd_opt, CalendarDate, ClockTime};
use crate::collection::copy_ring::{spec_passes, spec_scan};
use crate::CopyRing;

pub mod date;
pub mod time;

verus! {

broadcast use crate::collection::copy_ring::group_ring_set;

/// The value read by `next` and the ring after it: with `overflow`, the
/// next value and whether the ring wrapped; without, the value under the
/// cursor and no wrap.
pub open spec fn spec_next(ring: CopyRing<u8>, overflow: bool) -> ((u8, bool), CopyRing<u8>) {
    if overflow {
        (ring.spec_checked_next().0.unwrap(), ring.spec_checked_next().1)
    } else {
        ((ring.spec_peek().unwrap(), false), ring)
    }
}

/// Reads the next value of `ring` when `overflow` (with its wrap flag), else
/// the value under the cursor without moving it.
pub fn next(ring: &mut CopyRing<u8>, overflow: bool) -> (r: (u8, bool))
    requires
        old(ring).size() > 0,
    ensures
        (r, *final(ring)) == spec_next(*old(ring), overflow),
{
    if overflow {
        match ring.checked_next() {
            Some(v) => v,
            None => {
                assert(false);
                (0, false)
            },
        }
    } else {
        match ring.peek() {
            Some(v) => (v, false),
            None => {
                assert(false);
                (0, false)
            },
        }
    }
}

/// The result of `first_after` and the ring after it: the first value from
/// the cursor to the end of the buffer that passes `then` (strictly above it
/// when `overflow`, else at or above it) with no wrap; else the first value
/// of the buffer with a wrap.
pub open spec fn spec_first_after(ring: CopyRing<u8>, overflow: bool, then: u8) -> ((u8, bool), CopyRing<u8>) {
    let (found, r1) = ring.spec_find_from_cursor(then, overflow);
    match found {
        Some(x) => ((x, false), r1),
        None => ((r1.spec_next().0.unwrap(), true), r1.spec_next().1),
    }
}

/// Returns the first value from the cursor on that passes `then` (see
/// `spec_first_after`), and whether the search wrapped to the first value.
pub fn first_after(ring: &mut CopyRing<u8>, overflow: bool, then: u8) -> (r: (u8, bool))
    requires
        old(ring).size() > 0,
    ensures
        (r, *final(ring)) == spec_first_after(*old(ring), overflow, then),
{
    let found = ring.find_from_cursor(then, overflow);
    match found {
        Some(next) => (next, false),
        None => {
            match ring.next() {
                Some(v) => (v, true),
                None => {
                    assert(false);
                    (0, true)
                },
            }
        },
    }
}

/// Whether `left` is at or above `right`.
pub fn cmp_no_overflow(left: u8, right: u8) -> (r: bool)
    ensures
        r == spec_passes(left, right, false),
{
    left >= right
}

/// Whether `left` is strictly above `right`.
pub fn cmp_overflow(left: u8, right: u8) -> (r: bool)
    ensures
        r == spec_passes(left, right, true),
{
    left > right
}

/// The time half: rings of allowed seconds, minutes and hours.
#[derive(Clone, Debug)]
pub struct Time {
    pub secs: Seconds,
    pub mins: Minutes,
    pub hours: Hours,
}

/// The date half: the allowed days and months, the year reached by the
/// last search, and the date it found.
#[derive(Debug)]
pub struct Date {
    pub days: Days,
    pub months: Months,
    pub year: Option<u32>,
    pub cache: Cache,
}

/// The last date found, as day, month and year.
#[derive(Clone, Copy, Debug, PartialEq, Eq, Structural)]
pub struct Cache {
    pub last_day: u8,
    pub last_month: u8,
    pub last_year: u32,
}

impl Cache {
    /// The cache before any date was found.
    pub fn new() -> (r: Self)
        ensures
            r == (Cache { last_day: 0, last_month: 0, last_year: 0 }),
    {
        Cache { last_day: 0, last_month: 0, last_year: 0 }
    }
}

/// Collects the rings of the time half.
#[derive(Debug)]
pub struct TimeBuilder {
    pub secs: Option<CopyRing<u8>>,
    pub mins: Option<CopyRing<u8>>,
    pub hours: Option<CopyRing<u8>>,
}

/// Collects the rings of the date half.
#[derive(Debug)]
pub struct DateBuilder {
    pub days_week: Option<CopyRing<u8>>,
    pub days_month: Option<CopyRing<u8>>,
    pub months: Option<CopyRing<u8>>,
}

impl Time {
    /// The time read from the three rings after `first_after`.
    pub open spec fn spec_first_after(self, sec: u8, min: u8, hour: u8) -> (Option<(ClockTime, bool)>, Self) {
        let (s, s_ring) = spec_first_after(self.secs.0.spec_reset(), false, sec);
        let (m, m_ring) = spec_first_after(self.mins.0.spec_reset(), s.1, min);
        let (h, h_ring) = spec_first_after(self.hours.0.spec_reset(), m.1, hour);
        let after = Time { secs: Seconds(s_ring), mins: Minutes(m_ring), hours: Hours(h_ring) };
        if crate::clock::spec_is_valid_hms(h.0 as int, m.0 as int, s.0 as int) {
            (Some((ClockTime { hour: h.0 as u32, min: m.0 as u32, sec: s.0 as u32 }, h.1)), after)
        } else {
            (None, after)
        }
    }

    /// Finds the first allowed time at or after `hour:min:sec`: the first
    /// allowed second at or after `sec`, then the first allowed minute at or
    /// after `min` (strictly after it when the seconds wrapped), then the same
    /// for the hour. Also tells whether the hours wrapped (to the next day).
    pub fn first_after(&mut self, sec: u8, min: u8, hour: u8) -> (r: Option<(ClockTime, bool)>)
        requires
            old(self).secs.0.size() > 0,
            old(self).mins.0.size() > 0,
            old(self).hours.0.size() > 0,
        ensures
            (r, *final(self)) == old(self).spec_first_after(sec, min, hour),
    {
        let (sec, overflow) = self.secs.first_after(sec);
        let (min, overflow) = self.mins.first_after(min, overflow);
        let (hour, overflow) = self.hours.first_after(hour, overflow);
        let time = from_hms_opt(hour as u32, min as u32, sec as u32);
        match time {
            Some(time) => Some((time, overflow)),
            None => None,
        }
    }

    /// The time read from the three rings after `next`.
    pub open spec fn spec_next(self) -> (Option<(ClockTime, bool)>, Self) {
        let (s0, s_ring) = self.secs.0.spec_checked_next();
        let s = s0.unwrap();
        let (m, m_ring) = spec_next(self.mins.0, s.1);
        let (h, h_ring) = spec_next(self.hours.0, m.1);
        let after = Time { secs: Seconds(s_ring), mins: Minutes(m_ring), hours: Hours(h_ring) };
        if crate::clock::spec_is_valid_hms(h.0 as int, m.0 as int, s.0 as int) {
            (Some((ClockTime { hour: h.0 as u32, min: m.0 as u32, sec: s.0 as u32 }, h.1)), after)
        } else {
            (None, after)
        }
    }

    /// Moves to the next allowed time: the next second, and the next minute
    /// or hour only when the field below wrapped. Also tells whether the
    /// hours wrapped.
    pub fn next(&mut self) -> (r: Option<(ClockTime, bool)>)
        requires
            old(self).secs.0.size() > 0,
            old(self).mins.0.size() > 0,
            old(self).hours.0.size() > 0,
        ensures
            (r, *final(self)) == old(self).spec_next(),
    {
        let (sec, overflow) = self.secs.next();
        let (min, overflow) = self.mins.next(overflow);
        let (hour, overflow) = self.hours.next(overflow);
        let time = from_hms_opt(hour as u32, min as u32, sec as u32);
        match time {
            Some(time) => Some((time, overflow)),
            None => None,
        }
    }
}

impl TimeBuilder {
    /// A builder with no ring supplied.
    pub fn new() -> (r: Self)
        ensures
            r.is_blank(),
    {
        TimeBuilder { secs: None, mins: None, hours: None }
    }

    /// Whether no ring was supplied.
    pub open spec fn is_blank(self) -> bool {
        self.secs is None && self.mins is None && self.hours is None
    }

    /// Supplies the allowed seconds as a list.
    pub fn with_secs_iter(&mut self, secs: Vec<u8>) -> (r: &mut Self)
        ensures
            r.secs matches Some(ring) && ring.is_fresh(secs@),
            r.mins == old(self).mins,
            r.hours == old(self).hours,
            *final(self) == *final(r),
    {
        self.secs = Some(CopyRing::new(secs));
        self
    }

    /// Supplies the allowed seconds.
    pub fn with_secs(&mut self, secs: CopyRing<u8>) -> (r: &mut Self)
        ensures
            *r == (TimeBuilder { secs: Some(secs), ..*old(self) }),
            *final(self) == *final(r),
    {
        self.secs = Some(secs);
        self
    }

    /// Supplies the allowed minutes as a list.
    pub fn with_mins_iter(&mut self, mins: Vec<u8>) -> (r: &mut Self)
        ensures
            r.mins matches Some(ring) && ring.is_fresh(mins@),
            r.secs == old(self).secs,
            r.hours == old(self).hours,
            *final(self) == *final(r),
    {
        self.mins = Some(CopyRing::new(mins));
        self
    }

    /// Supplies the allowed minutes.
    pub fn with_mins(&mut self, mins: CopyRing<u8>) -> (r: &mut Self)
        ensures
            *r == (TimeBuilder { mins: Some(mins), ..*old(self) }),
            *final(self) == *final(r),
    {
        self.mins = Some(mins);
        self
    }

    /// Supplies the allowed hours as a list.
    pub fn with_hours_iter(&mut self, hours: Vec<u8>) -> (r: &mut Self)
        ensures
            r.hours matches Some(ring) && ring.is_fresh(hours@),
            r.secs == old(self).secs,
            r.mins == old(self).mins,
            *final(self) == *final(r),
    {
        self.hours = Some(CopyRing::new(hours));
        self
    }

    /// Supplies the allowed hours.
    pub fn with_hours(&mut self, hours: CopyRing<u8>) -> (r: &mut Self)
        ensures
            *r == (TimeBuilder { hours: Some(hours), ..*old(self) }),
            *final(self) == *final(r),
    {
        self.hours = Some(hours);
        self
    }
}

impl DateBuilder {
    /// A builder with no ring supplied.
    pub fn new() -> (r: Self)
        ensures
            r.is_blank(),
    {
        DateBuilder { days_week: None, days_month: None, months: None }
    }

    /// Whether no ring was supplied.
    pub open spec fn is_blank(self) -> bool {
        self.days_week is None && self.days_month is None && self.months is None
    }

    /// Supplies the allowed days of the week.
    pub fn with_days_week(&mut self, weekdays: CopyRing<u8>) -> (r: &mut Self)
        ensures
            *r == (DateBuilder { days_week: Some(weekdays), ..*old(self) }),
            *final(self) == *final(r),
    {
        self.days_week = Some(weekdays);
        self
    }

    /// Supplies the allowed days of the week as a list.
    pub fn with_days_week_iter(&mut self, weekdays: Vec<u8>) -> (r: &mut Self)
        ensures
            r.days_week matches Some(ring) && ring.is_fresh(weekdays@),
            r.days_month == old(self).days_month,
            r.months == old(self).months,
            *final(self) == *final(r),
    {
        self.days_week = Some(CopyRing::new(weekdays));
        self
    }

    /// Supplies the allowed days of the month.
    pub fn with_days_month(&mut self, month_days: CopyRing<u8>) -> (r: &mut Self)
        ensures
            *r == (DateBuilder { days_month: Some(month_days), ..*old(self) }),
            *final(self) == *final(r),
    {
        self.days_month = Some(month_days);
        self
    }

    /// Supplies the allowed days of the month as a list.
    pub fn with_days_month_iter(&mut self, month_days: Vec<u8>) -> (r: &mut Self)
        ensures
            r.days_month matches Some(ring) && ring.is_fresh(month_days@),
            r.days_week == old(self).days_week,
            r.months == old(self).months,
            *final(self) == *final(r),
    {
        self.days_month = Some(CopyRing::new(month_days));
        self
    }

    /// Supplies the allowed months as a list.
    pub fn with_months_iter(&mut self, months: Vec<u8>) -> (r: &mut Self)
        ensures
            r.months matches Some(ring) && ring.is_fresh(months@),
            r.days_week == old(self).days_week,
            r.days_month == old(self).days_month,
            *final(self) == *final(r),
    {
        self.months = Some(CopyRing::new(months));
        self
    }

    /// Supplies the allowed months.
    pub fn with_months(&mut self, months: CopyRing<u8>) -> (r: &mut Self)
        ensures
            *r == (DateBuilder { months: Some(months), ..*old(self) }),
            *final(self) == *final(r),
    {
        self.months = Some(months);
        self
    }

    /// The outcome of `build`: which error it reports, if any.
    pub open spec fn spec_build_error(self) -> Option<Error> {
        if self.days_month is None && self.days_week is None {
            Some(Error::MissingField)
        } else if self.months is None {
            Some(Error::MissingField)
        } else if spec_date_rings_empty(self) {
            Some(Error::EmptyRing)
        } else if spec_date_rings_out_of_range(self) {
            Some(Error::OutOfRange)
        } else {
            None
        }
    }

    /// The days that `build` makes from the supplied day rings.
    pub open spec fn spec_days(self) -> Days {
        match (self.days_month, self.days_week) {
            (Some(month), Some(week)) => Days::Both { month, week: (week, spec_blank_day_cache()) },
            (Some(month), None) => Days::Month(month),
            (None, Some(week)) => Days::Week((week, spec_blank_day_cache())),
            (None, None) => Days::Month(self.months.unwrap()),
        }
    }

    /// Builds the date half.
    ///
    /// Fails with `MissingField` when neither day ring or no month ring was
    /// supplied, with `EmptyRing` when a supplied ring is empty, and with
    /// `OutOfRange` when the months are not within 1 to 12 (first and last
    /// value), the month days not within 1 to 31, or the last weekday is 7
    /// or more. The day rings are taken out of the builder in every case;
    /// the month ring too, unless both day rings were missing.
    pub fn build(&mut self) -> (r: Result<Date, Error>)
        ensures
            final(self).days_week is None,
            final(self).days_month is None,
            old(self).days_month is None && old(self).days_week is None ==> final(self).months
                == old(self).months,
            !(old(self).days_month is None && old(self).days_week is None) ==> final(self).months is None,
            old(self).spec_build_error() matches Some(e) ==> r == Err::<Date, Error>(e),
            old(self).spec_build_error() is None ==> r == Ok::<Date, Error>(
                Date {
                    days: old(self).spec_days(),
                    months: Months(old(self).months.unwrap()),
                    year: None,
                    cache: Cache { last_day: 0, last_month: 0, last_year: 0 },
                },
            ),
    {
        let days = match (self.days_month.take(), self.days_week.take()) {
            (None, None) => {
                return Err(Error::MissingField);
            },
            (None, Some(week)) => Days::Week((week, DayCache::new())),
            (Some(month), None) => Days::Month(month),
            (Some(month), Some(week)) => Days::Both { month, week: (week, DayCache::new()) },
        };
        let months = match self.months.take() {
            Some(m) => m,
            None => {
                return Err(Error::MissingField);
            },
        };

        let days_empty = match &days {
            Days::Both { month, week: (week, _) } => month.is_empty() || week.is_empty(),
            Days::Month(month) => month.is_empty(),
            Days::Week((week, _)) => week.is_empty(),
        };
        if months.is_empty() || days_empty {
            return Err(Error::EmptyRing);
        }

        let days_out = match &days {
            Days::Both { month, week: (week, _) } => {
                week.last().unwrap() >= 7 || month.first().unwrap() < 1 || month.last().unwrap() > 31
            },
            Days::Month(month) => month.first().unwrap() < 1 || month.last().unwrap() > 31,
            Days::Week((week, _)) => week.last().unwrap() >= 7,
        };
        if months.first().unwrap() < 1 || months.last().unwrap() > 12 || days_out {
            return Err(Error::OutOfRange);
        }

        Ok(Date { days, months: Months::new(months), year: None, cache: Cache::new() })
    }
}

/// The weekday cache of a freshly built date half.
pub open spec fn spec_blank_day_cache() -> DayCache {
    DayCache { last_month_day: 0, last_weekday: 0, last_used: LastUsed::Week }
}

/// Whether a ring is empty.
pub open spec fn spec_ring_empty(r: CopyRing<u8>) -> bool {
    r.size() == 0
}

/// The first value of a non-empty ring.
pub open spec fn spec_first(r: CopyRing<u8>) -> u8 {
    r.items()[0]
}

/// The last value of a non-empty ring.
pub open spec fn spec_last(r: CopyRing<u8>) -> u8 {
    r.items()[r.size() - 1]
}

/// Whether a month-day ring is out of range by its first and last values.
pub open spec fn spec_month_days_out(r: CopyRing<u8>) -> bool {
    spec_first(r) < 1 || spec_last(r) > 31
}

/// Whether some ring that `build` checks (with some day ring supplied and
/// the month ring supplied) is empty.
pub open spec fn spec_date_rings_empty(b: DateBuilder) -> bool {
    spec_ring_empty(b.months.unwrap()) || (b.days_month matches Some(m) && spec_ring_empty(m)) || (
    b.days_week matches Some(w) && spec_ring_empty(w))
}

/// Whether some ring that `build` checks is out of range.
pub open spec fn spec_date_rings_out_of_range(b: DateBuilder) -> bool {
    spec_first(b.months.unwrap()) < 1 || spec_last(b.months.unwrap()) > 12 || (b.days_month matches Some(m)
        && spec_month_days_out(m)) || (b.days_week matches Some(w) && spec_last(w) >= 7)
}

impl TimeBuilder {
    /// The outcome of `build`: which error it reports, if any.
    pub open spec fn spec_build_error(self) -> Option<Error> {
        if self.secs is None || self.mins is None || self.hours is None {
            Some(Error::MissingField)
        } else if spec_ring_empty(self.secs.unwrap()) || spec_ring_empty(self.mins.unwrap())
            || spec_ring_empty(self.hours.unwrap()) {
            Some(Error::EmptyRing)
        } else if spec_last(self.secs.unwrap()) >= 60 || spec_last(self.mins.unwrap()) >= 60 || spec_last(
            self.hours.unwrap(),
        ) >= 24 {
            Some(Error::OutOfRange)
        } else {
            None
        }
    }

    /// Builds the time half.
    ///
    /// Fails with `MissingField` (leaving the builder as it was) when a ring
    /// is missing, with `EmptyRing` when one is empty, and with `OutOfRange`
    /// when the last second or minute is 60 or more or the last hour 24 or
    /// more. Once all three were supplied they are taken out of the builder.
    pub fn build(&mut self) -> (r: Result<Time, Error>)
        ensures
            old(self).spec_build_error() == Some(Error::MissingField) ==> *final(self) == *old(self),
            old(self).spec_build_error() != Some(Error::MissingField) ==> final(self).is_blank(),
            old(self).spec_build_error() matches Some(e) ==> r == Err::<Time, Error>(e),
            old(self).spec_build_error() is None ==> r == Ok::<Time, Error>(
                Time {
                    secs: Seconds(old(self).secs.unwrap()),
                    mins: Minutes(old(self).mins.unwrap()),
                    hours: Hours(old(self).hours.unwrap()),
                },
            ),
    {
        if self.secs.is_none() || self.mins.is_none() || self.hours.is_none() {
            return Err(Error::MissingField);
        }

        let secs = self.secs.take().unwrap();
        let mins = self.mins.take().unwrap();
        let hours = self.hours.take().unwrap();

        if secs.is_empty() || mins.is_empty() || hours.is_empty() {
            return Err(Error::EmptyRing);
        }

        if secs.last().unwrap() >= 60 || mins.last().unwrap() >= 60 || hours.last().unwrap() >= 24 {
            return Err(Error::OutOfRange);
        }

        Ok(Time { secs: Seconds::new(secs), mins: Minutes::new(mins), hours: Hours::new(hours) })
    }
}

/// The number of days of month number `k % 12 + 1` of a common year.
pub open spec fn spec_common_month_days(k: int) -> int {
    crate::spec_days_in_month(k % 12 + 1, 1)
}

/// The days of the `n` months that follow month `sm` in a common year
/// (wrapping after December), added up.
pub open spec fn spec_sum_month_days(sm: int, n: int) -> int
    decreases n,
{
    if n <= 0 {
        0
    } else {
        spec_sum_month_days(sm, n - 1) + spec_common_month_days(sm + n - 1)
    }
}

/// The number of leap years `y` with `lo <= y < hi`.
pub open spec fn spec_leap_count(lo: int, hi: int) -> int
    decreases hi - lo,
{
    if hi <= lo {
        0
    } else {
        spec_leap_count(lo, hi - 1) + if crate::spec_is_leap_year(hi - 1) { 1int } else { 0int }
    }
}

/// The number of whole months strictly between month `starting_month` of
/// `starting_year` and month `month` of `year` (0 when there are none).
pub open spec fn spec_months_passed_exclusive(year: int, month: int, starting_year: int, starting_month: int) -> int {
    let end_year = if month >= 2 { year } else { year - 1 };
    let end_month = if month >= 2 { month - 1 } else { 12 };
    let sy = if starting_month + 1 > 12 { starting_year + 1 } else { starting_year };
    let sm = if starting_month + 1 > 12 { 1 } else { starting_month + 1 };
    let total = end_month + 12 * (end_year - sy);
    if total + 1 >= sm { total + 1 - sm } else { 0 }
}

/// Whether `calc_months_passed_exclusive` runs without overflow on these values.
pub open spec fn spec_months_passed_safe(year: int, month: int, starting_year: int, starting_month: int) -> bool {
    let end_year = if month >= 2 { year } else { year - 1 };
    let end_month = if month >= 2 { month - 1 } else { 12 };
    let sy = if starting_month + 1 > 12 { starting_year + 1 } else { starting_year };
    &&& !(month < 2 && year == 0)
    &&& !(starting_month + 1 > 12 && starting_year == u32::MAX)
    &&& end_year >= sy
    &&& end_month + 12 * (end_year - sy) < u32::MAX
}

impl Date {
    /// Makes a date half from its parts.
    pub fn new(days: Days, months: Months, year: Option<u32>, cache: Cache) -> (r: Self)
        ensures
            r == (Date { days, months, year, cache }),
    {
        Date { days, months, year, cache }
    }

    /// Whether the year reached is more than 4 years past `starting_year`.
    pub open spec fn spec_at_year_limit(self, starting_year: u32) -> bool {
        match self.year {
            Some(year) => year - starting_year > 4,
            None => false,
        }
    }

    fn at_year_limit(&self, starting_year: u32) -> (r: bool)
        requires
            self.year matches Some(y) ==> y >= starting_year,
        ensures
            r == self.spec_at_year_limit(starting_year),
    {
        if let Some(year) = self.year {
            year - starting_year > 4
        } else {
            false
        }
    }

    fn set_year(&mut self, year: u32)
        ensures
            *final(self) == (Date { year: Some(year), ..*old(self) }),
    {
        self.year = Some(year)
    }

    /// The year reached, when one was set.
    fn year_mut_checked(&mut self) -> (r: Option<&mut u32>)
        ensures
            old(self).year is None ==> r is None && *final(self) == *old(self),
            old(self).year matches Some(y) ==> r matches Some(yr) && *yr == y
                && *final(self) == (Date { year: Some(*final(yr)), ..*old(self) }),
    {
        self.year.as_mut()
    }

    /// The number of whole months strictly between month `starting_month` of
    /// `starting_year` and month `month` of `year`; 0 when there are none.
    pub fn calc_months_passed_exclusive(year: u32, month: u8, starting_year: u32, starting_month: u8) -> (r: u32)
        requires
            spec_months_passed_safe(year as int, month as int, starting_year as int, starting_month as int),
        ensures
            r == spec_months_passed_exclusive(year as int, month as int, starting_year as int, starting_month as int),
            1 <= month <= 12 && 1 <= starting_month <= 12 ==> r == crate::spec_months_strictly_between(
                year as int,
                month as int,
                starting_year as int,
                starting_month as int,
            ),
    {
        let months_in_a_year: u32 = 12;
        let mut end_year = year;
        let end_month: u32 = if month >= 2 {
            (month - 2 + 1) as u32
        } else {
            end_year = end_year - 1;
            months_in_a_year
        };

        let mut starting_year = starting_year;
        let starting_month: u32 = {
            let temp_month = starting_month as u32 + 1;
            if temp_month > months_in_a_year {
                starting_year = starting_year + 1;
                1
            } else {
                temp_month
            }
        };

        let total = end_month + months_in_a_year * (end_year - starting_year);
        if total + 1 >= starting_month {
            total + 1 - starting_month
        } else {
            0
        }
    }

    /// Returns the current year.
    ///
    /// # Panic
    /// Will panic if the year hasn't been set.
    pub fn year_unchecked(&self) -> (r: u32)
        requires
            self.year is Some,
        ensures
            r == self.year.unwrap(),
    {
        self.year.unwrap()
    }
}

/// The day picked from the days found by `Days::first_after` and the days
/// with their weekday cache updated: a weekday-ring day is cached as is; a
/// month-ring day is cached with the weekday it falls on, counted from
/// `days_month` on weekday `days_week`; when both rings found a day, the
/// earlier wins (both are recorded when equal).
pub open spec fn spec_apply_next_day(nd: NextDay, days: Days, days_month: u8, days_week: u8) -> (Option<u8>, Days) {
    match nd {
        NextDay::Week(w) => match w {
            Some((dom, wd)) => (
                Some(dom),
                spec_set_week_cache(days, DayCache { last_month_day: dom, last_weekday: wd, last_used: LastUsed::Week }),
            ),
            None => (None, days),
        },
        NextDay::Month(m) => (m, days),
        NextDay::Both { month: m, week: w } => match (m, w) {
            (None, None) => (None, days),
            (None, Some((dom, wd))) => (
                Some(dom),
                spec_set_week_cache(days, DayCache { last_month_day: dom, last_weekday: wd, last_used: LastUsed::Week }),
            ),
            (Some(next), None) => (
                Some(next),
                spec_set_week_cache(
                    days,
                    DayCache {
                        last_month_day: next,
                        last_weekday: date::spec_next_weekday_from_last(days_week as int, next - days_month),
                        last_used: LastUsed::Month,
                    },
                ),
            ),
            (Some(mday), Some((wdom, wd))) => if mday < wdom {
                (
                    Some(mday),
                    spec_set_week_cache(
                        days,
                        DayCache {
                            last_month_day: mday,
                            last_weekday: date::spec_next_weekday_from_last(days_week as int, mday - days_month),
                            last_used: LastUsed::Month,
                        },
                    ),
                )
            } else if mday == wdom {
                (
                    Some(mday),
                    spec_set_week_cache(days, DayCache { last_month_day: mday, last_weekday: wd, last_used: LastUsed::Both }),
                )
            } else {
                (
                    Some(wdom),
                    spec_set_week_cache(days, DayCache { last_month_day: wdom, last_weekday: wd, last_used: LastUsed::Week }),
                )
            },
        },
    }
}

/// Picks the day from the days found by `Days::first_after` and updates
/// the weekday cache (see `spec_apply_next_day`).
fn apply_next_day(days: &mut Days, nd: NextDay, days_month: u8, days_week: u8) -> (r: Option<u8>)
    requires
        nd matches NextDay::Both { month: Some(m), .. } ==> m >= days_month,
    ensures
        (r, *final(days)) == spec_apply_next_day(nd, *old(days), days_month, days_week),
{
    match nd {
        NextDay::Week(next_day) => {
            if let Some((next_of_month, next_of_week)) = next_day {
                set_week_cache(
                    days,
                    DayCache { last_month_day: next_of_month, last_weekday: next_of_week, last_used: LastUsed::Week },
                );
                Some(next_of_month)
            } else {
                None
            }
        },
        NextDay::Both { week: next_day_week, month: next_day_month } => {
            match (next_day_month, next_day_week) {
                (None, None) => None,
                (None, Some((next_of_month, next_of_week))) => {
                    set_week_cache(
                        days,
                        DayCache { last_month_day: next_of_month, last_weekday: next_of_week, last_used: LastUsed::Week },
                    );
                    Some(next_of_month)
                },
                (Some(next), None) => {
                    let wd = Days::next_weekday_from_last(days_week as u32, (next - days_month) as u32);
                    set_week_cache(days, DayCache { last_month_day: next, last_weekday: wd, last_used: LastUsed::Month });
                    Some(next)
                },
                (Some(next_from_month_ring), Some((next_from_week_ring, next_weekday))) => {
                    if next_from_month_ring < next_from_week_ring {
                        let wd = Days::next_weekday_from_last(
                            days_week as u32,
                            (next_from_month_ring - days_month) as u32,
                        );
                        set_week_cache(
                            days,
                            DayCache { last_month_day: next_from_month_ring, last_weekday: wd, last_used: LastUsed::Month },
                        );
                        Some(next_from_month_ring)
                    } else if next_from_month_ring == next_from_week_ring {
                        set_week_cache(
                            days,
                            DayCache {
                                last_month_day: next_from_month_ring,
                                last_weekday: next_weekday,
                                last_used: LastUsed::Both,
                            },
                        );
                        Some(next_from_month_ring)
                    } else {
                        set_week_cache(
                            days,
                            DayCache {
                                last_month_day: next_from_week_ring,
                                last_weekday: next_weekday,
                                last_used: LastUsed::Week,
                            },
                        );
                        Some(next_from_week_ring)
                    }
                },
            }
        },
        NextDay::Month(next_day) => next_day,
    }
}

/// The days with the weekday cache replaced by `c` (no change for month days only).
pub open spec fn spec_set_week_cache(days: Days, c: DayCache) -> Days {
    match days {
        Days::Both { month, week } => Days::Both { month, week: (week.0, c) },
        Days::Month(m) => Days::Month(m),
        Days::Week(week) => Days::Week((week.0, c)),
    }
}

fn set_week_cache(days: &mut Days, c: DayCache)
    ensures
        *final(days) == spec_set_week_cache(*old(days), c),
{
    match days {
        Days::Both { month: _, week: (_, cache) } => {
            *cache = c;
        },
        Days::Month(_) => {},
        Days::Week((_, cache)) => {
            *cache = c;
        },
    }
}

/// The year `first_after` moves to: the year reached (else the starting
/// year), plus one when the months wrapped.
pub open spec fn spec_next_year(year: Option<u32>, year_overflow: bool, starting_year: u32) -> int {
    let base: int = match year {
        Some(y) => y as int,
        None => starting_year as int,
    };
    if year_overflow { base + 1 } else { base }
}

/// The number of days from day `days_month` of month `starting_month` of
/// `starting_year` to the first day of month `month` of `year`.
pub open spec fn spec_days_until(year: int, month: int, starting_year: int, starting_month: int, days_month: int) -> int {
    spec_sum_month_days(starting_month, spec_months_passed_exclusive(year, month, starting_year, starting_month))
        + spec_leap_count(starting_year + 1, year) + (crate::spec_days_in_month(starting_month, starting_year)
        - days_month)
}

/// One round of the search of `Date::first_after`: move to the next allowed
/// month (and year), and look for an allowed day in it. Gives the date half
/// after the round, the time-wrap flag for the next round, and whether a day
/// was found.
pub open spec fn spec_step(d: Date, tov: bool, dm: u8, dw: u8, sm: u8, sy: u32) -> (Date, bool, bool) {
    let ((month, yov), months_ring) = spec_first_after(d.months.0, false, sm);
    let year = spec_next_year(d.year, yov, sy);
    let changed = month != sm || year != sy;
    let new_dw: u8 = if changed {
        date::spec_next_weekday_from_last(dw as int, spec_days_until(year, month as int, sy as int, sm as int, dm as int))
    } else {
        dw
    };
    let new_dm: u8 = if changed { 1 } else { dm };
    let tov2 = if changed { false } else { tov };
    let dim = crate::spec_days_in_month(month as int, year) as u8;
    let (nd, days2) = d.days.spec_reset().spec_first_after(tov2, new_dm, new_dw, dim);
    let (pick, days3) = spec_apply_next_day(nd, days2, new_dm, new_dw);
    let cache = match pick {
        Some(day) => Cache { last_day: day, last_month: month, last_year: year as u32 },
        None => d.cache,
    };
    (Date { days: days3, months: Months(months_ring), year: Some(year as u32), cache }, tov2, pick is Some)
}

/// Whether one round of the search runs without a panic or an overflow.
pub open spec fn spec_step_safe(d: Date, tov: bool, dm: u8, dw: u8, sm: u8, sy: u32) -> bool {
    let ((month, yov), months_ring) = spec_first_after(d.months.0, false, sm);
    let year = spec_next_year(d.year, yov, sy);
    let changed = month != sm || year != sy;
    let new_dw: u8 = if changed {
        date::spec_next_weekday_from_last(dw as int, spec_days_until(year, month as int, sy as int, sm as int, dm as int))
    } else {
        dw
    };
    let new_dm: u8 = if changed { 1 } else { dm };
    let tov2 = if changed { false } else { tov };
    &&& d.months.0.size() > 0
    &&& year <= u32::MAX
    &&& 1 <= month <= 12
    &&& d.days.spec_first_after_safe(tov2, new_dm, new_dw)
    &&& changed ==> {
        &&& 1 <= sm <= 12
        &&& sy < u32::MAX
        &&& spec_months_passed_safe(year, month as int, sy as int, sm as int)
        &&& spec_sum_month_days(sm as int, spec_months_passed_exclusive(year, month as int, sy as int, sm as int))
            <= u32::MAX
        &&& dm <= crate::spec_days_in_month(sm as int, sy as int)
        &&& dw + spec_days_until(year, month as int, sy as int, sm as int, dm as int) <= u32::MAX
    }
}

/// Whether the search of `Date::first_after`, from date half `d`, stops
/// within `n` rounds without a panic: it stops once a day was found or the
/// year reached is more than 4 years past `sy`.
pub open spec fn spec_run_ok(d: Date, tov: bool, found: bool, dm: u8, dw: u8, sm: u8, sy: u32, n: nat) -> bool
    decreases n,
{
    if found {
        true
    } else if d.year matches Some(y) && y < sy {
        false
    } else if d.spec_at_year_limit(sy) {
        true
    } else if n == 0 {
        false
    } else {
        let (d2, t2, f2) = spec_step(d, tov, dm, dw, sm, sy);
        spec_step_safe(d, tov, dm, dw, sm, sy) && spec_run_ok(d2, t2, f2, dm, dw, sm, sy, (n - 1) as nat)
    }
}

/// The date half where the search of `Date::first_after`, from `d`, stops
/// (given enough rounds `n`).
pub open spec fn spec_run(d: Date, tov: bool, found: bool, dm: u8, dw: u8, sm: u8, sy: u32, n: nat) -> Date
    decreases n,
{
    if found || d.spec_at_year_limit(sy) || n == 0 {
        d
    } else {
        let (d2, t2, f2) = spec_step(d, tov, dm, dw, sm, sy);
        spec_run(d2, t2, f2, dm, dw, sm, sy, (n - 1) as nat)
    }
}

/// Adds up the days of the `n` months that follow month `starting_month`
/// of a common year, reading them from a ring of the month lengths turned
/// to the month after `starting_month`.
pub fn sum_month_days(starting_month: u8, n: u32) -> (r: u32)
    requires
        spec_sum_month_days(starting_month as int, n as int) <= u32::MAX,
    ensures
        r == spec_sum_month_days(starting_month as int, n as int),
{
    let mut days_of_the_month = CopyRing::new(crate::month_to_days_no_leap());
    days_of_the_month.rotate_left(starting_month as usize);
    let mut it = days_of_the_month.take_ref(n as usize);
    let mut sum: u32 = 0;
    let mut i: u32 = 0;
    proof {
        vstd::arithmetic::div_mod::lemma_small_mod(0, 12);
    }
    while i < n
        invariant
            i <= n,
            it.items().len() == 12,
            forall|k: int| 0 <= k < 12 ==> it.items()[k] == crate::spec_days_in_month(k + 1, 1),
            it.pos() == (starting_month + i) % 12,
            it.remaining() == n - i,
            sum == spec_sum_month_days(starting_month as int, i as int),
            spec_sum_month_days(starting_month as int, n as int) <= u32::MAX,
        decreases n - i,
    {
        proof {
            lemma_sum_month_days_mono(starting_month as int, i + 1, n as int);
            vstd::arithmetic::div_mod::lemma_add_mod_noop(starting_month + i, 1, 12);
            vstd::arithmetic::div_mod::lemma_small_mod(1, 12);
        }
        let v = it.next();
        let days = v.unwrap();
        sum = sum + days as u32;
        i = i + 1;
    }
    sum
}

proof fn lemma_sum_month_days_mono(sm: int, i: int, n: int)
    requires
        0 <= i <= n,
    ensures
        spec_sum_month_days(sm, i) <= spec_sum_month_days(sm, n),
    decreases n - i,
{
    if i < n {
        lemma_sum_month_days_mono(sm, i, n - 1);
    }
}

/// Counts the leap years `y` with `lo <= y < hi`.
pub fn leap_count(lo: u32, hi: u32) -> (r: u32)
    ensures
        r == spec_leap_count(lo as int, hi as int),
{
    let mut count: u32 = 0;
    let mut y: u32 = lo;
    if hi <= lo {
        return 0;
    }
    while y < hi
        invariant
            lo <= y <= hi,
            count == spec_leap_count(lo as int, y as int),
            count <= y - lo,
        decreases hi - y,
    {
        if crate::is_leap_year(y) {
            count = count + 1;
        }
        y = y + 1;
    }
    count
}

impl Date {
    /// The date half before the search of `first_after` begins.
    pub open spec fn spec_search_start(self) -> Self {
        Date { months: Months(self.months.0.spec_reset()), ..self }
    }

    /// Whether the search of `first_after` from this date half stops
    /// without a panic.
    pub open spec fn spec_first_after_ok(self, time_overflow: bool, days_month: u8, days_week: u8, starting_month: u8, starting_year: u32) -> bool {
        exists|n: nat| spec_run_ok(self.spec_search_start(), time_overflow, false, days_month, days_week, starting_month, starting_year, n)
    }

    /// The date half where the search of `first_after` stops.
    pub open spec fn spec_first_after_state(self, time_overflow: bool, days_month: u8, days_week: u8, starting_month: u8, starting_year: u32) -> Self {
        let n = choose|n: nat| spec_run_ok(self.spec_search_start(), time_overflow, false, days_month, days_week, starting_month, starting_year, n);
        spec_run(self.spec_search_start(), time_overflow, false, days_month, days_week, starting_month, starting_year, n)
    }

    /// Searches for the first allowed date at or after day `days_month`
    /// (weekday `days_week`) of month `starting_month` of `starting_year`;
    /// strictly after that day when `time_overflow` (the time wrapped).
    ///
    /// The months ring is read in rounds from its start: each round takes the
    /// next month at or after `starting_month` from where the last round
    /// stopped, or wraps to the first month and the next year. When the month
    /// or year moved, the day to search from becomes the first of that month
    /// and its weekday is computed. The days of the round's month are then
    /// searched (see `Days::first_after`), the winning day is cached, and the
    /// search stops once a day was found or the year reached is more than 4
    /// years past `starting_year`. Returns the last date found (`None` when
    /// none ever was).
    pub fn first_after(
        &mut self,
        time_overflow: bool,
        days_month: u8,
        days_week: u8,
        starting_month: u8,
        starting_year: u32,
    ) -> (r: Option<CalendarDate>)
        requires
            old(self).spec_first_after_ok(time_overflow, days_month, days_week, starting_month, starting_year),
        ensures
            *final(self) == old(self).spec_first_after_state(time_overflow, days_month, days_week, starting_month, starting_year),
            r == (if crate::clock::spec_is_valid_ymd(final(self).cache.last_year as i32 as int, final(self).cache.last_month as int, final(self).cache.last_day as int) {
                Some(CalendarDate {
                    year: final(self).cache.last_year as i32,
                    month: final(self).cache.last_month as u32,
                    day: final(self).cache.last_day as u32,
                })
            } else {
                None
            }),
    {
        let ghost d0 = old(self).spec_search_start();
        let ghost tov0 = time_overflow;
        let ghost n0 = choose|n: nat| spec_run_ok(d0, tov0, false, days_month, days_week, starting_month, starting_year, n);
        self.months.reset();
        let mut time_overflow = time_overflow;
        let mut found = false;
        let ghost mut fuel: nat = n0;
        assert(*self == d0);
        loop
            invariant
                spec_run_ok(*self, time_overflow, found, days_month, days_week, starting_month, starting_year, fuel),
                spec_run(*self, time_overflow, found, days_month, days_week, starting_month, starting_year, fuel)
                    == spec_run(d0, tov0, false, days_month, days_week, starting_month, starting_year, n0),
            ensures
                *self == spec_run(d0, tov0, false, days_month, days_week, starting_month, starting_year, n0),
            decreases fuel,
        {
            if found {
                assert(spec_run(*self, time_overflow, found, days_month, days_week, starting_month, starting_year, fuel) == *self);
                break;
            }
            if self.at_year_limit(starting_year) {
                assert(spec_run(*self, time_overflow, found, days_month, days_week, starting_month, starting_year, fuel) == *self);
                break;
            }
            let ghost prev = *self;
            let ghost prev_tov = time_overflow;
            proof {
                assert(spec_step_safe(prev, prev_tov, days_month, days_week, starting_month, starting_year));
            }
            // Step 1: move the months to the next available month.
            let (month, year_overflow) = self.months.first_after(starting_month);
            if let Some(year) = self.year {
                self.year = Some(year + if year_overflow { 1 } else { 0 });
            } else {
                self.set_year(starting_year + if year_overflow { 1 } else { 0 });
            }
            let year = self.year_unchecked();

            // Step 2: when the month or year moved, search from the first of
            // that month, on the weekday it falls on.
            let mut new_days_month = days_month;
            let mut new_days_week = days_week;
            if month != starting_month || year != starting_year {
                let months_passed_exclusive = Self::calc_months_passed_exclusive(
                    year,
                    month,
                    starting_year,
                    starting_month,
                );
                let sum_days = sum_month_days(starting_month, months_passed_exclusive);
                let leap_days = leap_count(starting_year + 1, year);
                let first_month_days = crate::days_in_a_month(starting_month, starting_year) - days_month;
                let days_until_first_of_next_month = sum_days + leap_days + first_month_days as u32;
                new_days_week = Days::next_weekday_from_last(days_week as u32, days_until_first_of_next_month);
                new_days_month = 1;
                time_overflow = false;
            }

            // Step 3: find the next available day of each kind.
            let days_in_this_month = crate::days_in_a_month(month, year);
            self.days.reset();
            let next_day = self.days.first_after(time_overflow, new_days_month, new_days_week, days_in_this_month);
            let next_day = apply_next_day(&mut self.days, next_day, new_days_month, new_days_week);
            if let Some(next) = next_day {
                self.cache = Cache { last_day: next, last_month: month, last_year: year };
                found = true;
            }
            proof {
                fuel = (fuel - 1) as nat;
            }
        }
        from_ymd_opt(self.cache.last_year as i32, self.cache.last_month as u32, self.cache.last_day as u32)
    }
}

/// When a ring whose cursor is at the start holds a value at or above
/// `then` (above it when `overflow`), `first_after` gives a value with no
/// wrap.
proof fn lemma_first_after_no_wrap(ring: CopyRing<u8>, overflow: bool, then: u8, x: u8)
    requires
        ring.size() > 0,
        ring.pos() == 0,
        ring.items().contains(x),
        spec_passes(x, then, overflow),
    ensures
        !spec_first_after(ring, overflow, then).0.1,
{
    crate::collection::copy_ring::lemma_scan_bounds(ring.items(), 0, then, overflow);
    let k = choose|k: int| 0 <= k < ring.items().len() && ring.items()[k] == x;
}

/// The time search wraps to the next day exactly when the rings allow no
/// time at or after `hour:min:sec` on the day asked: when some allowed
/// time is at or after it, the time found comes on that day.
pub proof fn law_time_wraps_only_past_the_last(time: Time, sec: u8, min: u8, hour: u8)
    requires
        time.secs.0.size() > 0,
        time.mins.0.size() > 0,
        time.hours.0.size() > 0,
    ensures
        time.spec_first_after(sec, min, hour).0 matches Some((t, wrapped)) ==> (wrapped <==> !exists|
            h: u8,
            m: u8,
            s: u8,
        |
            #![trigger time.hours.0.items().contains(h), time.mins.0.items().contains(m), time.secs.0.items().contains(s)]
            time.hours.0.items().contains(h) && time.mins.0.items().contains(m) && time.secs.0.items().contains(s)
                && crate::table::fields::spec_time_at_or_after(
                h as int,
                m as int,
                s as int,
                hour as int,
                min as int,
                sec as int,
            )),
{
    broadcast use crate::collection::copy_ring::group_ring_set;

    let (sr, mr, hr) = (time.secs.0.spec_reset(), time.mins.0.spec_reset(), time.hours.0.spec_reset());
    let (s0, _) = spec_first_after(sr, false, sec);
    let (m0, _) = spec_first_after(mr, s0.1, min);
    let (h0, _) = spec_first_after(hr, m0.1, hour);
    crate::collection::copy_ring::lemma_scan_bounds(sr.items(), 0, sec, false);
    crate::collection::copy_ring::lemma_scan_bounds(mr.items(), 0, min, s0.1);
    crate::collection::copy_ring::lemma_scan_bounds(hr.items(), 0, hour, m0.1);
    if let Some((t, wrapped)) = time.spec_first_after(sec, min, hour).0 {
        if !wrapped {
            let js = spec_scan(sr.items(), 0, sec, false);
            let jm = spec_scan(mr.items(), 0, min, s0.1);
            let jh = spec_scan(hr.items(), 0, hour, m0.1);
            assert(hr.items()[jh] == h0.0);
            assert(time.hours.0.items().contains(h0.0));
            if !m0.1 {
                assert(mr.items()[jm] == m0.0);
            } else {
                assert(mr.items()[0] == m0.0);
            }
            assert(time.mins.0.items().contains(m0.0));
            if !s0.1 {
                assert(sr.items()[js] == s0.0);
            } else {
                assert(sr.items()[0] == s0.0);
            }
            assert(time.secs.0.items().contains(s0.0));
            assert(crate::table::fields::spec_time_at_or_after(
                h0.0 as int,
                m0.0 as int,
                s0.0 as int,
                hour as int,
                min as int,
                sec as int,
            ));
        }
        assert forall|h: u8, m: u8, s: u8|
            time.hours.0.items().contains(h) && time.mins.0.items().contains(m) && time.secs.0.items().contains(s)
                && crate::table::fields::spec_time_at_or_after(
                h as int,
                m as int,
                s as int,
                hour as int,
                min as int,
                sec as int,
            ) implies !wrapped by {
            if h > hour {
                lemma_first_after_no_wrap(hr, m0.1, hour, h);
            } else if m > min {
                lemma_first_after_no_wrap(mr, s0.1, min, m);
                lemma_first_after_no_wrap(hr, false, hour, h);
            } else {
                lemma_first_after_no_wrap(sr, false, sec, s);
                lemma_first_after_no_wrap(mr, false, min, m);
                lemma_first_after_no_wrap(hr, false, hour, h);
            }
        }
    }
}

/// The date half builds exactly when the month ring and at least one day
/// ring are supplied, none of them is empty, every month lies from 1 to
/// 12, every day of the month from 1 to 31 and every weekday from 0 to 6
/// (for rings in increasing order; for any rings, such values always
/// build): otherwise `MissingField`, `EmptyRing` or `OutOfRange`.
pub proof fn law_date_builds_in_range(b: DateBuilder)
    ensures
        (b.days_month is None && b.days_week is None) || b.months is None ==> b.spec_build_error() == Some(
            Error::MissingField,
        ),
        !(b.days_month is None && b.days_week is None) && b.months is Some ==> {
            let mo = b.months.unwrap();
            let nonempty = mo.size() > 0 && (b.days_month matches Some(m) ==> m.size() > 0) && (b.days_week matches Some(
                w,
            ) ==> w.size() > 0);
            let in_range = crate::table::fields::spec_all_within(mo.items(), 1, 12) && (b.days_month matches Some(m)
                ==> crate::table::fields::spec_all_within(m.items(), 1, 31)) && (b.days_week matches Some(w)
                ==> crate::table::fields::spec_all_within(w.items(), 0, 6));
            let increasing = crate::table::fields::earliest::spec_increasing(mo.items()) && (b.days_month matches Some(
                m,
            ) ==> crate::table::fields::earliest::spec_increasing(m.items())) && (b.days_week matches Some(w)
                ==> crate::table::fields::earliest::spec_increasing(w.items()));
            &&& !nonempty ==> b.spec_build_error() == Some(Error::EmptyRing)
            &&& nonempty && in_range ==> b.spec_build_error() is None
            &&& nonempty && increasing && !in_range ==> b.spec_build_error() == Some(Error::OutOfRange)
        },
{
    if !(b.days_month is None && b.days_week is None) && b.months is Some {
        let mo = b.months.unwrap();
        if mo.size() > 0 {
            crate::table::fields::lemma_ring_within(mo, 1, 12);
        }
        if let Some(m) = b.days_month {
            if m.size() > 0 {
                crate::table::fields::lemma_ring_within(m, 1, 31);
            }
        }
        if let Some(w) = b.days_week {
            if w.size() > 0 {
                crate::table::fields::lemma_ring_within(w, 0, 6);
            }
        }
    }
}

/// The time half builds exactly when its three rings are supplied, none is
/// empty, and every second and minute is below 60 and every hour below 24
/// (for rings in increasing order; for any rings, such values always
/// build): a missing ring is `MissingField`, an empty one `EmptyRing`, a
/// value out of range `OutOfRange`.
pub proof fn law_time_builds_in_range(b: TimeBuilder)
    ensures
        b.secs is None || b.mins is None || b.hours is None ==> b.spec_build_error() == Some(Error::MissingField),
        b.secs is Some && b.mins is Some && b.hours is Some ==> {
            let (s, m, h) = (b.secs.unwrap(), b.mins.unwrap(), b.hours.unwrap());
            let nonempty = s.size() > 0 && m.size() > 0 && h.size() > 0;
            let increasing = crate::table::fields::earliest::spec_increasing(s.items())
                && crate::table::fields::earliest::spec_increasing(m.items())
                && crate::table::fields::earliest::spec_increasing(h.items());
            let in_range = crate::table::fields::spec_all_below(s.items(), 60) && crate::table::fields::spec_all_below(
                m.items(),
                60,
            ) && crate::table::fields::spec_all_below(h.items(), 24);
            &&& !nonempty ==> b.spec_build_error() == Some(Error::EmptyRing)
            &&& nonempty && in_range ==> b.spec_build_error() is None
            &&& nonempty && increasing && !in_range ==> b.spec_build_error() == Some(Error::OutOfRange)
        },
{
    if b.secs is Some && b.mins is Some && b.hours is Some {
        let (s, m, h) = (b.secs.unwrap(), b.mins.unwrap(), b.hours.unwrap());
        if s.size() > 0 && m.size() > 0 && h.size() > 0 {
            assert(s.items()[s.size() - 1] == spec_last(s));
            assert(m.items()[m.size() - 1] == spec_last(m));
            assert(h.items()[h.size() - 1] == spec_last(h));
            if crate::table::fields::earliest::spec_increasing(s.items()) && spec_last(s) < 60 {
                assert forall|i: int| 0 <= i < s.items().len() implies #[trigger] s.items()[i] < 60 by {
                    if i < s.size() - 1 {
                        assert(s.items()[i] < s.items()[s.size() - 1]);
                    }
                }
            }
            if crate::table::fields::earliest::spec_increasing(m.items()) && spec_last(m) < 60 {
                assert forall|i: int| 0 <= i < m.items().len() implies #[trigger] m.items()[i] < 60 by {
                    if i < m.size() - 1 {
                        assert(m.items()[i] < m.items()[m.size() - 1]);
                    }
                }
            }
            if crate::table::fields::earliest::spec_increasing(h.items()) && spec_last(h) < 24 {
                assert forall|i: int| 0 <= i < h.items().len() implies #[trigger] h.items()[i] < 24 by {
                    if i < h.size() - 1 {
                        assert(h.items()[i] < h.items()[h.size() - 1]);
                    }
                }
            }
        }
    }
}

/// On a ring of increasing values with its cursor at the start, `first_after`
/// reports a wrap exactly when the value it gives is below `then`: a value
/// without a wrap is at or above `then`, a value with a wrap below it. With
/// `overflow` this needs two values or more (a ring of the single value
/// `then` gives it back with a wrap).
pub proof fn law_first_after_wrap(ring: CopyRing<u8>, overflow: bool, then: u8)
    requires
        forall|i: int, j: int| 0 <= i < j < ring.size() ==> ring.items()[i] < ring.items()[j],
        ring.pos() == 0,
        ring.size() >= 1,
        overflow ==> ring.size() >= 2,
    ensures
        spec_first_after(ring, overflow, then).0.1 ==> spec_first_after(ring, overflow, then).0.0 < then,
        !spec_first_after(ring, overflow, then).0.1 ==> spec_first_after(ring, overflow, then).0.0 >= then,
{
    crate::collection::copy_ring::lemma_scan_bounds(ring.items(), 0, then, overflow);
    let j = crate::collection::copy_ring::spec_scan(ring.items(), 0, then, overflow);
    if j >= ring.size() {
        assert(!crate::collection::copy_ring::spec_passes(ring.items()[0], then, overflow));
        if ring.size() >= 2 {
            assert(!crate::collection::copy_ring::spec_passes(ring.items()[1], then, overflow));
            assert(ring.items()[0] < ring.items()[1]);
        }
    }
}

} // verus!
