//! The time half and the date half of the field table, and the search for
//! the first allowed time and date at or after a given one.
use vstd::prelude::*;

use self::date::{DayCache, Days, DaysInner, Months};
use self::time::{Hours, Minutes, Seconds};
use crate::schedule::table::fields::{
    leap_count, spec_first, spec_last, spec_leap_count, spec_ring_empty, spec_sum_month_days, sum_month_days,
};
use super::Error;
use crate::clock::{from_hms_opt, from_ymd_opt, CalendarDate, ClockTime};
use crate::CopyRing;

pub mod date;
pub mod earliest;
pub mod searchable;
pub mod time;

verus! {

broadcast use crate::collection::copy_ring::group_ring_set;

/// The value read by `next` and the ring after it: with `overflow`, the
/// next value and whether the ring wrapped; without, the value read last
/// (the one before the cursor) and no wrap.
pub open spec fn spec_next(ring: CopyRing<u8>, overflow: bool) -> ((u8, bool), CopyRing<u8>) {
    if overflow {
        (ring.spec_checked_next().0.unwrap(), ring.spec_checked_next().1)
    } else {
        ((ring.items()[ring.back(ring.pos()) as int], false), ring)
    }
}

/// Reads the next value of `ring` when `overflow` (with its wrap flag), else
/// the value read last, without moving the cursor.
pub fn next(ring: &mut CopyRing<u8>, overflow: bool) -> (r: (u8, bool))
    requires
        old(ring).size() > 0,
    ensures
        (r, *final(ring)) == spec_next(*old(ring), overflow),
{
    if overflow {
        match ring.checked_next() {
            Some(v) => v,
            None => {
                assert(false);
                (0, false)
            },
        }
    } else {
        match ring.peek_prev() {
            Some(v) => (v, false),
            None => {
                assert(false);
                (0, false)
            },
        }
    }
}

/// The result of `first_after` and the ring after it: the first value of
/// the buffer at or above `then` (above `then + 1` when `overflow`) with no
/// wrap, else the first value of the buffer with a wrap.
pub open spec fn spec_first_after(ring: CopyRing<u8>, overflow: bool, then: u8) -> ((u8, bool), CopyRing<u8>) {
    let bound = (if overflow { then + 1 } else { then as int }) as u8;
    let (found, r1) = ring.spec_search_or_greater(bound);
    match found {
        Some((x, false)) => ((x, false), r1),
        _ => ((r1.spec_reset().spec_next().0.unwrap(), true), r1.spec_reset().spec_next().1),
    }
}

/// Returns the first value of the buffer at or above `then` (or `then + 1`
/// when `overflow`), else the first value with a wrap (see `spec_first_after`).
pub fn first_after(ring: &mut CopyRing<u8>, overflow: bool, then: u8) -> (r: (u8, bool))
    requires
        old(ring).size() > 0,
        !(overflow && then == 255),
    ensures
        (r, *final(ring)) == spec_first_after(*old(ring), overflow, then),
{
    let bound = then + if overflow { 1 } else { 0 };
    let found = match ring.binary_search_or_greater(&bound) {
        Some((next, false)) => Some(next),
        _ => None,
    };
    if let Some(next) = found {
        (next, false)
    } else {
        ring.reset();
        match ring.next() {
            Some(v) => (v, true),
            None => {
                assert(false);
                (0, true)
            },
        }
    }
}

/// The time half: rings of allowed seconds, minutes and hours.
#[derive(Clone, Debug)]
pub struct Time {
    pub secs: Seconds,
    pub mins: Minutes,
    pub hours: Hours,
}

/// The date half: the allowed days and months and the year reached by the
/// last search.
#[derive(Debug)]
pub struct Date {
    pub days: Days,
    pub months: Months,
    pub year: Option<u32>,
}

/// A date found by a search, as day, month and year.
#[derive(Clone, Copy, Debug, PartialEq, Eq, Structural)]
pub struct Cache {
    pub day: u8,
    pub month: u8,
    pub year: u32,
}

/// Collects the rings of the time half.
#[derive(Debug)]
pub struct TimeBuilder {
    pub secs: Option<CopyRing<u8>>,
    pub mins: Option<CopyRing<u8>>,
    pub hours: Option<CopyRing<u8>>,
}

/// Collects the rings of the date half.
#[derive(Debug)]
pub struct DateBuilder {
    pub days_week: Option<CopyRing<u8>>,
    pub days_month: Option<CopyRing<u8>>,
    pub months: Option<CopyRing<u8>>,
}

impl Time {
    /// The time read from the three rings after `first_after`.
    pub open spec fn spec_first_after(self, sec: u8, min: u8, hour: u8) -> (Option<(ClockTime, bool)>, Self) {
        let (s, s_ring) = spec_first_after(self.secs.0.spec_reset(), false, sec);
        let (m, m_ring) = spec_first_after(self.mins.0.spec_reset(), s.1, min);
        let (h, h_ring) = spec_first_after(self.hours.0.spec_reset(), m.1, hour);
        let after = Time { secs: Seconds(s_ring), mins: Minutes(m_ring), hours: Hours(h_ring) };
        if crate::clock::spec_is_valid_hms(h.0 as int, m.0 as int, s.0 as int) {
            (Some((ClockTime { hour: h.0 as u32, min: m.0 as u32, sec: s.0 as u32 }, h.1)), after)
        } else {
            (None, after)
        }
    }

    /// Whether `first_after` runs without a panic or an overflow.
    pub open spec fn spec_first_after_safe(self, sec: u8, min: u8, hour: u8) -> bool {
        let (s, s_ring) = spec_first_after(self.secs.0.spec_reset(), false, sec);
        let (m, m_ring) = spec_first_after(self.mins.0.spec_reset(), s.1, min);
        &&& self.secs.0.size() > 0
        &&& self.mins.0.size() > 0
        &&& self.hours.0.size() > 0
        &&& !(s.1 && min == 255)
        &&& !(m.1 && hour == 255)
    }

    /// Finds the first allowed time at or after `hour:min:sec`: the first
    /// allowed second at or after `sec`, then the first allowed minute at or
    /// after `min` (after it when the seconds wrapped), then the same for the
    /// hour. Also tells whether the hours wrapped (to the next day).
    pub fn first_after(&mut self, sec: u8, min: u8, hour: u8) -> (r: Option<(ClockTime, bool)>)
        requires
            old(self).spec_first_after_safe(sec, min, hour),
        ensures
            (r, *final(self)) == old(self).spec_first_after(sec, min, hour),
    {
        let (sec, overflow) = self.secs.after(sec);
        let (min, overflow) = self.mins.after(min, overflow);
        let (hour, overflow) = self.hours.after(hour, overflow);
        let time = from_hms_opt(hour as u32, min as u32, sec as u32);
        match time {
            Some(time) => Some((time, overflow)),
            None => None,
        }
    }
}

/// The number of whole months strictly between month `starting_month` of
/// `starting_year` and month `month` of `year`; 0 when `year` is before the
/// year after the starting month or there are none.
pub open spec fn spec_months_passed_exclusive(year: int, month: int, starting_year: int, starting_month: int) -> int {
    let end_year = if month >= 2 { year } else { year - 1 };
    let end_month = if month >= 2 { month - 1 } else { 12 };
    let sy = if starting_month + 1 > 12 { starting_year + 1 } else { starting_year };
    let sm = if starting_month + 1 > 12 { 1 } else { starting_month + 1 };
    if end_year < sy {
        0
    } else {
        let total = end_month + 12 * (end_year - sy);
        if total + 1 >= sm { total + 1 - sm } else { 0 }
    }
}

/// Whether `calc_months_passed_exclusive` runs without overflow.
pub open spec fn spec_months_passed_safe(year: int, month: int, starting_year: int, starting_month: int) -> bool {
    let end_year = if month >= 2 { year } else { year - 1 };
    let end_month = if month >= 2 { month - 1 } else { 12 };
    let sy = if starting_month + 1 > 12 { starting_year + 1 } else { starting_year };
    &&& !(month < 2 && year == 0)
    &&& !(starting_month + 1 > 12 && starting_year == u32::MAX)
    &&& end_year >= sy ==> end_month + 12 * (end_year - sy) < u32::MAX
}

impl Date {
    /// Makes a date half from its parts.
    pub fn new(days: Days, months: Months, year: Option<u32>) -> (r: Self)
        ensures
            r == (Date { days, months, year }),
    {
        Date { days, months, year }
    }

    /// Whether the year reached is 4 or more years past `starting_year`.
    pub open spec fn spec_at_year_limit(self, starting_year: u32) -> bool {
        match self.year {
            Some(year) => year - starting_year >= 4,
            None => false,
        }
    }

    fn at_year_limit(&self, starting_year: u32) -> (r: bool)
        requires
            self.year matches Some(y) ==> y >= starting_year,
        ensures
            r == self.spec_at_year_limit(starting_year),
    {
        if let Some(year) = self.year {
            year - starting_year >= 4
        } else {
            false
        }
    }

    fn set_year(&mut self, year: u32)
        ensures
            *final(self) == (Date { year: Some(year), ..*old(self) }),
    {
        self.year = Some(year)
    }

    /// The number of days of `month` (1 to 12) in `year`.
    pub fn days_in_month(month: u8, year: u32) -> (r: u8)
        requires
            1 <= month <= 12,
        ensures
            r == crate::spec_days_in_month(month as int, year as int),
    {
        crate::days_in_a_month(month, year)
    }

    /// The number of whole months strictly between month `starting_month` of
    /// `starting_year` and month `month` of `year`; 0 when there are none.
    pub fn calc_months_passed_exclusive(year: u32, month: u8, starting_year: u32, starting_month: u8) -> (r: u32)
        requires
            spec_months_passed_safe(year as int, month as int, starting_year as int, starting_month as int),
        ensures
            r == spec_months_passed_exclusive(year as int, month as int, starting_year as int, starting_month as int),
            1 <= month <= 12 && 1 <= starting_month <= 12 ==> r == crate::spec_months_strictly_between(
                year as int,
                month as int,
                starting_year as int,
                starting_month as int,
            ),
    {
        let months_in_a_year: u32 = 12;
        let mut end_year = year;
        let end_month: u32 = if month >= 2 {
            (month - 2 + 1) as u32
        } else {
            end_year = end_year - 1;
            months_in_a_year
        };

        let mut starting_year = starting_year;
        let starting_month: u32 = {
            let temp_month = starting_month as u32 + 1;
            if temp_month > months_in_a_year {
                starting_year = starting_year + 1;
                1
            } else {
                temp_month
            }
        };

        if end_year < starting_year {
            return 0;
        }
        let sub_years = end_year - starting_year;
        let total = end_month + months_in_a_year * sub_years;
        if total + 1 >= starting_month {
            total + 1 - starting_month
        } else {
            0
        }
    }

    /// Returns the current year.
    ///
    /// The date found last, when the time did not wrap: the day and month
    /// read last and the year reached, as a date if it exists. When the
    /// time wrapped, the search for the next day would never end (the year
    /// it stops at is never reached), so that case is left out by the
    /// `requires`.
    pub fn next(&mut self, time_overflow: bool) -> (r: Option<CalendarDate>)
        requires
            !time_overflow,
            old(self).year is Some,
            old(self).days.0.spec_cache() is None ==> (old(self).days.0.spec_month_ring() matches Some(m) && m.size() > 0),
            old(self).months.0.size() > 0,
        ensures
            *final(self) == *old(self),
            ({
                let day = if old(self).days.0.spec_cache() is Some {
                    old(self).days.0.spec_cache().unwrap().month_day
                } else {
                    let m = old(self).days.0.spec_month_ring().unwrap();
                    m.items()[m.back(m.pos()) as int]
                };
                let month = old(self).months.0.items()[old(self).months.0.back(old(self).months.0.pos()) as int];
                let year = old(self).year.unwrap();
                r == if crate::clock::spec_is_valid_ymd(year as i32 as int, month as int, day as int) {
                    Some(CalendarDate { year: year as i32, month: month as u32, day: day as u32 })
                } else {
                    None
                }
            }),
    {
        let cache = Cache { day: self.days.0.last(), month: self.months.last(), year: self.year_unchecked() };
        let result = if time_overflow {
            None
        } else {
            Some(cache)
        };
        match result {
            Some(date) => from_ymd_opt(date.year as i32, date.month as u32, date.day as u32),
            None => None,
        }
    }

    /// # Panic
    /// Will panic if the year hasn't been set.
    pub fn year_unchecked(&self) -> (r: u32)
        requires
            self.year is Some,
        ensures
            r == self.year.unwrap(),
    {
        self.year.unwrap()
    }
}

/// The year a search round moves to: the year reached (else the starting
/// year), plus one when the months wrapped.
pub open spec fn spec_next_year(year: Option<u32>, year_overflow: bool, starting_year: u32) -> int {
    let base: int = match year {
        Some(y) => y as int,
        None => starting_year as int,
    };
    if year_overflow { base + 1 } else { base }
}

/// The number of days from day `days_month` of month `starting_month` of
/// `starting_year` (that day included) to the first day of month `month`
/// of `year`.
pub open spec fn spec_days_until(year: int, month: int, starting_year: int, starting_month: int, days_month: int) -> int {
    spec_sum_month_days(starting_month, spec_months_passed_exclusive(year, month, starting_year, starting_month))
        + spec_leap_count(starting_year + 1, year) + (crate::spec_days_in_month(starting_month, starting_year)
        - days_month + 1)
}

/// The state of the search of `Date::first_after` between rounds.
pub struct Search {
    pub date: Date,
    pub first_run: bool,
    pub time_overflow: bool,
    pub found: Option<Cache>,
}

/// The month a search round reads, with its wrap flag, and the months ring
/// after it: the first month at or after `sm` in the first round, the next
/// month afterwards.
pub open spec fn spec_round_month(s: Search, sm: u8) -> ((u8, bool), CopyRing<u8>) {
    if s.first_run {
        spec_first_after(s.date.months.0, false, sm)
    } else {
        spec_next(s.date.months.0, true)
    }
}

/// One round of the search of `Date::first_after` from day `dm` (weekday
/// `dw`) of month `sm` of `sy`: move to the next allowed month (and year);
/// when it differs from the starting one, search from the first of that
/// month on the weekday it falls on, with no time wrap; then search the
/// days of that month.
pub open spec fn spec_step(s: Search, dm: u8, dw: u8, sm: u8, sy: u32) -> Search {
    let ((month, yov), months_ring) = spec_round_month(s, sm);
    let year = spec_next_year(s.date.year, yov, sy);
    let changed = month != sm || year != sy;
    let new_dw: u8 = if changed {
        date::spec_next_weekday_from_last(dw as int, spec_days_until(year, month as int, sy as int, sm as int, dm as int))
    } else {
        dw
    };
    let new_dm: u8 = if changed { 1 } else { dm };
    let tov = if changed { false } else { s.time_overflow };
    let (nd, days2) = s.date.days.0.spec_first_after(tov, new_dm, new_dw, month, year as u32);
    Search {
        date: Date { days: Days(days2), months: Months(months_ring), year: Some(year as u32) },
        first_run: if nd is Some { s.first_run } else { false },
        time_overflow: tov,
        found: match nd {
            Some(day) => Some(Cache { day, month, year: year as u32 }),
            None => None,
        },
    }
}

/// Whether one round of the search runs without a panic or an overflow.
pub open spec fn spec_step_safe(s: Search, dm: u8, dw: u8, sm: u8, sy: u32) -> bool {
    let ((month, yov), months_ring) = spec_round_month(s, sm);
    let year = spec_next_year(s.date.year, yov, sy);
    let changed = month != sm || year != sy;
    let new_dw: u8 = if changed {
        date::spec_next_weekday_from_last(dw as int, spec_days_until(year, month as int, sy as int, sm as int, dm as int))
    } else {
        dw
    };
    let new_dm: u8 = if changed { 1 } else { dm };
    let tov = if changed { false } else { s.time_overflow };
    &&& s.date.months.0.size() > 0
    &&& s.first_run ==> sm < 255
    &&& year <= u32::MAX
    &&& changed ==> {
        &&& 1 <= sm <= 12
        &&& sy < u32::MAX
        &&& spec_months_passed_safe(year, month as int, sy as int, sm as int)
        &&& spec_sum_month_days(sm as int, spec_months_passed_exclusive(year, month as int, sy as int, sm as int))
            <= u32::MAX
        &&& dm <= crate::spec_days_in_month(sm as int, sy as int)
        &&& dw + spec_days_until(year, month as int, sy as int, sm as int, dm as int) <= u32::MAX
    }
    &&& s.date.days.0.spec_first_after_safe(tov, new_dm, new_dw, month, year as u32)
}

/// Whether the search, from state `s`, stops within `n` rounds without a
/// panic: it stops once a date was found or the year reached is 4 or more
/// years past `sy`.
pub open spec fn spec_run_ok(s: Search, dm: u8, dw: u8, sm: u8, sy: u32, n: nat) -> bool
    decreases n,
{
    if s.found is Some {
        true
    } else if s.date.year matches Some(y) && y < sy {
        false
    } else if s.date.spec_at_year_limit(sy) {
        true
    } else if n == 0 {
        false
    } else {
        spec_step_safe(s, dm, dw, sm, sy) && spec_run_ok(spec_step(s, dm, dw, sm, sy), dm, dw, sm, sy, (n - 1) as nat)
    }
}

/// The state where the search, from `s`, stops (given enough rounds `n`).
pub open spec fn spec_run(s: Search, dm: u8, dw: u8, sm: u8, sy: u32, n: nat) -> Search
    decreases n,
{
    if s.found is Some || s.date.spec_at_year_limit(sy) || n == 0 {
        s
    } else {
        spec_run(spec_step(s, dm, dw, sm, sy), dm, dw, sm, sy, (n - 1) as nat)
    }
}

impl Date {
    /// The search state before the first round of `first_after`.
    pub open spec fn spec_search_start(self, time_overflow: bool) -> Search {
        Search {
            date: Date { months: Months(self.months.0.spec_reset()), ..self },
            first_run: true,
            time_overflow,
            found: None,
        }
    }

    /// Whether the search of `first_after` from this date half stops without a panic.
    pub open spec fn spec_first_after_ok(self, time_overflow: bool, start_days_month: u8, start_days_week: u8, start_month: u8, start_year: u32) -> bool {
        exists|n: nat| spec_run_ok(self.spec_search_start(time_overflow), start_days_month, start_days_week, start_month, start_year, n)
    }

    /// The state where the search of `first_after` stops.
    pub open spec fn spec_first_after_end(self, time_overflow: bool, start_days_month: u8, start_days_week: u8, start_month: u8, start_year: u32) -> Search {
        let n = choose|n: nat| spec_run_ok(self.spec_search_start(time_overflow), start_days_month, start_days_week, start_month, start_year, n);
        spec_run(self.spec_search_start(time_overflow), start_days_month, start_days_week, start_month, start_year, n)
    }

    /// Searches for the first allowed date at or after day `start_days_month`
    /// (weekday `start_days_week`) of `start_month` of `start_year`, or after
    /// it when `time_overflow` (the time wrapped).
    ///
    /// Each round moves to an allowed month: the first at or after
    /// `start_month` in the first round, the next month of the ring in every
    /// later round, wrapping to the next year. When the month or year moved, the search starts from the
    /// first of that month on the weekday it falls on. The days of the month
    /// are searched (see `DaysInner::first_after`). The search stops once a
    /// day was found or the year reached is 4 or more years past
    /// `start_year`; the date found, if any, is returned.
    pub fn first_after(
        &mut self,
        time_overflow: bool,
        start_days_month: u8,
        start_days_week: u8,
        start_month: u8,
        start_year: u32,
    ) -> (r: Option<CalendarDate>)
        requires
            old(self).spec_first_after_ok(time_overflow, start_days_month, start_days_week, start_month, start_year),
        ensures
            ({
                let end = old(self).spec_first_after_end(time_overflow, start_days_month, start_days_week, start_month, start_year);
                &&& *final(self) == end.date
                &&& r == match end.found {
                    Some(c) => if crate::clock::spec_is_valid_ymd(c.year as i32 as int, c.month as int, c.day as int) {
                        Some(CalendarDate { year: c.year as i32, month: c.month as u32, day: c.day as u32 })
                    } else {
                        None
                    },
                    None => None,
                }
            }),
    {
        let ghost s0 = old(self).spec_search_start(time_overflow);
        let ghost n0 = choose|n: nat| spec_run_ok(s0, start_days_month, start_days_week, start_month, start_year, n);
        self.months.reset();
        let mut time_overflow = time_overflow;
        let mut first_run = true;
        let mut date: Option<Cache> = None;
        let ghost mut fuel: nat = n0;
        assert(Search { date: *self, first_run, time_overflow, found: date } == s0);
        loop
            invariant
                spec_run_ok(
                    Search { date: *self, first_run, time_overflow, found: date },
                    start_days_month,
                    start_days_week,
                    start_month,
                    start_year,
                    fuel,
                ),
                spec_run(
                    Search { date: *self, first_run, time_overflow, found: date },
                    start_days_month,
                    start_days_week,
                    start_month,
                    start_year,
                    fuel,
                ) == spec_run(s0, start_days_month, start_days_week, start_month, start_year, n0),
            ensures
                (Search { date: *self, first_run, time_overflow, found: date }) == spec_run(
                    s0,
                    start_days_month,
                    start_days_week,
                    start_month,
                    start_year,
                    n0,
                ),
            decreases fuel,
        {
            if date.is_some() {
                break;
            }
            if self.at_year_limit(start_year) {
                break;
            }
            let ghost prev = Search { date: *self, first_run, time_overflow, found: date };
            proof {
                assert(spec_step_safe(prev, start_days_month, start_days_week, start_month, start_year));
            }
            // Step 1: Set the months to the first available month
            let (month, year_overflow) = if first_run {
                self.months.first_after(start_month)
            } else {
                self.months.next()
            };
            if let Some(year) = self.year {
                self.year = Some(year + if year_overflow { 1 } else { 0 });
            } else {
                self.set_year(start_year + if year_overflow { 1 } else { 0 });
            }
            let year = self.year_unchecked();

            // Step 2: when the month or year moved, search from the first of
            // that month, on the weekday it falls on.
            let mut start_days_month_now = start_days_month;
            let mut start_days_week_now = start_days_week;
            if month != start_month || year != start_year {
                let months_passed_exclusive = Self::calc_months_passed_exclusive(year, month, start_year, start_month);
                let sum_days = sum_month_days(start_month, months_passed_exclusive);
                let leap_days = leap_count(start_year + 1, year);
                let first_month_days = {
                    let days_in_this_month = Self::days_in_month(start_month, start_year);
                    days_in_this_month - start_days_month + 1
                };
                let days_until_first_of_next_month = sum_days + leap_days + first_month_days as u32;
                start_days_week_now = DaysInner::next_weekday_from_last(
                    start_days_week as u32,
                    days_until_first_of_next_month,
                );
                start_days_month_now = 1;
                time_overflow = false;
            }

            // Step 3: Find the next available day.
            let next_day = self.days.0.first_after(
                time_overflow,
                start_days_month_now,
                start_days_week_now,
                month,
                year,
            );

            if let Some(next) = next_day {
                date = Some(Cache { day: next, month, year });
            } else {
                first_run = false;
            }
            proof {
                fuel = (fuel - 1) as nat;
            }
        }

        match date {
            Some(d) => from_ymd_opt(d.year as i32, d.month as u32, d.day as u32),
            None => None,
        }
    }
}

impl TimeBuilder {
    /// A builder with no ring supplied.
    pub fn new() -> (r: Self)
        ensures
            r.is_blank(),
    {
        TimeBuilder { secs: None, mins: None, hours: None }
    }

    /// Whether no ring was supplied.
    pub open spec fn is_blank(self) -> bool {
        self.secs is None && self.mins is None && self.hours is None
    }

    /// Supplies the allowed seconds as a list.
    pub fn with_secs_iter(&mut self, secs: Vec<u8>) -> (r: &mut Self)
        ensures
            r.secs matches Some(ring) && ring.is_fresh(secs@),
            r.mins == old(self).mins,
            r.hours == old(self).hours,
            *final(self) == *final(r),
    {
        self.secs = Some(CopyRing::new(secs));
        self
    }

    /// Supplies the allowed seconds.
    pub fn with_secs(&mut self, secs: CopyRing<u8>) -> (r: &mut Self)
        ensures
            *r == (TimeBuilder { secs: Some(secs), ..*old(self) }),
            *final(self) == *final(r),
    {
        self.secs = Some(secs);
        self
    }

    /// Supplies the allowed minutes as a list.
    pub fn with_mins_iter(&mut self, mins: Vec<u8>) -> (r: &mut Self)
        ensures
            r.mins matches Some(ring) && ring.is_fresh(mins@),
            r.secs == old(self).secs,
            r.hours == old(self).hours,
            *final(self) == *final(r),
    {
        self.mins = Some(CopyRing::new(mins));
        self
    }

    /// Supplies the allowed minutes.
    pub fn with_mins(&mut self, mins: CopyRing<u8>) -> (r: &mut Self)
        ensures
            *r == (TimeBuilder { mins: Some(mins), ..*old(self) }),
            *final(self) == *final(r),
    {
        self.mins = Some(mins);
        self
    }

    /// Supplies the allowed hours as a list.
    pub fn with_hours_iter(&mut self, hours: Vec<u8>) -> (r: &mut Self)
        ensures
            r.hours matches Some(ring) && ring.is_fresh(hours@),
            r.secs == old(self).secs,
            r.mins == old(self).mins,
            *final(self) == *final(r),
    {
        self.hours = Some(CopyRing::new(hours));
        self
    }

    /// Supplies the allowed hours.
    pub fn with_hours(&mut self, hours: CopyRing<u8>) -> (r: &mut Self)
        ensures
            *r == (TimeBuilder { hours: Some(hours), ..*old(self) }),
            *final(self) == *final(r),
    {
        self.hours = Some(hours);
        self
    }
}

impl DateBuilder {
    /// A builder with no ring supplied.
    pub fn new() -> (r: Self)
        ensures
            r.is_blank(),
    {
        DateBuilder { days_week: None, days_month: None, months: None }
    }

    /// Whether no ring was supplied.
    pub open spec fn is_blank(self) -> bool {
        self.days_week is None && self.days_month is None && self.months is None
    }

    /// Supplies the allowed days of the week.
    pub fn with_days_week(&mut self, weekdays: CopyRing<u8>) -> (r: &mut Self)
        ensures
            *r == (DateBuilder { days_week: Some(weekdays), ..*old(self) }),
            *final(self) == *final(r),
    {
        self.days_week = Some(weekdays);
        self
    }

    /// Supplies the allowed days of the week as a list.
    pub fn with_days_week_iter(&mut self, weekdays: Vec<u8>) -> (r: &mut Self)
        ensures
            r.days_week matches Some(ring) && ring.is_fresh(weekdays@),
            r.days_month == old(self).days_month,
            r.months == old(self).months,
            *final(self) == *final(r),
    {
        self.days_week = Some(CopyRing::new(weekdays));
        self
    }

    /// Supplies the allowed days of the month.
    pub fn with_days_month(&mut self, month_days: CopyRing<u8>) -> (r: &mut Self)
        ensures
            *r == (DateBuilder { days_month: Some(month_days), ..*old(self) }),
            *final(self) == *final(r),
    {
        self.days_month = Some(month_days);
        self
    }

    /// Supplies the allowed days of the month as a list.
    pub fn with_days_month_iter(&mut self, month_days: Vec<u8>) -> (r: &mut Self)
        ensures
            r.days_month matches Some(ring) && ring.is_fresh(month_days@),
            r.days_week == old(self).days_week,
            r.months == old(self).months,
            *final(self) == *final(r),
    {
        self.days_month = Some(CopyRing::new(month_days));
        self
    }

    /// Supplies the allowed months as a list.
    pub fn with_months_iter(&mut self, months: Vec<u8>) -> (r: &mut Self)
        ensures
            r.months matches Some(ring) && ring.is_fresh(months@),
            r.days_week == old(self).days_week,
            r.days_month == old(self).days_month,
            *final(self) == *final(r),
    {
        self.months = Some(CopyRing::new(months));
        self
    }

    /// Supplies the allowed months.
    pub fn with_months(&mut self, months: CopyRing<u8>) -> (r: &mut Self)
        ensures
            *r == (DateBuilder { months: Some(months), ..*old(self) }),
            *final(self) == *final(r),
    {
        self.months = Some(months);
        self
    }

    /// The outcome of `build`: which error it reports, if any.
    pub open spec fn spec_build_error(self) -> Option<Error> {
        if self.days_month is None && self.days_week is None {
            Some(Error::MissingField)
        } else if self.months is None {
            Some(Error::MissingField)
        } else if spec_date_rings_empty(self) {
            Some(Error::EmptyRing)
        } else if spec_date_rings_out_of_range(self) {
            Some(Error::OutOfRange)
        } else {
            None
        }
    }

    /// The days that `build` makes from the supplied day rings.
    pub open spec fn spec_days(self) -> DaysInner {
        match (self.days_month, self.days_week) {
            (Some(month), Some(week)) => DaysInner::Both { month, week: (week, None) },
            (Some(month), None) => DaysInner::Month(month),
            (None, Some(week)) => DaysInner::Week((week, None)),
            (None, None) => DaysInner::Month(self.months.unwrap()),
        }
    }

    /// Builds the date half.
    ///
    /// Fails with `MissingField` when neither day ring or no month ring was
    /// supplied, with `EmptyRing` when a supplied ring is empty, and with
    /// `OutOfRange` when the months are not within 1 to 12 (first and last
    /// value), the month days not within 1 to 31, or the last weekday is 7
    /// or more. The day rings are taken out of the builder in every case;
    /// the month ring too, unless both day rings were missing.
    pub fn build(&mut self) -> (r: Result<Date, Error>)
        ensures
            final(self).days_week is None,
            final(self).days_month is None,
            old(self).days_month is None && old(self).days_week is None ==> final(self).months
                == old(self).months,
            !(old(self).days_month is None && old(self).days_week is None) ==> final(self).months is None,
            old(self).spec_build_error() matches Some(e) ==> r == Err::<Date, Error>(e),
            old(self).spec_build_error() is None ==> r == Ok::<Date, Error>(
                Date { days: Days(old(self).spec_days()), months: Months(old(self).months.unwrap()), year: None },
            ),
    {
        let days = match (self.days_month.take(), self.days_week.take()) {
            (None, None) => {
                return Err(Error::MissingField);
            },
            (None, Some(week)) => Days::week(week),
            (Some(month), None) => Days::month(month),
            (Some(month), Some(week)) => Days::both(month, week),
        };
        let months = match self.months.take() {
            Some(m) => m,
            None => {
                return Err(Error::MissingField);
            },
        };

        let empty = days.0.query(ring_is_empty, week_ring_is_empty);
        if months.is_empty() || empty.any() {
            return Err(Error::EmptyRing);
        }

        let out_of_range = days.0.query(month_days_out, week_days_out);
        if months.first().unwrap() < 1 || months.last().unwrap() > 12 || out_of_range.any() {
            return Err(Error::OutOfRange);
        }

        Ok(Date { days, months: Months::new(months), year: None })
    }
}

/// Whether `m` is empty.
fn ring_is_empty(m: &CopyRing<u8>) -> (b: bool)
    ensures
        b == spec_ring_empty(*m),
{
    m.is_empty()
}

/// Whether the weekday ring of `w` is empty.
fn week_ring_is_empty(w: &(CopyRing<u8>, Option<DayCache>)) -> (b: bool)
    ensures
        b == spec_ring_empty(w.0),
{
    w.0.is_empty()
}

/// Whether the month days of `m` are out of range by its first and last values.
fn month_days_out(m: &CopyRing<u8>) -> (b: bool)
    requires
        !spec_ring_empty(*m),
    ensures
        b == spec_month_days_out(*m),
{
    m.first().unwrap() < 1 || m.last().unwrap() > 31
}

/// Whether the last weekday of `w` is 7 or more.
fn week_days_out(w: &(CopyRing<u8>, Option<DayCache>)) -> (b: bool)
    requires
        !spec_ring_empty(w.0),
    ensures
        b == (spec_last(w.0) >= 7),
{
    w.0.last().unwrap() >= 7
}

/// Whether a month-day ring is out of range by its first and last values.
pub open spec fn spec_month_days_out(r: CopyRing<u8>) -> bool {
    spec_first(r) < 1 || spec_last(r) > 31
}

/// Whether some ring that `build` checks (with some day ring supplied and
/// the month ring supplied) is empty.
pub open spec fn spec_date_rings_empty(b: DateBuilder) -> bool {
    spec_ring_empty(b.months.unwrap()) || (b.days_month matches Some(m) && spec_ring_empty(m)) || (
    b.days_week matches Some(w) && spec_ring_empty(w))
}

/// Whether some ring that `build` checks is out of range.
pub open spec fn spec_date_rings_out_of_range(b: DateBuilder) -> bool {
    spec_first(b.months.unwrap()) < 1 || spec_last(b.months.unwrap()) > 12 || (b.days_month matches Some(m)
        && spec_month_days_out(m)) || (b.days_week matches Some(w) && spec_last(w) >= 7)
}

impl TimeBuilder {
    /// The outcome of `build`: which error it reports, if any.
    pub open spec fn spec_build_error(self) -> Option<Error> {
        if self.secs is None || self.mins is None || self.hours is None {
            Some(Error::MissingField)
        } else if spec_ring_empty(self.secs.unwrap()) || spec_ring_empty(self.mins.unwrap())
            || spec_ring_empty(self.hours.unwrap()) {
            Some(Error::EmptyRing)
        } else if spec_last(self.secs.unwrap()) >= 60 || spec_last(self.mins.unwrap()) >= 60 || spec_last(
            self.hours.unwrap(),
        ) >= 24 {
            Some(Error::OutOfRange)
        } else {
            None
        }
    }

    /// Builds the time half.
    ///
    /// Fails with `MissingField` (leaving the builder as it was) when a ring
    /// is missing, with `EmptyRing` when one is empty, and with `OutOfRange`
    /// when the last second or minute is 60 or more or the last hour 24 or
    /// more. Once all three were supplied they are taken out of the builder.
    pub fn build(&mut self) -> (r: Result<Time, Error>)
        ensures
            old(self).spec_build_error() == Some(Error::MissingField) ==> *final(self) == *old(self),
            old(self).spec_build_error() != Some(Error::MissingField) ==> final(self).is_blank(),
            old(self).spec_build_error() matches Some(e) ==> r == Err::<Time, Error>(e),
            old(self).spec_build_error() is None ==> r == Ok::<Time, Error>(
                Time {
                    secs: Seconds(old(self).secs.unwrap()),
                    mins: Minutes(old(self).mins.unwrap()),
                    hours: Hours(old(self).hours.unwrap()),
                },
            ),
    {
        if self.secs.is_none() || self.mins.is_none() || self.hours.is_none() {
            return Err(Error::MissingField);
        }

        let secs = self.secs.take().unwrap();
        let mins = self.mins.take().unwrap();
        let hours = self.hours.take().unwrap();

        if secs.is_empty() || mins.is_empty() || hours.is_empty() {
            return Err(Error::EmptyRing);
        }

        if secs.last().unwrap() >= 60 || mins.last().unwrap() >= 60 || hours.last().unwrap() >= 24 {
            return Err(Error::OutOfRange);
        }

        Ok(Time { secs: Seconds::new(secs), mins: Minutes::new(mins), hours: Hours::new(hours) })
    }
}

/// On a ring of increasing values, `first_after` reports a wrap exactly
/// when the value it gives is below `then`: a value without a wrap is at or
/// above `then`, a value with a wrap below it. With `overflow` this needs
/// two values or more (a ring of the single value `then` gives it back with
/// a wrap).
pub proof fn law_first_after_wrap(ring: CopyRing<u8>, overflow: bool, then: u8)
    requires
        forall|i: int, j: int| 0 <= i < j < ring.size() ==> ring.items()[i] < ring.items()[j],
        ring.size() >= 1,
        overflow ==> ring.size() >= 2,
        !(overflow && then == 255),
    ensures
        spec_first_after(ring, overflow, then).0.1 ==> spec_first_after(ring, overflow, then).0.0 < then,
        !spec_first_after(ring, overflow, then).0.1 ==> spec_first_after(ring, overflow, then).0.0 >= then,
{
    let bound = (if overflow { then + 1 } else { then as int }) as u8;
    crate::collection::copy_ring::lemma_scan_bounds(ring.items(), 0, bound, false);
    let j = crate::collection::copy_ring::spec_scan(ring.items(), 0, bound, false);
    if j >= ring.size() {
        assert(ring.items()[0] < bound);
        if ring.size() >= 2 {
            assert(ring.items()[1] < bound);
            assert(ring.items()[0] < ring.items()[1]);
        }
    }
}

/// The value `first_after` gives is a value of the ring, and without a wrap
/// it is at or above `then` (above it when `overflow`).
pub proof fn lemma_first_after_value(ring: CopyRing<u8>, overflow: bool, then: u8)
    requires
        ring.size() > 0,
        !(overflow && then == 255),
    ensures
        ring.items().contains(spec_first_after(ring, overflow, then).0.0),
        !spec_first_after(ring, overflow, then).0.1 ==> spec_first_after(ring, overflow, then).0.0 >= then + if overflow {
            1int
        } else {
            0int
        },
{
    let bound = (if overflow { then + 1 } else { then as int }) as u8;
    crate::collection::copy_ring::lemma_scan_bounds(ring.items(), 0, bound, false);
    let j = crate::collection::copy_ring::spec_scan(ring.items(), 0, bound, false);
    if j < ring.size() {
        assert(ring.items()[j] == spec_first_after(ring, overflow, then).0.0);
    } else {
        assert(ring.items()[0] == spec_first_after(ring, overflow, then).0.0);
    }
}

/// The time `Time::first_after` finds is allowed (each of its second,
/// minute and hour is a value of its ring) and, when the hours did not
/// wrap to the next day, comes at or after `hour:min:sec`.
pub proof fn law_time_first_after(time: Time, sec: u8, min: u8, hour: u8)
    requires
        time.spec_first_after_safe(sec, min, hour),
    ensures
        time.spec_first_after(sec, min, hour).0 matches Some((t, wrapped)) ==> {
            &&& time.secs.0.items().contains(t.sec as u8)
            &&& time.mins.0.items().contains(t.min as u8)
            &&& time.hours.0.items().contains(t.hour as u8)
            &&& !wrapped ==> (t.hour > hour || (t.hour == hour && (t.min > min || (t.min == min && t.sec >= sec))))
        },
{
    broadcast use crate::collection::copy_ring::group_ring_set;

    let (s, _) = spec_first_after(time.secs.0.spec_reset(), false, sec);
    let (m, _) = spec_first_after(time.mins.0.spec_reset(), s.1, min);
    lemma_first_after_value(time.secs.0.spec_reset(), false, sec);
    lemma_first_after_value(time.mins.0.spec_reset(), s.1, min);
    lemma_first_after_value(time.hours.0.spec_reset(), m.1, hour);
}

/// When the ring holds a value at or above `then` (above it when
/// `overflow`), `first_after` gives a value with no wrap.
proof fn lemma_first_after_no_wrap(ring: CopyRing<u8>, overflow: bool, then: u8, x: u8)
    requires
        ring.size() > 0,
        !(overflow && then == 255),
        ring.items().contains(x),
        x >= then + if overflow { 1int } else { 0int },
    ensures
        !spec_first_after(ring, overflow, then).0.1,
{
    let bound = (if overflow { then + 1 } else { then as int }) as u8;
    crate::collection::copy_ring::lemma_scan_bounds(ring.items(), 0, bound, false);
    let k = choose|k: int| 0 <= k < ring.items().len() && ring.items()[k] == x;
    assert(crate::collection::copy_ring::spec_passes(ring.items()[k], bound, false));
}

/// Whether `h:m:s` is at or after `hour:min:sec` within a day.
pub open spec fn spec_time_at_or_after(h: int, m: int, s: int, hour: int, min: int, sec: int) -> bool {
    ||| h > hour
    ||| h == hour && m > min
    ||| h == hour && m == min && s >= sec
}

/// Whether the rings of `time` allow `h:m:s`.
pub open spec fn spec_time_allowed(time: Time, h: u8, m: u8, s: u8) -> bool {
    &&& time.hours.0.items().contains(h)
    &&& time.mins.0.items().contains(m)
    &&& time.secs.0.items().contains(s)
}

/// The time search wraps to the next day exactly when the rings allow no
/// time at or after `hour:min:sec` on the day asked: when some allowed
/// time is at or after it, the time found comes on that day (and the date
/// search then starts from the day asked, not the day after).
pub proof fn law_time_wraps_only_past_the_last(time: Time, sec: u8, min: u8, hour: u8)
    requires
        time.spec_first_after_safe(sec, min, hour),
    ensures
        time.spec_first_after(sec, min, hour).0 matches Some((t, wrapped)) ==> (wrapped <==> !exists|
            h: u8,
            m: u8,
            s: u8,
        |
            #![trigger spec_time_allowed(time, h, m, s)]
            spec_time_allowed(time, h, m, s) && spec_time_at_or_after(
                h as int,
                m as int,
                s as int,
                hour as int,
                min as int,
                sec as int,
            )),
{
    broadcast use crate::collection::copy_ring::group_ring_set;

    law_time_first_after(time, sec, min, hour);
    let (sr, mr, hr) = (time.secs.0.spec_reset(), time.mins.0.spec_reset(), time.hours.0.spec_reset());
    let (s0, _) = spec_first_after(sr, false, sec);
    let (m0, _) = spec_first_after(mr, s0.1, min);
    let (h0, _) = spec_first_after(hr, m0.1, hour);
    if let Some((t, wrapped)) = time.spec_first_after(sec, min, hour).0 {
        if !wrapped {
            assert(spec_time_allowed(time, t.hour as u8, t.min as u8, t.sec as u8));
        }
        assert forall|h: u8, m: u8, s: u8|
            #![trigger spec_time_allowed(time, h, m, s)]
            spec_time_allowed(time, h, m, s) && spec_time_at_or_after(
                h as int,
                m as int,
                s as int,
                hour as int,
                min as int,
                sec as int,
            ) implies !wrapped by {
            if h > hour {
                lemma_first_after_no_wrap(hr, m0.1, hour, h);
            } else if m > min {
                lemma_first_after_no_wrap(mr, s0.1, min, m);
                lemma_first_after_no_wrap(hr, false, hour, h);
            } else {
                lemma_first_after_no_wrap(sr, false, sec, s);
                lemma_first_after_no_wrap(mr, false, min, m);
                lemma_first_after_no_wrap(hr, false, hour, h);
            }
        }
    }
}

/// Whether every value of `items` is below `n`.
pub open spec fn spec_all_below(items: Seq<u8>, n: int) -> bool {
    forall|i: int| 0 <= i < items.len() ==> #[trigger] items[i] < n
}

/// The time half builds exactly when its three rings are supplied, none is
/// empty, and every second and minute is below 60 and every hour below 24
/// (for rings in increasing order, as the builders make them; for any
/// rings, such values always build): a missing ring is `MissingField`, an
/// empty one `EmptyRing`, a value out of range `OutOfRange`.
pub proof fn law_time_builds_in_range(b: TimeBuilder)
    ensures
        b.secs is None || b.mins is None || b.hours is None ==> b.spec_build_error() == Some(Error::MissingField),
        b.secs is Some && b.mins is Some && b.hours is Some ==> {
            let (s, m, h) = (b.secs.unwrap(), b.mins.unwrap(), b.hours.unwrap());
            &&& (s.size() == 0 || m.size() == 0 || h.size() == 0) ==> b.spec_build_error() == Some(Error::EmptyRing)
            &&& (s.size() > 0 && m.size() > 0 && h.size() > 0 && spec_all_below(s.items(), 60) && spec_all_below(
                m.items(),
                60,
            ) && spec_all_below(h.items(), 24)) ==> b.spec_build_error() is None
            &&& (s.size() > 0 && m.size() > 0 && h.size() > 0 && earliest::spec_increasing(s.items())
                && earliest::spec_increasing(m.items()) && earliest::spec_increasing(h.items())) ==> (
            b.spec_build_error() is None <==> (spec_all_below(s.items(), 60) && spec_all_below(m.items(), 60)
                && spec_all_below(h.items(), 24)))
            &&& (s.size() > 0 && m.size() > 0 && h.size() > 0 && earliest::spec_increasing(s.items())
                && earliest::spec_increasing(m.items()) && earliest::spec_increasing(h.items()) && !(spec_all_below(
                s.items(),
                60,
            ) && spec_all_below(m.items(), 60) && spec_all_below(h.items(), 24))) ==> b.spec_build_error() == Some(
                Error::OutOfRange,
            )
        },
{
    if let (Some(s), Some(m), Some(h)) = (b.secs, b.mins, b.hours) {
        if s.size() > 0 && m.size() > 0 && h.size() > 0 {
            assert(s.items()[s.size() - 1] == spec_last(s));
            assert(m.items()[m.size() - 1] == spec_last(m));
            assert(h.items()[h.size() - 1] == spec_last(h));
            if earliest::spec_increasing(s.items()) && spec_last(s) < 60 {
                assert forall|i: int| 0 <= i < s.items().len() implies #[trigger] s.items()[i] < 60 by {
                    if i < s.size() - 1 {
                        assert(s.items()[i] < s.items()[s.size() - 1]);
                    }
                }
            }
            if earliest::spec_increasing(m.items()) && spec_last(m) < 60 {
                assert forall|i: int| 0 <= i < m.items().len() implies #[trigger] m.items()[i] < 60 by {
                    if i < m.size() - 1 {
                        assert(m.items()[i] < m.items()[m.size() - 1]);
                    }
                }
            }
            if earliest::spec_increasing(h.items()) && spec_last(h) < 24 {
                assert forall|i: int| 0 <= i < h.items().len() implies #[trigger] h.items()[i] < 24 by {
                    if i < h.size() - 1 {
                        assert(h.items()[i] < h.items()[h.size() - 1]);
                    }
                }
            }
        }
    }
}

/// Whether every value of `items` lies from `lo` to `hi`.
pub open spec fn spec_all_within(items: Seq<u8>, lo: int, hi: int) -> bool {
    forall|i: int| 0 <= i < items.len() ==> lo <= #[trigger] items[i] <= hi
}

/// A non-empty ring whose values all lie from `lo` to `hi` has its first
/// and last values there; in increasing order, the converse holds too.
pub proof fn lemma_ring_within(r: CopyRing<u8>, lo: int, hi: int)
    requires
        r.size() > 0,
    ensures
        spec_all_within(r.items(), lo, hi) ==> lo <= spec_first(r) && spec_last(r) <= hi,
        earliest::spec_increasing(r.items()) && lo <= spec_first(r) && spec_last(r) <= hi ==> spec_all_within(
            r.items(),
            lo,
            hi,
        ),
{
    assert(r.items()[0] == spec_first(r));
    assert(r.items()[r.size() - 1] == spec_last(r));
    if earliest::spec_increasing(r.items()) && lo <= spec_first(r) && spec_last(r) <= hi {
        assert forall|i: int| 0 <= i < r.items().len() implies lo <= #[trigger] r.items()[i] <= hi by {
            if i > 0 {
                assert(r.items()[0] < r.items()[i]);
            }
            if i < r.size() - 1 {
                assert(r.items()[i] < r.items()[r.size() - 1]);
            }
        }
    }
}

/// The date half builds exactly when the month ring and at least one day
/// ring are supplied, none of them is empty, every month lies from 1 to
/// 12, every day of the month from 1 to 31 and every weekday from 0 to 6
/// (for rings in increasing order; for any rings, such values always
/// build): otherwise `MissingField`, `EmptyRing` or `OutOfRange`.
pub proof fn law_date_builds_in_range(b: DateBuilder)
    ensures
        (b.days_month is None && b.days_week is None) || b.months is None ==> b.spec_build_error() == Some(
            Error::MissingField,
        ),
        !(b.days_month is None && b.days_week is None) && b.months is Some ==> {
            let mo = b.months.unwrap();
            let nonempty = mo.size() > 0 && (b.days_month matches Some(m) ==> m.size() > 0) && (b.days_week matches Some(
                w,
            ) ==> w.size() > 0);
            let in_range = spec_all_within(mo.items(), 1, 12) && (b.days_month matches Some(m) ==> spec_all_within(
                m.items(),
                1,
                31,
            )) && (b.days_week matches Some(w) ==> spec_all_within(w.items(), 0, 6));
            let increasing = earliest::spec_increasing(mo.items()) && (b.days_month matches Some(m)
                ==> earliest::spec_increasing(m.items())) && (b.days_week matches Some(w)
                ==> earliest::spec_increasing(w.items()));
            &&& !nonempty ==> b.spec_build_error() == Some(Error::EmptyRing)
            &&& nonempty && in_range ==> b.spec_build_error() is None
            &&& nonempty && increasing && !in_range ==> b.spec_build_error() == Some(Error::OutOfRange)
        },
{
    if !(b.days_month is None && b.days_week is None) && b.months is Some {
        let mo = b.months.unwrap();
        if mo.size() > 0 {
            lemma_ring_within(mo, 1, 12);
        }
        if let Some(m) = b.days_month {
            if m.size() > 0 {
                lemma_ring_within(m, 1, 31);
            }
        }
        if let Some(w) = b.days_week {
            if w.size() > 0 {
                lemma_ring_within(w, 0, 6);
            }
        }
    }
}

/// What a search state keeps of the date half `d` it started from: the
/// months (values of the ring, its cursor within it), the days of the
/// month when the days are given by them alone, and a found date whose
/// month (and, for such days, day) is allowed.
pub open spec fn spec_keeps_allowed(s: Search, d: Date) -> bool {
    &&& s.date.months.0.items() == d.months.0.items()
    &&& crate::collection::copy_ring::spec_valid(s.date.months.0)
    &&& d.days.0 matches DaysInner::Month(m) ==> (s.date.days.0 matches DaysInner::Month(m2) && m2.items() == m.items())
    &&& s.found matches Some(c) ==> {
        &&& d.months.0.items().contains(c.month)
        &&& d.days.0 matches DaysInner::Month(m) ==> m.items().contains(c.day)
    }
}

/// One round of the search keeps what `spec_keeps_allowed` asks.
proof fn lemma_step_keeps_allowed(s: Search, d: Date, dm: u8, dw: u8, sm: u8, sy: u32)
    requires
        spec_keeps_allowed(s, d),
        spec_step_safe(s, dm, dw, sm, sy),
        s.found is None,
    ensures
        spec_keeps_allowed(spec_step(s, dm, dw, sm, sy), d),
{
    broadcast use crate::collection::copy_ring::group_ring_set;

    let ring = s.date.months.0;
    let ((month, yov), months_ring) = spec_round_month(s, sm);
    if s.first_run {
        lemma_first_after_value(ring, false, sm);
        crate::collection::copy_ring::lemma_scan_bounds(ring.items(), 0, sm, false);
    } else {
        assert(ring.items()[ring.pos() as int] == month);
    }
    let year = spec_next_year(s.date.year, yov, sy);
    let changed = month != sm || year != sy;
    let new_dw: u8 = if changed {
        date::spec_next_weekday_from_last(dw as int, spec_days_until(year, month as int, sy as int, sm as int, dm as int))
    } else {
        dw
    };
    let new_dm: u8 = if changed { 1 } else { dm };
    let tov = if changed { false } else { s.time_overflow };
    if let DaysInner::Month(m) = s.date.days.0 {
        crate::collection::copy_ring::lemma_scan_bounds(m.spec_reset().items(), 0, date::spec_bump(new_dm, tov), false);
    }
}

/// From a state that keeps what `spec_keeps_allowed` asks, the search keeps
/// it to where it stops.
proof fn lemma_run_keeps_allowed(s: Search, d: Date, dm: u8, dw: u8, sm: u8, sy: u32, n: nat)
    requires
        spec_keeps_allowed(s, d),
        spec_run_ok(s, dm, dw, sm, sy, n),
    ensures
        spec_keeps_allowed(spec_run(s, dm, dw, sm, sy, n), d),
    decreases n,
{
    if !(s.found is Some || s.date.spec_at_year_limit(sy) || n == 0) {
        lemma_step_keeps_allowed(s, d, dm, dw, sm, sy);
        lemma_run_keeps_allowed(spec_step(s, dm, dw, sm, sy), d, dm, dw, sm, sy, (n - 1) as nat);
    }
}

/// The date `Date::first_after` finds is allowed: its month is one of the
/// months of the ring, and, when the days are given by the days of the
/// month alone, its day is one of them.
pub proof fn law_date_first_after_allowed(
    d: Date,
    time_overflow: bool,
    start_days_month: u8,
    start_days_week: u8,
    start_month: u8,
    start_year: u32,
)
    requires
        d.spec_first_after_ok(time_overflow, start_days_month, start_days_week, start_month, start_year),
    ensures
        d.spec_first_after_end(time_overflow, start_days_month, start_days_week, start_month, start_year).found
            matches Some(c) ==> {
            &&& d.months.0.items().contains(c.month)
            &&& d.days.0 matches DaysInner::Month(m) ==> m.items().contains(c.day)
        },
{
    broadcast use crate::collection::copy_ring::group_ring_set;

    let s0 = d.spec_search_start(time_overflow);
    let n = choose|n: nat| spec_run_ok(s0, start_days_month, start_days_week, start_month, start_year, n);
    assert(spec_keeps_allowed(s0, d));
    lemma_run_keeps_allowed(s0, d, start_days_month, start_days_week, start_month, start_year, n);
}

/// Whether the date `c` is not before day `dm` of month `sm` of year `sy`,
/// and after it when `strict`.
pub open spec fn spec_not_before(c: Cache, dm: u8, sm: u8, sy: u32, strict: bool) -> bool {
    ||| c.year > sy
    ||| c.year == sy && c.month > sm
    ||| c.year == sy && c.month == sm && c.day >= dm + if strict {
        1int
    } else {
        0int
    }
}

impl Date {
    /// Whether the first round of `first_after` stays in month `sm` of `sy`.
    pub open spec fn spec_first_round_stays(self, sm: u8, sy: u32) -> bool {
        let (month, yov) = spec_first_after(self.months.0.spec_reset(), false, sm).0;
        month == sm && spec_next_year(self.year, yov, sy) == sy
    }
}

/// What a search state keeps of the order of the dates it reads, from the
/// date half `d` and the start `dm`, `sm`, `sy` (with the time wrap
/// `tov0`): before the first round it is the starting state; after a round
/// with nothing found, a year was reached, no earlier than `sy`, and in `sy`
/// the month read last is no earlier than `sm`; a date found is not before
/// the start.
spec fn spec_keeps_order(s: Search, d: Date, tov0: bool, dm: u8, sm: u8, sy: u32) -> bool {
    &&& s.date.months.0.items() == d.months.0.items()
    &&& crate::collection::copy_ring::spec_valid(s.date.months.0)
    &&& s.first_run && s.found is None ==> s == d.spec_search_start(tov0)
    &&& !s.first_run && s.found is None ==> {
        &&& s.date.months.0.started()
        &&& s.date.year matches Some(y) && y >= sy
        &&& s.date.year == Some(sy) ==> s.date.months.0.items()[s.date.months.0.back(s.date.months.0.pos()) as int]
            >= sm
    }
    &&& s.found matches Some(c) ==> spec_not_before(c, dm, sm, sy, tov0) && c.year <= sy + 4
}

/// The month a search round reads, as `spec_keeps_order` needs it: the
/// ring after it keeps its buffer and has the month just before its
/// cursor; the year reached is no earlier than `sy`; in `sy` the month is
/// no earlier than `sm`, and later than it after the first round.
proof fn lemma_round_month_order(s: Search, sm: u8, sy: u32)
    requires
        crate::collection::copy_ring::spec_valid(s.date.months.0),
        s.date.months.0.size() > 0,
        s.first_run ==> s.date.months.0.pos() == 0,
        s.date.year matches Some(y) ==> y >= sy,
        !s.first_run ==> {
            &&& s.date.months.0.started()
            &&& s.date.year matches Some(y) && y >= sy
            &&& s.date.year == Some(sy) ==> s.date.months.0.items()[s.date.months.0.back(s.date.months.0.pos()) as int]
                >= sm
        },
        forall|i: int, j: int|
            0 <= i < j < s.date.months.0.size() ==> s.date.months.0.items()[i] < s.date.months.0.items()[j],
    ensures
        ({
            let ((month, yov), months_ring) = spec_round_month(s, sm);
            let year = spec_next_year(s.date.year, yov, sy);
            &&& months_ring.items() == s.date.months.0.items()
            &&& crate::collection::copy_ring::spec_valid(months_ring)
            &&& months_ring.started()
            &&& months_ring.items()[months_ring.back(months_ring.pos()) as int] == month
            &&& year >= sy
            &&& year == sy ==> month >= sm
            &&& year == sy && !s.first_run ==> month > sm
        }),
{
    broadcast use crate::collection::copy_ring::group_ring_set;

    let ring = s.date.months.0;
    let ((month, yov), months_ring) = spec_round_month(s, sm);
    if s.first_run {
        lemma_first_after_value(ring, false, sm);
        crate::collection::copy_ring::lemma_scan_bounds(ring.items(), 0, sm, false);
        let j = crate::collection::copy_ring::spec_scan(ring.items(), 0, sm, false);
        assert(ring.spec_reset() == ring.spec_set(0, false));
        if j < ring.size() {
            assert(months_ring.pos() == ring.step(j as nat));
            assert(months_ring.back(months_ring.pos()) == j);
        } else {
            assert(months_ring.back(months_ring.pos()) == 0);
        }
    } else {
        assert(ring.items()[ring.pos() as int] == month);
        assert(months_ring == ring.spec_set(ring.step(ring.pos()), true));
        ring.lemma_spec_set(ring.step(ring.pos()), true);
        assert(months_ring.back(months_ring.pos()) == ring.pos());
        if !yov {
            assert(ring.pos() != 0);
            assert(ring.back(ring.pos()) == ring.pos() - 1);
            assert(ring.items()[ring.pos() - 1] < ring.items()[ring.pos() as int]);
        }
    }
}

/// One round of the search keeps what `spec_keeps_order` asks.
proof fn lemma_step_keeps_order(s: Search, d: Date, tov0: bool, dm: u8, dw: u8, sm: u8, sy: u32)
    requires
        spec_keeps_order(s, d, tov0, dm, sm, sy),
        spec_step_safe(s, dm, dw, sm, sy),
        s.found is None,
        !s.date.spec_at_year_limit(sy),
        s.date.year matches Some(y) ==> y >= sy,
        forall|i: int, j: int| 0 <= i < j < d.months.0.size() ==> d.months.0.items()[i] < d.months.0.items()[j],
        dw < 7,
        d.days.0.spec_week_ring() matches Some(w) ==> forall|i: int| 0 <= i < w.size() ==> #[trigger] w.items()[i] < 7,
        tov0 && d.spec_first_round_stays(sm, sy) && d.days.0.spec_week_ring() is Some ==> date::spec_week_found(
            d.days.0.spec_week_ring().unwrap(),
            true,
            dw,
        ) != Some(dw),
    ensures
        spec_keeps_order(spec_step(s, dm, dw, sm, sy), d, tov0, dm, sm, sy),
{
    broadcast use crate::collection::copy_ring::group_ring_set;

    lemma_round_month_order(s, sm, sy);
    let ((month, yov), months_ring) = spec_round_month(s, sm);
    let year = spec_next_year(s.date.year, yov, sy);
    let changed = month != sm || year != sy;
    if !changed {
        assert(s.first_run);
        assert(d.spec_first_round_stays(sm, sy));
        date::law_first_after_day_not_before(s.date.days.0, s.time_overflow, dm, dw, month, year as u32);
    }
}

/// From a state that keeps what `spec_keeps_order` asks, the search keeps
/// it to where it stops.
proof fn lemma_run_keeps_order(s: Search, d: Date, tov0: bool, dm: u8, dw: u8, sm: u8, sy: u32, n: nat)
    requires
        spec_keeps_order(s, d, tov0, dm, sm, sy),
        spec_run_ok(s, dm, dw, sm, sy, n),
        forall|i: int, j: int| 0 <= i < j < d.months.0.size() ==> d.months.0.items()[i] < d.months.0.items()[j],
        dw < 7,
        d.days.0.spec_week_ring() matches Some(w) ==> forall|i: int| 0 <= i < w.size() ==> #[trigger] w.items()[i] < 7,
        tov0 && d.spec_first_round_stays(sm, sy) && d.days.0.spec_week_ring() is Some ==> date::spec_week_found(
            d.days.0.spec_week_ring().unwrap(),
            true,
            dw,
        ) != Some(dw),
    ensures
        spec_keeps_order(spec_run(s, dm, dw, sm, sy, n), d, tov0, dm, sm, sy),
    decreases n,
{
    if !(s.found is Some || s.date.spec_at_year_limit(sy) || n == 0) {
        lemma_step_keeps_order(s, d, tov0, dm, dw, sm, sy);
        lemma_run_keeps_order(spec_step(s, dm, dw, sm, sy), d, tov0, dm, dw, sm, sy, (n - 1) as nat);
    }
}

/// The date `Date::first_after` finds is not before its start (day
/// `start_days_month` of `start_month` of `start_year`), and comes after it
/// when the time wrapped; the months are in increasing order and the
/// weekdays below 7. One case breaks this and is left out: with the time
/// wrapped, when the first round stays in the start month and the weekday
/// ring's search wraps around to `start_days_week` itself, the start day is
/// given again (see `date::law_first_after_day_not_before`). The year found
/// is at most 4 years past the start.
pub proof fn law_date_first_after_not_before(
    d: Date,
    time_overflow: bool,
    start_days_month: u8,
    start_days_week: u8,
    start_month: u8,
    start_year: u32,
)
    requires
        d.spec_first_after_ok(time_overflow, start_days_month, start_days_week, start_month, start_year),
        forall|i: int, j: int| 0 <= i < j < d.months.0.size() ==> d.months.0.items()[i] < d.months.0.items()[j],
        start_days_week < 7,
        d.days.0.spec_week_ring() matches Some(w) ==> forall|i: int| 0 <= i < w.size() ==> #[trigger] w.items()[i] < 7,
        time_overflow && d.spec_first_round_stays(start_month, start_year) && d.days.0.spec_week_ring() is Some
            ==> date::spec_week_found(d.days.0.spec_week_ring().unwrap(), true, start_days_week) != Some(
            start_days_week,
        ),
    ensures
        d.spec_first_after_end(time_overflow, start_days_month, start_days_week, start_month, start_year).found
            matches Some(c) ==> spec_not_before(c, start_days_month, start_month, start_year, time_overflow) && c.year
            <= start_year + 4,
{
    broadcast use crate::collection::copy_ring::group_ring_set;

    let s0 = d.spec_search_start(time_overflow);
    let n = choose|n: nat| spec_run_ok(s0, start_days_month, start_days_week, start_month, start_year, n);
    assert(spec_keeps_order(s0, d, time_overflow, start_days_month, start_month, start_year));
    lemma_run_keeps_order(s0, d, time_overflow, start_days_month, start_days_week, start_month, start_year, n);
}

} // verus!
