//! The date fields: the allowed days (of the month, of the week, or both)
//! and the allowed months.
use vstd::prelude::*;

use crate::CopyRing;

pub mod days;

verus! {

broadcast use crate::collection::copy_ring::group_ring_set;

/// The allowed days: days of the month, days of the week (0 is Sunday), or
/// both. A weekday ring carries a cache of the last day it gave.
#[derive(Debug)]
pub enum Days {
    Both { month: CopyRing<u8>, week: (CopyRing<u8>, DayCache) },
    Month(CopyRing<u8>),
    Week((CopyRing<u8>, DayCache)),
}

/// The allowed months.
#[derive(Clone, Debug)]
pub struct Months(pub CopyRing<u8>);

/// The last day found: its day of the month, its weekday, and which ring
/// gave it.
#[derive(Clone, Copy, Debug, PartialEq, Eq, Structural)]
pub struct DayCache {
    pub last_month_day: u8,
    pub last_weekday: u8,
    pub last_used: LastUsed,
}

/// Which ring gave the last day.
#[derive(Clone, Copy, Debug, PartialEq, Eq, Structural)]
pub enum LastUsed {
    Week,
    Month,
    Both,
}

/// The next day found by each ring that `Days` holds.
#[derive(Clone, Debug)]
pub enum NextDay {
    /// The next day of the month, from 1-31
    /// along with the next weekday, from 0-6
    Week(Option<(u8, u8)>),
    Both { month: Option<u8>, week: Option<(u8, u8)> },
    /// The next day of the month, from 1-31
    Month(Option<u8>),
}

impl DayCache {
    /// The cache before any day was found.
    pub fn new() -> (r: Self)
        ensures
            r == (DayCache { last_month_day: 0, last_weekday: 0, last_used: LastUsed::Week }),
    {
        DayCache { last_month_day: 0, last_weekday: 0, last_used: LastUsed::Week }
    }
}

/// The number of days from weekday `start` forward to weekday `end`
/// (`(end + 7 - start) % 7`, Rust's remainder, cast to `u8`).
pub open spec fn spec_num_weekdays_since(start: int, end: int) -> u8 {
    let d = end + 7 - start;
    if d >= 0 {
        (d % 7) as u8
    } else if (-d) % 7 == 0 {
        0
    } else {
        (256 - (-d) % 7) as u8
    }
}

/// The weekday `num_days_to_advance` days after `first_weekday`.
pub open spec fn spec_next_weekday_from_last(first_weekday: int, num_days_to_advance: int) -> u8 {
    ((first_weekday + num_days_to_advance) % 7) as u8
}

/// Whether the weekday search of `first_after` on `week` runs without an
/// overflow: the day of the month of the weekday it picks, counted on from
/// `days_month`, fits in a `u8`.
pub open spec fn spec_week_pick_safe(week: CopyRing<u8>, overflow: bool, days_month: u8, days_week: u8) -> bool {
    let (found, r1) = week.spec_find_from_cursor(days_week, overflow);
    let day = match found {
        Some(d) => Some(d),
        None => r1.spec_next().0,
    };
    day matches Some(wd) ==> days_month + spec_num_weekdays_since(days_week as int, wd as int) <= u8::MAX
}

/// The day given by the weekday ring `week` in `first_after`, with the ring
/// after it: the first weekday that passes `days_week` (else the first of
/// the ring), turned into the day of the month it falls on counting from
/// `days_month`, kept only when it is within the month.
pub open spec fn spec_week_pick(
    week: CopyRing<u8>,
    overflow: bool,
    days_month: u8,
    days_week: u8,
    days_in_month: u8,
) -> (Option<(u8, u8)>, CopyRing<u8>) {
    let (found, r1) = week.spec_find_from_cursor(days_week, overflow);
    let (day, r2) = match found {
        Some(d) => (Some(d), r1),
        None => r1.spec_next(),
    };
    match day {
        None => (None, r2),
        Some(wd) => {
            let dom = days_month + spec_num_weekdays_since(days_week as int, wd as int);
            if dom <= days_in_month {
                (Some((dom as u8, wd)), r2)
            } else {
                (None, r2)
            }
        },
    }
}

/// The day given by the month-day ring `month` in `first_after`, with the
/// ring after it: the first day that passes `days_month`, kept only when it
/// is within the month.
pub open spec fn spec_month_pick(month: CopyRing<u8>, overflow: bool, days_month: u8, days_in_month: u8) -> (
    Option<u8>,
    CopyRing<u8>,
) {
    let (found, r1) = month.spec_find_from_cursor(days_month, overflow);
    match found {
        Some(d) => if d <= days_in_month {
            (Some(d), r1)
        } else {
            (None, r1)
        },
        None => (None, r1),
    }
}

impl Days {
    /// The days after `reset`.
    pub open spec fn spec_reset(self) -> Self {
        match self {
            Days::Both { month, week } => Days::Both {
                month: month.spec_reset(),
                week: (week.0.spec_reset(), week.1),
            },
            Days::Month(month) => Days::Month(month.spec_reset()),
            Days::Week(week) => Days::Week((week.0.spec_reset(), week.1)),
        }
    }

    /// Whether the days of the week held are all weekdays (below 7).
    pub open spec fn spec_weekdays_valid(self) -> bool {
        match self {
            Days::Both { month, week } => forall|i: int|
                0 <= i < week.0.items().len() ==> #[trigger] week.0.items()[i] < 7,
            Days::Month(_) => true,
            Days::Week(week) => forall|i: int| 0 <= i < week.0.items().len() ==> #[trigger] week.0.items()[i] < 7,
        }
    }

    /// Puts the cursor of every ring back on its first value.
    pub fn reset(&mut self)
        ensures
            *final(self) == old(self).spec_reset(),
    {
        match self {
            Days::Both { month, week: (week, _) } => {
                month.reset();
                week.reset();
            },
            Days::Month(month) => month.reset(),
            Days::Week((week, _)) => week.reset(),
        }
    }

    /// The number of days from weekday `start_weekday` forward to weekday
    /// `end_weekday`.
    pub fn num_weekdays_since(start_weekday: i16, end_weekday: i16) -> (r: u8)
        requires
            end_weekday + 7 <= i16::MAX,
            i16::MIN <= end_weekday + 7 - start_weekday <= i16::MAX,
        ensures
            r == spec_num_weekdays_since(start_weekday as int, end_weekday as int),
    {
        let days_in_a_week: i16 = 7;
        let d = end_weekday + days_in_a_week - start_weekday;
        let m = d % days_in_a_week;
        proof {
            if d >= 0 {
                assert(m == d % 7);
            } else {
                assert(m == -((-d) % 7));
                assert(-7 < m <= 0);
                assert(m < 0 ==> m as u8 == (m + 256) as u8) by (bit_vector)
                    requires -7 < m <= 0;
            }
        }
        m as u8
    }

    /// The weekday cache, when the days hold a weekday ring.
    pub fn cache_mut(&mut self) -> (r: Option<&mut DayCache>)
        ensures
            *old(self) is Month ==> r is None && *final(self) == *old(self),
            *old(self) matches Days::Both { month, week } ==> r matches Some(c) && *c == week.1
                && *final(self) == (Days::Both { month, week: (week.0, *final(c)) }),
            *old(self) matches Days::Week(week) ==> r matches Some(c) && *c == week.1
                && *final(self) == Days::Week((week.0, *final(c))),
    {
        match self {
            Self::Both { month: _, week: (_, cache) } => Some(cache),
            Self::Week((_, cache)) => Some(cache),
            _ => None,
        }
    }

    /// Whether `first_after` runs without an overflow (see
    /// `spec_week_pick_safe`; month days alone always do).
    pub open spec fn spec_first_after_safe(self, time_overflow: bool, days_month: u8, days_week: u8) -> bool {
        match self.spec_reset() {
            Days::Both { week, .. } => spec_week_pick_safe(week.0, time_overflow, days_month, days_week),
            Days::Month(_) => true,
            Days::Week(week) => spec_week_pick_safe(week.0, time_overflow, days_month, days_week),
        }
    }

    /// The next day of each ring and the days after `first_after`.
    pub open spec fn spec_first_after(self, time_overflow: bool, days_month: u8, days_week: u8, days_in_month: u8) -> (
        NextDay,
        Self,
    ) {
        match self.spec_reset() {
            Days::Both { month, week } => {
                let (w, week_ring) = spec_week_pick(week.0, time_overflow, days_month, days_week, days_in_month);
                let (m, month_ring) = spec_month_pick(month, time_overflow, days_month, days_in_month);
                (NextDay::Both { month: m, week: w }, Days::Both { month: month_ring, week: (week_ring, week.1) })
            },
            Days::Month(month) => {
                let (m, month_ring) = spec_month_pick(month, time_overflow, days_month, days_in_month);
                (NextDay::Month(m), Days::Month(month_ring))
            },
            Days::Week(week) => {
                let (w, week_ring) = spec_week_pick(week.0, time_overflow, days_month, days_week, days_in_month);
                (NextDay::Week(w), Days::Week((week_ring, week.1)))
            },
        }
    }

    /// Finds, from the start of each ring, the first day at or after the
    /// given day (strictly after it when the time wrapped to the next day).
    ///
    /// The month-day ring gives the first day at or after `days_month`; the
    /// weekday ring gives the first weekday at or after `days_week` (else
    /// its first weekday), turned into the day of the month it falls on
    /// counting from `days_month`. A day past `days_in_month` is dropped.
    pub fn first_after(&mut self, time_overflow: bool, days_month: u8, days_week: u8, days_in_month: u8) -> (r:
        NextDay)
        requires
            old(self).spec_first_after_safe(time_overflow, days_month, days_week),
        ensures
            (r, *final(self)) == old(self).spec_first_after(time_overflow, days_month, days_week, days_in_month),
            r matches NextDay::Both { month: Some(m), .. } ==> m >= days_month,
            r matches NextDay::Month(Some(m)) ==> m >= days_month,
    {
        self.reset();
        match self {
            Days::Both { month, week: (week, _) } => {
                let w = Self::week_pick(week, time_overflow, days_month, days_week, days_in_month);
                let m = Self::month_pick(month, time_overflow, days_month, days_in_month);
                NextDay::Both { week: w, month: m }
            },
            Days::Month(month) => NextDay::Month(Self::month_pick(month, time_overflow, days_month, days_in_month)),
            Days::Week((week, _)) => NextDay::Week(
                Self::week_pick(week, time_overflow, days_month, days_week, days_in_month),
            ),
        }
    }

    fn week_pick(week: &mut CopyRing<u8>, overflow: bool, days_month: u8, days_week: u8, days_in_month: u8) -> (r:
        Option<(u8, u8)>)
        requires
            spec_week_pick_safe(*old(week), overflow, days_month, days_week),
        ensures
            (r, *final(week)) == spec_week_pick(*old(week), overflow, days_month, days_week, days_in_month),
    {
        let found = week.find_from_cursor(days_week, overflow);
        let day = match found {
            Some(d) => Some(d),
            None => week.next(),
        };
        match day {
            None => None,
            Some(wd) => {
                let dom = days_month + Days::num_weekdays_since(days_week as i16, wd as i16);
                if dom <= days_in_month {
                    Some((dom, wd))
                } else {
                    None
                }
            },
        }
    }

    fn month_pick(month: &mut CopyRing<u8>, overflow: bool, days_month: u8, days_in_month: u8) -> (r: Option<u8>)
        ensures
            (r, *final(month)) == spec_month_pick(*old(month), overflow, days_month, days_in_month),
            r matches Some(d) ==> d >= days_month,
    {
        let found = month.find_from_cursor(days_month, overflow);
        match found {
            Some(d) => if d <= days_in_month {
                Some(d)
            } else {
                None
            },
            None => None,
        }
    }

    /// The weekday `num_days_to_advance` days after `first_weekday`.
    pub fn next_weekday_from_last(first_weekday: u32, num_days_to_advance: u32) -> (r: u8)
        requires
            first_weekday + num_days_to_advance <= u32::MAX,
        ensures
            r == spec_next_weekday_from_last(first_weekday as int, num_days_to_advance as int),
            r < 7,
    {
        let days_in_a_week: u32 = 7;
        let result = (first_weekday + num_days_to_advance) % days_in_a_week;
        result as u8
    }
}

impl Months {
    /// The months of `copy_ring`.
    pub fn new(copy_ring: CopyRing<u8>) -> (r: Self)
        ensures
            r.0 == copy_ring,
    {
        Self(copy_ring)
    }

    /// The first month from the cursor on at or after `month`, else the
    /// first month with a wrap (see `super::first_after`); the ring is not
    /// reset first.
    pub fn first_after(&mut self, month: u8) -> (r: (u8, bool))
        requires
            old(self).0.size() > 0,
        ensures
            (r, final(self).0) == super::spec_first_after(old(self).0, false, month),
    {
        super::first_after(&mut self.0, false, month)
    }

    /// The next month when the days wrapped (with its wrap flag), else the
    /// current month (see `super::next`).
    pub fn next(&mut self, day_overflow: bool) -> (r: (u8, bool))
        requires
            old(self).0.size() > 0,
        ensures
            (r, final(self).0) == super::spec_next(old(self).0, day_overflow),
    {
        super::next(&mut self.0, day_overflow)
    }

    /// Puts the cursor back on the first month.
    pub fn reset(&mut self)
        ensures
            final(self).0 == old(self).0.spec_reset(),
    {
        self.0.reset()
    }
}

} // verus!
