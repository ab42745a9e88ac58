//! The date fields: the allowed days (of the month, of the week, or both)
//! and the allowed months, with the combinators used to query both day
//! rings at once.
use vstd::prelude::*;

use crate::CopyRing;

verus! {

broadcast use crate::collection::copy_ring::group_ring_set;

/// The allowed days: days of the month, days of the week (0 is Sunday), or
/// both. A weekday ring carries a cache of the last day it gave.
#[derive(Debug)]
pub enum DaysInner {
    Both { month: CopyRing<u8>, week: (CopyRing<u8>, Option<DayCache>) },
    Month(CopyRing<u8>),
    Week((CopyRing<u8>, Option<DayCache>)),
}

/// The allowed days.
#[derive(Debug)]
pub struct Days(pub DaysInner);

/// The allowed months.
#[derive(Clone, Debug)]
pub struct Months(pub CopyRing<u8>);

/// A year, once one was reached.
#[derive(Clone, Copy, Debug)]
pub struct Years(pub Option<u32>);

/// A helper struct for the weekday's
/// part of the `Days` struct. Allows
/// the weekday ring to cache it's last
/// weekday and corresponding month-day
/// for future month day calculations.
///
/// The `month_day` `weekday`
/// fields are meant for the day of the
/// month that was calculated using the
/// weekday ring, not the month-day ring.
#[derive(Clone, Copy, Debug, PartialEq, Eq, Structural)]
pub struct DayCache {
    pub month_day: u8,
    pub weekday: u8,
    pub month: u8,
    pub year: u32,
    pub last: LastUsed,
}

/// Which ring gave the last day.
#[derive(Clone, Copy, Debug, PartialEq, Eq, Structural)]
pub enum LastUsed {
    Week,
    Month,
    Both,
}

/// An answer from the month-day ring and one from the weekday ring, each
/// present only when `Days` holds that ring.
#[derive(Debug)]
pub struct Response<Month, Week>(pub (Option<Month>, Option<Week>));

/// The result of `Response::try_merge`: the merged value when both answers
/// were present, else the response itself.
#[derive(Debug)]
pub struct TryMerge<B, T>(pub Result<B, Response<T, T>>);

impl<Month, Week> Response<Month, Week> {
    /// The response with answers `month` and `week`.
    pub fn new(month: Option<Month>, week: Option<Week>) -> (r: Self)
        ensures
            r.0 == (month, week),
    {
        Self((month, week))
    }

    /// Applies `month_fn` to the month answer and `week_fn` to the week answer.
    pub fn map<M, W, T, U>(self, month_fn: M, week_fn: W) -> (r: Response<T, U>) where
        M: FnOnce(Month) -> T,
        W: FnOnce(Week) -> U,

        requires
            self.0.0 matches Some(m) ==> call_requires(month_fn, (m,)),
            self.0.1 matches Some(w) ==> call_requires(week_fn, (w,)),
        ensures
            self.0.0 is None ==> r.0.0 is None,
            self.0.1 is None ==> r.0.1 is None,
            self.0.0 matches Some(m) ==> (r.0.0 matches Some(t) && call_ensures(month_fn, (m,), t)),
            self.0.1 matches Some(w) ==> (r.0.1 matches Some(u) && call_ensures(week_fn, (w,), u)),
    {
        let (m, w) = self.0;
        let m2 = match m {
            Some(m) => Some(month_fn(m)),
            None => None,
        };
        let w2 = match w {
            Some(w) => Some(week_fn(w)),
            None => None,
        };
        Response((m2, w2))
    }

    /// Applies `week_fn` to the week answer.
    pub fn map_week<W, U>(self, week_fn: W) -> (r: Response<Month, U>) where W: FnOnce(Week) -> U
        requires
            self.0.1 matches Some(w) ==> call_requires(week_fn, (w,)),
        ensures
            r.0.0 == self.0.0,
            self.0.1 is None ==> r.0.1 is None,
            self.0.1 matches Some(w) ==> (r.0.1 matches Some(u) && call_ensures(week_fn, (w,), u)),
    {
        let (m, w) = self.0;
        let w2 = match w {
            Some(w) => Some(week_fn(w)),
            None => None,
        };
        Response((m, w2))
    }

    /// Calls `week_fn` on the week answer, if any, and returns the response unchanged.
    pub fn inspect_week<W>(self, week_fn: W) -> (r: Response<Month, Week>) where W: FnOnce(&Week)
        requires
            self.0.1 matches Some(w) ==> call_requires(week_fn, (&w,)),
        ensures
            r.0 == self.0,
    {
        let (month, week) = self.0;
        if let Some(ref week) = week {
            week_fn(week);
        }
        Response((month, week))
    }
}

impl<T> Response<T, T> {
    /// Attempts to merge both the `Month` and `Week` generic types
    /// into one item of type `B`. If either the month or week
    /// doesn't exist, then the response itself is returned
    /// without the function applied to the data.
    pub fn try_merge<B, F>(self, f: F) -> (r: TryMerge<B, T>) where F: FnOnce(T, T) -> B
        requires
            self.0 matches (Some(m), Some(w)) ==> call_requires(f, (m, w)),
        ensures
            self.0 matches (Some(m), Some(w)) ==> (r.0 matches Ok(b) && call_ensures(f, (m, w), b)),
            !(self.0.0 is Some && self.0.1 is Some) ==> (r.0 matches Err(resp) && resp.0 == self.0),
    {
        match self.0 {
            (Some(m), Some(w)) => TryMerge(Ok(f(m, w))),
            data => TryMerge(Err(Response(data))),
        }
    }
}

impl Response<bool, bool> {
    /// Whether some answer is `true`; `true` also when there is no answer.
    pub fn any(self) -> (r: bool)
        ensures
            r == match self.0 {
                (None, None) => true,
                (None, Some(w)) => w,
                (Some(m), None) => m,
                (Some(m), Some(w)) => m || w,
            },
    {
        match self.0 {
            (None, None) => true,
            (None, Some(w)) => w,
            (Some(m), None) => m,
            (Some(m), Some(w)) => m || w,
        }
    }
}

impl<B, T> TryMerge<B, T> {
    /// The merged value, or the single answer turned into a `B` by
    /// `month_fn` or `week_fn`; `None` when there is no answer.
    pub fn or_else_map<M, W>(self, month_fn: M, week_fn: W) -> (r: Option<B>) where
        M: FnOnce(T) -> B,
        W: FnOnce(T) -> B,

        requires
            !(self.0 matches Err(resp) && resp.0.0 is Some && resp.0.1 is Some),
            self.0 matches Err(resp) && resp.0 matches (Some(m), None) ==> call_requires(month_fn, (m,)),
            self.0 matches Err(resp) && resp.0 matches (None, Some(w)) ==> call_requires(week_fn, (w,)),
        ensures
            self.0 matches Ok(b) ==> r == Some(b),
            self.0 matches Err(resp) && resp.0 matches (None, None) ==> r is None,
            self.0 matches Err(resp) && resp.0 matches (Some(m), None) ==> (r matches Some(b) && call_ensures(
                month_fn,
                (m,),
                b,
            )),
            self.0 matches Err(resp) && resp.0 matches (None, Some(w)) ==> (r matches Some(b) && call_ensures(
                week_fn,
                (w,),
                b,
            )),
    {
        match self.0 {
            Ok(item) => Some(item),
            Err(response) => match response.0 {
                (None, None) => None,
                (None, Some(w)) => Some(week_fn(w)),
                (Some(m), None) => Some(month_fn(m)),
                (Some(_), Some(_)) => {
                    assert(false);
                    None
                },
            },
        }
    }
}

impl<T> TryMerge<T, T> {
    /// Returns the result of applying `try_merge` to the value
    /// if both fields existed, or just returns the inner value
    /// in the case that only one of the fields existed. This is
    /// a terminal operation.
    pub fn or(self) -> (r: Option<T>)
        requires
            !(self.0 matches Err(resp) && resp.0.0 is Some && resp.0.1 is Some),
        ensures
            r == match self.0 {
                Ok(item) => Some(item),
                Err(response) => match response.0 {
                    (None, None) => None,
                    (None, Some(w)) => Some(w),
                    (Some(m), _) => Some(m),
                },
            },
    {
        match self.0 {
            Ok(item) => Some(item),
            Err(response) => match response.0 {
                (None, None) => None,
                (None, Some(w)) => Some(w),
                (Some(m), None) => Some(m),
                (Some(_), Some(_)) => {
                    assert(false);
                    None
                },
            },
        }
    }
}

impl Days {
    /// Days of the week only.
    pub fn week(ring: CopyRing<u8>) -> (r: Self)
        ensures
            r.0 == DaysInner::Week((ring, None)),
    {
        Self(DaysInner::Week((ring, None)))
    }

    /// Days of the month only.
    pub fn month(ring: CopyRing<u8>) -> (r: Self)
        ensures
            r.0 == DaysInner::Month(ring),
    {
        Self(DaysInner::Month(ring))
    }

    /// Days of the month and days of the week.
    pub fn both(month: CopyRing<u8>, week: CopyRing<u8>) -> (r: Self)
        ensures
            r.0 == (DaysInner::Both { month, week: (week, None) }),
    {
        Self(DaysInner::Both { month, week: (week, None) })
    }
}

/// The number of days from weekday `start` forward to weekday `end`
/// (`(end + 7 - start) % 7`).
pub open spec fn spec_num_weekdays_since(start: int, end: int) -> u8 {
    crate::schedule::table::fields::date::spec_num_weekdays_since(start, end)
}

/// The weekday `n` days after weekday `first`.
pub open spec fn spec_next_weekday_from_last(first: int, n: int) -> u8 {
    ((first + n) % 7) as u8
}

/// The search bound: `x`, plus one when the time wrapped.
pub open spec fn spec_bump(x: u8, overflow: bool) -> u8 {
    (if overflow { x + 1 } else { x as int }) as u8
}

/// The weekday ring's answer in `first_after` (the first weekday at or after
/// `days_week`, or past it when the time wrapped, else the first weekday of
/// the ring, with the day of the month it falls on counting from
/// `days_month`), and the ring after the search.
pub open spec fn spec_week_part(ring: CopyRing<u8>, overflow: bool, days_month: u8, days_week: u8) -> (
    Option<(u8, u8)>,
    CopyRing<u8>,
) {
    let (res, r1) = ring.spec_reset().spec_search_or_greater(spec_bump(days_week, overflow));
    match res {
        Some((day, _)) => (
            Some(((days_month + spec_num_weekdays_since(days_week as int, day as int)) as u8, day)),
            r1,
        ),
        None => (None, r1),
    }
}

/// The month-day ring's answer in `first_after` (the first day at or after
/// `days_month`, or past it when the time wrapped, kept when no wrap was
/// needed and it is within the month), and the ring after the search.
pub open spec fn spec_month_part(ring: CopyRing<u8>, overflow: bool, days_month: u8, days_in_month: u8) -> (
    Option<u8>,
    CopyRing<u8>,
) {
    let (res, r1) = ring.spec_reset().spec_search_or_greater(spec_bump(days_month, overflow));
    match res {
        Some((day, false)) => if day <= days_in_month {
            (Some(day), r1)
        } else {
            (None, r1)
        },
        _ => (None, r1),
    }
}

/// The cache for the weekday-ring day `day` (day of the month, weekday) in
/// `month` of `year`; a day past the month's end moves to the next month.
pub open spec fn spec_compute_cache(day: (u8, u8), month: u8, year: u32) -> DayCache {
    let dim = crate::spec_days_in_month(month as int, year as int);
    if day.0 > dim {
        let overflow = month + 1 > 12;
        DayCache {
            month_day: (day.0 - dim) as u8,
            weekday: day.1,
            month: if overflow { 1 } else { (month + 1) as u8 },
            year: if overflow { (year + 1) as u32 } else { year },
            last: LastUsed::Week,
        }
    } else {
        DayCache { month_day: day.0, weekday: day.1, month, year, last: LastUsed::Week }
    }
}

/// Whether `compute_cache` runs without overflow on these values.
pub open spec fn spec_compute_cache_safe(day: (u8, u8), month: u8, year: u32) -> bool {
    let dim = crate::spec_days_in_month(month as int, year as int);
    1 <= month <= 12 && (day.0 > dim ==> (month + 1 > 12 ==> year < u32::MAX))
}

/// The earlier of the two answers (the month answer when only it exists,
/// and so on); equal days are recorded as given by both rings.
pub open spec fn spec_decide_field(month_opt: Option<(u8, LastUsed)>, week_opt: Option<(u8, LastUsed)>) -> Option<
    (u8, LastUsed),
> {
    match (month_opt, week_opt) {
        (Some(m), Some(w)) => if m.0 < w.0 {
            Some(m)
        } else if m.0 == w.0 {
            Some((m.0, LastUsed::Both))
        } else {
            Some(w)
        },
        (Some(m), None) => Some(m),
        (None, Some(w)) => Some(w),
        (None, None) => None,
    }
}

/// The weekday answer kept for the day search: its day of the month, when
/// within the month.
pub open spec fn spec_week_day_within(w: Option<(u8, u8)>, days_in_month: u8) -> Option<u8> {
    match w {
        Some((d, _)) => if d <= days_in_month {
            Some(d)
        } else {
            None
        },
        None => None,
    }
}

/// A cache with its `last` field set to `last`.
pub open spec fn spec_with_last(c: DayCache, last: LastUsed) -> DayCache {
    DayCache { last, ..c }
}

impl DaysInner {
    /// The days after `reset`.
    pub open spec fn spec_reset(self) -> Self {
        match self {
            DaysInner::Both { month, week } => DaysInner::Both {
                month: month.spec_reset(),
                week: (week.0.spec_reset(), week.1),
            },
            DaysInner::Month(month) => DaysInner::Month(month.spec_reset()),
            DaysInner::Week(week) => DaysInner::Week((week.0.spec_reset(), week.1)),
        }
    }

    /// The weekday cache, if the days hold a weekday ring and it is set.
    pub open spec fn spec_cache(self) -> Option<DayCache> {
        match self {
            DaysInner::Both { week, .. } => week.1,
            DaysInner::Month(_) => None,
            DaysInner::Week(week) => week.1,
        }
    }

    /// Puts the cursor of every ring back on its first value.
    pub fn reset(&mut self)
        ensures
            *final(self) == old(self).spec_reset(),
    {
        match self {
            DaysInner::Both { month, week: (week, _) } => {
                month.reset();
                week.reset();
            },
            DaysInner::Month(month) => month.reset(),
            DaysInner::Week((week, _)) => week.reset(),
        }
    }

    /// The number of days from weekday `start_weekday` forward to weekday
    /// `end_weekday`.
    pub fn num_weekdays_since(start_weekday: i16, end_weekday: i16) -> (r: u8)
        requires
            end_weekday + 7 <= i16::MAX,
            i16::MIN <= end_weekday + 7 - start_weekday <= i16::MAX,
        ensures
            r == spec_num_weekdays_since(start_weekday as int, end_weekday as int),
    {
        crate::schedule::table::fields::date::Days::num_weekdays_since(start_weekday, end_weekday)
    }

    /// The weekday cache, when the days hold a weekday ring and it is set.
    pub fn cache_mut(&mut self) -> (r: Option<&mut DayCache>)
        ensures
            old(self).spec_cache() is None ==> r is None && *final(self) == *old(self),
            *old(self) matches DaysInner::Both { month, week } ==> (week.1 is Some ==> (r matches Some(c) && *c
                == week.1.unwrap() && *final(self) == (DaysInner::Both { month, week: (week.0, Some(*final(c))) }))),
            *old(self) matches DaysInner::Week(week) ==> (week.1 is Some ==> (r matches Some(c) && *c
                == week.1.unwrap() && *final(self) == DaysInner::Week((week.0, Some(*final(c)))))),
    {
        match self {
            DaysInner::Both { month: _, week: (_, cache) } => cache.as_mut(),
            DaysInner::Week((_, cache)) => cache.as_mut(),
            _ => None,
        }
    }

    /// The days with the weekday cache set to `c` (no change for month days only).
    pub open spec fn spec_set_cache(self, c: DayCache) -> Self {
        match self {
            DaysInner::Both { month, week } => DaysInner::Both { month, week: (week.0, Some(c)) },
            DaysInner::Month(m) => DaysInner::Month(m),
            DaysInner::Week(week) => DaysInner::Week((week.0, Some(c))),
        }
    }

    /// Sets the weekday cache (no change when the days hold no weekday ring).
    pub fn set_cache(&mut self, new_cache: DayCache)
        ensures
            *final(self) == old(self).spec_set_cache(new_cache),
    {
        match self {
            DaysInner::Both { month: _, week: (_, cache) } => {
                *cache = Some(new_cache);
            },
            DaysInner::Month(_) => {},
            DaysInner::Week((_, cache)) => {
                *cache = Some(new_cache);
            },
        }
    }

    fn cache(&self) -> (r: Option<&DayCache>)
        ensures
            r matches Some(c) ==> self.spec_cache() == Some(*c),
            r is None ==> self.spec_cache() is None,
    {
        match self {
            DaysInner::Both { month: _, week: (_, cache) } => cache.as_ref(),
            DaysInner::Week((_, cache)) => cache.as_ref(),
            _ => None,
        }
    }

    /// The month-day ring, if the days hold one.
    pub open spec fn spec_month_ring(self) -> Option<CopyRing<u8>> {
        match self {
            DaysInner::Both { month, .. } => Some(month),
            DaysInner::Month(m) => Some(m),
            DaysInner::Week(_) => None,
        }
    }

    /// Returns the last day saved in the cache, or the last day in the month
    /// copyring if no cache exists.
    pub fn last(&self) -> (r: u8)
        requires
            self.spec_cache() is None ==> (self.spec_month_ring() matches Some(m) && m.size() > 0),
        ensures
            self.spec_cache() matches Some(c) ==> r == c.month_day,
            self.spec_cache() is None ==> r == self.spec_month_ring().unwrap().items()[
                self.spec_month_ring().unwrap().back(self.spec_month_ring().unwrap().pos()) as int],
    {
        if let Some(cache) = self.cache() {
            cache.month_day
        } else {
            match self {
                DaysInner::Both { month, week: _ } => month.peek_prev().unwrap(),
                DaysInner::Month(month) => month.peek_prev().unwrap(),
                DaysInner::Week(_) => {
                    assert(false);
                    0
                },
            }
        }
    }

    /// Applies `week_fn` to the weekday ring and its cache, if the days hold them.
    pub fn query_week<W, U>(&self, week_fn: W) -> (r: Option<U>) where W: Fn(&(CopyRing<u8>, Option<DayCache>)) -> U
        requires
            *self matches DaysInner::Both { week, .. } ==> call_requires(week_fn, (&week,)),
            *self matches DaysInner::Week(week) ==> call_requires(week_fn, (&week,)),
        ensures
            *self is Month ==> r is None,
            *self matches DaysInner::Both { week, .. } ==> (r matches Some(u) && call_ensures(week_fn, (&week,), u)),
            *self matches DaysInner::Week(week) ==> (r matches Some(u) && call_ensures(week_fn, (&week,), u)),
    {
        match self {
            DaysInner::Both { month: _, week } => Some(week_fn(week)),
            DaysInner::Week(week) => Some(week_fn(week)),
            _ => None,
        }
    }

    /// Applies `month_fn` to the month-day ring, if the days hold one.
    pub fn query_month<M, U>(&self, month_fn: M) -> (r: Option<U>) where M: Fn(&CopyRing<u8>) -> U
        requires
            *self matches DaysInner::Both { month, .. } ==> call_requires(month_fn, (&month,)),
            *self matches DaysInner::Month(month) ==> call_requires(month_fn, (&month,)),
        ensures
            *self is Week ==> r is None,
            *self matches DaysInner::Both { month, .. } ==> (r matches Some(u) && call_ensures(month_fn, (&month,), u)),
            *self matches DaysInner::Month(month) ==> (r matches Some(u) && call_ensures(month_fn, (&month,), u)),
    {
        match self {
            DaysInner::Both { month, week: _ } => Some(month_fn(month)),
            DaysInner::Month(month) => Some(month_fn(month)),
            _ => None,
        }
    }

    /// Applies `month_fn` to the month-day ring and `week_fn` to the weekday
    /// ring (with its cache), for the rings the days hold.
    pub fn query<M, W, T, U>(&self, month_fn: M, week_fn: W) -> (r: Response<T, U>) where
        M: Fn(&CopyRing<u8>) -> T,
        W: Fn(&(CopyRing<u8>, Option<DayCache>)) -> U,

        requires
            self.spec_month_ring() matches Some(m) ==> call_requires(month_fn, (&m,)),
            *self matches DaysInner::Both { week, .. } ==> call_requires(week_fn, (&week,)),
            *self matches DaysInner::Week(week) ==> call_requires(week_fn, (&week,)),
        ensures
            self.spec_month_ring() is None ==> r.0.0 is None,
            *self is Month ==> r.0.1 is None,
            self.spec_month_ring() matches Some(m) ==> (r.0.0 matches Some(t) && call_ensures(month_fn, (&m,), t)),
            *self matches DaysInner::Both { week, .. } ==> (r.0.1 matches Some(u) && call_ensures(week_fn, (&week,), u)),
            *self matches DaysInner::Week(week) ==> (r.0.1 matches Some(u) && call_ensures(week_fn, (&week,), u)),
    {
        match self {
            DaysInner::Both { month, week } => Response((Some(month_fn(month)), Some(week_fn(week)))),
            DaysInner::Month(month) => Response((Some(month_fn(month)), None)),
            DaysInner::Week(week) => Response((None, Some(week_fn(week)))),
        }
    }

    /// Whether `day` is within a month of `days_in_month` days.
    fn is_within_end_of_month(day: u8, days_in_month: u8) -> (r: bool)
        ensures
            r == (day <= days_in_month),
    {
        day <= days_in_month
    }

    /// The weekday `num_days_to_advance` days after `first_weekday`.
    pub fn next_weekday_from_last(first_weekday: u32, num_days_to_advance: u32) -> (r: u8)
        requires
            first_weekday + num_days_to_advance <= u32::MAX,
        ensures
            r == spec_next_weekday_from_last(first_weekday as int, num_days_to_advance as int),
            r < 7,
    {
        let days_in_a_week: u32 = 7;
        let result = (first_weekday + num_days_to_advance) % days_in_a_week;
        result as u8
    }

    /// The earlier of the month answer and the week answer (see `spec_decide_field`).
    fn decide_field(month_opt: Option<(u8, LastUsed)>, week_opt: Option<(u8, LastUsed)>) -> (r: Option<(u8, LastUsed)>)
        ensures
            r == spec_decide_field(month_opt, week_opt),
    {
        match (month_opt, week_opt) {
            (Some(m), Some(w)) => {
                let (month_day, _) = m;
                let (weekday, _) = w;
                if month_day < weekday {
                    Some(m)
                } else if month_day == weekday {
                    Some((month_day, LastUsed::Both))
                } else {
                    Some(w)
                }
            },
            (Some(m), None) => Some(m),
            (None, Some(w)) => Some(w),
            (None, None) => None,
        }
    }

    /// The cache for the weekday-ring day `day` in `month` of `year` (see
    /// `spec_compute_cache`).
    fn compute_cache(day: (u8, u8), month: u8, year: u32) -> (r: DayCache)
        requires
            spec_compute_cache_safe(day, month, year),
        ensures
            r == spec_compute_cache(day, month, year),
    {
        let days_in_month = crate::days_in_a_month(month, year);
        let (month_day, weekday) = day;
        if month_day > days_in_month {
            let new_day = month_day - days_in_month;
            let (new_month, month_overflow) = {
                let new_month = month + 1;
                if new_month > 12 {
                    (1, true)
                } else {
                    (new_month, false)
                }
            };
            let new_year = year + if month_overflow { 1 } else { 0 };
            DayCache { month_day: new_day, weekday, month: new_month, year: new_year, last: LastUsed::Week }
        } else {
            DayCache { month_day, weekday, month, year, last: LastUsed::Week }
        }
    }
}

impl Months {
    /// The months of `copy_ring`.
    pub fn new(copy_ring: CopyRing<u8>) -> (r: Self)
        ensures
            r.0 == copy_ring,
    {
        Self(copy_ring)
    }

    /// The first month at or after `month` (see `super::first_after`).
    pub fn first_after(&mut self, month: u8) -> (r: (u8, bool))
        requires
            old(self).0.size() > 0,
        ensures
            (r, final(self).0) == super::spec_first_after(old(self).0, false, month),
    {
        super::first_after(&mut self.0, false, month)
    }

    /// The next month, with whether the months wrapped to the first.
    pub fn next(&mut self) -> (r: (u8, bool))
        requires
            old(self).0.size() > 0,
        ensures
            (r, final(self).0) == super::spec_next(old(self).0, true),
    {
        super::next(&mut self.0, true)
    }

    /// The month read last.
    pub fn last(&self) -> (r: u8)
        requires
            self.0.size() > 0,
        ensures
            r == self.0.items()[self.0.back(self.0.pos()) as int],
    {
        self.0.peek_prev().unwrap()
    }

    /// Puts the cursor back on the first month.
    pub fn reset(&mut self)
        ensures
            final(self).0 == old(self).0.spec_reset(),
    {
        self.0.reset()
    }
}

/// The weekday found by the weekday ring's search in `first_after`.
pub open spec fn spec_week_found(ring: CopyRing<u8>, overflow: bool, days_week: u8) -> Option<u8> {
    match ring.spec_reset().spec_search_or_greater(spec_bump(days_week, overflow)).0 {
        Some((day, _)) => Some(day),
        None => None,
    }
}

/// The month answer of `first_after` tagged as given by the month ring.
pub open spec fn spec_tag_month(m: Option<u8>) -> Option<(u8, LastUsed)> {
    match m {
        Some(d) => Some((d, LastUsed::Month)),
        None => None,
    }
}

/// The week answer of `first_after` tagged as given by the weekday ring.
pub open spec fn spec_tag_week(w: Option<u8>) -> Option<(u8, LastUsed)> {
    match w {
        Some(d) => Some((d, LastUsed::Week)),
        None => None,
    }
}

impl DaysInner {
    /// The weekday ring, if the days hold one.
    pub open spec fn spec_week_ring(self) -> Option<CopyRing<u8>> {
        match self {
            DaysInner::Both { week, .. } => Some(week.0),
            DaysInner::Month(_) => None,
            DaysInner::Week(week) => Some(week.0),
        }
    }

    /// Whether `first_after` runs without a panic or an overflow on these values.
    pub open spec fn spec_first_after_safe(self, time_overflow: bool, days_month: u8, days_week: u8, month: u8, year: u32) -> bool {
        &&& 1 <= month <= 12
        &&& !(time_overflow && days_month == 255)
        &&& !(time_overflow && days_week == 255)
        &&& self.spec_week_ring() matches Some(w) ==> {
            &&& w.size() > 0
            &&& days_month + spec_num_weekdays_since(
                days_week as int,
                spec_week_found(w, time_overflow, days_week).unwrap() as int,
            ) <= u8::MAX
            &&& spec_compute_cache_safe(spec_week_part(w, time_overflow, days_month, days_week).0.unwrap(), month, year)
        }
    }

    /// The day found by `first_after` and the days after it.
    pub open spec fn spec_first_after(self, time_overflow: bool, days_month: u8, days_week: u8, month: u8, year: u32) -> (
        Option<u8>,
        Self,
    ) {
        let dim = crate::spec_days_in_month(month as int, year as int) as u8;
        match self {
            DaysInner::Month(r) => {
                let (m, r1) = spec_month_part(r, time_overflow, days_month, dim);
                (m, DaysInner::Month(r1))
            },
            DaysInner::Week(week) => {
                let (w, r1) = spec_week_part(week.0, time_overflow, days_month, days_week);
                let cache = spec_compute_cache(w.unwrap(), month, year);
                match spec_week_day_within(w, dim) {
                    Some(d) => (Some(d), DaysInner::Week((r1, Some(spec_with_last(cache, LastUsed::Week))))),
                    None => (None, DaysInner::Week((r1, Some(cache)))),
                }
            },
            DaysInner::Both { month: mr, week } => {
                let (m, mr1) = spec_month_part(mr, time_overflow, days_month, dim);
                let (w, wr1) = spec_week_part(week.0, time_overflow, days_month, days_week);
                let cache = spec_compute_cache(w.unwrap(), month, year);
                match spec_decide_field(spec_tag_month(m), spec_tag_week(spec_week_day_within(w, dim))) {
                    Some((d, lu)) => (
                        Some(d),
                        DaysInner::Both { month: mr1, week: (wr1, Some(spec_with_last(cache, lu))) },
                    ),
                    None => (None, DaysInner::Both { month: mr1, week: (wr1, Some(cache)) }),
                }
            },
        }
    }

    fn month_part(ring: &mut CopyRing<u8>, overflow: bool, days_month: u8, days_in_month: u8) -> (r: Option<u8>)
        requires
            !(overflow && days_month == 255),
        ensures
            (r, *final(ring)) == spec_month_part(*old(ring), overflow, days_month, days_in_month),
    {
        ring.reset();
        let bound = days_month + if overflow { 1 } else { 0 };
        match ring.binary_search_or_greater(&bound) {
            Some((day, false)) => if Self::is_within_end_of_month(day, days_in_month) {
                Some(day)
            } else {
                None
            },
            _ => None,
        }
    }

    fn week_part(ring: &mut CopyRing<u8>, overflow: bool, days_month: u8, days_week: u8) -> (r: Option<(u8, u8)>)
        requires
            !(overflow && days_week == 255),
            old(ring).size() > 0 ==> days_month + spec_num_weekdays_since(
                days_week as int,
                spec_week_found(*old(ring), overflow, days_week).unwrap() as int,
            ) <= u8::MAX,
        ensures
            (r, *final(ring)) == spec_week_part(*old(ring), overflow, days_month, days_week),
    {
        ring.reset();
        let bound = days_week + if overflow { 1 } else { 0 };
        match ring.binary_search_or_greater(&bound) {
            Some((day, _)) => {
                let day_of_month = days_month + Self::num_weekdays_since(days_week as i16, day as i16);
                Some((day_of_month, day))
            },
            None => None,
        }
    }

    /// Finds the first allowed day at or after day `days_month` (weekday
    /// `days_week`) of `month` of `year`, or after it when the time wrapped.
    ///
    /// The month-day ring gives its first day at or after that day, when no
    /// wrap was needed and it is within the month. The weekday ring gives its
    /// first weekday at or after that weekday (else its first weekday), as
    /// the day of the month it falls on; the cache is set from it, and the
    /// day is kept when within the month. When both rings hold, the earlier
    /// day wins, and the cache records which ring gave it.
    pub fn first_after(&mut self, time_overflow: bool, days_month: u8, days_week: u8, month: u8, year: u32) -> (r:
        Option<u8>)
        requires
            old(self).spec_first_after_safe(time_overflow, days_month, days_week, month, year),
        ensures
            (r, *final(self)) == old(self).spec_first_after(time_overflow, days_month, days_week, month, year),
    {
        let days_in_month = crate::days_in_a_month(month, year);
        match self {
            DaysInner::Month(ring) => Self::month_part(ring, time_overflow, days_month, days_in_month),
            DaysInner::Week((ring, cache)) => {
                let w = Self::week_part(ring, time_overflow, days_month, days_week);
                let weekday = w.unwrap();
                let mut c = Self::compute_cache(weekday, month, year);
                let (day, _) = weekday;
                if Self::is_within_end_of_month(day, days_in_month) {
                    c.last = LastUsed::Week;
                    *cache = Some(c);
                    Some(day)
                } else {
                    *cache = Some(c);
                    None
                }
            },
            DaysInner::Both { month: month_ring, week: (week_ring, cache) } => {
                let m = Self::month_part(month_ring, time_overflow, days_month, days_in_month);
                let w = Self::week_part(week_ring, time_overflow, days_month, days_week);
                let weekday = w.unwrap();
                let mut c = Self::compute_cache(weekday, month, year);
                let (day, _) = weekday;
                let week_opt = if Self::is_within_end_of_month(day, days_in_month) {
                    Some((day, LastUsed::Week))
                } else {
                    None
                };
                let month_opt = match m {
                    Some(d) => Some((d, LastUsed::Month)),
                    None => None,
                };
                match Self::decide_field(month_opt, week_opt) {
                    Some((d, last_used)) => {
                        c.last = last_used;
                        *cache = Some(c);
                        Some(d)
                    },
                    None => {
                        *cache = Some(c);
                        None
                    },
                }
            },
        }
    }
}

/// Which rings `next` moves forward, by the ring that gave the last day:
/// (month-day ring, weekday ring). Without a cache only the month-day ring.
pub open spec fn spec_next_flags(cache: Option<DayCache>) -> (bool, bool) {
    match cache {
        Some(c) => match c.last {
            LastUsed::Week => (false, true),
            LastUsed::Month => (true, false),
            LastUsed::Both => (true, true),
        },
        None => (true, false),
    }
}

/// The month-day ring's answer in `next` and the ring after it.
pub open spec fn spec_next_month_part(ring: CopyRing<u8>, overflow: bool, days_in_month: u8) -> (Option<u8>, CopyRing<u8>) {
    let ((day, ov), r1) = super::spec_next(ring, overflow);
    if !ov && day <= days_in_month {
        (Some(day), r1)
    } else {
        (None, r1)
    }
}

/// The weekday ring's answer in `next` (the day of the month the next
/// weekday falls on, counted from the cached day, with the weekday) and the
/// ring after it.
pub open spec fn spec_next_week_part(ring: CopyRing<u8>, cache: DayCache, overflow: bool, days_in_month: u8) -> (
    Option<(u8, u8)>,
    CopyRing<u8>,
) {
    let ((day, _), r1) = super::spec_next(ring, overflow);
    let dom = cache.month_day + spec_num_weekdays_since(cache.weekday as int, day as int);
    if dom <= days_in_month {
        (Some((dom as u8, day)), r1)
    } else {
        (None, r1)
    }
}

impl DaysInner {
    /// Whether `next` runs without a panic or an overflow.
    pub open spec fn spec_next_safe(self) -> bool {
        let (mo, wo) = spec_next_flags(self.spec_cache());
        &&& self.spec_month_ring() matches Some(m) ==> m.size() > 0
        &&& self.spec_week_ring() matches Some(w) ==> {
            &&& w.size() > 0
            &&& self.spec_cache() is Some
            &&& self.spec_cache().unwrap().month_day + spec_num_weekdays_since(
                self.spec_cache().unwrap().weekday as int,
                super::spec_next(w, wo).0.0 as int,
            ) <= u8::MAX
        }
    }

    /// The answers of `next` and the days after it.
    pub open spec fn spec_next(self, days_in_month: u8) -> (Response<Option<u8>, Option<(u8, u8)>>, Self) {
        let (mo, wo) = spec_next_flags(self.spec_cache());
        match self {
            DaysInner::Both { month, week } => {
                let (m, m1) = spec_next_month_part(month, mo, days_in_month);
                let (w, w1) = spec_next_week_part(week.0, week.1.unwrap(), wo, days_in_month);
                (Response((Some(m), Some(w))), DaysInner::Both { month: m1, week: (w1, week.1) })
            },
            DaysInner::Month(month) => {
                let (m, m1) = spec_next_month_part(month, mo, days_in_month);
                (Response((Some(m), None)), DaysInner::Month(m1))
            },
            DaysInner::Week(week) => {
                let (w, w1) = spec_next_week_part(week.0, week.1.unwrap(), wo, days_in_month);
                (Response((None, Some(w))), DaysInner::Week((w1, week.1)))
            },
        }
    }

    fn next_month_part(ring: &mut CopyRing<u8>, overflow: bool, days_in_month: u8) -> (r: Option<u8>)
        requires
            old(ring).size() > 0,
        ensures
            (r, *final(ring)) == spec_next_month_part(*old(ring), overflow, days_in_month),
    {
        let (day, ov) = super::next(ring, overflow);
        if !ov && Self::is_within_end_of_month(day, days_in_month) {
            Some(day)
        } else {
            None
        }
    }

    fn next_week_part(ring: &mut CopyRing<u8>, cache: DayCache, overflow: bool, days_in_month: u8) -> (r: Option<(u8, u8)>)
        requires
            old(ring).size() > 0,
            cache.month_day + spec_num_weekdays_since(
                cache.weekday as int,
                super::spec_next(*old(ring), overflow).0.0 as int,
            ) <= u8::MAX,
        ensures
            (r, *final(ring)) == spec_next_week_part(*old(ring), cache, overflow, days_in_month),
    {
        let (day, _) = super::next(ring, overflow);
        let last_month_day = cache.month_day;
        let last_weekday = cache.weekday;
        let day_of_month = last_month_day + Self::num_weekdays_since(last_weekday as i16, day as i16);
        if Self::is_within_end_of_month(day_of_month, days_in_month) {
            Some((day_of_month, day))
        } else {
            None
        }
    }

    /// Returns the next days in the struct with an indication as to
    /// which internal buffer provided which day. Unlike `first_after`,
    /// however, this function assumes there was overflow, and will attempt
    /// to rotate the internal buffers to their next items.
    pub fn next(&mut self, days_in_month: u8) -> (r: Response<Option<u8>, Option<(u8, u8)>>)
        requires
            old(self).spec_next_safe(),
        ensures
            (r, *final(self)) == old(self).spec_next(days_in_month),
    {
        let (month_overflow, week_overflow) = if let Some(cache) = self.cache() {
            match cache.last {
                LastUsed::Week => (false, true),
                LastUsed::Month => (true, false),
                LastUsed::Both => (true, true),
            }
        } else {
            (true, false)
        };
        match self {
            DaysInner::Both { month, week: (week_ring, cache) } => {
                let m = Self::next_month_part(month, month_overflow, days_in_month);
                let c = cache.unwrap();
                let w = Self::next_week_part(week_ring, c, week_overflow, days_in_month);
                Response((Some(m), Some(w)))
            },
            DaysInner::Month(month) => {
                let m = Self::next_month_part(month, month_overflow, days_in_month);
                Response((Some(m), None))
            },
            DaysInner::Week((week_ring, cache)) => {
                let c = cache.unwrap();
                let w = Self::next_week_part(week_ring, c, week_overflow, days_in_month);
                Response((None, Some(w)))
            },
        }
    }
}

/// The day `DaysInner::first_after` finds is not before `days_month`, and
/// comes after it when the time wrapped to the next day. One case breaks
/// this and is left out: with the time wrapped, a weekday ring whose search
/// wraps around to `days_week` itself counts no days forward and gives
/// `days_month` again, the same day rather than a week later.
pub proof fn law_first_after_day_not_before(
    days: DaysInner,
    time_overflow: bool,
    days_month: u8,
    days_week: u8,
    month: u8,
    year: u32,
)
    requires
        days.spec_first_after_safe(time_overflow, days_month, days_week, month, year),
        days_week < 7,
        days.spec_week_ring() matches Some(w) ==> forall|i: int| 0 <= i < w.size() ==> #[trigger] w.items()[i] < 7,
        time_overflow && days.spec_week_ring() is Some ==> spec_week_found(
            days.spec_week_ring().unwrap(),
            true,
            days_week,
        ) != Some(days_week),
    ensures
        days.spec_first_after(time_overflow, days_month, days_week, month, year).0 matches Some(d) ==> d
            >= days_month + if time_overflow {
            1int
        } else {
            0int
        },
{
    let dim = crate::spec_days_in_month(month as int, year as int) as u8;
    let bm = spec_bump(days_month, time_overflow);
    let bw = spec_bump(days_week, time_overflow);
    match days {
        DaysInner::Month(r) => {
            crate::collection::copy_ring::lemma_scan_bounds(r.spec_reset().items(), 0, bm, false);
        },
        DaysInner::Week(week) => {
            let w = week.0;
            crate::collection::copy_ring::lemma_scan_bounds(w.spec_reset().items(), 0, bw, false);
            lemma_week_part_not_before(w, time_overflow, days_month, days_week);
        },
        DaysInner::Both { month: mr, week } => {
            crate::collection::copy_ring::lemma_scan_bounds(mr.spec_reset().items(), 0, bm, false);
            lemma_week_part_not_before(week.0, time_overflow, days_month, days_week);
        },
    }
}

/// The day of the month the weekday ring gives in `first_after` is not
/// before `days_month`, and after it when the time wrapped, unless the
/// search came back to `days_week` itself.
proof fn lemma_week_part_not_before(w: CopyRing<u8>, time_overflow: bool, days_month: u8, days_week: u8)
    requires
        w.size() > 0,
        days_week < 7,
        !(time_overflow && days_week == 255),
        forall|i: int| 0 <= i < w.size() ==> #[trigger] w.items()[i] < 7,
        days_month + spec_num_weekdays_since(days_week as int, spec_week_found(w, time_overflow, days_week).unwrap() as int)
            <= u8::MAX,
        time_overflow ==> spec_week_found(w, true, days_week) != Some(days_week),
    ensures
        spec_week_part(w, time_overflow, days_month, days_week).0 matches Some((d, _)) ==> d >= days_month
            + if time_overflow {
            1int
        } else {
            0int
        },
{
    let bw = spec_bump(days_week, time_overflow);
    let r0 = w.spec_reset();
    crate::collection::copy_ring::lemma_scan_bounds(r0.items(), 0, bw, false);
    let j = crate::collection::copy_ring::spec_scan(r0.items(), 0, bw, false);
    let wd: u8 = if j < r0.size() { r0.items()[j] } else { r0.items()[0] };
    assert(r0.items() == w.items());
    assert(wd < 7);
    assert(spec_week_found(w, time_overflow, days_week) == Some(wd));
    let n = wd as int + 7 - days_week as int;
    assert(1 <= n || wd == days_week);
    assert(spec_num_weekdays_since(days_week as int, wd as int) == (n % 7) as u8);
    if time_overflow {
        assert(wd != days_week);
        assert(n % 7 >= 1);
    }
}

} // verus!
