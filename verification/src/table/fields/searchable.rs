//! When the date search of `Date::first_after` runs without a panic: for a
//! date half whose months lie in 1 to 12 and whose weekdays lie below 7,
//! from a real date, the search stops within its four-year horizon with
//! every round safe.
use vstd::prelude::*;

use super::date::{spec_num_weekdays_since, spec_week_found, DaysInner};
use super::{
    spec_run, Cache, spec_days_until, spec_months_passed_exclusive, spec_next_year, spec_round_month, spec_run_ok, spec_step,
    spec_step_safe, Date, Search,
};
use crate::schedule::table::fields::{spec_leap_count, spec_sum_month_days};
use crate::CopyRing;

verus! {

broadcast use crate::collection::copy_ring::group_ring_set;

/// Whether the date half `d` can search from a date of year `sy`: its
/// months lie in 1 to 12, its weekday ring (if any) holds values below 7
/// and is not empty, and the year it reached (if any) is not before `sy`.
pub open spec fn spec_date_searchable(d: Date, sy: u32) -> bool {
    &&& d.months.0.size() > 0
    &&& forall|i: int| 0 <= i < d.months.0.size() ==> 1 <= #[trigger] d.months.0.items()[i] <= 12
    &&& d.days.0.spec_week_ring() matches Some(w) ==> w.size() > 0 && forall|i: int|
        0 <= i < w.size() ==> #[trigger] w.items()[i] < 7
    &&& d.year matches Some(y) ==> y >= sy
}

/// Whether day `dm` (weekday `dw`) of month `sm` of year `sy` is a date of
/// a year from 1 to the last year of a calendar date.
pub open spec fn spec_start_valid(dm: u8, dw: u8, sm: u8, sy: u32) -> bool {
    &&& 1 <= sm <= 12
    &&& 1 <= sy <= crate::clock::MAX_YEAR
    &&& 1 <= dm <= crate::spec_days_in_month(sm as int, sy as int)
    &&& dw < 7
}

/// The days of the months added up are at most 31 a month.
proof fn lemma_sum_month_days_bound(sm: int, n: int)
    ensures
        0 <= spec_sum_month_days(sm, n) <= 31 * (if n > 0 { n } else { 0 }),
    decreases n,
{
    if n > 0 {
        lemma_sum_month_days_bound(sm, n - 1);
    }
}

/// There are at most as many leap years as years.
proof fn lemma_leap_count_bound(lo: int, hi: int)
    ensures
        0 <= spec_leap_count(lo, hi) <= (if hi > lo { hi - lo } else { 0 }),
    decreases hi - lo,
{
    if hi > lo {
        lemma_leap_count_bound(lo, hi - 1);
    }
}

/// What a state of the search keeps of the date half `d` it started from
/// (with the time wrap `tov0`), while nothing was found.
pub open spec fn spec_searching(s: Search, d: Date, sy: u32, tov0: bool) -> bool {
    &&& s.found is None
    &&& s.date.months.0.items() == d.months.0.items()
    &&& crate::collection::copy_ring::spec_valid(s.date.months.0)
    &&& (s.date.days.0.spec_week_ring() is Some) == (d.days.0.spec_week_ring() is Some)
    &&& s.date.days.0.spec_week_ring() matches Some(w) ==> w.items() == d.days.0.spec_week_ring().unwrap().items()
    &&& s.first_run ==> s == d.spec_search_start(tov0)
    &&& !s.first_run ==> s.date.months.0.started() && s.date.year is Some
    &&& s.date.year matches Some(y) ==> y >= sy
}

/// The month a round reads is a month of the ring, and the ring after it
/// keeps its buffer, with its cursor within it and started.
proof fn lemma_round_month(s: Search, sm: u8)
    requires
        s.date.months.0.size() > 0,
        crate::collection::copy_ring::spec_valid(s.date.months.0),
    ensures
        ({
            let ((month, yov), ring) = spec_round_month(s, sm);
            &&& s.date.months.0.items().contains(month)
            &&& ring.items() == s.date.months.0.items()
            &&& crate::collection::copy_ring::spec_valid(ring)
            &&& ring.started()
            &&& !s.first_run ==> month == s.date.months.0.items()[s.date.months.0.pos() as int]
            &&& !s.first_run ==> ring.pos() == s.date.months.0.step(s.date.months.0.pos())
            &&& !s.first_run ==> yov == (s.date.months.0.started() && s.date.months.0.pos() == 0)
        }),
{
    let r = s.date.months.0;
    if s.first_run {
        super::lemma_first_after_value(r, false, sm);
        crate::collection::copy_ring::lemma_scan_bounds(r.items(), 0, sm, false);
        let j = crate::collection::copy_ring::spec_scan(r.items(), 0, sm, false);
        if j < r.size() {
            r.lemma_spec_set(r.step(j as nat), true);
        } else {
            let r0 = r.spec_search_or_greater(sm).1;
            r0.lemma_spec_set(0, false);
            let r1 = r0.spec_reset();
            r1.lemma_spec_set(r1.step(0), true);
        }
    } else {
        r.lemma_spec_set(r.step(r.pos()), true);
    }
}

/// The weekday ring's search finds one of its weekdays.
proof fn lemma_week_found(w: CopyRing<u8>, overflow: bool, dw: u8)
    requires
        w.size() > 0,
        forall|i: int| 0 <= i < w.size() ==> #[trigger] w.items()[i] < 7,
    ensures
        spec_week_found(w, overflow, dw) matches Some(v) && v < 7,
{
    let r0 = w.spec_reset();
    let b = super::date::spec_bump(dw, overflow);
    crate::collection::copy_ring::lemma_scan_bounds(r0.items(), 0, b, false);
    let j = crate::collection::copy_ring::spec_scan(r0.items(), 0, b, false);
    if j < w.size() {
        assert(w.items()[j] < 7);
    } else {
        assert(w.items()[0] < 7);
    }
}

/// Every round of the search from a state that keeps what
/// `spec_searching` asks, before the horizon, is safe.
proof fn lemma_step_safe(s: Search, d: Date, dm: u8, dw: u8, sm: u8, sy: u32, tov0: bool)
    requires
        spec_searching(s, d, sy, tov0),
        spec_date_searchable(d, sy),
        spec_start_valid(dm, dw, sm, sy),
        !s.date.spec_at_year_limit(sy),
    ensures
        spec_step_safe(s, dm, dw, sm, sy),
{
    lemma_round_month(s, sm);
    let ((month, yov), months_ring) = spec_round_month(s, sm);
    let k = choose|k: int| 0 <= k < s.date.months.0.items().len() && s.date.months.0.items()[k] == month;
    assert(1 <= d.months.0.items()[k] <= 12);
    let year = spec_next_year(s.date.year, yov, sy);
    assert(sy <= year <= sy + 4);
    let changed = month != sm || year != sy;
    let days_until = spec_days_until(year, month as int, sy as int, sm as int, dm as int);
    if changed {
        let mp = spec_months_passed_exclusive(year, month as int, sy as int, sm as int);
        assert(0 <= mp <= 60);
        lemma_sum_month_days_bound(sm as int, mp);
        lemma_leap_count_bound(sy + 1, year);
        assert(0 <= days_until <= 31 * 60 + 4 + 31);
    }
    let new_dw: u8 = if changed {
        super::date::spec_next_weekday_from_last(dw as int, days_until)
    } else {
        dw
    };
    let new_dm: u8 = if changed { 1 } else { dm };
    let tov = if changed { false } else { s.time_overflow };
    assert(new_dw < 7);
    assert(new_dm <= 31);
    if let Some(w) = s.date.days.0.spec_week_ring() {
        let w0 = d.days.0.spec_week_ring().unwrap();
        assert(w.size() == w0.size());
        assert forall|i: int| 0 <= i < w.size() implies #[trigger] w.items()[i] < 7 by {
            assert(w0.items()[i] < 7);
        }
        lemma_week_found(w, tov, new_dw);
        let v = spec_week_found(w, tov, new_dw).unwrap();
        assert(spec_num_weekdays_since(new_dw as int, v as int) <= 6);
    }
}

/// The rounds the search has left at most from a state after its first
/// round: a full turn of the months ring for each year left before the
/// horizon, and the rest of the current turn.
pub open spec fn spec_rounds_left(s: Search, sy: u32) -> int {
    let n = s.date.months.0.size() as int;
    let p = s.date.months.0.pos() as int;
    (sy + 3 - s.date.year.unwrap()) * n + (if p == 0 { 1 } else { n - p + 1 })
}

/// The weekday ring of the days is kept, with its buffer, by their search.
proof fn lemma_week_ring_kept(days: DaysInner, tov: bool, dm: u8, dw: u8, month: u8, year: u32)
    ensures
        ({
            let days2 = days.spec_first_after(tov, dm, dw, month, year).1;
            &&& (days2.spec_week_ring() is Some) == (days.spec_week_ring() is Some)
            &&& days2.spec_week_ring() matches Some(w2) ==> w2.items() == days.spec_week_ring().unwrap().items()
        }),
{
    if let Some(w) = days.spec_week_ring() {
        let r0 = w.spec_reset();
        let b = super::date::spec_bump(dw, tov);
        crate::collection::copy_ring::lemma_scan_bounds(r0.items(), 0, b, false);
        let j = crate::collection::copy_ring::spec_scan(r0.items(), 0, b, false);
        if w.size() > 0 {
            if j < w.size() {
                r0.lemma_spec_set(r0.step(j as nat), true);
            } else {
                r0.lemma_spec_set(r0.step(0), true);
            }
        }
    }
}

/// A round that finds nothing leads to a state that keeps what
/// `spec_searching` asks, after the first round, with fewer rounds left.
proof fn lemma_step_searching(s: Search, d: Date, dm: u8, dw: u8, sm: u8, sy: u32, tov0: bool)
    requires
        spec_searching(s, d, sy, tov0),
        spec_date_searchable(d, sy),
        spec_start_valid(dm, dw, sm, sy),
        !s.date.spec_at_year_limit(sy),
    ensures
        spec_step(s, dm, dw, sm, sy).found is None ==> {
            let s2 = spec_step(s, dm, dw, sm, sy);
            &&& spec_searching(s2, d, sy, tov0)
            &&& !s2.first_run
            &&& !s.first_run && !s2.date.spec_at_year_limit(sy) ==> spec_rounds_left(s2, sy) < spec_rounds_left(s, sy)
        },
{
    lemma_round_month(s, sm);
    let ((month, yov), months_ring) = spec_round_month(s, sm);
    let year = spec_next_year(s.date.year, yov, sy);
    let changed = month != sm || year != sy;
    let days_until = spec_days_until(year, month as int, sy as int, sm as int, dm as int);
    let new_dw: u8 = if changed {
        super::date::spec_next_weekday_from_last(dw as int, days_until)
    } else {
        dw
    };
    let new_dm: u8 = if changed { 1 } else { dm };
    let tov = if changed { false } else { s.time_overflow };
    lemma_week_ring_kept(s.date.days.0, tov, new_dm, new_dw, month, year as u32);
    let s2 = spec_step(s, dm, dw, sm, sy);
    if s2.found is None && !s.first_run && !s2.date.spec_at_year_limit(sy) {
        let n = s.date.months.0.size() as int;
        let p = s.date.months.0.pos() as int;
        let y = s.date.year.unwrap() as int;
        let a = sy + 3 - y;
        if p == 0 {
            assert((a - 1) * n == a * n - n) by (nonlinear_arith);
        }
    }
}

/// From a state after the first round, the search stops safely within the
/// rounds it has left.
proof fn lemma_run_ok_from(s: Search, d: Date, dm: u8, dw: u8, sm: u8, sy: u32, tov0: bool, n: nat)
    requires
        spec_searching(s, d, sy, tov0),
        !s.first_run,
        spec_date_searchable(d, sy),
        spec_start_valid(dm, dw, sm, sy),
        !s.date.spec_at_year_limit(sy) ==> spec_rounds_left(s, sy) <= n,
    ensures
        spec_run_ok(s, dm, dw, sm, sy, n),
    decreases n,
{
    if !s.date.spec_at_year_limit(sy) {
        let y = s.date.year.unwrap() as int;
        let size = s.date.months.0.size() as int;
        assert((sy + 3 - y) * size >= 0) by (nonlinear_arith)
            requires
                sy + 3 - y >= 0,
                size >= 0,
        ;
        lemma_step_safe(s, d, dm, dw, sm, sy, tov0);
        lemma_step_searching(s, d, dm, dw, sm, sy, tov0);
        let s2 = spec_step(s, dm, dw, sm, sy);
        assert(n >= 1);
        if s2.found is None {
            lemma_run_ok_from(s2, d, dm, dw, sm, sy, tov0, (n - 1) as nat);
        } else {
            assert(spec_run_ok(s2, dm, dw, sm, sy, (n - 1) as nat));
        }
        assert(s.date.year matches Some(y) && y >= sy);
        assert(spec_run_ok(s, dm, dw, sm, sy, n));
    }
}

/// From a real date, and a date half whose months lie in 1 to 12 and
/// whose weekdays lie below 7 (with a year reached, if any, not before the
/// date's), `Date::first_after` runs without a panic.
pub proof fn lemma_first_after_ok(d: Date, tov: bool, dm: u8, dw: u8, sm: u8, sy: u32)
    requires
        spec_date_searchable(d, sy),
        spec_start_valid(dm, dw, sm, sy),
    ensures
        d.spec_first_after_ok(tov, dm, dw, sm, sy),
{
    let s0 = d.spec_search_start(tov);
    d.months.0.lemma_spec_set(0, false);
    assert(spec_searching(s0, d, sy, tov));
    if s0.date.spec_at_year_limit(sy) {
        assert(spec_run_ok(s0, dm, dw, sm, sy, 0));
    } else {
        lemma_step_safe(s0, d, dm, dw, sm, sy, tov);
        lemma_step_searching(s0, d, dm, dw, sm, sy, tov);
        let s1 = spec_step(s0, dm, dw, sm, sy);
        if s1.found is Some {
            assert(spec_run_ok(s1, dm, dw, sm, sy, 0));
            assert(spec_run_ok(s0, dm, dw, sm, sy, 1));
        } else {
            let k: nat = if s1.date.spec_at_year_limit(sy) {
                0
            } else {
                let y = s1.date.year.unwrap() as int;
                let size = s1.date.months.0.size() as int;
                assert((sy + 3 - y) * size >= 0) by (nonlinear_arith)
                    requires
                        sy + 3 - y >= 0,
                        size >= 0,
                ;
                spec_rounds_left(s1, sy) as nat
            };
            lemma_run_ok_from(s1, d, dm, dw, sm, sy, tov, k);
            assert(spec_run_ok(s0, dm, dw, sm, sy, k + 1));
        }
    }
}

/// Whether every value of `ring` lies between `lo` and `hi`.
pub open spec fn spec_all_within(ring: CopyRing<u8>, lo: u8, hi: u8) -> bool {
    forall|i: int| 0 <= i < ring.size() ==> lo <= #[trigger] ring.items()[i] <= hi
}

/// Whether every value of `ring` lies between `lo` and `hi`.
pub fn all_within(ring: &CopyRing<u8>, lo: u8, hi: u8) -> (r: bool)
    ensures
        r == spec_all_within(*ring, lo, hi),
{
    let n = ring.period();
    let mut i: usize = 0;
    while i < n
        invariant
            n == ring.size(),
            i <= n,
            forall|k: int| 0 <= k < i ==> lo <= #[trigger] ring.items()[k] <= hi,
        decreases n - i,
    {
        match ring.get(i) {
            Some(v) => {
                if v < lo || v > hi {
                    return false;
                }
            },
            None => {},
        }
        i = i + 1;
    }
    true
}

/// Whether the date half `d` can search from a date of year `sy` (see
/// `spec_date_searchable`).
pub fn date_searchable(d: &Date, sy: u32) -> (r: bool)
    ensures
        r == spec_date_searchable(*d, sy),
{
    if d.months.0.is_empty() || !all_within(&d.months.0, 1, 12) {
        return false;
    }
    let week_ok = match &d.days.0 {
        DaysInner::Both { week, .. } => !week.0.is_empty() && all_within(&week.0, 0, 6),
        DaysInner::Month(_) => true,
        DaysInner::Week(week) => !week.0.is_empty() && all_within(&week.0, 0, 6),
    };
    if !week_ok {
        return false;
    }
    match d.year {
        Some(y) => y >= sy,
        None => true,
    }
}

/// Whether the found date `c` is a day of its month.
pub open spec fn spec_real_day(c: Cache) -> bool {
    1 <= c.day <= crate::spec_days_in_month(c.month as int, c.year as int)
}

/// A safe search of the days from day `dm` (1 or later) finds a day of the
/// month.
proof fn lemma_days_real(days: DaysInner, tov: bool, dm: u8, dw: u8, month: u8, year: u32)
    requires
        days.spec_first_after_safe(tov, dm, dw, month, year),
        dm >= 1,
    ensures
        days.spec_first_after(tov, dm, dw, month, year).0 matches Some(day) ==> 1 <= day
            <= crate::spec_days_in_month(month as int, year as int),
{
    let b = super::date::spec_bump(dm, tov);
    assert(b >= 1);
    match days {
        DaysInner::Month(m) => {
            crate::collection::copy_ring::lemma_scan_bounds(m.spec_reset().items(), 0, b, false);
        },
        DaysInner::Both { month: m, week } => {
            crate::collection::copy_ring::lemma_scan_bounds(m.spec_reset().items(), 0, b, false);
        },
        DaysInner::Week(_) => {},
    }
}

/// A safe round from a day not before the first finds a day of its month.
proof fn lemma_step_real_day(s: Search, dm: u8, dw: u8, sm: u8, sy: u32)
    requires
        spec_step_safe(s, dm, dw, sm, sy),
        s.found is None,
        dm >= 1,
    ensures
        spec_step(s, dm, dw, sm, sy).found matches Some(c) ==> spec_real_day(c),
{
    let ((month, yov), months_ring) = spec_round_month(s, sm);
    let year = spec_next_year(s.date.year, yov, sy);
    let changed = month != sm || year != sy;
    let days_until = spec_days_until(year, month as int, sy as int, sm as int, dm as int);
    let new_dw: u8 = if changed {
        super::date::spec_next_weekday_from_last(dw as int, days_until)
    } else {
        dw
    };
    let new_dm: u8 = if changed { 1 } else { dm };
    let tov = if changed { false } else { s.time_overflow };
    lemma_days_real(s.date.days.0, tov, new_dm, new_dw, month, year as u32);
}

/// From a state whose found date (if any) is a day of its month, the
/// search keeps that to where it stops.
proof fn lemma_run_real_day(s: Search, dm: u8, dw: u8, sm: u8, sy: u32, n: nat)
    requires
        spec_run_ok(s, dm, dw, sm, sy, n),
        s.found matches Some(c) ==> spec_real_day(c),
        dm >= 1,
    ensures
        spec_run(s, dm, dw, sm, sy, n).found matches Some(c) ==> spec_real_day(c),
    decreases n,
{
    if !(s.found is Some || s.date.spec_at_year_limit(sy) || n == 0) {
        lemma_step_real_day(s, dm, dw, sm, sy);
        lemma_run_real_day(spec_step(s, dm, dw, sm, sy), dm, dw, sm, sy, (n - 1) as nat);
    }
}

/// The date `Date::first_after` finds from a day of the month 1 or later is
/// a day of its month (from 1 to the month's last day), so it always names
/// a calendar date within the year range of one.
pub proof fn law_date_first_after_real_day(d: Date, tov: bool, dm: u8, dw: u8, sm: u8, sy: u32)
    requires
        d.spec_first_after_ok(tov, dm, dw, sm, sy),
        dm >= 1,
    ensures
        d.spec_first_after_end(tov, dm, dw, sm, sy).found matches Some(c) ==> spec_real_day(c),
{
    let s0 = d.spec_search_start(tov);
    let n = choose|n: nat| spec_run_ok(s0, dm, dw, sm, sy, n);
    lemma_run_real_day(s0, dm, dw, sm, sy, n);
}

} // verus!
