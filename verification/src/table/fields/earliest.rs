//! The date `Date::first_after` finds is the earliest allowed date at or
//! after its start, when the days are given by the days of the month alone.
use vstd::prelude::*;

use super::date::{spec_bump, DaysInner};
use super::{lemma_round_month_order, spec_keeps_order, spec_next_year, spec_round_month, spec_run, spec_run_ok, spec_step, spec_step_safe, Date, Search};
use crate::collection::copy_ring::{lemma_scan_bounds, spec_scan};

verus! {

broadcast use crate::collection::copy_ring::group_ring_set;

/// Whether the date `(year, month, day)` is at or before `(y2, m2, d2)`.
pub open spec fn spec_date_le(year: int, month: int, day: int, y2: int, m2: int, d2: int) -> bool {
    ||| year < y2
    ||| year == y2 && month < m2
    ||| year == y2 && month == m2 && day <= d2
}

/// Whether day `day` of month `month` of `year` exists and is allowed by the
/// date half `d`: its month is one of the months of the ring and its day one
/// of the days of the month-day ring.
pub open spec fn spec_allowed(d: Date, day: int, month: int, year: int) -> bool {
    &&& 1 <= month <= 12
    &&& 1 <= day <= crate::spec_days_in_month(month, year)
    &&& d.months.0.items().contains(month as u8)
    &&& d.days.0.spec_month_ring() matches Some(m) && m.items().contains(day as u8)
}

/// Whether the date `(year, month, day)` is at or after day `dm` of month
/// `sm` of `sy`, and after it when `strict`.
pub open spec fn spec_from_start(year: int, month: int, day: int, dm: u8, sm: u8, sy: u32, strict: bool) -> bool {
    spec_date_le(sy as int, sm as int, dm + if strict { 1int } else { 0int }, year, month, day)
}

/// Whether the buffer of a ring of `u8` is in strictly increasing order.
pub open spec fn spec_increasing(items: Seq<u8>) -> bool {
    forall|i: int, j: int| 0 <= i < j < items.len() ==> items[i] < items[j]
}

/// What a search state keeps toward the earliest date: its days are the
/// days of the month of `d`; after a round with nothing found, every allowed
/// date from the start lies in a later month than the month read last (of
/// the year reached); a date found is allowed and no allowed date from the
/// start comes before it.
spec fn spec_keeps_earliest(s: Search, d: Date, tov0: bool, dm: u8, sm: u8, sy: u32) -> bool {
    &&& s.date.days.0 matches DaysInner::Month(m2) && m2.items() == d.days.0.spec_month_ring().unwrap().items()
    &&& !s.first_run && s.found is None ==> {
        let y = s.date.year.unwrap() as int;
        let mo = s.date.months.0.items()[s.date.months.0.back(s.date.months.0.pos()) as int] as int;
        forall|year: int, month: int, day: int|
            #![trigger spec_allowed(d, day, month, year)]
            spec_allowed(d, day, month, year) && spec_from_start(year, month, day, dm, sm, sy, tov0) ==> (year > y
                || (year == y && month > mo))
    }
    &&& s.found matches Some(c) ==> {
        &&& spec_allowed(d, c.day as int, c.month as int, c.year as int)
        &&& forall|year: int, month: int, day: int|
            #![trigger spec_allowed(d, day, month, year)]
            spec_allowed(d, day, month, year) && spec_from_start(year, month, day, dm, sm, sy, tov0) ==> spec_date_le(
                c.year as int,
                c.month as int,
                c.day as int,
                year,
                month,
                day,
            )
    }
}

/// What the search needs of the date half `d` for the earliest date: its
/// days are the days of the month alone, both rings are in increasing
/// order, the months lie in 1 to 12, and no year was reached before.
pub open spec fn spec_earliest_ready(d: Date) -> bool {
    &&& d.days.0 is Month
    &&& spec_increasing(d.days.0.spec_month_ring().unwrap().items())
    &&& spec_increasing(d.months.0.items())
    &&& forall|i: int| 0 <= i < d.months.0.size() ==> 1 <= #[trigger] d.months.0.items()[i] <= 12
    &&& d.year is None
}

/// The month a round reads comes no earlier than any allowed date from the
/// start: every allowed month between the one read before and this one was
/// skipped over by none.
proof fn lemma_round_month_first(s: Search, d: Date, tov0: bool, dm: u8, sm: u8, sy: u32)
    requires
        spec_earliest_ready(d),
        spec_keeps_order(s, d, tov0, dm, sm, sy),
        spec_keeps_earliest(s, d, tov0, dm, sm, sy),
        s.found is None,
        s.date.months.0.size() > 0,
    ensures
        ({
            let ((month, yov), _) = spec_round_month(s, sm);
            let year = spec_next_year(s.date.year, yov, sy);
            forall|y: int, mo: int, day: int|
                #![trigger spec_allowed(d, day, mo, y)]
                spec_allowed(d, day, mo, y) && spec_from_start(y, mo, day, dm, sm, sy, tov0) ==> (y > year || (y
                    == year && mo >= month))
        }),
{
    let ring = s.date.months.0;
    let items = ring.items();
    let ((month, yov), _) = spec_round_month(s, sm);
    let year = spec_next_year(s.date.year, yov, sy);
    assert(ring.items() == d.months.0.items());
    if s.first_run {
        assert(s == d.spec_search_start(tov0));
        assert(ring == d.months.0.spec_reset());
        lemma_scan_bounds(items, 0, sm, false);
        let j = spec_scan(items, 0, sm, false);
        assert forall|y: int, mo: int, day: int|
            #![trigger spec_allowed(d, day, mo, y)]
            spec_allowed(d, day, mo, y) && spec_from_start(y, mo, day, dm, sm, sy, tov0) implies (y > year || (y
                == year && mo >= month)) by {
            let k = choose|k: int| 0 <= k < items.len() && items[k] == mo as u8;
            if j < items.len() {
                assert(month == items[j]);
                assert(year == sy);
                if y == sy && mo < month {
                    if k < j {
                        assert(items[k] < sm);
                    } else if k > j {
                        assert(items[j] < items[k]);
                    }
                }
            } else {
                assert(month == items[0]);
                assert(year == sy + 1);
                if y == sy {
                    assert(items[k] < sm);
                } else if y == sy + 1 && mo < month {
                    if k > 0 {
                        assert(items[0] < items[k]);
                    }
                }
            }
        }
    } else {
        let p = ring.pos();
        let y0 = s.date.year.unwrap() as int;
        let m0 = items[ring.back(p) as int] as int;
        assert(month == items[p as int]);
        assert forall|y: int, mo: int, day: int|
            #![trigger spec_allowed(d, day, mo, y)]
            spec_allowed(d, day, mo, y) && spec_from_start(y, mo, day, dm, sm, sy, tov0) implies (y > year || (y
                == year && mo >= month)) by {
            let k = choose|k: int| 0 <= k < items.len() && items[k] == mo as u8;
            assert(y > y0 || (y == y0 && mo > m0));
            if p == 0 {
                assert(yov);
                assert(year == y0 + 1);
                if y == y0 && k < items.len() - 1 {
                    assert(items[k] < items[items.len() - 1]);
                }
                if y == y0 + 1 && mo < month && k > 0 {
                    assert(items[0] < items[k]);
                }
            } else {
                assert(!yov);
                assert(year == y0);
                if y == y0 && mo < month {
                    if k < p - 1 {
                        assert(items[k] < items[p - 1]);
                    } else if k > p {
                        assert(items[p as int] < items[k]);
                    }
                }
            }
        }
    }
}

/// One round of the search keeps what `spec_keeps_earliest` asks: the days
/// of the month read are searched from the start (or from the first of the
/// month when the month moved), so the day found is the least allowed one
/// of that month from the start, and when none is found, no allowed date
/// from the start lies in that month.
proof fn lemma_step_keeps_earliest(s: Search, d: Date, tov0: bool, dm: u8, dw: u8, sm: u8, sy: u32)
    requires
        spec_earliest_ready(d),
        1 <= dm,
        spec_keeps_order(s, d, tov0, dm, sm, sy),
        spec_keeps_earliest(s, d, tov0, dm, sm, sy),
        spec_step_safe(s, dm, dw, sm, sy),
        s.found is None,
    ensures
        spec_keeps_earliest(spec_step(s, dm, dw, sm, sy), d, tov0, dm, sm, sy),
{
    if s.first_run {
        assert(s == d.spec_search_start(tov0));
        assert(s.date.months.0.pos() == 0);
    }
    lemma_round_month_order(s, sm, sy);
    lemma_round_month_first(s, d, tov0, dm, sm, sy);
    let ((month, yov), months_ring) = spec_round_month(s, sm);
    let year = spec_next_year(s.date.year, yov, sy);
    let changed = month != sm || year != sy;
    let new_dm: u8 = if changed { 1 } else { dm };
    let tov = if changed { false } else { s.time_overflow };
    let m2 = s.date.days.0.spec_month_ring().unwrap();
    let mitems = m2.items();
    let bound = spec_bump(new_dm, tov);
    assert(m2.spec_reset().items() == mitems);
    lemma_scan_bounds(mitems, 0, bound, false);
    let j2 = spec_scan(mitems, 0, bound, false);
    let dim = crate::spec_days_in_month(month as int, year);
    if !changed {
        assert(s.first_run);
        assert(s == d.spec_search_start(tov0));
    }
    assert(bound >= 1);
    assert forall|y: int, mo: int, day: int|
        #![trigger spec_allowed(d, day, mo, y)]
        spec_allowed(d, day, mo, y) && spec_from_start(y, mo, day, dm, sm, sy, tov0) && y == year && mo == month
            implies j2 < mitems.len() && day >= mitems[j2] by {
        let k = choose|k: int| 0 <= k < mitems.len() && mitems[k] == day as u8;
        assert(day >= bound);
        if k < j2 {
            assert(mitems[k] < bound);
        } else if k > j2 {
            assert(mitems[j2] < mitems[k]);
        }
    }
    let s2 = spec_step(s, dm, dw, sm, sy);
    assert(s2.date.days.0.spec_month_ring().unwrap().items() == mitems);
    let b = months_ring.back(months_ring.pos());
    assert(months_ring.items()[b as int] == month);
    if s2.found is Some {
        assert(j2 < mitems.len() && mitems[j2] <= dim);
        let c = s2.found.unwrap();
        assert(c.day == mitems[j2] && c.month == month && c.year == year);
        assert(d.months.0.items().contains(month));
        assert(1 <= d.months.0.items()[b as int] <= 12);
        assert(mitems.contains(mitems[j2]));
        assert(spec_allowed(d, c.day as int, c.month as int, c.year as int));
    }
}

/// From a state that keeps what `spec_keeps_order` and
/// `spec_keeps_earliest` ask, the search keeps both to where it stops.
proof fn lemma_run_keeps_earliest(s: Search, d: Date, tov0: bool, dm: u8, dw: u8, sm: u8, sy: u32, n: nat)
    requires
        spec_earliest_ready(d),
        1 <= dm,
        dw < 7,
        spec_keeps_order(s, d, tov0, dm, sm, sy),
        spec_keeps_earliest(s, d, tov0, dm, sm, sy),
        spec_run_ok(s, dm, dw, sm, sy, n),
    ensures
        spec_keeps_earliest(spec_run(s, dm, dw, sm, sy, n), d, tov0, dm, sm, sy),
    decreases n,
{
    if !(s.found is Some || s.date.spec_at_year_limit(sy) || n == 0) {
        super::lemma_step_keeps_order(s, d, tov0, dm, dw, sm, sy);
        lemma_step_keeps_earliest(s, d, tov0, dm, dw, sm, sy);
        lemma_run_keeps_earliest(spec_step(s, dm, dw, sm, sy), d, tov0, dm, dw, sm, sy, (n - 1) as nat);
    }
}

/// The date `Date::first_after` finds, from a date half whose days are
/// given by the days of the month alone, is the earliest allowed date at or
/// after its start (day `start_days_month` of `start_month` of
/// `start_year`; after it when the time wrapped): it exists and is allowed,
/// and no allowed date from the start comes before it. The rings are in
/// increasing order and the months lie in 1 to 12. A date half that still
/// holds the year of an earlier search starts from that year and is left
/// out.
pub proof fn law_date_first_after_earliest(
    d: Date,
    time_overflow: bool,
    start_days_month: u8,
    start_days_week: u8,
    start_month: u8,
    start_year: u32,
)
    requires
        d.spec_first_after_ok(time_overflow, start_days_month, start_days_week, start_month, start_year),
        spec_earliest_ready(d),
        1 <= start_days_month,
        start_days_week < 7,
    ensures
        d.spec_first_after_end(time_overflow, start_days_month, start_days_week, start_month, start_year).found
            matches Some(c) ==> {
            &&& spec_allowed(d, c.day as int, c.month as int, c.year as int)
            &&& forall|year: int, month: int, day: int|
                #![trigger spec_allowed(d, day, month, year)]
                spec_allowed(d, day, month, year) && spec_from_start(
                    year,
                    month,
                    day,
                    start_days_month,
                    start_month,
                    start_year,
                    time_overflow,
                ) ==> spec_date_le(c.year as int, c.month as int, c.day as int, year, month, day)
        },
{
    let s0 = d.spec_search_start(time_overflow);
    let n = choose|n: nat| spec_run_ok(s0, start_days_month, start_days_week, start_month, start_year, n);
    assert(spec_keeps_order(s0, d, time_overflow, start_days_month, start_month, start_year));
    assert(spec_keeps_earliest(s0, d, time_overflow, start_days_month, start_month, start_year));
    lemma_run_keeps_earliest(s0, d, time_overflow, start_days_month, start_days_week, start_month, start_year, n);
}

} // verus!
