//! Cron-style schedules: parsing cron expressions, rings of allowed field
//! values, and the search for the first time at or after a given time that a
//! schedule allows; together with the small id map of the job scheduler and
//! the waypoint tables of the route collector.
use vstd::prelude::*;

pub mod career;
pub mod clock;
pub mod collect;
pub mod collection;
pub mod error;
pub mod job;
pub mod route_data;
pub mod schedule;
pub mod scheduler;
pub mod table;
pub mod utils;

pub use collection::copy_ring::CopyRing;
pub use collection::iter::CycleIterMut;
pub use error::ParseError;

verus! {

/// Whether `year` is a leap year of the Gregorian calendar.
pub open spec fn spec_is_leap_year(year: int) -> bool {
    (year % 4 == 0 && year % 100 != 0) || year % 400 == 0
}

/// The number of days of `month` (1 to 12) in `year`.
pub open spec fn spec_days_in_month(month: int, year: int) -> int {
    if month == 2 {
        if spec_is_leap_year(year) { 29 } else { 28 }
    } else if month == 4 || month == 6 || month == 9 || month == 11 {
        30
    } else {
        31
    }
}

/// Returns whether `year` is a leap year.
pub fn is_leap_year(year: u32) -> (r: bool)
    ensures
        r == spec_is_leap_year(year as int),
{
    if year % 4 == 0 {
        if year % 100 == 0 {
            year % 400 == 0
        } else {
            true
        }
    } else {
        false
    }
}

/// Returns whether `year` is a leap year, by bit tests on the year.
pub fn fast_leap_year_check(year: u32) -> (r: bool)
    ensures
        r == spec_is_leap_year(year as int),
{
    let r = !((year & 3) != 0 || (year & 15) != 0 && (year % 25) == 0);
    assert(((year & 3) != 0) == (year % 4 != 0)) by (bit_vector);
    assert(((year & 15) != 0) == (year % 16 != 0)) by (bit_vector);
    proof {
        let y = year as int;
        if y % 4 == 0 {
            assert((y % 100 == 0) == (y % 25 == 0)) by {
                vstd::arithmetic::div_mod::lemma_fundamental_div_mod(y, 4);
                vstd::arithmetic::div_mod::lemma_fundamental_div_mod(y, 25);
                vstd::arithmetic::div_mod::lemma_fundamental_div_mod(y, 100);
                assert(y % 4 == 0 && y % 25 == 0 ==> y % 100 == 0) by (nonlinear_arith)
                    requires
                        y == 4 * (y / 4) + y % 4,
                        y == 25 * (y / 25) + y % 25,
                        y == 100 * (y / 100) + y % 100,
                        0 <= y % 100 < 100;
                assert(y % 100 == 0 ==> y % 25 == 0) by (nonlinear_arith)
                    requires
                        y == 25 * (y / 25) + y % 25,
                        y == 100 * (y / 100) + y % 100,
                        0 <= y % 25 < 25;
            }
            assert((y % 400 == 0) == (y % 16 == 0 && y % 25 == 0)) by {
                vstd::arithmetic::div_mod::lemma_fundamental_div_mod(y, 16);
                vstd::arithmetic::div_mod::lemma_fundamental_div_mod(y, 25);
                vstd::arithmetic::div_mod::lemma_fundamental_div_mod(y, 400);
                assert(y % 16 == 0 && y % 25 == 0 ==> y % 400 == 0) by (nonlinear_arith)
                    requires
                        y == 16 * (y / 16) + y % 16,
                        y == 25 * (y / 25) + y % 25,
                        y == 400 * (y / 400) + y % 400,
                        0 <= y % 400 < 400;
                assert(y % 400 == 0 ==> y % 16 == 0 && y % 25 == 0) by (nonlinear_arith)
                    requires
                        y == 16 * (y / 16) + y % 16,
                        y == 25 * (y / 25) + y % 25,
                        y == 400 * (y / 400) + y % 400,
                        0 <= y % 16 < 16,
                        0 <= y % 25 < 25;
            }
        }
    }
    r
}

/// The number of days of each month of a common year, January first.
pub fn month_to_days_no_leap() -> (r: Vec<u8>)
    ensures
        r@.len() == 12,
        forall|i: int| 0 <= i < 12 ==> r@[i] == spec_days_in_month(i + 1, 1),
{
    vec![31, 28, 31, 30, 31, 30, 31, 31, 30, 31, 30, 31]
}

/// The number of days of `month` (1 to 12) in `year`.
pub fn days_in_a_month(month: u8, year: u32) -> (r: u8)
    requires
        1 <= month <= 12,
    ensures
        r == spec_days_in_month(month as int, year as int),
{
    let table = month_to_days_no_leap();
    let mut days = table[(month - 1) as usize];
    if month == 2 && is_leap_year(year) {
        days = days + 1;
    }
    days
}

/// The number of months strictly between month `from_month` of `from_year`
/// and month `to_month` of `to_year` (months 1 to 12): 0 when the two months
/// are the same, one apart, or in the wrong order.
pub open spec fn spec_months_strictly_between(to_year: int, to_month: int, from_year: int, from_month: int) -> int {
    let n = (to_year * 12 + to_month) - (from_year * 12 + from_month) - 1;
    if n > 0 { n } else { 0 }
}

/// The values `lo`, `lo + 1`, ..., `hi` in increasing order (none when
/// `hi < lo`).
pub open spec fn spec_range(lo: u8, hi: u8) -> Seq<u8> {
    Seq::new(if hi < lo { 0 } else { (hi - lo + 1) as nat }, |i: int| (lo + i) as u8)
}

/// Returns the values `lo`, `lo + 1`, ..., `hi` in increasing order.
pub fn range_inclusive(lo: u8, hi: u8) -> (r: Vec<u8>)
    ensures
        r@.len() == (if hi < lo { 0 } else { hi - lo + 1 }),
        forall|i: int| 0 <= i < r@.len() ==> r@[i] == lo + i,
        r@ == spec_range(lo, hi),
{
    let mut v: Vec<u8> = Vec::new();
    if hi < lo {
        assert(v@ =~= spec_range(lo, hi));
        return v;
    }
    let mut x: u8 = lo;
    loop
        invariant
            lo <= x <= hi,
            v@.len() == x - lo,
            forall|i: int| 0 <= i < v@.len() ==> v@[i] == lo + i,
        decreases hi - x,
    {
        v.push(x);
        if x == hi {
            assert(v@ =~= spec_range(lo, hi));
            return v;
        }
        x = x + 1;
    }
}

} // verus!
