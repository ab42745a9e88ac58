//! Calendar dates and clock times, checked by `chrono`.
use vstd::prelude::*;

verus! {

/// The earliest year that a `chrono::NaiveDate` can hold.
pub const MIN_YEAR: i32 = -262143;

/// The latest year that a `chrono::NaiveDate` can hold.
pub const MAX_YEAR: i32 = 262142;

/// A date of the proleptic Gregorian calendar, as year, month (1 to 12)
/// and day of the month (from 1).
#[derive(Clone, Copy, Debug, PartialEq, Eq, Structural)]
pub struct CalendarDate {
    pub year: i32,
    pub month: u32,
    pub day: u32,
}

/// A time of day, as hour (0 to 23), minute and second (0 to 59).
#[derive(Clone, Copy, Debug, PartialEq, Eq, Structural)]
pub struct ClockTime {
    pub hour: u32,
    pub min: u32,
    pub sec: u32,
}

/// A date and a time of day, with no time zone.
#[derive(Clone, Copy, Debug, PartialEq, Eq, Structural)]
pub struct LocalDateTime {
    pub date: CalendarDate,
    pub time: ClockTime,
}

/// The calendar parts of a moment as read in some time zone: year, month
/// (1 to 12), day of the month (from 1), weekday (0 is Sunday), hour,
/// minute and second.
#[derive(Clone, Copy, Debug, PartialEq, Eq, Structural)]
pub struct DateTimeParts {
    pub year: i32,
    pub month: u32,
    pub day: u32,
    pub weekday: u32,
    pub hour: u32,
    pub minute: u32,
    pub second: u32,
}

/// Whether year `y`, month `m` and day `d` name a date that a
/// `chrono::NaiveDate` can hold.
pub open spec fn spec_is_valid_ymd(y: int, m: int, d: int) -> bool {
    &&& MIN_YEAR <= y <= MAX_YEAR
    &&& 1 <= m <= 12
    &&& 1 <= d <= crate::spec_days_in_month(m, y)
}

/// Whether `h`, `m` and `s` name a time of day (without leap second).
pub open spec fn spec_is_valid_hms(h: int, m: int, s: int) -> bool {
    0 <= h < 24 && 0 <= m < 60 && 0 <= s < 60
}

/// The date with year `year`, month `month` and day `day`, if it exists.
///
/// Calls `chrono::NaiveDate::from_ymd_opt`, which returns `None` exactly
/// when the day does not exist in that month, the month or day is out of
/// range, or the year is outside the range of `NaiveDate`
/// (`NaiveDate::MIN` is January 1 of year -262143, `NaiveDate::MAX`
/// December 31 of year 262142). On `Some`, the date holds the given parts.
#[verifier::external_body]
pub(crate) fn from_ymd_opt(year: i32, month: u32, day: u32) -> (r: Option<CalendarDate>)
    ensures
        r.is_some() == spec_is_valid_ymd(year as int, month as int, day as int),
        r matches Some(date) ==> date == (CalendarDate { year, month, day }),
{
    match chrono::NaiveDate::from_ymd_opt(year, month, day) {
        Some(_) => Some(CalendarDate { year, month, day }),
        None => None,
    }
}

/// The time of day `hour:min:sec`, if it exists.
///
/// Calls `chrono::NaiveTime::from_hms_opt`, which returns `None` exactly
/// when `hour >= 24`, `min >= 60` or `sec >= 60`.
#[verifier::external_body]
pub(crate) fn from_hms_opt(hour: u32, min: u32, sec: u32) -> (r: Option<ClockTime>)
    ensures
        r.is_some() == spec_is_valid_hms(hour as int, min as int, sec as int),
        r matches Some(t) ==> t == (ClockTime { hour, min, sec }),
{
    match chrono::NaiveTime::from_hms_opt(hour, min, sec) {
        Some(_) => Some(ClockTime { hour, min, sec }),
        None => None,
    }
}

/// The moment that the RFC 2822 date and time `s` names, as seconds since
/// the Unix epoch (UTC) and the offset of its time zone from UTC in
/// seconds; `None` when `s` is not such a date and time.
pub uninterp spec fn spec_rfc2822(s: Seq<char>) -> Option<(i64, i32)>;

/// Reads an RFC 2822 date and time (such as the `date` header of an HTTP
/// response).
///
/// Calls `chrono::DateTime::parse_from_rfc2822` and takes the timestamp and
/// the UTC offset of the date it gives. The contract claims only that the
/// result is a function of the text alone (`spec_rfc2822`); what that
/// parser accepts is not stated here.
#[verifier::external_body]
pub(crate) fn parse_rfc2822(s: &str) -> (r: Option<(i64, i32)>)
    ensures
        r == spec_rfc2822(s@),
{
    match chrono::DateTime::parse_from_rfc2822(s) {
        Ok(date) => Some((date.timestamp(), date.offset().local_minus_utc())),
        Err(_) => None,
    }
}

} // verus!
