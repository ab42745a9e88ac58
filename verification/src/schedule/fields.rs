//! The field table of a schedule, with one ring per cron field, and its
//! builder.
use vstd::prelude::*;

use self::inner::{Days, Hours, Minutes, Months, Seconds, WeekSummary};
use crate::clock::{from_hms_opt, from_ymd_opt, DateTimeParts, LocalDateTime};
use crate::schedule::table::fields::{spec_first, spec_last, spec_ring_empty};
use crate::CopyRing;

pub mod inner;

verus! {

broadcast use crate::collection::copy_ring::group_ring_set;

/// Why a field table could not be built.
#[derive(Clone, Copy, Debug, PartialEq, Eq, Structural)]
pub enum Error {
    MissingField,
    EmptyRing,
    OutOfRange,
}

/// The field table: one ring per field of a cron expression.
#[derive(Debug)]
pub struct FieldTable {
    pub secs: Seconds,
    pub mins: Minutes,
    pub hours: Hours,
    pub days: Days,
    pub months: Months,
}

/// A builder pattern for the `FieldTable`.
/// To build a `FieldTable`, supply the builder
/// with values for each of fields.
///
/// The only field that behaves differently is the `Day` field.
/// For the days, choose one of the
/// methods `with_days_of_the_month_only`,
/// `with_days_of_the_week_only`, or `with_days_of_both`.
/// If the user gave a '*' for both the days of weeks/days of month
/// then `with_days_of_the_month_only` should be used and
/// a full iterator of 1..=31 should be supplied.
///
/// # Failure
///
/// All fields should be supplied, or the build fails
/// with an `Error::MissingField`.
/// Each field should contain values that are
/// within bounds for that field, or else
/// the build will fail with an `Error::OutOfRange`.
/// Likewise, a field should not be empty, or else
/// the build will fail with an `Error::EmptyRing`.
///
/// # Assumptions
///
/// The main assumption that will not be tested is that
/// the supplied field values are sorted, and that
/// the first value is the lowest in the range.
#[derive(Debug)]
pub struct Builder {
    pub secs: Option<CopyRing<u8>>,
    pub mins: Option<CopyRing<u8>>,
    pub hrs: Option<CopyRing<u8>>,
    pub days: Option<Days>,
    pub months: Option<CopyRing<u8>>,
}

impl Default for Builder {
    /// A builder with no field supplied.
    fn default() -> (r: Self)
        ensures
            r.is_blank(),
    {
        Builder { secs: None, mins: None, hrs: None, days: None, months: None }
    }
}

/// Whether the day rings are empty.
pub open spec fn spec_days_empty(days: Days) -> bool {
    match days {
        Days::Both { month, week } => spec_ring_empty(month) || spec_ring_empty(week.0),
        Days::Month(month) => spec_ring_empty(month),
        Days::Week(week) => spec_ring_empty(week.0),
    }
}

/// Whether the day rings are out of range: a month day above 31 or below 1
/// (by the last and first values), or a weekday of 7 or more (by the last).
pub open spec fn spec_days_out_of_range(days: Days) -> bool {
    match days {
        Days::Both { month, week } => spec_last(month) > 31 || spec_first(month) < 1 || spec_last(week.0) >= 7,
        Days::Month(month) => spec_last(month) > 31 || spec_first(month) < 1,
        Days::Week(week) => spec_last(week.0) >= 7,
    }
}

impl Builder {
    /// Whether no field was supplied.
    pub open spec fn is_blank(self) -> bool {
        &&& self.secs is None
        &&& self.mins is None
        &&& self.hrs is None
        &&& self.days is None
        &&& self.months is None
    }

    /// This builder with the seconds, minutes, hours, days and months given.
    pub open spec fn with_fields(
        self,
        secs: Option<CopyRing<u8>>,
        mins: Option<CopyRing<u8>>,
        hrs: Option<CopyRing<u8>>,
        months: Option<CopyRing<u8>>,
    ) -> Self {
        Builder { secs, mins, hrs, days: self.days, months }
    }

    /// Supplies the allowed seconds as a list.
    pub fn with_secs_iter(&mut self, secs: Vec<u8>) -> (r: &mut Self)
        ensures
            r.secs matches Some(ring) && ring.is_fresh(secs@),
            *r == old(self).with_fields(r.secs, old(self).mins, old(self).hrs, old(self).months),
            *final(self) == *final(r),
    {
        self.secs = Some(CopyRing::new(secs));
        self
    }

    /// Supplies the allowed seconds.
    pub fn with_secs(&mut self, secs: CopyRing<u8>) -> (r: &mut Self)
        ensures
            *r == old(self).with_fields(Some(secs), old(self).mins, old(self).hrs, old(self).months),
            *final(self) == *final(r),
    {
        self.secs = Some(secs);
        self
    }

    /// Supplies the allowed minutes as a list.
    pub fn with_mins_iter(&mut self, mins: Vec<u8>) -> (r: &mut Self)
        ensures
            r.mins matches Some(ring) && ring.is_fresh(mins@),
            *r == old(self).with_fields(old(self).secs, r.mins, old(self).hrs, old(self).months),
            *final(self) == *final(r),
    {
        self.mins = Some(CopyRing::new(mins));
        self
    }

    /// Supplies the allowed minutes.
    pub fn with_mins(&mut self, mins: CopyRing<u8>) -> (r: &mut Self)
        ensures
            *r == old(self).with_fields(old(self).secs, Some(mins), old(self).hrs, old(self).months),
            *final(self) == *final(r),
    {
        self.mins = Some(mins);
        self
    }

    /// Supplies the allowed hours as a list.
    pub fn with_hrs_iter(&mut self, hrs: Vec<u8>) -> (r: &mut Self)
        ensures
            r.hrs matches Some(ring) && ring.is_fresh(hrs@),
            *r == old(self).with_fields(old(self).secs, old(self).mins, r.hrs, old(self).months),
            *final(self) == *final(r),
    {
        self.hrs = Some(CopyRing::new(hrs));
        self
    }

    /// Supplies the allowed hours.
    pub fn with_hrs(&mut self, hrs: CopyRing<u8>) -> (r: &mut Self)
        ensures
            *r == old(self).with_fields(old(self).secs, old(self).mins, Some(hrs), old(self).months),
            *final(self) == *final(r),
    {
        self.hrs = Some(hrs);
        self
    }

    /// Supplies the allowed days of the month as a list, with no weekdays.
    pub fn with_days_of_the_month_only_iter(&mut self, days: Vec<u8>) -> (r: &mut Self)
        ensures
            r.days matches Some(Days::Month(ring)) && ring.is_fresh(days@),
            *r == (Builder { days: r.days, ..*old(self) }),
            *final(self) == *final(r),
    {
        self.days = Some(Days::Month(CopyRing::new(days)));
        self
    }

    /// Supplies the allowed days of the month, with no weekdays.
    pub fn with_days_of_the_month_only(&mut self, days: CopyRing<u8>) -> (r: &mut Self)
        ensures
            *r == (Builder { days: Some(Days::Month(days)), ..*old(self) }),
            *final(self) == *final(r),
    {
        self.days = Some(Days::Month(days));
        self
    }

    /// Supplies the allowed weekdays as a list, with no days of the month.
    pub fn with_days_of_the_week_only_iter(&mut self, days: Vec<u8>) -> (r: &mut Self)
        ensures
            r.days matches Some(Days::Week(week)) && week.0.is_fresh(days@) && week.1 == WeekSummary::default_value(),
            *r == (Builder { days: r.days, ..*old(self) }),
            *final(self) == *final(r),
    {
        self.days = Some(Days::Week((CopyRing::new(days), WeekSummary::default())));
        self
    }

    /// Supplies the allowed weekdays, with no days of the month.
    pub fn with_days_of_the_week_only(&mut self, days: CopyRing<u8>) -> (r: &mut Self)
        ensures
            *r == (Builder { days: Some(Days::Week((days, WeekSummary::default_value()))), ..*old(self) }),
            *final(self) == *final(r),
    {
        self.days = Some(Days::Week((days, WeekSummary::default())));
        self
    }

    /// Supplies the allowed weekdays and days of the month as lists.
    pub fn with_days_of_both_iter(&mut self, week: Vec<u8>, month: Vec<u8>) -> (r: &mut Self)
        ensures
            r.days matches Some(Days::Both { month: m, week: w }) && m.is_fresh(month@) && w.0.is_fresh(week@)
                && w.1 == WeekSummary::default_value(),
            *r == (Builder { days: r.days, ..*old(self) }),
            *final(self) == *final(r),
    {
        self.days = Some(
            Days::Both { month: CopyRing::new(month), week: (CopyRing::new(week), WeekSummary::default()) },
        );
        self
    }

    /// Supplies the allowed weekdays and days of the month.
    pub fn with_days_of_both(&mut self, week: CopyRing<u8>, month: CopyRing<u8>) -> (r: &mut Self)
        ensures
            *r == (Builder {
                days: Some(Days::Both { month, week: (week, WeekSummary::default_value()) }),
                ..*old(self)
            }),
            *final(self) == *final(r),
    {
        self.days = Some(Days::Both { month, week: (week, WeekSummary::default()) });
        self
    }

    /// Supplies the allowed months as a list.
    pub fn with_months_iter(&mut self, months: Vec<u8>) -> (r: &mut Self)
        ensures
            r.months matches Some(ring) && ring.is_fresh(months@),
            *r == old(self).with_fields(old(self).secs, old(self).mins, old(self).hrs, r.months),
            *final(self) == *final(r),
    {
        self.months = Some(CopyRing::new(months));
        self
    }

    /// Supplies the allowed months.
    pub fn with_months(&mut self, months: CopyRing<u8>) -> (r: &mut Self)
        ensures
            *r == old(self).with_fields(old(self).secs, old(self).mins, old(self).hrs, Some(months)),
            *final(self) == *final(r),
    {
        self.months = Some(months);
        self
    }

    /// The outcome of `build`: which error it reports, if any.
    pub open spec fn spec_build_error(self) -> Option<Error> {
        if self.secs is None || self.mins is None || self.hrs is None || self.days is None || self.months is None {
            Some(Error::MissingField)
        } else if spec_ring_empty(self.secs.unwrap()) || spec_ring_empty(self.mins.unwrap()) || spec_ring_empty(
            self.hrs.unwrap(),
        ) || spec_days_empty(self.days.unwrap()) || spec_ring_empty(self.months.unwrap()) {
            Some(Error::EmptyRing)
        } else if spec_last(self.secs.unwrap()) >= 60 || spec_last(self.mins.unwrap()) >= 60 || spec_last(
            self.hrs.unwrap(),
        ) >= 24 || spec_days_out_of_range(self.days.unwrap()) || spec_last(self.months.unwrap()) > 12
            || spec_first(self.months.unwrap()) < 1 {
            Some(Error::OutOfRange)
        } else {
            None
        }
    }

    /// Builds the field table.
    ///
    /// Fails with `MissingField` (leaving the builder as it was) when a field
    /// is missing, with `EmptyRing` when a ring is empty, and with
    /// `OutOfRange` when the last second or minute is 60 or more, the last
    /// hour 24 or more, a month day outside 1 to 31 or a weekday 7 or more
    /// (by the first and last values), or a month outside 1 to 12. Once all
    /// fields were supplied they are taken out of the builder.
    pub fn build(&mut self) -> (r: Result<FieldTable, Error>)
        ensures
            old(self).spec_build_error() == Some(Error::MissingField) ==> *final(self) == *old(self),
            old(self).spec_build_error() != Some(Error::MissingField) ==> final(self).is_blank(),
            old(self).spec_build_error() matches Some(e) ==> r == Err::<FieldTable, Error>(e),
            old(self).spec_build_error() is None ==> r == Ok::<FieldTable, Error>(
                FieldTable {
                    secs: Seconds(old(self).secs.unwrap()),
                    mins: Minutes(old(self).mins.unwrap()),
                    hours: Hours(old(self).hrs.unwrap()),
                    days: old(self).days.unwrap(),
                    months: Months(old(self).months.unwrap()),
                },
            ),
    {
        if self.secs.is_none() || self.mins.is_none() || self.hrs.is_none() || self.days.is_none()
            || self.months.is_none() {
            return Err(Error::MissingField);
        }

        let secs = self.secs.take().unwrap();
        let mins = self.mins.take().unwrap();
        let hrs = self.hrs.take().unwrap();
        let days = self.days.take().unwrap();
        let months = self.months.take().unwrap();

        let days_empty = match &days {
            Days::Both { month, week } => month.is_empty() || week.0.is_empty(),
            Days::Month(month) => month.is_empty(),
            Days::Week(week) => week.0.is_empty(),
        };
        if secs.is_empty() || mins.is_empty() || hrs.is_empty() || days_empty || months.is_empty() {
            return Err(Error::EmptyRing);
        }

        let days_out = match &days {
            Days::Both { month, week } => {
                month.last().unwrap() > 31 || month.first().unwrap() < 1 || week.0.last().unwrap() >= 7
            },
            Days::Month(month) => month.last().unwrap() > 31 || month.first().unwrap() < 1,
            Days::Week(week) => week.0.last().unwrap() >= 7,
        };
        if secs.last().unwrap() >= 60 || mins.last().unwrap() >= 60 || hrs.last().unwrap() >= 24 || days_out
            || months.last().unwrap() > 12 || months.first().unwrap() < 1 {
            return Err(Error::OutOfRange);
        }

        Ok(
            FieldTable {
                secs: Seconds::new(secs),
                mins: Minutes::new(mins),
                hours: Hours::new(hrs),
                days,
                months: Months::new(months),
            },
        )
    }
}

/// The date and time with these parts, if both exist.
pub open spec fn spec_date_time(year: int, month: u8, day: u8, hour: u8, min: u8, sec: u8) -> Option<LocalDateTime> {
    if crate::clock::spec_is_valid_ymd(year, month as int, day as int) && crate::clock::spec_is_valid_hms(
        hour as int,
        min as int,
        sec as int,
    ) {
        Some(
            LocalDateTime {
                date: crate::clock::CalendarDate { year: year as i32, month: month as u32, day: day as u32 },
                time: crate::clock::ClockTime { hour: hour as u32, min: min as u32, sec: sec as u32 },
            },
        )
    } else {
        None
    }
}

/// The date with the given parts and the time, if both exist (what
/// `NaiveDate::from_ymd_opt` and `and_hms_opt` give).
fn date_and_time(year: i32, month: u8, day: u8, hour: u8, min: u8, sec: u8) -> (r: Option<LocalDateTime>)
    ensures
        r == spec_date_time(year as int, month, day, hour, min, sec),
{
    match from_ymd_opt(year, month as u32, day as u32) {
        Some(date) => match from_hms_opt(hour as u32, min as u32, sec as u32) {
            Some(time) => Some(LocalDateTime { date, time }),
            None => None,
        },
        None => None,
    }
}

impl FieldTable {
    /// Whether `after` runs without a panic or an overflow on `when`.
    pub open spec fn spec_after_ok(self, when: DateTimeParts) -> bool {
        let (s, _) = inner::spec_secs_first_after(self.secs.0, when.second as u8);
        let (m, _) = inner::spec_carry_first_after(self.mins.0, when.minute as u8, s.1);
        let (h, _) = inner::spec_carry_first_after(self.hours.0, when.hour as u8, m.1);
        let (d, _) = self.days.spec_first_after(
            when.day as u8,
            when.weekday as u8,
            h.1,
            when.month as u8,
            when.year as u32,
        );
        let (mo, _) = inner::spec_carry_first_after(self.months.0, when.month as u8, d.1);
        &&& self.secs.0.size() > 0
        &&& self.mins.0.size() > 0
        &&& self.hours.0.size() > 0
        &&& self.months.0.size() > 0
        &&& self.days.spec_first_after_ok(when.day as u8, when.weekday as u8, h.1, when.month as u8, when.year as u32)
        &&& mo.1 ==> when.year < i32::MAX
    }

    /// The date and time `after` returns, and the table after it.
    pub open spec fn spec_after(self, when: DateTimeParts) -> (Option<LocalDateTime>, Self) {
        let (s, s1) = inner::spec_secs_first_after(self.secs.0, when.second as u8);
        let (m, m1) = inner::spec_carry_first_after(self.mins.0, when.minute as u8, s.1);
        let (h, h1) = inner::spec_carry_first_after(self.hours.0, when.hour as u8, m.1);
        let (d, d1) = self.days.spec_first_after(
            when.day as u8,
            when.weekday as u8,
            h.1,
            when.month as u8,
            when.year as u32,
        );
        let (mo, mo1) = inner::spec_carry_first_after(self.months.0, when.month as u8, d.1);
        let year = when.year + if mo.1 { 1int } else { 0int };
        (
            spec_date_time(year, mo.0, d.0, h.0, m.0, s.0),
            FieldTable { secs: Seconds(s1), mins: Minutes(m1), hours: Hours(h1), days: d1, months: Months(mo1) },
        )
    }

    /// The first allowed date and time at or after `date_time` (read in its
    /// own time zone): each field is searched from the lowest up, each
    /// moving on by one when the field below wrapped, and the year goes up
    /// by one when the months wrapped. `None` when those parts make no
    /// date or time.
    pub fn after(&mut self, date_time: &DateTimeParts) -> (r: Option<LocalDateTime>)
        requires
            old(self).spec_after_ok(*date_time),
        ensures
            (r, *final(self)) == old(self).spec_after(*date_time),
    {
        let (sec, overflow) = self.secs.first_after(date_time.second as u8);
        let (min, overflow) = self.mins.first_after(date_time.minute as u8, overflow);
        let (hour, overflow) = self.hours.first_after(date_time.hour as u8, overflow);
        let (day, overflow) = self.days.first_after(
            date_time.day as u8,
            date_time.weekday as u8,
            overflow,
            date_time.month as u8,
            date_time.year as u32,
        );
        let (month, overflow) = self.months.first_after(overflow, date_time.month as u8);
        let year = date_time.year + if overflow { 1 } else { 0 };
        date_and_time(year, month, day, hour, min, sec)
    }

    /// Whether `next` runs without a panic or an overflow.
    pub open spec fn spec_next_ok(self, curr_month: u8, curr_year: u32) -> bool {
        let s = self.secs.0.spec_checked_next().0.unwrap();
        let (m, _) = inner::spec_carry_next(self.mins.0, s.1);
        let (h, _) = inner::spec_carry_next(self.hours.0, m.1);
        let (d, _) = self.days.spec_next(h.1, curr_month, curr_year);
        let (mo, _) = inner::spec_carry_next(self.months.0, d.1);
        &&& self.secs.0.size() > 0
        &&& self.mins.0.size() > 0
        &&& self.hours.0.size() > 0
        &&& self.months.0.size() > 0
        &&& self.days.spec_next_ok(h.1, curr_month, curr_year)
        &&& mo.1 ==> curr_year < u32::MAX
    }

    /// The date and time `next` returns, and the table after it.
    pub open spec fn spec_next(self, curr_month: u8, curr_year: u32) -> (Option<LocalDateTime>, Self) {
        let (s, s1) = (self.secs.0.spec_checked_next().0.unwrap(), self.secs.0.spec_checked_next().1);
        let (m, m1) = inner::spec_carry_next(self.mins.0, s.1);
        let (h, h1) = inner::spec_carry_next(self.hours.0, m.1);
        let (d, d1) = self.days.spec_next(h.1, curr_month, curr_year);
        let (mo, mo1) = inner::spec_carry_next(self.months.0, d.1);
        let year = ((curr_year + if mo.1 { 1int } else { 0int }) as u32) as i32;
        (
            spec_date_time(year as int, mo.0, d.0, h.0, m.0, s.0),
            FieldTable { secs: Seconds(s1), mins: Minutes(m1), hours: Hours(h1), days: d1, months: Months(mo1) },
        )
    }

    /// The allowed date and time that follows the last one found: the
    /// seconds move on by one, and each field above moves on when the one
    /// below wrapped (the days as `Days::next` does, in `curr_month` of
    /// `curr_year`); the year goes up by one when the months wrapped.
    pub fn next(&mut self, curr_month: u8, curr_year: u32) -> (r: Option<LocalDateTime>)
        requires
            old(self).spec_next_ok(curr_month, curr_year),
        ensures
            (r, *final(self)) == old(self).spec_next(curr_month, curr_year),
    {
        let (sec, overflow) = self.secs.next();
        let (min, overflow) = self.mins.next(overflow);
        let (hour, overflow) = self.hours.next(overflow);
        let (day, overflow) = self.days.next(overflow, curr_month, curr_year);
        let (month, overflow) = self.months.next(overflow);
        let year = curr_year + if overflow { 1 } else { 0 };
        date_and_time(year as i32, month, day, hour, min, sec)
    }

    /// A builder with no field supplied.
    pub fn builder() -> (r: Builder)
        ensures
            r.is_blank(),
    {
        Builder::default()
    }
}

/// The date and time `FieldTable::after` finds is allowed: its second,
/// minute, hour and month are values of their rings, and, when the days are
/// given by the days of the month alone, so is its day.
pub proof fn law_after_allowed(table: FieldTable, when: DateTimeParts)
    requires
        table.spec_after_ok(when),
    ensures
        table.spec_after(when).0 matches Some(dt) ==> {
            &&& table.secs.0.items().contains(dt.time.sec as u8)
            &&& table.mins.0.items().contains(dt.time.min as u8)
            &&& table.hours.0.items().contains(dt.time.hour as u8)
            &&& table.months.0.items().contains(dt.date.month as u8)
            &&& table.days matches Days::Month(m) ==> m.items().contains(dt.date.day as u8)
        },
{
    let (s, _) = inner::spec_secs_first_after(table.secs.0, when.second as u8);
    let (m, _) = inner::spec_carry_first_after(table.mins.0, when.minute as u8, s.1);
    let (h, _) = inner::spec_carry_first_after(table.hours.0, when.hour as u8, m.1);
    let (d, _) = table.days.spec_first_after(when.day as u8, when.weekday as u8, h.1, when.month as u8, when.year as u32);
    inner::lemma_secs_value_in_ring(table.secs.0, when.second as u8);
    inner::lemma_carry_value_in_ring(table.mins.0, when.minute as u8, s.1);
    inner::lemma_carry_value_in_ring(table.hours.0, when.hour as u8, m.1);
    inner::lemma_carry_value_in_ring(table.months.0, when.month as u8, d.1);
    if let Days::Month(ring) = table.days {
        let dim = crate::spec_days_in_month(when.month as u8 as int, when.year as u32 as int) as u8;
        inner::lemma_month_day_in_ring(ring, h.1, when.day as u8, dim);
    }
}

impl FieldTable {
    /// Whether the time of day that `after` finds for `when` wrapped to the
    /// next day (the hours' search reported a wrap).
    pub open spec fn spec_time_wraps(self, when: DateTimeParts) -> bool {
        let (s, _) = inner::spec_secs_first_after(self.secs.0, when.second as u8);
        let (m, _) = inner::spec_carry_first_after(self.mins.0, when.minute as u8, s.1);
        let (h, _) = inner::spec_carry_first_after(self.hours.0, when.hour as u8, m.1);
        h.1
    }
}

/// The date and time `FieldTable::after` finds comes at or after `when`,
/// for rings in increasing order with weekdays below 7. One case breaks
/// this and is left out: when the time of day wrapped to the next day and
/// the day search falls back to a day not after the day of `when` without
/// reporting a wrap (see `Days::spec_day_search_falls_back`).
pub proof fn law_after_not_before(table: FieldTable, when: DateTimeParts)
    requires
        table.spec_after_ok(when),
        crate::table::spec_parts_in_range(when),
        inner::spec_increasing(table.secs.0),
        inner::spec_increasing(table.mins.0),
        inner::spec_increasing(table.hours.0),
        inner::spec_increasing(table.months.0),
        table.days.spec_rings_ordered(),
        table.spec_time_wraps(when) ==> !table.days.spec_day_search_falls_back(
            when.day as u8,
            when.weekday as u8,
            when.month as u8,
            when.year as u32,
        ),
    ensures
        table.spec_after(when).0 matches Some(dt) ==> crate::table::spec_at_or_after(dt, when),
{
    let (s, _) = inner::spec_secs_first_after(table.secs.0, when.second as u8);
    let (m, _) = inner::spec_carry_first_after(table.mins.0, when.minute as u8, s.1);
    let (h, _) = inner::spec_carry_first_after(table.hours.0, when.hour as u8, m.1);
    let (d, _) = table.days.spec_first_after(when.day as u8, when.weekday as u8, h.1, when.month as u8, when.year as u32);
    inner::lemma_secs_not_before(table.secs.0, when.second as u8);
    inner::lemma_carry_not_before(table.mins.0, when.minute as u8, s.1);
    inner::lemma_carry_not_before(table.hours.0, when.hour as u8, m.1);
    inner::lemma_days_not_before(table.days, when.day as u8, when.weekday as u8, h.1, when.month as u8, when.year as u32);
    inner::lemma_carry_not_before(table.months.0, when.month as u8, d.1);
}

} // verus!
