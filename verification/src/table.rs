//! The field table of a schedule: the allowed seconds, minutes and hours
//! (the time) and the allowed days and months (the date).
use vstd::prelude::*;

use self::fields::date::DaysInner;
use self::fields::{Date, DateBuilder, Time, TimeBuilder};
use crate::clock::{DateTimeParts, LocalDateTime};
use crate::CopyRing;

pub mod fields;

verus! {

/// Why one half (time or date) of a field table could not be built.
#[derive(Clone, Copy, Debug, PartialEq, Eq, Structural)]
pub enum Error {
    MissingField,
    EmptyRing,
    OutOfRange,
}

/// The errors of the time half and of the date half of a failed build.
#[derive(Clone, Copy, Debug, PartialEq, Eq, Structural)]
pub struct BuildError {
    pub time: Option<Error>,
    pub date: Option<Error>,
}

/// The field table: the time half and the date half.
#[derive(Debug)]
pub struct FieldTable {
    pub time: Time,
    pub date: Date,
}

/// A builder pattern for the `FieldTable`.
/// To build a `FieldTable`, supply the builder
/// with values for each of fields.
///
/// For the days, supply the days of the month, the days of the week, or
/// both.
///
/// # Failure
///
/// All fields should be supplied, or the build fails
/// with an `Error::MissingField`.
/// Each field should contain values that are
/// within bounds for that field, or else
/// the build will fail with an `Error::OutOfRange`.
/// Likewise, a field should not be empty, or else
/// the build will fail with an `Error::EmptyRing`.
///
/// # Assumptions
///
/// The main assumption that will not be tested is that
/// the supplied field values are sorted, and that
/// the first value is the lowest in the range.
#[derive(Debug)]
pub struct Builder {
    pub time: TimeBuilder,
    pub date: DateBuilder,
}

impl Builder {
    /// Supplies the allowed seconds as a list.
    pub fn with_secs_iter(&mut self, secs: Vec<u8>) -> (r: &mut Self)
        ensures
            r.time.secs matches Some(ring) && ring.is_fresh(secs@),
            r.time.mins == old(self).time.mins,
            r.time.hours == old(self).time.hours,
            r.date == old(self).date,
            *final(self) == *final(r),
    {
        self.time.with_secs_iter(secs);
        self
    }

    /// Supplies the allowed seconds.
    pub fn with_secs(&mut self, secs: CopyRing<u8>) -> (r: &mut Self)
        ensures
            r.time.secs == Some(secs),
            r.time.mins == old(self).time.mins,
            r.time.hours == old(self).time.hours,
            r.date == old(self).date,
            *final(self) == *final(r),
    {
        self.time.with_secs(secs);
        self
    }

    /// Supplies the allowed minutes as a list.
    pub fn with_mins_iter(&mut self, mins: Vec<u8>) -> (r: &mut Self)
        ensures
            r.time.mins matches Some(ring) && ring.is_fresh(mins@),
            r.time.secs == old(self).time.secs,
            r.time.hours == old(self).time.hours,
            r.date == old(self).date,
            *final(self) == *final(r),
    {
        self.time.with_mins_iter(mins);
        self
    }

    /// Supplies the allowed minutes.
    pub fn with_mins(&mut self, mins: CopyRing<u8>) -> (r: &mut Self)
        ensures
            r.time.mins == Some(mins),
            r.time.secs == old(self).time.secs,
            r.time.hours == old(self).time.hours,
            r.date == old(self).date,
            *final(self) == *final(r),
    {
        self.time.with_mins(mins);
        self
    }

    /// Supplies the allowed hours as a list.
    pub fn with_hours_iter(&mut self, hours: Vec<u8>) -> (r: &mut Self)
        ensures
            r.time.hours matches Some(ring) && ring.is_fresh(hours@),
            r.time.secs == old(self).time.secs,
            r.time.mins == old(self).time.mins,
            r.date == old(self).date,
            *final(self) == *final(r),
    {
        self.time.with_hours_iter(hours);
        self
    }

    /// Supplies the allowed hours.
    pub fn with_hours(&mut self, hours: CopyRing<u8>) -> (r: &mut Self)
        ensures
            r.time.hours == Some(hours),
            r.time.secs == old(self).time.secs,
            r.time.mins == old(self).time.mins,
            r.date == old(self).date,
            *final(self) == *final(r),
    {
        self.time.with_hours(hours);
        self
    }

    /// Supplies the allowed days of the week.
    pub fn with_days_week(&mut self, weekdays: CopyRing<u8>) -> (r: &mut Self)
        ensures
            r.date.days_week == Some(weekdays),
            r.date.days_month == old(self).date.days_month,
            r.date.months == old(self).date.months,
            r.time == old(self).time,
            *final(self) == *final(r),
    {
        self.date.with_days_week(weekdays);
        self
    }

    /// Supplies the allowed days of the week as a list.
    pub fn with_days_week_iter(&mut self, weekdays: Vec<u8>) -> (r: &mut Self)
        ensures
            r.date.days_week matches Some(ring) && ring.is_fresh(weekdays@),
            r.date.days_month == old(self).date.days_month,
            r.date.months == old(self).date.months,
            r.time == old(self).time,
            *final(self) == *final(r),
    {
        self.date.with_days_week_iter(weekdays);
        self
    }

    /// Supplies the allowed days of the month.
    pub fn with_days_month(&mut self, month_days: CopyRing<u8>) -> (r: &mut Self)
        ensures
            r.date.days_month == Some(month_days),
            r.date.days_week == old(self).date.days_week,
            r.date.months == old(self).date.months,
            r.time == old(self).time,
            *final(self) == *final(r),
    {
        self.date.with_days_month(month_days);
        self
    }

    /// Supplies the allowed days of the month as a list.
    pub fn with_days_month_iter(&mut self, month_days: Vec<u8>) -> (r: &mut Self)
        ensures
            r.date.days_month matches Some(ring) && ring.is_fresh(month_days@),
            r.date.days_week == old(self).date.days_week,
            r.date.months == old(self).date.months,
            r.time == old(self).time,
            *final(self) == *final(r),
    {
        self.date.with_days_month_iter(month_days);
        self
    }

    /// Supplies the allowed months as a list.
    pub fn with_months_iter(&mut self, months: Vec<u8>) -> (r: &mut Self)
        ensures
            r.date.months matches Some(ring) && ring.is_fresh(months@),
            r.date.days_week == old(self).date.days_week,
            r.date.days_month == old(self).date.days_month,
            r.time == old(self).time,
            *final(self) == *final(r),
    {
        self.date.with_months_iter(months);
        self
    }

    /// Supplies the allowed months.
    pub fn with_months(&mut self, months: CopyRing<u8>) -> (r: &mut Self)
        ensures
            r.date.months == Some(months),
            r.date.days_week == old(self).date.days_week,
            r.date.days_month == old(self).date.days_month,
            r.time == old(self).time,
            *final(self) == *final(r),
    {
        self.date.with_months(months);
        self
    }

    /// The error `build` reports, if any: the time half's error and the
    /// date half's error.
    pub open spec fn spec_build_error(self) -> Option<BuildError> {
        let t = self.time.spec_build_error();
        let d = self.date.spec_build_error();
        if t is None && d is None {
            None
        } else {
            Some(BuildError { time: t, date: d })
        }
    }

    /// Builds the field table from both halves; on failure reports the
    /// error of each half that failed.
    pub fn build(&mut self) -> (r: Result<FieldTable, BuildError>)
        ensures
            old(self).spec_build_error() matches Some(e) ==> r == Err::<FieldTable, BuildError>(e),
            old(self).spec_build_error() is None ==> r == Ok::<FieldTable, BuildError>(FieldTable {
                time: fields::Time {
                    secs: fields::time::Seconds(old(self).time.secs.unwrap()),
                    mins: fields::time::Minutes(old(self).time.mins.unwrap()),
                    hours: fields::time::Hours(old(self).time.hours.unwrap()),
                },
                date: Date {
                    days: fields::date::Days(old(self).date.spec_days()),
                    months: fields::date::Months(old(self).date.months.unwrap()),
                    year: None,
                },
            }),
    {
        let time = self.time.build();
        let date = self.date.build();
        match (time, date) {
            (Ok(time), Ok(date)) => Ok(FieldTable { time, date }),
            (Ok(_), Err(d)) => Err(BuildError { time: None, date: Some(d) }),
            (Err(t), Ok(_)) => Err(BuildError { time: Some(t), date: None }),
            (Err(t), Err(d)) => Err(BuildError { time: Some(t), date: Some(d) }),
        }
    }
}

impl FieldTable {
    /// A builder with no field supplied.
    pub fn builder() -> (r: Builder)
        ensures
            r.time.is_blank(),
            r.date.is_blank(),
    {
        Builder { time: TimeBuilder::new(), date: DateBuilder::new() }
    }

    /// Whether `after` runs without a panic on `when`.
    pub open spec fn spec_after_ok(self, when: DateTimeParts) -> bool {
        let (t, time2) = self.time.spec_first_after(when.second as u8, when.minute as u8, when.hour as u8);
        &&& self.time.spec_first_after_safe(when.second as u8, when.minute as u8, when.hour as u8)
        &&& t is Some ==> self.date.spec_first_after_ok(
            t.unwrap().1,
            when.day as u8,
            when.weekday as u8,
            when.month as u8,
            when.year as u32,
        )
    }

    /// The date and time `after` returns, and the table after it.
    pub open spec fn spec_after(self, when: DateTimeParts) -> (Option<LocalDateTime>, Self) {
        let (t, time2) = self.time.spec_first_after(when.second as u8, when.minute as u8, when.hour as u8);
        match t {
            None => (None, FieldTable { time: time2, date: self.date }),
            Some((time, overflow)) => {
                let end = self.date.spec_first_after_end(
                    overflow,
                    when.day as u8,
                    when.weekday as u8,
                    when.month as u8,
                    when.year as u32,
                );
                let date = match end.found {
                    Some(c) => if crate::clock::spec_is_valid_ymd(c.year as i32 as int, c.month as int, c.day as int) {
                        Some(crate::clock::CalendarDate { year: c.year as i32, month: c.month as u32, day: c.day as u32 })
                    } else {
                        None
                    },
                    None => None,
                };
                (
                    match date {
                        Some(d) => Some(LocalDateTime { date: d, time }),
                        None => None,
                    },
                    FieldTable { time: time2, date: end.date },
                )
            },
        }
    }

    /// The first allowed date and time at or after `when` (read in its own
    /// time zone): the first allowed time of day at or after its time, then
    /// the first allowed date at or after its date (after it when the time
    /// wrapped to the next day). `None` when no date was found.
    pub fn after(&mut self, when: &DateTimeParts) -> (r: Option<LocalDateTime>)
        requires
            old(self).spec_after_ok(*when),
        ensures
            (r, *final(self)) == old(self).spec_after(*when),
    {
        let (time, overflow) = match self.time.first_after(when.second as u8, when.minute as u8, when.hour as u8) {
            Some(t) => t,
            None => {
                return None;
            },
        };
        let date = match self.date.first_after(
            overflow,
            when.day as u8,
            when.weekday as u8,
            when.month as u8,
            when.year as u32,
        ) {
            Some(d) => d,
            None => {
                return None;
            },
        };
        Some(LocalDateTime { date, time })
    }
}

/// The date and time `FieldTable::after` finds is allowed: its second,
/// minute, hour and month are values of their rings, and, when the days are
/// given by the days of the month alone, so is its day; when the time of
/// day did not wrap to the next day, that time is at or after the time of
/// `when`.
pub proof fn law_after_allowed(table: FieldTable, when: DateTimeParts)
    requires
        table.spec_after_ok(when),
    ensures
        table.spec_after(when).0 matches Some(dt) ==> {
            &&& table.time.secs.0.items().contains(dt.time.sec as u8)
            &&& table.time.mins.0.items().contains(dt.time.min as u8)
            &&& table.time.hours.0.items().contains(dt.time.hour as u8)
            &&& table.date.months.0.items().contains(dt.date.month as u8)
            &&& table.date.days.0 matches DaysInner::Month(m) ==> m.items().contains(dt.date.day as u8)
        },
        table.time.spec_first_after(when.second as u8, when.minute as u8, when.hour as u8).0 matches Some((t, false))
            ==> (t.hour > when.hour as u8 || (t.hour == when.hour as u8 && (t.min > when.minute as u8 || (t.min
            == when.minute as u8 && t.sec >= when.second as u8)))),
{
    fields::law_time_first_after(table.time, when.second as u8, when.minute as u8, when.hour as u8);
    let (t, _) = table.time.spec_first_after(when.second as u8, when.minute as u8, when.hour as u8);
    if let Some((time, overflow)) = t {
        fields::law_date_first_after_allowed(
            table.date,
            overflow,
            when.day as u8,
            when.weekday as u8,
            when.month as u8,
            when.year as u32,
        );
    }
}

/// Whether the date and time `dt` comes at or after `when` (compared by
/// year, month, day, hour, minute and second).
pub open spec fn spec_at_or_after(dt: LocalDateTime, when: DateTimeParts) -> bool {
    let same_date = dt.date.year == when.year && dt.date.month == when.month && dt.date.day == when.day;
    ||| dt.date.year > when.year
    ||| dt.date.year == when.year && dt.date.month > when.month
    ||| dt.date.year == when.year && dt.date.month == when.month && dt.date.day > when.day
    ||| same_date && dt.time.hour > when.hour
    ||| same_date && dt.time.hour == when.hour && dt.time.min > when.minute
    ||| same_date && dt.time.hour == when.hour && dt.time.min == when.minute && dt.time.sec >= when.second
}

/// Whether `when` names a moment by parts in their ranges: a year from 0
/// to the last year of a calendar date, month 1 to 12, day 1 to 31,
/// weekday 0 to 6, hour 0 to 23, minute and second 0 to 59.
pub open spec fn spec_parts_in_range(when: DateTimeParts) -> bool {
    &&& 0 <= when.year <= crate::clock::MAX_YEAR
    &&& 1 <= when.month <= 12
    &&& 1 <= when.day <= 31
    &&& when.weekday < 7
    &&& when.hour < 24
    &&& when.minute < 60
    &&& when.second < 60
}

/// The date and time `FieldTable::after` finds comes at or after `when`,
/// for a table whose months are in increasing order and whose weekdays are
/// below 7. One case breaks this and is left out: when the time of day
/// wrapped to the next day, the search stays in the month of `when`, and
/// the weekday ring's search wraps around to the weekday of `when` itself,
/// the day of `when` is given again with the earlier time.
pub proof fn law_after_not_before(table: FieldTable, when: DateTimeParts)
    requires
        table.spec_after_ok(when),
        spec_parts_in_range(when),
        forall|i: int, j: int|
            0 <= i < j < table.date.months.0.size() ==> table.date.months.0.items()[i] < table.date.months.0.items()[j],
        table.date.days.0.spec_week_ring() matches Some(w) ==> forall|i: int|
            0 <= i < w.size() ==> #[trigger] w.items()[i] < 7,
        table.time.spec_first_after(when.second as u8, when.minute as u8, when.hour as u8).0 matches Some((_, true))
            && table.date.spec_first_round_stays(when.month as u8, when.year as u32)
            && table.date.days.0.spec_week_ring() is Some ==> fields::date::spec_week_found(
            table.date.days.0.spec_week_ring().unwrap(),
            true,
            when.weekday as u8,
        ) != Some(when.weekday as u8),
    ensures
        table.spec_after(when).0 matches Some(dt) ==> spec_at_or_after(dt, when),
{
    fields::law_time_first_after(table.time, when.second as u8, when.minute as u8, when.hour as u8);
    let (t, _) = table.time.spec_first_after(when.second as u8, when.minute as u8, when.hour as u8);
    if let Some((time, overflow)) = t {
        fields::law_date_first_after_not_before(
            table.date,
            overflow,
            when.day as u8,
            when.weekday as u8,
            when.month as u8,
            when.year as u32,
        );
    }
}

/// The date of the date and time `FieldTable::after` finds is the earliest
/// allowed date at or after the date of `when` (after it when the time of
/// day wrapped to the next day), for a table whose days are given by the
/// days of the month alone, with its rings in increasing order, its months
/// from 1 to 12 and no year left from an earlier search (see
/// `fields::earliest::spec_earliest_ready`). The time of day found is the
/// first allowed one at or after the time of `when`, on whatever date is
/// found, so the date and time together need not be the earliest.
pub proof fn law_after_date_earliest(table: FieldTable, when: DateTimeParts)
    requires
        table.spec_after_ok(when),
        spec_when_valid(when),
        fields::earliest::spec_earliest_ready(table.date),
    ensures
        table.spec_after(when).0 matches Some(dt) ==> {
            let wrapped = table.time.spec_first_after(when.second as u8, when.minute as u8, when.hour as u8).0.unwrap().1;
            &&& fields::earliest::spec_allowed(table.date, dt.date.day as int, dt.date.month as int, dt.date.year as int)
            &&& forall|year: int, month: int, day: int|
                #![trigger fields::earliest::spec_allowed(table.date, day, month, year)]
                fields::earliest::spec_allowed(table.date, day, month, year) && fields::earliest::spec_from_start(
                    year,
                    month,
                    day,
                    when.day as u8,
                    when.month as u8,
                    when.year as u32,
                    wrapped,
                ) ==> fields::earliest::spec_date_le(
                    dt.date.year as int,
                    dt.date.month as int,
                    dt.date.day as int,
                    year,
                    month,
                    day,
                )
        },
{
    let (t, _) = table.time.spec_first_after(when.second as u8, when.minute as u8, when.hour as u8);
    if let Some((time, overflow)) = t {
        fields::law_date_first_after_not_before(
            table.date,
            overflow,
            when.day as u8,
            when.weekday as u8,
            when.month as u8,
            when.year as u32,
        );
        fields::earliest::law_date_first_after_earliest(
            table.date,
            overflow,
            when.day as u8,
            when.weekday as u8,
            when.month as u8,
            when.year as u32,
        );
    }
}

/// Whether `when` names a real moment: a year from 1 to the last year of
/// a calendar date, a month, a day of that month, a weekday (Sunday 0), an
/// hour, a minute and a second.
pub open spec fn spec_when_valid(when: DateTimeParts) -> bool {
    &&& 1 <= when.year <= crate::clock::MAX_YEAR
    &&& 1 <= when.month <= 12
    &&& 1 <= when.day <= crate::spec_days_in_month(when.month as int, when.year as int)
    &&& when.weekday < 7
    &&& when.hour < 24
    &&& when.minute < 60
    &&& when.second < 60
}

impl FieldTable {
    /// Whether the table's rings can be searched from `when`: the time
    /// rings are not empty, and the date half can search from the year of
    /// `when` (see `fields::searchable::spec_date_searchable`).
    pub open spec fn spec_searchable(self, when: DateTimeParts) -> bool {
        &&& self.time.secs.0.size() > 0
        &&& self.time.mins.0.size() > 0
        &&& self.time.hours.0.size() > 0
        &&& fields::searchable::spec_date_searchable(self.date, when.year as u32)
    }

    /// Whether `after` can be asked for `when` by the test of
    /// `spec_searchable` and `spec_when_valid`; when it can, `after` runs
    /// without a panic (see `law_after_runs`).
    pub fn after_supported(&self, when: &DateTimeParts) -> (r: bool)
        ensures
            r == (self.spec_searchable(*when) && spec_when_valid(*when)),
    {
        if !(1 <= when.year && when.year <= crate::clock::MAX_YEAR && 1 <= when.month && when.month <= 12) {
            return false;
        }
        let dim = crate::days_in_a_month(when.month as u8, when.year as u32);
        if !(1 <= when.day && when.day <= dim as u32 && when.weekday < 7 && when.hour < 24 && when.minute < 60
            && when.second < 60) {
            return false;
        }
        !self.time.secs.0.is_empty() && !self.time.mins.0.is_empty() && !self.time.hours.0.is_empty()
            && fields::searchable::date_searchable(&self.date, when.year as u32)
    }
}

/// `FieldTable::after` runs without a panic from a real moment `when` on a
/// table whose rings can be searched from it (see `spec_searchable`).
pub proof fn law_after_runs(table: FieldTable, when: DateTimeParts)
    requires
        table.spec_searchable(when),
        spec_when_valid(when),
    ensures
        table.spec_after_ok(when),
{
    let (t, _) = table.time.spec_first_after(when.second as u8, when.minute as u8, when.hour as u8);
    if let Some((_, overflow)) = t {
        fields::searchable::lemma_first_after_ok(
            table.date,
            overflow,
            when.day as u8,
            when.weekday as u8,
            when.month as u8,
            when.year as u32,
        );
    }
}

} // verus!
