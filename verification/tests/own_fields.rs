use cronsched::schedule::fields::inner::{next_weekday_from_last, Days, LastUsed, Minutes, Months, Seconds, WeekSummary};
use cronsched::schedule::fields::{Builder, Error, FieldTable};
use cronsched::schedule::parser::{validate_values, DaysOfTheMonth, Hours, Seconds as SecondsExpr};
use cronsched::{days_in_a_month, fast_leap_year_check, is_leap_year, CopyRing, ParseError};

#[test]
fn seconds_first_after_finds_or_wraps() {
    let mut s = Seconds::new(CopyRing::new(vec![0, 15, 30, 45]));
    assert_eq!(s.first_after(20), (30, false));
    assert_eq!(s.next(), (45, false));
    assert_eq!(s.first_after(50), (0, true));
    assert_eq!(s.first_after(45), (45, false));
}

#[test]
fn minutes_first_after_with_a_carry_moves_on() {
    let mut m = Minutes::new(CopyRing::new(vec![10, 20, 40]));
    assert_eq!(m.first_after(15, false), (20, false));
    assert_eq!(m.first_after(15, true), (20, false));
    assert_eq!(m.first_after(20, true), (40, false));
    assert_eq!(m.first_after(30, true), (40, false));
    assert_eq!(m.first_after(50, true), (10, true));
    let mut m = Minutes::new(CopyRing::new(vec![0, 10, 20]));
    assert_eq!(m.first_after(5, true), (10, false));
    assert_eq!(m.first_after(30, true), (0, true));
}

#[test]
fn minutes_next_after_a_search_moves_to_the_following_value() {
    let mut m = Minutes::new(CopyRing::new(vec![0, 10, 20]));
    assert_eq!(m.first_after(5, false), (10, false));
    assert_eq!(m.next(false), (10, false));
    assert_eq!(m.next(false), (10, false));
    assert_eq!(m.next(true), (20, false));
    assert_eq!(m.next(true), (0, true));
}

#[test]
fn months_next_only_moves_on_a_carry() {
    let mut m = Months::new(CopyRing::new(vec![1, 6, 12]));
    assert_eq!(m.next(false), (1, false));
    assert_eq!(m.next(true), (6, false));
    assert_eq!(m.next(true), (12, false));
    assert_eq!(m.next(true), (1, true));
}

#[test]
fn month_days_past_the_month_wrap() {
    let mut d = Days::Month(CopyRing::new(vec![1, 15, 31]));
    assert_eq!(d.first_after(16, 5, false, 6, 2023), (1, true));
    assert_eq!(d.first_after(10, 6, false, 6, 2023), (15, false));
}

#[test]
fn weekdays_give_the_day_of_the_month() {
    // Thursday, June 15th 2023; the next Saturday is the 17th.
    let mut d = Days::Week((CopyRing::new(vec![6]), WeekSummary::default()));
    assert_eq!(d.first_after(15, 4, false, 6, 2023), (17, false));
    if let Days::Week((_, summary)) = &d {
        assert_eq!(summary.last_month_day, 17);
        assert_eq!(summary.last_weekday, 6);
        assert_eq!(summary.last_used, LastUsed::Week);
    } else {
        panic!("the days changed kind");
    }
}

#[test]
fn both_rings_take_the_earlier_day() {
    // Thursday, June 15th 2023: month day 20, or Saturday the 17th.
    let mut d = Days::Both { month: CopyRing::new(vec![20]), week: (CopyRing::new(vec![6]), WeekSummary::default()) };
    assert_eq!(d.first_after(15, 4, false, 6, 2023), (17, false));
    if let Days::Both { week: (_, summary), .. } = &d {
        assert_eq!(summary.last_used, LastUsed::Week);
    } else {
        panic!("the days changed kind");
    }
}

#[test]
fn weekday_counting_wraps_the_week() {
    assert_eq!(next_weekday_from_last(6, 2, 30, 29), 2);
    assert_eq!(Days::num_weekdays_since(6, 1), 2);
}

#[test]
fn builder_reports_each_error() {
    let mut b = FieldTable::builder();
    assert!(matches!(b.build(), Err(Error::MissingField)));
    b.with_secs_iter(vec![0]).with_mins_iter(vec![]).with_hrs_iter(vec![1]);
    b.with_days_of_the_month_only_iter(vec![1]).with_months_iter(vec![1]);
    assert!(matches!(b.build(), Err(Error::EmptyRing)));
    let mut b = Builder::default();
    b.with_secs_iter(vec![0]).with_mins_iter(vec![0]).with_hrs_iter(vec![24]);
    b.with_days_of_the_week_only_iter(vec![0]).with_months_iter(vec![1]);
    assert!(matches!(b.build(), Err(Error::OutOfRange)));
    let mut b = Builder::default();
    b.with_secs_iter(vec![0]).with_mins_iter(vec![0]).with_hrs_iter(vec![23]);
    b.with_days_of_both_iter(vec![0, 6], vec![1, 31]).with_months_iter(vec![1, 12]);
    assert!(b.build().is_ok());
}

#[test]
fn with_hrs_and_with_months_fill_their_own_fields() {
    let mut b = FieldTable::builder();
    b.with_hrs(CopyRing::new(vec![5]));
    assert!(b.mins.is_none());
    assert_eq!(b.hrs.as_ref().unwrap().period(), 1);
    b.with_months(CopyRing::new(vec![1, 2]));
    assert!(b.mins.is_none());
    assert_eq!(b.months.as_ref().unwrap().period(), 2);
    b.with_secs(CopyRing::new(vec![0])).with_mins(CopyRing::new(vec![0]));
    b.with_days_of_the_month_only(CopyRing::new(vec![1]));
    assert!(b.build().is_ok());
}

#[test]
fn validation_sorts_and_checks() {
    let ring = SecondsExpr(vec![45, 3, 17]).validate().unwrap();
    assert_eq!(ring.first(), Some(3));
    assert_eq!(ring.last(), Some(45));
    assert_eq!(ring.period(), 3);
    assert!(matches!(validate_values(&vec![], 0, 5), Err(ParseError::Empty)));
    assert!(matches!(DaysOfTheMonth(vec![0, 4]).validate(), Err(ParseError::BelowRange)));
    assert!(matches!(Hours(vec![3, 24]).validate(), Err(ParseError::AboveRange)));
    assert!(matches!(Hours(vec![3, 7, 3]).validate(), Err(ParseError::DuplicateValue)));
}

#[test]
fn leap_years_agree() {
    for year in 0u32..5000 {
        assert_eq!(fast_leap_year_check(year), is_leap_year(year));
    }
    assert!(is_leap_year(2000));
    assert!(!is_leap_year(1900));
    assert!(is_leap_year(2024));
    assert_eq!(days_in_a_month(2, 2024), 29);
    assert_eq!(days_in_a_month(2, 2023), 28);
    assert_eq!(days_in_a_month(11, 2023), 30);
}

fn month_days_at_ten(days: Vec<u8>) -> FieldTable {
    FieldTable {
        secs: Seconds::new(CopyRing::new(vec![0])),
        mins: Minutes::new(CopyRing::new(vec![0])),
        hours: cronsched::schedule::fields::inner::Hours::new(CopyRing::new(vec![10])),
        days: Days::Month(CopyRing::new(days)),
        months: Months::new(CopyRing::new((1..=12).collect())),
    }
}

#[test]
fn after_moves_to_the_next_allowed_day() {
    let when = cronsched::clock::DateTimeParts { year: 2024, month: 1, day: 5, weekday: 5, hour: 11, minute: 0, second: 0 };
    let mut t = month_days_at_ten(vec![5, 20]);
    let r = t.after(&when).unwrap();
    assert_eq!(r.date, cronsched::clock::CalendarDate { year: 2024, month: 1, day: 20 });
    assert_eq!(r.time, cronsched::clock::ClockTime { hour: 10, min: 0, sec: 0 });
}

#[test]
fn after_falls_back_past_the_last_day_when_the_time_wrapped() {
    // Day 20 is the last allowed day; with the time past 10:00 the day
    // search steps past it back to day 5 of the same month, with no wrap.
    let when = cronsched::clock::DateTimeParts { year: 2024, month: 1, day: 20, weekday: 6, hour: 11, minute: 0, second: 0 };
    let mut t = month_days_at_ten(vec![5, 20]);
    let r = t.after(&when).unwrap();
    assert_eq!(r.date, cronsched::clock::CalendarDate { year: 2024, month: 1, day: 5 });
}

#[test]
fn seconds_and_hours_searches_give_the_least_value_at_or_after() {
    let mut s = Seconds::new(CopyRing::new(vec![5, 25, 45]));
    assert_eq!(s.first_after(25), (25, false));
    assert_eq!(s.first_after(26), (45, false));
    assert_eq!(s.first_after(46), (5, true));
    let mut h = cronsched::schedule::fields::inner::Hours::new(CopyRing::new(vec![3, 9, 21]));
    assert_eq!(h.first_after(9, true), (21, false));
    assert_eq!(h.next(true), (3, true));
}
