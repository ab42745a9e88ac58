use cronsched::clock::{CalendarDate, ClockTime};
use cronsched::table::fields::date::{Days, Months};
use cronsched::table::fields::time::{Hours, Minutes, Seconds};
use cronsched::table::fields::{Date, Time};
use cronsched::CopyRing;

#[test]
fn rotating_there_and_back_restores_the_cursor() {
    let mut ring = CopyRing::new(vec![4, 8, 15, 16, 23, 42]);
    ring.next();
    ring.next();
    let before = ring.index();
    ring.rotate_left(9);
    ring.rotate_right(9);
    assert_eq!(ring.index(), before);
    ring.rotate_left(ring.period());
    assert_eq!(ring.index(), before);
}

#[test]
fn time_found_is_allowed_and_not_earlier() {
    let mut time = Time {
        secs: Seconds::new(CopyRing::new(vec![0, 30])),
        mins: Minutes::new(CopyRing::new(vec![15, 45])),
        hours: Hours::new(CopyRing::new(vec![9, 17])),
    };
    let (t, wrapped) = time.first_after(40, 45, 9).unwrap();
    assert_eq!(t, ClockTime { hour: 17, min: 15, sec: 0 });
    assert!(!wrapped);
    let (t, wrapped) = time.first_after(0, 0, 18).unwrap();
    assert_eq!(t, ClockTime { hour: 9, min: 15, sec: 0 });
    assert!(wrapped);
}

#[test]
fn time_outside_the_day_is_none() {
    let mut time = Time {
        secs: Seconds::new(CopyRing::new(vec![0])),
        mins: Minutes::new(CopyRing::new(vec![0])),
        hours: Hours::new(CopyRing::new(vec![25])),
    };
    assert_eq!(time.first_after(0, 0, 3), None);
}

#[test]
fn date_found_is_allowed() {
    let mut d = Date { days: Days::month(CopyRing::new(vec![5, 20])), months: Months::new(CopyRing::new(vec![3, 9])), year: None };
    let found = d.first_after(false, 21, 2, 3, 2023);
    assert_eq!(found, Some(CalendarDate { year: 2023, month: 9, day: 5 }));
}

#[test]
fn date_found_is_the_earliest_allowed() {
    // February has no 30th or 31st, so the first allowed date is in April.
    let mut d = Date { days: Days::month(CopyRing::new(vec![30, 31])), months: Months::new(CopyRing::new(vec![2, 4])), year: None };
    assert_eq!(d.first_after(false, 15, 0, 1, 2023), Some(CalendarDate { year: 2023, month: 4, day: 30 }));
    // From the start day itself, it is found; after it (time wrapped), the next one.
    let mut d = Date { days: Days::month(CopyRing::new(vec![10, 20])), months: Months::new(CopyRing::new(vec![6])), year: None };
    assert_eq!(d.first_after(false, 10, 3, 6, 2024), Some(CalendarDate { year: 2024, month: 6, day: 10 }));
    let mut d = Date { days: Days::month(CopyRing::new(vec![10, 20])), months: Months::new(CopyRing::new(vec![6])), year: None };
    assert_eq!(d.first_after(true, 20, 3, 6, 2024), Some(CalendarDate { year: 2025, month: 6, day: 10 }));
}

#[test]
fn date_next_reads_the_last_date() {
    let mut d = Date { days: Days::month(CopyRing::new(vec![30])), months: Months::new(CopyRing::new(vec![2])), year: Some(2023) };
    assert_eq!(d.next(false), None);
    let mut d = Date { days: Days::month(CopyRing::new(vec![15])), months: Months::new(CopyRing::new(vec![2])), year: Some(2023) };
    assert_eq!(d.next(false), Some(CalendarDate { year: 2023, month: 2, day: 15 }));
}

fn daily_at_ten(weekdays: Option<Vec<u8>>) -> cronsched::table::FieldTable {
    let mut b = cronsched::table::FieldTable::builder();
    b.with_secs_iter(vec![0]).with_mins_iter(vec![0]).with_hours_iter(vec![10]);
    match weekdays {
        Some(w) => b.with_days_week_iter(w),
        None => b.with_days_month_iter((1..=31).collect()),
    };
    b.with_months_iter((1..=12).collect());
    b.build().unwrap()
}

#[test]
fn after_is_not_before_the_moment_asked() {
    let when = cronsched::clock::DateTimeParts {
        year: 2024,
        month: 1,
        day: 31,
        weekday: 3,
        hour: 11,
        minute: 0,
        second: 0,
    };
    let mut t = daily_at_ten(None);
    let r = t.after(&when).unwrap();
    assert_eq!(r.date, CalendarDate { year: 2024, month: 2, day: 1 });
    assert_eq!(r.time, ClockTime { hour: 10, min: 0, sec: 0 });

    let mut t = daily_at_ten(Some(vec![1]));
    let r = t.after(&when).unwrap();
    assert_eq!(r.date, CalendarDate { year: 2024, month: 2, day: 5 });
}

#[test]
fn after_gives_the_same_weekday_again_when_the_time_wrapped() {
    // Mondays at 10:00, asked on Monday 2024-01-01 at 11:00: the weekday
    // search wraps back to Monday and the same day is given.
    let when = cronsched::clock::DateTimeParts {
        year: 2024,
        month: 1,
        day: 1,
        weekday: 1,
        hour: 11,
        minute: 0,
        second: 0,
    };
    let mut t = daily_at_ten(Some(vec![1]));
    let r = t.after(&when).unwrap();
    assert_eq!(r.date, CalendarDate { year: 2024, month: 1, day: 1 });
    assert_eq!(r.time, ClockTime { hour: 10, min: 0, sec: 0 });
}

#[test]
fn after_gives_the_earliest_allowed_date() {
    // 10:00 on the 30th and 31st of February and April, asked on
    // 2023-01-15 at 12:00: the time wraps, February has neither day, and
    // the first allowed date is April 30th.
    let mut b = cronsched::table::FieldTable::builder();
    b.with_secs_iter(vec![0]).with_mins_iter(vec![0]).with_hours_iter(vec![10]);
    b.with_days_month_iter(vec![30, 31]);
    b.with_months_iter(vec![2, 4]);
    let mut t = b.build().unwrap();
    let when = cronsched::clock::DateTimeParts {
        year: 2023,
        month: 1,
        day: 15,
        weekday: 0,
        hour: 12,
        minute: 0,
        second: 0,
    };
    let r = t.after(&when).unwrap();
    assert_eq!(r.date, CalendarDate { year: 2023, month: 4, day: 30 });
    assert_eq!(r.time, ClockTime { hour: 10, min: 0, sec: 0 });
}
