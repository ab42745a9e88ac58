use chrono::{Timelike, Utc};
use cronsched::range_inclusive;
use cronsched::table::fields::date::{Days, DaysInner, Months};
use cronsched::table::fields::time::{Hours, Minutes, Seconds};
use cronsched::table::fields::Date;
use cronsched::CopyRing;
use rand::Rng;

const THRESHOLD: i32 = 50;
const UPPER: i32 = 100;

fn gen_range_mins_or_secs() -> Vec<u8> {
    let mut v = vec![];
    let mut rng = rand::thread_rng();
    for i in 0u8..60 {
        if rng.gen::<i32>() % UPPER > THRESHOLD {
            v.push(i)
        }
    }
    if v.is_empty() {
        v.push(rng.gen::<u8>() % 60)
    }
    v
}

fn gen_range_hours() -> Vec<u8> {
    let mut v = vec![];
    let mut rng = rand::thread_rng();
    for i in 0u8..24 {
        if rng.gen::<i32>() % UPPER > THRESHOLD {
            v.push(i)
        }
    }
    if v.is_empty() {
        v.push(rng.gen::<u8>() % 24)
    }
    v
}

#[test]
fn table_first_after_for_leap_day() {
    let mut d = Date {
        days: Days::month(CopyRing::new(vec![29])),
        months: Months::new(CopyRing::new(vec![2])),
        year: None,
    };

    let then = Utc::now();
    let f = d.first_after(false, 24, 6, 6, 2024);
    let now = Utc::now();
    println!("{:?}", now - then);
    if let Some(f) = f {
        println!("{:?}", f);
    } else {
        println!("Couldn't get next date");
    }
}

#[test]
fn weekdays_works() {
    let mut d = Date {
        days: Days::both(
            CopyRing::new(vec![
                6, 7, 8, 9, 10, 11, 12, 13, 14, 15, 16, 17, 18, 19, 20, 21, 22, 23, 24, 25, 29, 30,
            ]),
            CopyRing::new(vec![3, 5]),
        ),
        months: Months::new(CopyRing::new(range_inclusive(1, 12))),
        year: None,
    };

    let f = d.first_after(true, 30, 6, 12, 2023);
    if let Some(f) = f {
        println!("{:?}", f);
    } else {
        println!("Couldn't get next date");
    }
    println!("{:?}", d);
}

#[test]
fn weekdays_works_for_june() {
    let mut d = Date {
        days: Days::both(
            CopyRing::new(vec![
                6, 7, 8, 9, 10, 11, 12, 13, 14, 15, 16, 17, 18, 19, 20, 21, 22, 23, 24, 25, 27, 30,
            ]),
            CopyRing::new(vec![3, 5]),
        ),
        months: Months::new(CopyRing::new(range_inclusive(1, 12))),
        year: None,
    };

    let f = d.first_after(true, 25, 0, 6, 2023);
    if let Some(f) = f {
        println!("{:?}", f);
    } else {
        println!("Couldn't get next date");
    }
    println!("{:?}", d);
}

#[test]
fn first_after_for_dec_jan() {
    let mut d = Date {
        days: Days::month(CopyRing::new(vec![
            1, 2, 3, 4, 5, 6, 7, 8, 9, 10, 11, 12, 13, 14, 15, 16, 17, 18, 19, 20, 21, 22, 23, 24, 25,
            26, 27, 28, 29, 30,
        ])),
        months: Months::new(CopyRing::new(range_inclusive(1, 12))),
        year: None,
    };

    let f = d.first_after(true, 30, 6, 12, 2024);
    if let Some(f) = f {
        println!("{:?}", f);
    } else {
        println!("Couldn't get next date");
    }
}

#[test]
fn profile() {
    let mut d = Date {
        days: Days::month(CopyRing::new(vec![
            1, 2, 3, 4, 5, 6, 7, 8, 9, 10, 11, 12, 13, 14, 15, 16, 17, 18, 19, 20, 21, 22, 23, 24, 25,
            26, 27, 28, 29, 30,
        ])),
        months: Months::new(CopyRing::new(range_inclusive(1, 12))),
        year: None,
    };
    let then = Utc::now();
    for _ in 0..1000000 {
        let _a = d.first_after(true, 30, 6, 12, 2024);
    }
    let now = Utc::now();
    println!("Diff: {:?}", now - then);
}

#[test]
fn date_next_weekday_from_last_works() {
    let start = 0;
    let n = 7;
    assert_eq!(0, DaysInner::next_weekday_from_last(start, n));

    let start = 1;
    let n = 13;
    assert_eq!(0, DaysInner::next_weekday_from_last(start, n));

    let start = 5;
    let n = 0;
    assert_eq!(5, DaysInner::next_weekday_from_last(start, n));
}

#[test]
fn date_days_between_weekdays_works() {
    let l = 0;
    let r = 1;
    assert_eq!(1, DaysInner::num_weekdays_since(l, r));

    let l = 5;
    let r = 1;
    assert_eq!(3, DaysInner::num_weekdays_since(l, r));

    let l = 2;
    let r = 6;
    assert_eq!(4, DaysInner::num_weekdays_since(l, r));

    let l = 6;
    let r = 5;
    assert_eq!(6, DaysInner::num_weekdays_since(l, r));
}

#[test]
fn time_first_after_works_for_secs() {
    let mut seconds = Seconds::new(CopyRing::new(gen_range_mins_or_secs()));
    let now = Utc::now();

    let next = seconds.after(now.second() as u8);
    match next.1 {
        true => assert!((next.0 as u32) < now.second()),
        false => assert!((next.0 as u32) >= now.second()),
    }
}

#[test]
fn time_first_after_works_for_mins_no_overflow() {
    let mut minutes = Minutes::new(CopyRing::new(gen_range_mins_or_secs()));
    let now = Utc::now();

    let next = minutes.after(now.minute() as u8, false);
    match next.1 {
        true => assert!((next.0 as u32) < now.minute()),
        false => assert!((next.0 as u32) >= now.minute()),
    }
}

#[test]
fn time_first_after_works_for_mins_overflow() {
    let mut minutes = Minutes::new(CopyRing::new(gen_range_mins_or_secs()));
    for i in 0..60 {
        let now2 = i;

        let next = minutes.after(now2, true);
        match next.1 {
            true => assert!((next.0) < now2),
            false => assert!((next.0) >= now2),
        }
    }
}

#[test]
fn time_first_after_works_for_hours_overflow() {
    let mut hours = Hours::new(CopyRing::new(gen_range_hours()));
    for i in 0..24 {
        let now2 = i;

        let next = hours.after(now2, true);
        match next.1 {
            true => assert!((next.0) < now2),
            false => assert!((next.0) >= now2),
        }
    }
}
