use chrono::{Timelike, Utc};
use cronsched::schedule::table::fields::date::{Days, Months};
use cronsched::schedule::table::fields::time::{Hours, Minutes, Seconds};
use cronsched::schedule::table::fields::{Cache, Date};
use cronsched::CopyRing;
use rand::Rng;

const THRESHOLD: i32 = 50;
const UPPER: i32 = 100;

fn gen_range_mins_or_secs() -> Vec<u8> {
    let mut v = vec![];
    let mut rng = rand::thread_rng();
    for i in 0u8..60 {
        if rng.gen::<i32>() % UPPER > THRESHOLD {
            v.push(i)
        }
    }
    if v.is_empty() {
        v.push(rng.gen::<u8>() % 60)
    }
    v
}

fn gen_range_hours() -> Vec<u8> {
    let mut v = vec![];
    let mut rng = rand::thread_rng();
    for i in 0u8..24 {
        if rng.gen::<i32>() % UPPER > THRESHOLD {
            v.push(i)
        }
    }
    if v.is_empty() {
        v.push(rng.gen::<u8>() % 24)
    }
    v
}

#[test]
fn fields_next_weekday_from_last_works() {
    let start = 0;
    let n = 7;
    assert_eq!(0, Days::next_weekday_from_last(start, n));

    let start = 1;
    let n = 13;
    assert_eq!(0, Days::next_weekday_from_last(start, n));

    let start = 5;
    let n = 0;
    assert_eq!(5, Days::next_weekday_from_last(start, n));
}

#[test]
fn fields_days_between_weekdays_works() {
    let l = 0;
    let r = 1;
    assert_eq!(1, Days::num_weekdays_since(l, r));

    let l = 5;
    let r = 1;
    assert_eq!(3, Days::num_weekdays_since(l, r));

    let l = 2;
    let r = 6;
    assert_eq!(4, Days::num_weekdays_since(l, r));

    let l = 6;
    let r = 5;
    assert_eq!(6, Days::num_weekdays_since(l, r));
}

#[test]
fn fields_first_after_works_for_secs() {
    let mut seconds = Seconds::new(CopyRing::new(gen_range_mins_or_secs()));
    let now = Utc::now();

    let next = seconds.first_after(now.second() as u8);
    match next.1 {
        true => assert!((next.0 as u32) < now.second()),
        false => assert!((next.0 as u32) >= now.second()),
    }
}

#[test]
fn fields_next_for_seconds() {
    let mut secs = Seconds::new(CopyRing::new(gen_range_mins_or_secs()));
    let mut rng = rand::thread_rng();
    let s = rng.gen::<u8>() % 60;
    let first = secs.first_after(s);
    println!("First after {} seconds: {:?}", s, first);
    println!("{:?}", secs.next());
}

#[test]
fn fields_first_after_works_for_mins_no_overflow() {
    let mut minutes = Minutes::new(CopyRing::new(gen_range_mins_or_secs()));
    let now = Utc::now();

    let next = minutes.first_after(now.minute() as u8, false);
    match next.1 {
        true => assert!((next.0 as u32) < now.minute()),
        false => assert!((next.0 as u32) >= now.minute()),
    }
}

#[test]
fn fields_first_after_works_for_mins_overflow() {
    let mut minutes = Minutes::new(CopyRing::new(gen_range_mins_or_secs()));
    for i in 0..60 {
        let now2 = i;

        let next = minutes.first_after(now2, true);
        match next.1 {
            true => assert!((next.0) < now2),
            false => assert!((next.0) >= now2),
        }
    }
}

#[test]
fn fields_first_after_works_for_hours_overflow() {
    let mut hours = Hours::new(CopyRing::new(gen_range_hours()));
    for i in 0..24 {
        let now2 = i;

        let next = hours.first_after(now2, true);
        match next.1 {
            true => assert!((next.0) < now2),
            false => assert!((next.0) >= now2),
        }
    }
}

#[test]
fn fields_first_after_for_leap_day() {
    let mut d = Date {
        days: Days::Month(CopyRing::new(vec![28, 29])),
        months: Months::new(CopyRing::new(vec![2])),
        year: Some(2024),
        cache: Cache::new(),
    };

    let f = d.first_after(false, 24, 6, 6, 2023);
    if let Some(f) = f {
        println!("{:?}", f);
    } else {
        println!("Couldn't get next date");
    }
}
