use cronsched::clock::{CalendarDate, ClockTime, DateTimeParts, LocalDateTime};
use cronsched::schedule::{is_whitespace, split_words, Schedule};
use cronsched::ParseError;

#[test]
fn from_str_of_nothing_is_empty() {
    assert!(matches!(Schedule::from_str(""), Err(ParseError::Empty)));
    assert!(matches!(Schedule::from_str("  \t\n "), Err(ParseError::Empty)));
}

#[test]
fn from_str_reads_the_macros() {
    let hourly = Schedule::from_str("@hourly").unwrap();
    assert_eq!(hourly.fields.time.hours.0.period(), 24);
    let daily = Schedule::from_str(" @Daily ").unwrap();
    assert_eq!(daily.fields.time.hours.0.period(), 1);
    let weekly = Schedule::from_str("@w").unwrap();
    assert_eq!(weekly.fields.date.months.0.period(), 12);
}

#[test]
fn from_str_rejects_bad_macros() {
    assert!(matches!(Schedule::from_str("@"), Err(ParseError::InvalidMacro)));
    assert!(matches!(Schedule::from_str("@xyz"), Err(ParseError::InvalidMacro)));
    assert!(matches!(Schedule::from_str("hourly"), Err(ParseError::WrongNumberOfFields)));
}

#[test]
fn from_str_counts_fields() {
    assert!(matches!(Schedule::from_str("* *"), Err(ParseError::WrongNumberOfFields)));
    assert!(matches!(Schedule::from_str("1 2 3 4 5 6 7"), Err(ParseError::WrongNumberOfFields)));
}

#[test]
fn from_str_reports_a_bad_first_field() {
    assert!(matches!(Schedule::from_str("x;y * * * * *"), Err(ParseError::InvalidToken)));
    assert!(matches!(Schedule::from_str("1, * * * * *"), Err(ParseError::BadEnd)));
}

#[test]
fn words_split_on_white_space() {
    let cs: Vec<char> = " 00 16\t13,14\u{a0}* ".chars().collect();
    let words = split_words(&cs);
    assert_eq!(words.len(), 4);
    assert_eq!(words[0], vec!['0', '0']);
    assert_eq!(words[2], vec!['1', '3', ',', '1', '4']);
    assert!(is_whitespace('\u{3000}'));
    assert!(!is_whitespace('a'));
}

#[test]
fn hourly_after_goes_to_the_next_hour() {
    let mut s = Schedule::hourly();
    let when = DateTimeParts { year: 2023, month: 6, day: 15, weekday: 4, hour: 13, minute: 20, second: 30 };
    let next = s.after(&when);
    assert_eq!(
        next,
        Some(LocalDateTime {
            date: CalendarDate { year: 2023, month: 6, day: 15 },
            time: ClockTime { hour: 14, min: 0, sec: 0 },
        })
    );
}

#[test]
fn daily_after_goes_to_the_next_midnight() {
    let mut s = Schedule::daily();
    let when = DateTimeParts { year: 2023, month: 6, day: 15, weekday: 4, hour: 13, minute: 20, second: 30 };
    let next = s.after(&when);
    assert_eq!(
        next,
        Some(LocalDateTime {
            date: CalendarDate { year: 2023, month: 6, day: 16 },
            time: ClockTime { hour: 0, min: 0, sec: 0 },
        })
    );
}

#[test]
fn monthly_and_yearly_report_the_day_zero_build_error() {
    let e = cronsched::schedule::Schedule::monthly().unwrap_err();
    assert_eq!(e, cronsched::table::BuildError { time: None, date: Some(cronsched::table::Error::OutOfRange) });
    let e = cronsched::schedule::Schedule::yearly().unwrap_err();
    assert_eq!(e, cronsched::table::BuildError { time: None, date: Some(cronsched::table::Error::OutOfRange) });
}

#[test]
fn weekly_near_the_end_of_a_month_moves_to_the_next_sunday() {
    let mut s = Schedule::weekly();
    let when = DateTimeParts { year: 2023, month: 6, day: 28, weekday: 3, hour: 9, minute: 0, second: 0 };
    assert!(s.after_supported(&when));
    let r = s.after(&when).unwrap();
    assert_eq!(r.date, CalendarDate { year: 2023, month: 7, day: 2 });
    assert_eq!(r.time, ClockTime { hour: 0, min: 0, sec: 0 });
}

#[test]
fn after_is_not_supported_for_moments_out_of_range() {
    let s = Schedule::daily();
    let when = DateTimeParts { year: 2023, month: 13, day: 1, weekday: 0, hour: 0, minute: 0, second: 0 };
    assert!(!s.after_supported(&when));
    let when = DateTimeParts { year: 0, month: 1, day: 1, weekday: 6, hour: 0, minute: 0, second: 0 };
    assert!(!s.after_supported(&when));
    let when = DateTimeParts { year: 2023, month: 2, day: 29, weekday: 3, hour: 0, minute: 0, second: 0 };
    assert!(!s.after_supported(&when));
    let when = DateTimeParts { year: 2024, month: 2, day: 29, weekday: 4, hour: 0, minute: 0, second: 0 };
    assert!(s.after_supported(&when));
}
