use cronsched::schedule::table::fields::{DateBuilder as SDateBuilder, TimeBuilder as STimeBuilder};
use cronsched::schedule::table::Error as SError;
use cronsched::table::{BuildError, Error, FieldTable};

#[test]
fn table_build_reports_both_halves() {
    let mut b = FieldTable::builder();
    b.with_secs_iter(vec![0]);
    let e = b.build().unwrap_err();
    assert_eq!(e, BuildError { time: Some(Error::MissingField), date: Some(Error::MissingField) });

    let mut b = FieldTable::builder();
    b.with_secs_iter(vec![0]).with_mins_iter(vec![60]).with_hours_iter(vec![0]);
    b.with_days_month_iter(vec![1]).with_months_iter(vec![1]);
    let e = b.build().unwrap_err();
    assert_eq!(e, BuildError { time: Some(Error::OutOfRange), date: None });

    let mut b = FieldTable::builder();
    b.with_secs_iter(vec![0]).with_mins_iter(vec![0]).with_hours_iter(vec![0]);
    b.with_days_week_iter(vec![]).with_months_iter(vec![1]);
    let e = b.build().unwrap_err();
    assert_eq!(e, BuildError { time: None, date: Some(Error::EmptyRing) });

    let mut b = FieldTable::builder();
    b.with_secs_iter(vec![0]).with_mins_iter(vec![0]).with_hours_iter(vec![0]);
    b.with_days_week_iter(vec![1]).with_days_month_iter(vec![2]).with_months_iter(vec![1]);
    assert!(b.build().is_ok());
}

#[test]
fn halves_of_the_second_table_build() {
    let mut t = STimeBuilder::new();
    assert!(matches!(t.build(), Err(SError::MissingField)));
    t.with_secs_iter(vec![0]).with_mins_iter(vec![0]).with_hours_iter(vec![24]);
    assert!(matches!(t.build(), Err(SError::OutOfRange)));
    let mut d = SDateBuilder::new();
    d.with_days_month_iter(vec![0]).with_months_iter(vec![1]);
    assert!(matches!(d.build(), Err(SError::OutOfRange)));
    let mut d = SDateBuilder::new();
    d.with_days_month_iter(vec![1, 31]).with_months_iter(vec![1, 12]);
    assert!(d.build().is_ok());
}
