use chrono::Datelike;
use smes::date::DartDate;
use smes::error::DateParseErrorKind;
use smes::{TypeError, YYYYMMDD};

#[test]
fn a_date_is_read_from_eight_digits() {
    let d = YYYYMMDD::parse("20240229").unwrap();
    assert_eq!(d.ymd(), (2024, 2, 29));
    let d: YYYYMMDD = "19991231".parse().unwrap();
    assert_eq!(d.ymd(), (1999, 12, 31));
    let d = YYYYMMDD::try_from("20230101").unwrap();
    assert_eq!(d.ymd(), (2023, 1, 1));
}

#[test]
fn an_impossible_date_is_refused() {
    assert!(matches!(YYYYMMDD::parse("20230229"), Err(TypeError::ChronoParse(_))));
    assert!(matches!(
        YYYYMMDD::parse("20231301"),
        Err(TypeError::ChronoParse(DateParseErrorKind::OutOfRange))
    ));
}

#[test]
fn a_malformed_date_is_refused() {
    assert!(matches!(
        YYYYMMDD::parse("2023-01-01"),
        Err(TypeError::ChronoParse(DateParseErrorKind::Invalid))
    ));
    assert!(matches!(YYYYMMDD::parse(""), Err(TypeError::ChronoParse(_))));
    assert!(matches!(
        YYYYMMDD::parse("20230101x"),
        Err(TypeError::ChronoParse(DateParseErrorKind::TooLong))
    ));
}

#[test]
fn a_dart_date_reads_like_a_date() {
    assert_eq!(DartDate::parse("20200415").unwrap().ymd(), (2020, 4, 15));
    assert!(DartDate::parse("20200431").is_err());
}

#[test]
fn a_date_is_made_from_a_chrono_date() {
    let date = chrono::NaiveDate::from_ymd_opt(2021, 7, 9).unwrap();
    assert_eq!(YYYYMMDD::new(date.year(), date.month(), date.day()).ymd(), (2021, 7, 9));
    assert_eq!(DartDate::new(date.year(), date.month(), date.day()).ymd(), (2021, 7, 9));
}

#[test]
fn dates_compare_and_clone() {
    let a = YYYYMMDD::parse("20200101").unwrap();
    let b = YYYYMMDD::parse("20201231").unwrap();
    assert!(a < b);
    assert_eq!(a.clone(), a);
}

#[test]
fn a_date_displays_as_chrono_does() {
    assert_eq!(YYYYMMDD::parse("20240105").unwrap().to_string(), "2024-01-05");
    assert_eq!(DartDate::parse("00010203").unwrap().to_string(), "0001-02-03");
    let far = chrono::NaiveDate::from_ymd_opt(12345, 6, 7).unwrap();
    assert_eq!(YYYYMMDD::new(far.year(), far.month(), far.day()).to_string(), far.to_string());
    let before = chrono::NaiveDate::from_ymd_opt(-44, 3, 15).unwrap();
    assert_eq!(DartDate::new(before.year(), before.month(), before.day()).to_string(), before.to_string());
    assert_eq!(DartDate::new(before.year(), before.month(), before.day()).to_string(), "-0044-03-15");
}
