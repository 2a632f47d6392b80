use pulls_since::pulls::date_arg;
use pulls_since::{parse_date, parse_date_in_year, Date, InputError, Predicate};

fn d(year: i32, month: u32, day: u32) -> Date {
    Date { year, month, day }
}

#[test]
fn slash_form() {
    assert_eq!(parse_date_in_year("2017/07/14", 2024), Some(d(2017, 7, 14)));
    assert_eq!(parse_date("2017/07/14"), Some(d(2017, 7, 14)));
}

#[test]
fn dotted_form() {
    assert_eq!(parse_date_in_year("14.07.2017", 2024), Some(d(2017, 7, 14)));
    assert_eq!(parse_date("14.07.2017"), Some(d(2017, 7, 14)));
}

#[test]
fn day_and_month_take_the_given_year() {
    assert_eq!(parse_date_in_year("14.07", 2024), Some(d(2024, 7, 14)));
    assert_eq!(parse_date_in_year("29.02", 2023), None);
    assert_eq!(parse_date_in_year("29.02", 2024), Some(d(2024, 2, 29)));
}

#[test]
fn day_and_month_take_the_current_year() {
    let r = parse_date("14.07").expect("a date");
    assert_eq!((r.month, r.day), (7, 14));
    assert!(r.year >= 2024);
}

#[test]
fn rejects_garbage() {
    assert_eq!(parse_date_in_year("yesterday", 2024), None);
    assert_eq!(parse_date_in_year("2017/13/01", 2024), None);
    assert_eq!(parse_date("yesterday"), None);
}

#[test]
fn date_arguments() {
    assert_eq!(date_arg(None), Ok(None));
    assert_eq!(date_arg(Some("2017/07/14")), Ok(Some(d(2017, 7, 14))));
    assert_eq!(date_arg(Some("soon")), Err(InputError::BadDate("soon".to_string())));
}

#[test]
fn predicate_from_arguments() {
    let p = Predicate::from_args(Some("01.07.2017"), None, Some("bot")).expect("valid");
    assert_eq!(p.since, Some(d(2017, 7, 1)));
    assert_eq!(p.until, None);
    assert_eq!(p.exclude_login.as_deref(), Some("bot"));
    let e = Predicate::from_args(None, Some("later"), None).unwrap_err();
    assert_eq!(e, InputError::BadDate("later".to_string()));
    let e = Predicate::from_args(Some("x"), Some("y"), None).unwrap_err();
    assert_eq!(e, InputError::BadDate("x".to_string()));
}

#[test]
fn date_order() {
    assert!(d(2017, 7, 14).is_before(&d(2017, 7, 15)));
    assert!(d(2016, 12, 31).is_before(&d(2017, 1, 1)));
    assert!(!d(2017, 7, 14).is_before(&d(2017, 7, 14)));
    assert!(!d(2017, 8, 1).is_before(&d(2017, 7, 30)));
}
