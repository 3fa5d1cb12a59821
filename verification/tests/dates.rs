//! Behavior of the calendar-date model and the date-format readers.

use breach_tracker::dates::{parse_iso_prefix, parse_mdy, parse_ymd_dots, prev_day, Date};

fn chars(s: &str) -> Vec<char> {
    s.chars().collect()
}

fn d(y: i32, m: u8, day: u8) -> Date {
    Date { year: y, month: m, day }
}

#[test]
fn mdy_dates_parse_exactly() {
    assert_eq!(parse_mdy(&chars("05/01/2024")), Some(d(2024, 5, 1)));
    assert_eq!(parse_mdy(&chars("5/1/2024")), Some(d(2024, 5, 1)));
    assert_eq!(parse_mdy(&chars("01/01/0001")), Some(d(1, 1, 1)));
    assert_eq!(parse_mdy(&chars("02/29/2024")), Some(d(2024, 2, 29)));
}

#[test]
fn mdy_rejects_what_the_calendar_rejects() {
    assert_eq!(parse_mdy(&chars("02/29/2023")), None);
    assert_eq!(parse_mdy(&chars("13/01/2024")), None);
    assert_eq!(parse_mdy(&chars("00/10/2024")), None);
    assert_eq!(parse_mdy(&chars("04/31/2024")), None);
    assert_eq!(parse_mdy(&chars("04/30")), None);
    assert_eq!(parse_mdy(&chars("4-30-2024")), None);
    assert_eq!(parse_mdy(&chars("")), None);
}

#[test]
fn ymd_dotted_dates_parse_exactly() {
    assert_eq!(parse_ymd_dots(&chars("2024/05.17")), Some(d(2024, 5, 17)));
    assert_eq!(parse_ymd_dots(&chars("2024-05-17")), None);
}

#[test]
fn iso_prefix_dates_parse_exactly() {
    assert_eq!(parse_iso_prefix(&chars("2024-01-02T00:00:00-08:00")), Some(d(2024, 1, 2)));
    assert_eq!(parse_iso_prefix(&chars("2024-01-02")), Some(d(2024, 1, 2)));
    // Too short: fewer than ten characters cannot carry a full date.
    assert_eq!(parse_iso_prefix(&chars("2024-1-2")), None);
}

#[test]
fn prev_day_handles_month_year_and_leap_boundaries() {
    assert_eq!(prev_day(&d(2024, 5, 2)), d(2024, 5, 1));
    assert_eq!(prev_day(&d(2024, 5, 1)), d(2024, 4, 30));
    assert_eq!(prev_day(&d(2024, 3, 1)), d(2024, 2, 29));
    assert_eq!(prev_day(&d(2023, 3, 1)), d(2023, 2, 28));
    assert_eq!(prev_day(&d(2024, 1, 1)), d(2023, 12, 31));
}

#[test]
fn date_order_is_lexicographic() {
    assert!(d(2024, 4, 20).lt(&d(2024, 5, 1)));
    assert!(d(2023, 12, 31).lt(&d(2024, 1, 1)));
    assert!(!d(2024, 5, 1).lt(&d(2024, 5, 1)));
    assert!(d(2024, 5, 1).le(&d(2024, 5, 1)));
}
