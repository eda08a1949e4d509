use prototool::datetime::{
    Date, DateTime, Time, add_days, datetime_after, dec_string, format_date_german,
    format_date_iso, format_datetime_machine, format_day_month, format_hour_minute, pad2, pad4,
    parse_date_iso,
};

fn date(y: u64, m: u64, d: u64) -> Date {
    Date { year: y, month: m, day: d }
}

fn datetime(y: u64, mo: u64, d: u64, h: u64, mi: u64, s: u64) -> DateTime {
    DateTime { date: date(y, mo, d), time: Time { hour: h, minute: mi, second: s } }
}

#[test]
fn pads_and_decimals() {
    assert_eq!(pad2(7), "07");
    assert_eq!(pad2(42), "42");
    assert_eq!(pad4(2022), "2022");
    assert_eq!(pad4(3), "0003");
    assert_eq!(dec_string(0), "0");
    assert_eq!(dec_string(12345), "12345");
}

#[test]
fn formats_are_exact() {
    let d = date(2022, 5, 27);
    assert_eq!(format_date_iso(&d), "2022-05-27");
    assert_eq!(format_date_german(&d), "27.05.2022");
    assert_eq!(format_day_month(&d), "27.05.");
    let t = Time { hour: 7, minute: 30, second: 15 };
    assert_eq!(format_hour_minute(&t), "07:30");
    assert_eq!(
        format_datetime_machine(&datetime(2022, 5, 27, 7, 30, 15)),
        "2022-05-27T07:30:15"
    );
}

#[test]
fn parse_accepts_exactly_the_rendered_form() {
    assert_eq!(parse_date_iso("2022-05-27"), Some(date(2022, 5, 27)));
    assert_eq!(parse_date_iso("2024-02-29"), Some(date(2024, 2, 29)));
    assert_eq!(parse_date_iso("2023-02-29"), None);
    assert_eq!(parse_date_iso("2022-13-01"), None);
    assert_eq!(parse_date_iso("2022-00-01"), None);
    assert_eq!(parse_date_iso("2022-05-32"), None);
    assert_eq!(parse_date_iso("22-05-27"), None);
    assert_eq!(parse_date_iso("2022/05/27"), None);
    assert_eq!(parse_date_iso("2022-05-2a"), None);
    assert_eq!(parse_date_iso(""), None);
}

#[test]
fn add_days_rolls_over_months_and_leap_years() {
    assert_eq!(add_days(date(2022, 5, 27), 4), Some(date(2022, 5, 31)));
    assert_eq!(add_days(date(2022, 5, 28), 4), Some(date(2022, 6, 1)));
    assert_eq!(add_days(date(2024, 2, 27), 4), Some(date(2024, 3, 2)));
    assert_eq!(add_days(date(2023, 2, 27), 4), Some(date(2023, 3, 3)));
    assert_eq!(add_days(date(2022, 12, 30), 4), Some(date(2023, 1, 3)));
    assert_eq!(add_days(date(9999, 12, 30), 4), None);
}

#[test]
fn ordering_is_field_wise() {
    let frist = datetime(2022, 5, 20, 0, 0, 0);
    assert!(datetime_after(&datetime(2022, 5, 20, 0, 0, 1), &frist));
    assert!(datetime_after(&datetime(2022, 5, 21, 0, 0, 0), &frist));
    assert!(!datetime_after(&frist, &frist));
    assert!(!datetime_after(&datetime(2022, 5, 17, 23, 59, 59), &frist));
}
