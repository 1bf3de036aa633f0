use linkflow::dates::{
    add_days, days_in_month, format_date, is_leap_year, next_day, parse_date_ymd, parse_time_hm,
    weekday, Date, TimeOfDay,
};

fn date(year: u16, month: u8, day: u8) -> Date {
    Date { year, month, day }
}

#[test]
fn leap_years() {
    assert!(is_leap_year(2024));
    assert!(is_leap_year(2000));
    assert!(!is_leap_year(1900));
    assert!(!is_leap_year(2023));
}

#[test]
fn month_lengths() {
    assert_eq!(days_in_month(2024, 2), 29);
    assert_eq!(days_in_month(2023, 2), 28);
    assert_eq!(days_in_month(2024, 1), 31);
    assert_eq!(days_in_month(2024, 4), 30);
    assert_eq!(days_in_month(2024, 12), 31);
}

#[test]
fn parse_valid_dates() {
    assert_eq!(parse_date_ymd("2024-01-31"), Some(date(2024, 1, 31)));
    assert_eq!(parse_date_ymd("2024-02-29"), Some(date(2024, 2, 29)));
    assert_eq!(parse_date_ymd("0001-01-01"), Some(date(1, 1, 1)));
    assert_eq!(parse_date_ymd("9999-12-31"), Some(date(9999, 12, 31)));
}

#[test]
fn parse_rejects_bad_dates() {
    assert_eq!(parse_date_ymd("2023-02-29"), None);
    assert_eq!(parse_date_ymd("2024-13-01"), None);
    assert_eq!(parse_date_ymd("2024-00-10"), None);
    assert_eq!(parse_date_ymd("2024-04-31"), None);
    assert_eq!(parse_date_ymd("2024-1-3"), None);
    assert_eq!(parse_date_ymd("2024/01/03"), None);
    assert_eq!(parse_date_ymd(""), None);
    assert_eq!(parse_date_ymd("not-a-date"), None);
}

#[test]
fn parse_valid_times() {
    assert_eq!(
        parse_time_hm("09:30"),
        Some(TimeOfDay { hour: 9, minute: 30 })
    );
    assert_eq!(
        parse_time_hm("00:00"),
        Some(TimeOfDay { hour: 0, minute: 0 })
    );
    assert_eq!(
        parse_time_hm("23:59"),
        Some(TimeOfDay { hour: 23, minute: 59 })
    );
}

#[test]
fn parse_rejects_bad_times() {
    assert_eq!(parse_time_hm("24:00"), None);
    assert_eq!(parse_time_hm("12:60"), None);
    assert_eq!(parse_time_hm("9:30"), None);
    assert_eq!(parse_time_hm("09.30"), None);
    assert_eq!(parse_time_hm(""), None);
}

#[test]
fn format_writes_four_and_two_digits() {
    assert_eq!(format_date(date(2024, 1, 3)), "2024-01-03");
    assert_eq!(format_date(date(987, 11, 30)), "0987-11-30");
    assert_eq!(format_date(date(2024, 12, 31)), "2024-12-31");
}

#[test]
fn weekdays_are_sunday_based() {
    // 2024-01-03 was a Wednesday, 2024-01-07 a Sunday, 2000-01-01 a Saturday.
    assert_eq!(weekday(date(2024, 1, 3)), 3);
    assert_eq!(weekday(date(2024, 1, 7)), 0);
    assert_eq!(weekday(date(2000, 1, 1)), 6);
    assert_eq!(weekday(date(2024, 2, 29)), 4);
}

#[test]
fn next_day_rolls_over() {
    assert_eq!(next_day(date(2024, 1, 31)), Some(date(2024, 2, 1)));
    assert_eq!(next_day(date(2024, 2, 28)), Some(date(2024, 2, 29)));
    assert_eq!(next_day(date(2023, 2, 28)), Some(date(2023, 3, 1)));
    assert_eq!(next_day(date(2023, 12, 31)), Some(date(2024, 1, 1)));
    assert_eq!(next_day(date(9999, 12, 31)), None);
}

#[test]
fn add_days_steps_through_months() {
    assert_eq!(add_days(date(2024, 1, 3), 5), Some(date(2024, 1, 8)));
    assert_eq!(add_days(date(2024, 2, 27), 3), Some(date(2024, 3, 1)));
    assert_eq!(add_days(date(2024, 1, 1), 0), Some(date(2024, 1, 1)));
    assert_eq!(add_days(date(9999, 12, 30), 2), None);
}
