use lunch_tray::helsinki::{format_date_key, helsinki_date_key, last_sunday, summer_time_offset};
use time::{Date, Month};

fn instant(year: i32, month: Month, day: u8, hour: u8, minute: u8) -> i64 {
    Date::from_calendar_date(year, month, day)
        .unwrap()
        .with_hms(hour, minute, 0)
        .unwrap()
        .assume_utc()
        .unix_timestamp()
}

#[test]
fn uses_helsinki_date_in_winter_and_summer() {
    let winter = instant(2026, Month::January, 1, 22, 30);
    let summer = instant(2026, Month::July, 24, 21, 30);

    assert_eq!(helsinki_date_key(winter), "2026-01-02");
    assert_eq!(helsinki_date_key(summer), "2026-07-25");
}

#[test]
fn summer_time_starts_and_ends_on_the_last_sundays_at_one_utc() {
    assert_eq!(last_sunday(2026, 3), 29);
    assert_eq!(last_sunday(2026, 10), 25);
    assert_eq!(last_sunday(2025, 3), 30);
    assert_eq!(helsinki_date_key(instant(2026, Month::March, 28, 21, 30)), "2026-03-28");
    assert_eq!(helsinki_date_key(instant(2026, Month::March, 29, 21, 30)), "2026-03-30");
    assert_eq!(helsinki_date_key(instant(2026, Month::October, 24, 21, 30)), "2026-10-25");
    assert_eq!(helsinki_date_key(instant(2026, Month::October, 25, 21, 30)), "2026-10-25");
    assert_eq!(summer_time_offset(10, 10, 20), 3);
    assert_eq!(summer_time_offset(20, 10, 20), 2);
    assert_eq!(summer_time_offset(9, 10, 20), 2);
}

#[test]
fn date_keys_are_zero_padded() {
    assert_eq!(format_date_key(2026, 7, 5), "2026-07-05");
    assert_eq!(format_date_key(33, 12, 31), "0033-12-31");
    assert_eq!(format_date_key(-5, 1, 2), "-005-01-02");
    assert_eq!(format_date_key(-12345, 1, 2), "-12345-01-02");
    assert_eq!(format!("{:04}", -5), "-005");
}

#[test]
fn helsinki_dates_reach_the_ends_of_the_supported_years() {
    use_ends();
}

fn use_ends() {
    assert_eq!(lunch_tray::helsinki::helsinki_date_key(lunch_tray::helsinki::EARLIEST_INSTANT), "-9999-01-01");
    assert_eq!(lunch_tray::helsinki::helsinki_date_key(lunch_tray::helsinki::LATEST_INSTANT), "9999-12-31");
}
