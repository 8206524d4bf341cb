use file_sync::errors::SyncError;
use file_sync::time_utils::calculate_date_difference_utc;
use file_sync::time_utils::date_difference;
use file_sync::time_utils::format_yyyymmdd;
use file_sync::time_utils::get_current_utc_naivedate;
use file_sync::time_utils::get_current_utc_naivedate_str;
use file_sync::time_utils::get_current_utc_naivedatetime_str;
use file_sync::time_utils::get_currnet_utc_naivedatetime;
use file_sync::time_utils::get_str_from_naivedate;
use file_sync::time_utils::get_str_from_naivedatetime;
use file_sync::time_utils::parse_yyyymmdd;
use file_sync::time_utils::Date;
use file_sync::time_utils::DateTime;

fn date(y: i32, m: u32, d: u32) -> Date {
    Date {
        year: y,
        month: m,
        day: d,
    }
}

#[test]
fn formats_a_date_as_yyyymmdd() {
    assert_eq!(format_yyyymmdd(&date(2024, 6, 15)), "20240615");
    assert_eq!(format_yyyymmdd(&date(1, 1, 1)), "00010101");
    assert_eq!(format_yyyymmdd(&date(9999, 12, 31)), "99991231");
}

#[test]
fn get_str_from_naivedate_supports_only_yyyymmdd() {
    let d = date(2024, 6, 15);
    assert_eq!(get_str_from_naivedate(d, "%Y%m%d").unwrap(), "20240615");
    assert_eq!(
        get_str_from_naivedate(d, "%Y-%m-%d"),
        Err(SyncError::FormatError)
    );
}

#[test]
fn get_str_from_naivedatetime_formats() {
    let t = DateTime {
        date: date(2024, 6, 15),
        hour: 10,
        minute: 11,
        second: 12,
    };
    assert_eq!(
        get_str_from_naivedatetime(t, "%Y_%m_%d_%H%M%S").unwrap(),
        "2024_06_15_101112"
    );
    assert_eq!(
        get_str_from_naivedatetime(t, "%Y-%m-%dT%H:%M:%SZ").unwrap(),
        "2024-06-15T10:11:12Z"
    );
    assert_eq!(
        get_str_from_naivedatetime(t, "%d/%m/%Y"),
        Err(SyncError::FormatError)
    );
}

#[test]
fn parses_valid_bucket_names() {
    assert_eq!(parse_yyyymmdd("20240615"), Some(date(2024, 6, 15)));
    assert_eq!(parse_yyyymmdd("20240229"), Some(date(2024, 2, 29)));
}

#[test]
fn rejects_invalid_bucket_names() {
    assert_eq!(parse_yyyymmdd("20230229"), None, "2023 is no leap year");
    assert_eq!(parse_yyyymmdd("20241301"), None, "month 13");
    assert_eq!(parse_yyyymmdd("20240600"), None, "day 0");
    assert_eq!(parse_yyyymmdd("20240632"), None, "day 32");
    assert_eq!(parse_yyyymmdd("00000101"), None, "year 0");
    assert_eq!(parse_yyyymmdd("2024061"), None, "too short");
    assert_eq!(parse_yyyymmdd("202406155"), None, "too long");
    assert_eq!(parse_yyyymmdd("2024061x"), None, "not a digit");
    assert_eq!(parse_yyyymmdd(""), None);
}

#[test]
fn parse_inverts_format() {
    for d in [
        date(2024, 6, 15),
        date(2000, 2, 29),
        date(1, 1, 1),
        date(9999, 12, 31),
    ] {
        assert_eq!(parse_yyyymmdd(&format_yyyymmdd(&d)), Some(d));
    }
}

#[test]
fn day_differences() {
    assert_eq!(date_difference(&date(2024, 6, 15), &date(2024, 6, 7)), 8);
    assert_eq!(date_difference(&date(2024, 6, 15), &date(2024, 6, 15)), 0);
    assert_eq!(date_difference(&date(2024, 6, 7), &date(2024, 6, 15)), -8);
    assert_eq!(date_difference(&date(2024, 3, 1), &date(2024, 2, 28)), 2, "leap february");
    assert_eq!(date_difference(&date(2023, 3, 1), &date(2023, 2, 28)), 1);
    assert_eq!(date_difference(&date(2024, 1, 1), &date(2023, 1, 1)), 365);
    assert_eq!(date_difference(&date(2025, 1, 1), &date(2024, 1, 1)), 366);
}

#[test]
fn date_difference_against_the_clock() {
    assert_eq!(
        calculate_date_difference_utc("not-a-date"),
        Err(SyncError::ParseError)
    );
    let today = get_current_utc_naivedate();
    let today_str = format_yyyymmdd(&today);
    assert_eq!(calculate_date_difference_utc(&today_str).unwrap(), 0);
}

#[test]
fn clock_readings_are_valid() {
    let d = get_current_utc_naivedate();
    assert!((1..=12).contains(&d.month));
    assert!((1..=31).contains(&d.day));
    let t = get_currnet_utc_naivedatetime();
    assert!(t.hour < 24 && t.minute < 60 && t.second < 60);
}

#[test]
fn current_time_strings_have_the_expected_shape() {
    let s = get_current_utc_naivedate_str("%Y%m%d").unwrap();
    assert_eq!(s.len(), 8);
    assert!(s.chars().all(|c| c.is_ascii_digit()));
    assert_eq!(
        get_current_utc_naivedate_str("%Y"),
        Err(SyncError::FormatError)
    );
    let ts = get_current_utc_naivedatetime_str("%Y-%m-%dT%H:%M:%SZ").unwrap();
    assert_eq!(ts.len(), 20);
    assert!(ts.ends_with('Z'));
    let compact = get_current_utc_naivedatetime_str("%Y_%m_%d_%H%M%S").unwrap();
    assert_eq!(compact.len(), 17);
    assert_eq!(
        get_current_utc_naivedatetime_str("%H:%M"),
        Err(SyncError::FormatError)
    );
}

#[test]
fn error_messages_name_their_class() {
    for e in [
        SyncError::ConfigError,
        SyncError::IoError,
        SyncError::TransportError,
        SyncError::AccessDenied,
        SyncError::LockError,
        SyncError::FormatError,
        SyncError::ParseError,
        SyncError::InvalidDate,
    ] {
        assert!(!e.message().is_empty());
    }
}
