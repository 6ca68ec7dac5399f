use bucklog::timestamp::{
    default_time_format, elapsed_whole_seconds, format_timestamp, leap_year, month_days,
    parse_timestamp, unix_seconds, Timestamp,
};

fn ts(year: i16, month: u8, day: u8, hour: u8, minute: u8, second: u8, offset_hour: i8) -> Timestamp {
    Timestamp { year, month, day, hour, minute, second, offset_hour }
}

fn time_parse(s: &str) -> Option<time::OffsetDateTime> {
    let items = time::format_description::parse(default_time_format()).unwrap();
    time::OffsetDateTime::parse(s, &items).ok()
}

#[test]
fn parses_a_timestamp() {
    assert_eq!(parse_timestamp("2024-05-01T12:30:45 +03"), Some(ts(2024, 5, 1, 12, 30, 45, 3)));
    assert_eq!(parse_timestamp("1999-12-31T23:59:59 -11"), Some(ts(1999, 12, 31, 23, 59, 59, -11)));
}

#[test]
fn parses_signed_years() {
    assert_eq!(parse_timestamp("+2024-05-01T12:30:45 +03"), Some(ts(2024, 5, 1, 12, 30, 45, 3)));
    assert_eq!(parse_timestamp("-0044-03-15T12:00:00 +01"), Some(ts(-44, 3, 15, 12, 0, 0, 1)));
    assert_eq!(parse_timestamp("-0000-01-01T00:00:00 +00"), Some(ts(0, 1, 1, 0, 0, 0, 0)));
}

#[test]
fn rejects_malformed_texts() {
    for s in [
        "",
        "2024-05-01T12:30:45",
        "2024-05-01T12:30:45 03",
        "2024-05-01 12:30:45 +03",
        "2024-5-01T12:30:45 +03",
        "24-05-01T12:30:45 +03",
        "2024-05-01T12:30:45 +03 ",
        " 2024-05-01T12:30:45 +03",
        "2024-05-01T12:30:45 +3",
        "2024/05/01T12:30:45 +03",
        "2024-05-01T12:30:4x +03",
        "++2024-05-01T12:30:45 +03",
        "20245-05-01T12:30:45 +03",
    ] {
        assert_eq!(parse_timestamp(s), None, "{}", s);
    }
}

#[test]
fn rejects_impossible_dates_and_times() {
    for s in [
        "2023-02-29T00:00:00 +00",
        "1900-02-29T00:00:00 +00",
        "2024-13-01T00:00:00 +00",
        "2024-00-01T00:00:00 +00",
        "2024-04-31T00:00:00 +00",
        "2024-01-00T00:00:00 +00",
        "2024-01-01T24:00:00 +00",
        "2024-01-01T00:60:00 +00",
        "2024-01-01T00:00:60 +00",
        "2024-01-01T00:00:00 +26",
        "2024-01-01T00:00:00 -26",
    ] {
        assert_eq!(parse_timestamp(s), None, "{}", s);
    }
}

#[test]
fn accepts_leap_days_and_extreme_offsets() {
    assert_eq!(parse_timestamp("2000-02-29T00:00:00 +25"), Some(ts(2000, 2, 29, 0, 0, 0, 25)));
    assert_eq!(parse_timestamp("2024-02-29T00:00:00 -25"), Some(ts(2024, 2, 29, 0, 0, 0, -25)));
}

#[test]
fn formats_timestamps() {
    assert_eq!(format_timestamp(&ts(2024, 5, 1, 12, 30, 45, 3)), "2024-05-01T12:30:45 +03");
    assert_eq!(format_timestamp(&ts(7, 1, 2, 3, 4, 5, 0)), "0007-01-02T03:04:05 +00");
    assert_eq!(format_timestamp(&ts(-44, 3, 15, 12, 0, 0, -1)), "-0044-03-15T12:00:00 -01");
}

#[test]
fn format_then_parse_gives_the_timestamp_back() {
    for t in [
        ts(2024, 5, 1, 12, 30, 45, 3),
        ts(-9999, 1, 1, 0, 0, 0, -25),
        ts(9999, 12, 31, 23, 59, 59, 25),
        ts(0, 2, 29, 1, 2, 3, 0),
    ] {
        assert_eq!(parse_timestamp(&format_timestamp(&t)), Some(t));
    }
}

#[test]
fn agrees_with_the_time_crate() {
    let samples = [
        "2024-05-01T12:30:45 +03",
        "+2024-05-01T12:30:45 +03",
        "-0044-03-15T12:00:00 +01",
        "2023-02-29T00:00:00 +00",
        "2024-02-29T00:00:00 -25",
        "2024-01-01T00:00:00 +26",
        "2024-01-01T00:00:60 +00",
        "2024-01-01T24:00:00 +00",
        "2024-04-31T00:00:00 +00",
        "2024-05-01T12:30:45 03",
        "2024-05-01T12:30:45 +03 ",
        "2024-05-01T12:30:45 -00",
        "9999-12-31T23:59:59 +00",
        "0000-01-01T00:00:00 +00",
    ];
    for s in samples {
        let ours = parse_timestamp(s);
        let theirs = time_parse(s);
        assert_eq!(ours.is_some(), theirs.is_some(), "{}", s);
        if let (Some(o), Some(t)) = (ours, theirs) {
            assert_eq!(o.year as i32, t.year(), "{}", s);
            assert_eq!(o.month, t.month() as u8, "{}", s);
            assert_eq!(o.day, t.day(), "{}", s);
            assert_eq!(o.hour, t.hour(), "{}", s);
            assert_eq!(o.minute, t.minute(), "{}", s);
            assert_eq!(o.second, t.second(), "{}", s);
            assert_eq!(o.offset_hour, t.offset().whole_hours(), "{}", s);
            assert_eq!(unix_seconds(&o), t.unix_timestamp(), "{}", s);
            let items = time::format_description::parse(default_time_format()).unwrap();
            assert_eq!(format_timestamp(&o), t.format(&items).unwrap(), "{}", s);
        }
    }
}

#[test]
fn every_day_of_a_leap_cycle_agrees_with_the_time_crate() {
    let items = time::format_description::parse(default_time_format()).unwrap();
    for year in [1600i16, 1899, 1900, 1970, 1999, 2000, 2023, 2024, -1, -400] {
        for month in 1u8..=12 {
            for day in 1u8..=31 {
                let t = ts(year, month, day, 13, 14, 15, -7);
                let s = format_timestamp(&Timestamp { day: 1, ..t }).replacen("-01T", &format!("-{:02}T", day), 1);
                let ours = parse_timestamp(&s);
                let theirs = time::OffsetDateTime::parse(&s, &items).ok();
                assert_eq!(ours.is_some(), theirs.is_some(), "{}", s);
                if let (Some(o), Some(t)) = (ours, theirs) {
                    assert_eq!(unix_seconds(&o), t.unix_timestamp(), "{}", s);
                }
            }
        }
    }
}

#[test]
fn unix_seconds_of_known_moments() {
    assert_eq!(unix_seconds(&ts(1970, 1, 1, 0, 0, 0, 0)), 0);
    assert_eq!(unix_seconds(&ts(2000, 1, 1, 0, 0, 0, 0)), 946_684_800);
    assert_eq!(unix_seconds(&ts(1970, 1, 1, 3, 0, 0, 3)), 0);
    assert_eq!(unix_seconds(&ts(1969, 12, 31, 23, 59, 59, 0)), -1);
}

#[test]
fn elapsed_seconds_round_toward_zero() {
    let t = ts(1970, 1, 1, 0, 0, 10, 0);
    assert_eq!(elapsed_whole_seconds(&t, 15, 0), 5);
    assert_eq!(elapsed_whole_seconds(&t, 15, 999_999_999), 5);
    assert_eq!(elapsed_whole_seconds(&t, 9, 500_000_000), 0);
    assert_eq!(elapsed_whole_seconds(&t, 5, 0), -5);
    assert_eq!(elapsed_whole_seconds(&t, 5, 1), -4);
}

#[test]
fn leap_years_and_month_lengths() {
    assert!(leap_year(2000));
    assert!(!leap_year(1900));
    assert!(leap_year(2024));
    assert!(!leap_year(2023));
    assert!(leap_year(-4));
    assert_eq!(month_days(2024, 2), 29);
    assert_eq!(month_days(2023, 2), 28);
    assert_eq!(month_days(2023, 4), 30);
    assert_eq!(month_days(2023, 12), 31);
}

#[test]
fn the_format_description() {
    assert_eq!(
        default_time_format(),
        "[year]-[month]-[day]T[hour]:[minute]:[second] [offset_hour sign:mandatory]"
    );
}

#[test]
fn validity_check() {
    assert!(ts(2024, 2, 29, 0, 0, 0, 0).is_valid());
    assert!(!ts(2023, 2, 29, 0, 0, 0, 0).is_valid());
    assert!(!ts(2023, 1, 1, 0, 0, 0, 26).is_valid());
}
