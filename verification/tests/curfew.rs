use chrono::{Duration, TimeZone, Utc};
use redfolder::curfew::{
    next_weekend_window, parse_time, weekend_window_at, weekend_window_for_mode, weekend_window_title,
    weekend_window_title_for_mode, WeekendMode,
};
use redfolder::error::RedFolderError;
use redfolder::time::{UtcTime, MINUTE};

fn utc(t: chrono::DateTime<Utc>) -> UtcTime {
    UtcTime::from_unix(t.timestamp(), t.timestamp_subsec_nanos())
}

fn ymd_hm(y: i32, m: u32, d: u32, h: u32, min: u32) -> chrono::DateTime<Utc> {
    Utc.with_ymd_and_hms(y, m, d, h, min, 0).unwrap()
}

#[test]
fn test_parse_time() {
    assert_eq!(parse_time("20:30").unwrap(), (20, 30));
    assert_eq!(parse_time("00:00").unwrap(), (0, 0));
    assert_eq!(parse_time("23:59").unwrap(), (23, 59));
    assert!(parse_time("24:00").is_err());
    assert!(parse_time("2030").is_err());
    assert!(parse_time("abc:def").is_err());
}

#[test]
fn test_next_weekend_window_short_mode() {
    let (start, end) = next_weekend_window("20:30", "21:00", "short").unwrap();
    assert!(start < end);
    assert_eq!((end.nanos - start.nanos) / MINUTE, 30);
}

#[test]
fn test_next_weekend_window_weekend_mode() {
    let (start, end) = next_weekend_window("20:30", "21:00", "weekend").unwrap();
    assert!(start < end);
    // Friday 20:30 UTC to Monday 00:00 UTC is 51.5 hours
    assert_eq!((end.nanos - start.nanos) / MINUTE, 51 * 60 + 30);
}

#[test]
fn test_weekend_window_title() {
    assert_eq!(
        weekend_window_title("20:30", "21:00", "weekend"),
        "Weekend Blackout (Market Close)"
    );
    assert_eq!(
        weekend_window_title("20:30", "21:00", "short"),
        "Weekend Curfew (20:30-21:00 UTC)"
    );
}

#[test]
fn test_next_weekend_window_invalid_mode() {
    let err = next_weekend_window("20:30", "21:00", "weeknd").unwrap_err();
    assert!(matches!(err, RedFolderError::Curfew(_)));
    assert!(err.to_string().contains("invalid weekend mode 'weeknd'"));

    assert!("short".parse::<WeekendMode>().is_ok());
    assert!("weekend".parse::<WeekendMode>().is_ok());
    assert!("WEEKEND".parse::<WeekendMode>().is_ok());
    assert!("invalid".parse::<WeekendMode>().is_err());
}

#[test]
fn test_weekend_window_exact_end_boundary() {
    // Friday 2026-06-05 20:30 UTC to Monday 2026-06-08 00:00 UTC
    let fri_start = ymd_hm(2026, 6, 5, 20, 30);
    let mon_end = ymd_hm(2026, 6, 8, 0, 0);

    // One second before Monday midnight: still in current weekend window
    let just_before = mon_end - Duration::seconds(1);
    let (start1, end1) = weekend_window_at(utc(just_before), "20:30", "21:00", "weekend").unwrap();
    assert_eq!(start1, utc(fri_start));
    assert_eq!(end1, utc(mon_end));

    // Exactly at Monday 00:00:00 UTC: window has ended, must return next weekend's window
    let (start2, end2) = weekend_window_at(utc(mon_end), "20:30", "21:00", "weekend").unwrap();
    assert_eq!(start2, utc(fri_start + Duration::days(7)));
    assert_eq!(end2, utc(mon_end + Duration::days(7)));
}

#[test]
fn times_are_read_leniently_but_not_loosely() {
    assert_eq!(parse_time(" 7 : 5 ").unwrap(), (7, 5));
    assert_eq!(parse_time("+7:05").unwrap(), (7, 5));
    for bad in ["", ":", "7", "7:", ":30", "1:2:3", "12:60", "-1:00", "7:3a", "99999999999999999999:0"] {
        match parse_time(bad) {
            Err(RedFolderError::ParseTime(s)) => assert_eq!(s, bad),
            other => panic!("{bad}: {other:?}"),
        }
    }
    assert_eq!(
        parse_time("x").unwrap_err().to_string(),
        "Failed to parse time string 'x': expected format HH:MM (e.g. '20:30')"
    );
}

#[test]
fn short_curfew_rolls_over_to_saturday() {
    let friday = ymd_hm(2026, 6, 5, 23, 30);
    let (start, end) = weekend_window_at(utc(friday), "23:00", "01:00", "short").unwrap();
    assert_eq!(start, utc(ymd_hm(2026, 6, 5, 23, 0)));
    assert_eq!(end, utc(ymd_hm(2026, 6, 6, 1, 0)));
    // On Saturday, before its end, it is the same curfew.
    let saturday = ymd_hm(2026, 6, 6, 0, 59);
    assert_eq!(weekend_window_at(utc(saturday), "23:00", "01:00", "short").unwrap(), (start, end));
    // Equal times make a curfew of a whole day.
    let (s, e) = weekend_window_at(utc(friday), "21:00", "21:00", "short").unwrap();
    assert_eq!((e.nanos - s.nanos) / MINUTE, 24 * 60);
}

#[test]
fn every_weekday_leads_to_the_right_friday() {
    // 2026-06-01 is a Monday.
    for day in 1..=5u32 {
        let at = utc(ymd_hm(2026, 6, day, 12, 0));
        let (start, end) = weekend_window_for_mode(at, "20:30", "21:00", WeekendMode::Short).unwrap();
        assert_eq!(start, utc(ymd_hm(2026, 6, 5, 20, 30)));
        assert_eq!(end, utc(ymd_hm(2026, 6, 5, 21, 0)));
    }
    for day in 6..=7u32 {
        let at = utc(ymd_hm(2026, 6, day, 12, 0));
        let (start, _) = weekend_window_for_mode(at, "20:30", "21:00", WeekendMode::Short).unwrap();
        assert_eq!(start, utc(ymd_hm(2026, 6, 12, 20, 30)));
    }
    // Before 1970, too.
    let old = utc(ymd_hm(1969, 12, 29, 12, 0));
    let (start, _) = weekend_window_for_mode(old, "20:30", "21:00", WeekendMode::Short).unwrap();
    assert_eq!(start, utc(ymd_hm(1970, 1, 2, 20, 30)));
}

#[test]
fn curfew_errors_come_in_order() {
    let at = utc(ymd_hm(2026, 6, 1, 0, 0));
    assert!(matches!(weekend_window_at(at, "x", "y", "z"), Err(RedFolderError::Curfew(_))));
    assert!(matches!(weekend_window_at(at, "x", "y", "short"), Err(RedFolderError::ParseTime(s)) if s == "x"));
    assert!(matches!(weekend_window_at(at, "20:30", "y", "short"), Err(RedFolderError::ParseTime(s)) if s == "y"));
    // The end time is not read in weekend mode.
    assert!(weekend_window_at(at, "20:30", "y", "weekend").is_ok());
}

#[test]
fn modes_compare_and_convert() {
    assert_eq!(WeekendMode::default(), WeekendMode::Short);
    assert!(WeekendMode::Short == "SHORT");
    assert!("weekend" == WeekendMode::Weekend);
    assert!(WeekendMode::Weekend == "Weekend".to_string());
    assert!("short".to_string() == WeekendMode::Short);
    assert_eq!(String::from(WeekendMode::Weekend), "weekend");
    assert_eq!(AsRef::<str>::as_ref(&WeekendMode::Short), "short");
    assert_eq!(WeekendMode::try_from("Short").unwrap(), WeekendMode::Short);
    assert_eq!(WeekendMode::try_from("weekend".to_string()).unwrap(), WeekendMode::Weekend);
    assert!(WeekendMode::try_from("").is_err());
    assert_eq!(
        weekend_window_title_for_mode("1:00", "2:00", WeekendMode::Short),
        "Weekend Curfew (1:00-2:00 UTC)"
    );
    assert_eq!(weekend_window_title("1:00", "2:00", "bogus"), "Weekend Curfew (1:00-2:00 UTC)");
}
