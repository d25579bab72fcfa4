use chrono::{Datelike, NaiveDate, TimeZone, Utc};
use redfolder::calendar::{
    classify_timing, date_to_utc_start, parse_event_datetime, parse_event_datetime_with_tz,
    parse_event_timing, RawCalendarEvent, TimingReadings,
};
use redfolder::time::{CalendarDate, LocalTime, Moment, TimeSpan, UtcTime};
use redfolder::types::EventTiming;
use redfolder::zone::{pick_instant, resolve_local, SourceZone};

fn event(title: &str, country: &str, date: &str, time: &str, impact: &str) -> RawCalendarEvent {
    RawCalendarEvent {
        title: title.to_string(),
        country: country.to_string(),
        date: date.to_string(),
        time: time.to_string(),
        impact: impact.to_string(),
    }
}

fn on(date: &str, time: &str) -> RawCalendarEvent {
    event("Release", "USD", date, time, "High")
}

fn chrono_time(t: Moment) -> chrono::DateTime<Utc> {
    let secs = t.time.nanos.div_euclid(1_000_000_000) as i64;
    let nanos = t.time.nanos.rem_euclid(1_000_000_000) as u32;
    if t.lag == 0 {
        chrono::DateTime::from_timestamp(secs, nanos).unwrap()
    } else {
        chrono::DateTime::from_timestamp(secs - 1, nanos + 2_000_000_000 - t.lag).unwrap()
    }
}

fn shown(t: Moment) -> String {
    chrono_time(t).to_rfc3339()
}

fn rfc3339(t: UtcTime) -> String {
    shown(Moment::plain(t))
}

fn new_york() -> Option<SourceZone> {
    SourceZone::from_name("America/New_York")
}

fn date(y: i32, m: u32, d: u32) -> CalendarDate {
    CalendarDate { days_from_ce: NaiveDate::from_ymd_opt(y, m, d).unwrap().num_days_from_ce() }
}

fn exact(raw: &RawCalendarEvent, zone: &Option<SourceZone>) -> String {
    shown(parse_event_timing(raw, zone).unwrap().exact_time().unwrap())
}

#[test]
fn test_parse_rfc3339_datetime() {
    let raw = event("US Non-Farm Payrolls", "USD", "2026-06-05T12:30:00-04:00", "", "High");
    let parsed = parse_event_datetime(&raw).expect("should parse rfc3339");
    assert_eq!(shown(parsed), "2026-06-05T16:30:00+00:00");
}

#[test]
fn test_parse_ampm_datetime() {
    let raw = event("US CPI", "USD", "06-10-2026", "8:30am", "High");
    let parsed = parse_event_datetime(&raw).expect("should parse date + ampm");
    assert_eq!(shown(parsed), "2026-06-10T08:30:00+00:00");
}

#[test]
fn test_all_day_and_tentative_parsing() {
    let all_day = event("OPEC-JMMC Meetings", "ALL", "2026-06-15", "All Day", "High");
    assert!(all_day.is_all_day());
    let parsed_all_day = parse_event_datetime(&all_day).expect("should parse all-day event");
    assert_eq!(shown(parsed_all_day), "2026-06-15T00:00:00+00:00");

    let tentative = event("Chinese Trade Balance", "CNY", "2026-07-10", "Tentative", "Medium");
    assert!(tentative.is_tentative());
    let parsed_tentative = parse_event_datetime(&tentative).expect("should parse tentative event");
    assert_eq!(shown(parsed_tentative), "2026-07-10T00:00:00+00:00");
}

#[test]
fn test_dst_boundary_parsing() {
    // Winter: US Eastern Standard Time (UTC-5)
    let winter = event("US CPI (Winter)", "USD", "2026-01-15T08:30:00-05:00", "", "High");
    let parsed_winter = parse_event_datetime(&winter).unwrap();
    // 08:30 EST (-05:00) is 13:30 UTC
    assert_eq!(shown(parsed_winter), "2026-01-15T13:30:00+00:00");

    // Summer: US Eastern Daylight Time (UTC-4)
    let summer = event("US CPI (Summer)", "USD", "2026-07-15T08:30:00-04:00", "", "High");
    let parsed_summer = parse_event_datetime(&summer).unwrap();
    // 08:30 EDT (-04:00) is 12:30 UTC
    assert_eq!(shown(parsed_summer), "2026-07-15T12:30:00+00:00");
}

#[test]
fn test_dst_spring_forward_gap_shift() {
    // America/New_York on 2026-03-08 jumps from 02:00:00 EST to 03:00:00 EDT.
    // 02:30:00 local time does not exist.
    let raw = event("Sunday Special Announcement", "USD", "03-08-2026", "2:30am", "High");
    let timing = parse_event_timing(&raw, &new_york()).expect("should resolve DST gap by shifting");
    let dt = timing.exact_time().expect("should be exact time");
    // Shifted +1h to 03:30 EDT (-04:00) => 07:30 UTC.
    // Silently falling back to UTC would have produced 02:30 UTC!
    assert_eq!(shown(dt), "2026-03-08T07:30:00+00:00");
}

#[test]
fn test_dst_fall_back_ambiguous() {
    // America/New_York on 2026-11-01 falls back from 02:00:00 EDT to 01:00:00 EST.
    // 01:30:00 local time occurs twice: first at 05:30 UTC (EDT), then at 06:30 UTC (EST).
    let raw = event("Fall-Back Release", "USD", "11-01-2026", "1:30am", "High");
    let timing = parse_event_timing(&raw, &new_york()).expect("should resolve ambiguous time");
    let dt = timing.exact_time().expect("should be exact time");
    // Safe conservative policy chooses earliest instant: 05:30 UTC
    assert_eq!(shown(dt), "2026-11-01T05:30:00+00:00");
}

#[test]
fn test_date_only_event_without_time_is_tentative() {
    let raw = event("G7 Summit", "ALL", "2026-08-15", "", "High");
    let timing = parse_event_timing(&raw, &None).expect("should parse date-only event");
    assert!(
        timing.is_tentative(),
        "date-only event without time must be tentative, not exact midnight"
    );
    assert!(
        !timing.is_exact(),
        "date-only event must not fabricate an exact midnight timestamp"
    );
    assert_eq!(timing, EventTiming::TentativeDate(date(2026, 8, 15)));
}

#[test]
fn test_date_with_embedded_time_and_empty_time_field() {
    let raw = event("Embedded Datetime", "USD", "2026-08-15 14:30", "", "High");
    let timing = parse_event_timing(&raw, &None).expect("should parse embedded datetime");
    assert!(
        timing.is_exact(),
        "date containing explicit time must be parsed as exact"
    );
    let dt = timing.exact_time().unwrap();
    assert_eq!(shown(dt), "2026-08-15T14:30:00+00:00");
}

#[test]
fn every_date_format_is_read() {
    for text in ["2026-08-15", "08-15-2026", "08/15/2026", "2026/08/15", "  2026-08-15  "] {
        assert_eq!(
            parse_event_timing(&on(text, "tentative"), &None),
            Some(EventTiming::TentativeDate(date(2026, 8, 15))),
            "{text}"
        );
        assert_eq!(
            parse_event_timing(&on(text, " "), &None),
            Some(EventTiming::TentativeDate(date(2026, 8, 15)))
        );
        assert_eq!(
            parse_event_timing(&on(text, "Day 2"), &None),
            Some(EventTiming::AllDay(date(2026, 8, 15)))
        );
    }
    assert_eq!(
        parse_event_timing(&on("2026-08-15 All Day", ""), &None),
        Some(EventTiming::AllDay(date(2026, 8, 15)))
    );
}

#[test]
fn every_date_and_time_format_is_read() {
    let afternoon = "2026-08-15T14:30:00+00:00";
    assert_eq!(exact(&on("08-15-2026", "2:30pm"), &None), afternoon);
    assert_eq!(exact(&on("2026-08-15", "2:30pm"), &None), afternoon);
    assert_eq!(exact(&on("08/15/2026", "2:30pm"), &None), afternoon);
    assert_eq!(exact(&on("2026/08/15", "2:30pm"), &None), afternoon);
    assert_eq!(exact(&on("08-15-2026", "14:30"), &None), afternoon);
    assert_eq!(exact(&on("2026-08-15", "14:30"), &None), afternoon);
    assert_eq!(exact(&on("2026-08-15T14:30:00", ""), &None), afternoon);
    assert_eq!(exact(&on("2026-08-15", "14:30:00"), &None), afternoon);
    assert_eq!(exact(&on("2026-08-15T14:30:00Z", "ignored"), &None), afternoon);
    assert_eq!(exact(&on("2026-08-15T16:30:00.250+02:00", ""), &None), "2026-08-15T14:30:00.250+00:00");
}

#[test]
fn what_cannot_be_read_has_no_time() {
    for (d, t) in [("", "8:30am"), ("   ", ""), ("soon", ""), ("2026-13-40", "8:30am"), ("2026-08-15", "noonish")] {
        assert_eq!(parse_event_timing(&on(d, t), &None), None, "{d} {t}");
        assert_eq!(parse_event_datetime(&on(d, t)), None);
    }
    // Marked all-day, but with no date that can be read: nothing else is left to read.
    assert_eq!(parse_event_timing(&on("tomorrow", "All Day"), &None), None);
}

#[test]
fn days_begin_at_midnight_of_the_source() {
    let zone = new_york();
    let start = date_to_utc_start(date(2026, 7, 4), &zone).unwrap();
    assert_eq!(rfc3339(start), "2026-07-04T04:00:00+00:00");
    let winter = date_to_utc_start(date(2026, 1, 4), &zone).unwrap();
    assert_eq!(rfc3339(winter), "2026-01-04T05:00:00+00:00");
    assert_eq!(rfc3339(date_to_utc_start(date(2026, 7, 4), &None).unwrap()), "2026-07-04T00:00:00+00:00");
    let holiday = on("2026-07-04", "All Day");
    assert_eq!(parse_event_datetime_with_tz(&holiday, &zone), Some(Moment::plain(start)));
    // Clocks of Sao Paulo skipped the midnight of 2018-11-04: the day began at one o'clock.
    let sao_paulo = SourceZone::from_name("America/Sao_Paulo");
    let skipped = date_to_utc_start(date(2018, 11, 4), &sao_paulo).unwrap();
    assert_eq!(rfc3339(skipped), "2018-11-04T03:00:00+00:00");
}

#[test]
fn zones_are_known_by_their_names() {
    assert!(SourceZone::from_name("Mars/Olympus").is_none());
    let zone = SourceZone::from_name("Europe/London").unwrap();
    assert_eq!(zone.name(), "Europe/London");
    assert_eq!(zone.clone(), zone);
    let noon = Utc.with_ymd_and_hms(2026, 7, 1, 12, 0, 0).unwrap();
    let local = LocalTime { nanos: noon.timestamp() as i128 * 1_000_000_000 };
    let found = resolve_local(local, &Some(zone)).unwrap();
    assert_eq!(rfc3339(found), "2026-07-01T11:00:00+00:00");
    assert_eq!(resolve_local(local, &None), Some(UtcTime { nanos: local.nanos }));
}

#[test]
fn the_earliest_reading_is_taken() {
    let (a, b, c) = (UtcTime { nanos: 1 }, UtcTime { nanos: 2 }, UtcTime { nanos: 3 });
    assert_eq!(pick_instant(&vec![a, b], &vec![c]), Some(a));
    assert_eq!(pick_instant(&vec![], &vec![b, c]), Some(b));
    assert_eq!(pick_instant(&vec![], &vec![]), None);
}

#[test]
fn readings_are_classified_in_order() {
    let day = date(2026, 8, 15);
    let all = TimingReadings {
        has_date: true,
        has_time: false,
        all_day: true,
        tentative: true,
        leading_date: Some(day),
        whole_date: Some(day),
        stamp: Some(Moment::plain(UtcTime { nanos: 1 })),
        local: Some(Moment::plain(UtcTime { nanos: 2 })),
    };
    assert_eq!(classify_timing(TimingReadings { has_date: false, ..all }), None);
    assert_eq!(classify_timing(all), Some(EventTiming::AllDay(day)));
    let tentative = TimingReadings { all_day: false, ..all };
    assert_eq!(classify_timing(tentative), Some(EventTiming::TentativeDate(day)));
    let stamped = TimingReadings { tentative: false, ..tentative };
    assert_eq!(classify_timing(stamped), Some(EventTiming::Exact(Moment::plain(UtcTime { nanos: 1 }))));
    let dated = TimingReadings { stamp: None, ..stamped };
    assert_eq!(classify_timing(dated), Some(EventTiming::TentativeDate(day)));
    let timed = TimingReadings { has_time: true, ..dated };
    assert_eq!(classify_timing(timed), Some(EventTiming::Exact(Moment::plain(UtcTime { nanos: 2 }))));
    assert_eq!(classify_timing(TimingReadings { local: None, ..timed }), None);
}

#[test]
fn instants_and_spans_are_whole_numbers() {
    let t = UtcTime::from_unix(86_399, 999_999_999);
    assert_eq!(t.date(), date(1970, 1, 1));
    assert_eq!(UtcTime { nanos: t.nanos + 1 }.date(), date(1970, 1, 2));
    assert_eq!(UtcTime { nanos: -1 }.date(), date(1969, 12, 31));
    assert_eq!(t.plus_minutes(-1), t.minus_minutes(1));
    assert_eq!(t.plus_hours(2).nanos - t.nanos, 7_200_000_000_000);
    assert!(t.is_in_range() && !UtcTime { nanos: i128::MAX }.is_in_range());
    assert_eq!(TimeSpan::from_millis(1500).nanos, 1_500_000_000);
    assert_eq!(TimeSpan::from_secs(2).nanos, 2_000_000_000);
    assert_eq!(rfc3339(UtcTime::from_unix(0, 0)), "1970-01-01T00:00:00+00:00");
    assert!(redfolder::time::utc_now() > UtcTime::from_unix(1_700_000_000, 0));
}

#[test]
fn events_are_told_apart_by_their_texts() {
    assert!(on("2026-08-15", "ALL DAY").is_all_day());
    assert!(on("2026-08-15", " day 1 ").is_all_day());
    assert!(!on("2026-08-15", "today 1").is_all_day());
    assert!(on("All Day 2026-08-15", "").is_all_day());
    assert!(on("2026-08-15", " TENTATIVE ").is_tentative());
    assert!(!on("2026-08-15", "tentatively").is_tentative());
    let raw = on("2026-08-15", "x");
    assert_eq!(raw.clone(), raw);
}

/// Instants in leap seconds, and close to them, on several days.
fn moments() -> Vec<chrono::DateTime<Utc>> {
    let mut all = vec![];
    for (secs, frac) in [
        (1_483_228_799, 0),
        (1_483_228_799, 999_999_999),
        (1_483_228_799, 1_000_000_000),
        (1_483_228_799, 1_250_000_000),
        (1_483_228_799, 1_999_999_999),
        (1_483_228_800, 0),
        (1_483_228_800, 1),
        (1_483_228_800 + 599, 1_500_000_000),
        (1_483_228_800 + 43_200, 500_000_000),
        (1_483_228_800 - 43_200, 500_000_000),
        (1_435_708_799, 1_750_000_000),
        (-1, 1_000_000_000),
    ] {
        all.push(chrono::DateTime::from_timestamp(secs, frac).unwrap());
    }
    all
}

fn moment(t: chrono::DateTime<Utc>) -> Moment {
    Moment::from_unix(t.timestamp(), t.timestamp_subsec_nanos())
}

#[test]
fn moments_are_reckoned_with_leap_seconds() {
    for a in moments() {
        assert_eq!(chrono_time(moment(a)), a);
        for minutes in [0, 1, 5, 30, 1440, -1, -30, -1440, 100_000] {
            let span = chrono::Duration::minutes(minutes);
            assert_eq!(chrono_time(moment(a).plus_minutes(minutes)), a + span, "{a} {minutes}");
            assert_eq!(chrono_time(moment(a).minus_minutes(minutes)), a - span, "{a} {minutes}");
        }
        for b in moments() {
            let nanos = (a - b).num_nanoseconds().unwrap() as i128;
            assert_eq!(moment(a).since(moment(b)), nanos, "{a} {b}");
            assert_eq!(moment(a).not_after(moment(b)), a <= b, "{a} {b}");
        }
    }
}

#[test]
fn leap_seconds_are_read_off_texts() {
    let zone = new_york();
    let stamped = parse_event_datetime(&on("2016-12-31T18:59:60.250-05:00", "")).unwrap();
    assert_eq!(shown(stamped), "2016-12-31T23:59:60.250+00:00");
    assert_eq!(stamped.lag, 750_000_000);
    let local = on("2016-12-31", "18:59:60");
    assert_eq!(shown(parse_event_datetime_with_tz(&local, &zone).unwrap()), "2016-12-31T23:59:60+00:00");
    assert_eq!(shown(parse_event_datetime(&local).unwrap()), "2016-12-31T18:59:60+00:00");
    // In the hour that clocks skip, the reading one hour later is meant, where it is no leap second.
    let skipped = on("2026-03-08", "02:29:60");
    assert_eq!(shown(parse_event_datetime_with_tz(&skipped, &zone).unwrap()), "2026-03-08T07:29:59+00:00");
}
