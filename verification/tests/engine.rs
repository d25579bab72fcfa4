use chrono::{Duration, TimeZone, Utc};
use redfolder::calendar::RawCalendarEvent;
use redfolder::config::RedFolderConfig;
use redfolder::curfew::{next_weekend_window, WeekendMode};
use redfolder::engine::{
    current_window_for_config, event_matches_config, event_matches_economic_event,
    is_blackout_for_config, BlackoutEngine,
};
use redfolder::time::{Moment, UtcTime, HOUR, MINUTE};
use redfolder::types::{
    BlackoutWindow, CustomEventKind, EconomicEvent, EventTiming, FailSafeMode, WindowEvent,
};
use redfolder::zone::SourceZone;

fn utc(t: chrono::DateTime<Utc>) -> UtcTime {
    UtcTime::from_unix(t.timestamp(), t.timestamp_subsec_nanos())
}

fn moment(t: UtcTime) -> Moment {
    Moment::plain(t)
}

fn chrono_time(t: Moment) -> chrono::DateTime<Utc> {
    let secs = t.time.nanos.div_euclid(1_000_000_000) as i64;
    let nanos = t.time.nanos.rem_euclid(1_000_000_000) as u32;
    if t.lag == 0 {
        chrono::DateTime::from_timestamp(secs, nanos).unwrap()
    } else {
        chrono::DateTime::from_timestamp(secs - 1, nanos + 2_000_000_000 - t.lag).unwrap()
    }
}

fn raw(title: &str, country: &str, at: chrono::DateTime<Utc>, impact: &str) -> RawCalendarEvent {
    RawCalendarEvent {
        title: title.to_string(),
        country: country.to_string(),
        date: at.to_rfc3339(),
        time: String::new(),
        impact: impact.to_string(),
    }
}

/// A Wednesday at noon, away from any weekend.
fn noon() -> chrono::DateTime<Utc> {
    Utc.with_ymd_and_hms(2026, 6, 3, 12, 0, 0).unwrap()
}

fn quiet() -> RedFolderConfig {
    RedFolderConfig { weekend_enabled: false, ..Default::default() }
}

#[test]
fn test_overlapping_event_merging() {
    let now = Utc::now();
    let events = vec![
        raw("US CPI", "USD", now + Duration::minutes(60), "High"),
        raw("FOMC Rate Decision", "USD", now + Duration::minutes(90), "High"),
    ];

    let config = RedFolderConfig {
        weekend_enabled: false,
        ..Default::default()
    };
    let engine = BlackoutEngine::compile(&events, &[&config], utc(now));

    assert_eq!(engine.windows().len(), 1);
    let merged = &engine.windows()[0];
    assert_eq!(merged.events.len(), 2);
    assert_eq!(merged.duration_minutes(), 90);
}

#[test]
fn test_currency_and_impact_filtering() {
    let now = utc(Utc::now());
    let window = BlackoutWindow {
        start: moment(now.minus_minutes(10)),
        end: moment(now.plus_minutes(10)),
        events: vec![WindowEvent {
            is_custom: false,
            custom_kind: None,
            event_time: moment(now),
            country: "USD".into(),
            impact: "High".into(),
            title: "USD NFP".into(),
        }],
    };

    let usd_config = RedFolderConfig::builder()
        .currencies(vec!["USD"])
        .impacts(vec!["High"])
        .build();
    let eur_config = RedFolderConfig::builder()
        .currencies(vec!["EUR"])
        .impacts(vec!["High"])
        .build();

    assert!(is_blackout_for_config(
        &usd_config,
        std::slice::from_ref(&window),
        now
    ));
    assert!(!is_blackout_for_config(&eur_config, &[window], now));
}

#[test]
fn test_worker_specific_buffers_isolation() {
    let now = Utc::now();
    let event_time = now + Duration::minutes(15);
    let events = vec![raw("US Non-Farm Payrolls", "USD", event_time, "High")];

    // Scalper: 5 min before, 5 min after
    let scalper = RedFolderConfig::builder()
        .currencies(vec!["USD"])
        .impacts(vec!["High"])
        .buffer_minutes(5, 5)
        .weekend_curfew(false, "20:00", "21:00", "short")
        .build();

    // Swing: 30 min before, 30 min after
    let swing = RedFolderConfig::builder()
        .currencies(vec!["USD"])
        .impacts(vec!["High"])
        .buffer_minutes(30, 30)
        .weekend_curfew(false, "20:00", "21:00", "short")
        .build();

    let engine = BlackoutEngine::compile(&events, &[&scalper, &swing], utc(now));

    // At T=now (15 mins before event):
    // Scalper (5m buffer) must NOT be in blackout!
    assert!(!engine.is_blackout_at(&scalper, utc(now)));
    // Swing (30m buffer) MUST be in blackout!
    assert!(engine.is_blackout_at(&swing, utc(now)));

    // At T = event_time - 3 mins (3 mins before event):
    // Both workers should now be in blackout!
    let three_mins_before = utc(event_time - Duration::minutes(3));
    assert!(engine.is_blackout_at(&scalper, three_mins_before));
    assert!(engine.is_blackout_at(&swing, three_mins_before));

    // At T = event_time + 7 mins (7 mins after event):
    // Scalper's 5 min buffer has expired -> FALSE
    // Swing's 30 min buffer is still active -> TRUE
    let seven_mins_after = utc(event_time + Duration::minutes(7));
    assert!(!engine.is_blackout_at(&scalper, seven_mins_after));
    assert!(engine.is_blackout_at(&swing, seven_mins_after));

    // At T = event_time + 35 mins:
    // Neither is in blackout
    let thirty_five_mins_after = utc(event_time + Duration::minutes(35));
    assert!(!engine.is_blackout_at(&scalper, thirty_five_mins_after));
    assert!(!engine.is_blackout_at(&swing, thirty_five_mins_after));
}

#[test]
fn test_weekend_and_news_overlap() {
    // Find upcoming Friday 20:15 UTC (15 mins before weekend curfew at 20:30 UTC)
    let (curfew_start, _curfew_end) = next_weekend_window("20:30", "21:00", "weekend").unwrap();
    let news_time = chrono_time(moment(curfew_start)) - Duration::minutes(15);

    let events = vec![raw("Federal Budget Balance", "USD", news_time, "High")];

    let config = RedFolderConfig::builder()
        .currencies(vec!["USD"])
        .impacts(vec!["High"])
        .buffer_minutes(30, 30) // News blackout: curfew_start - 45m to curfew_start + 15m
        .merge_threshold(30)
        .weekend_curfew(true, "20:30", "21:00", "weekend")
        .build();

    let before = utc(news_time - Duration::hours(1));
    let engine = BlackoutEngine::compile(&events, &[&config], before);
    let windows = engine.windows_for_config(&config, before);

    // News window and curfew window overlap (curfew starts at 20:30, while news window ends at 20:45)
    // They must merge cleanly into a single continuous window
    assert_eq!(windows.len(), 1);
    let merged = &windows[0];
    // Start should be news start (news_time - 30m)
    assert_eq!(merged.start.time, utc(news_time - Duration::minutes(30)));
    // And window should contain both news and curfew events
    assert!(merged.events.len() >= 2);
}

#[test]
fn test_upcoming_blackouts_horizon_beyond_48h() {
    let now = Utc::now();
    let event_time = now + Duration::hours(60);

    let events = vec![raw("Extended Horizon Rate Decision", "USD", event_time, "High")];

    let config = RedFolderConfig::builder()
        .currencies(vec!["USD"])
        .impacts(vec!["High"])
        .weekend_curfew(false, "20:00", "21:00", "short")
        .build();

    let engine = BlackoutEngine::compile(&events, &[&config], utc(now));

    // Within 48 hours: should NOT be included
    let upcoming_48 = engine.upcoming_blackouts(&config, 48);
    assert_eq!(upcoming_48.len(), 0);

    // Within 72 hours: should be included and not silently truncated
    let upcoming_72 = engine.upcoming_blackouts(&config, 72);
    assert_eq!(upcoming_72.len(), 1);
    assert_eq!(
        upcoming_72[0].events[0].title,
        "Extended Horizon Rate Decision"
    );
}

#[test]
fn test_status_atomic_accessor() {
    let now = Utc::now();
    let events = vec![raw("CPI Release", "USD", now, "High")];

    let config = RedFolderConfig::builder()
        .currencies(vec!["USD"])
        .impacts(vec!["High"])
        .buffer_minutes(15, 15)
        .weekend_curfew(false, "20:00", "21:00", "short")
        .build();

    let engine = BlackoutEngine::compile(&events, &[&config], utc(now));

    let status = engine.status(&config);
    assert!(status.is_some());
    let win = status.unwrap();
    assert_eq!(win.events[0].title, "CPI Release");

    assert_eq!(
        engine.status_at(&config, utc(now)),
        engine.current_window_at(&config, utc(now))
    );
}

#[test]
fn test_fail_safe_closed_blackout() {
    let now = Utc::now();
    let empty_engine = BlackoutEngine::new();

    let fail_open_cfg = RedFolderConfig::builder()
        .weekend_curfew(false, "20:00", "21:00", "short")
        .fail_safe_mode(FailSafeMode::FailOpen)
        .build();

    let fail_closed_cfg = RedFolderConfig::builder()
        .weekend_curfew(false, "20:00", "21:00", "short")
        .fail_safe_mode(FailSafeMode::FailClosed)
        .build();

    // 1. On empty data, fail-open returns false, fail-closed returns true (safety halt)
    assert!(!empty_engine.is_blackout(&fail_open_cfg));
    assert!(empty_engine.is_blackout(&fail_closed_cfg));

    let status = empty_engine.status(&fail_closed_cfg);
    assert!(status.is_some());
    let safety_win = status.unwrap();
    assert!(safety_win
        .summary_title()
        .contains("Fail-Closed Safety Blackout"));
    assert!(safety_win.events.iter().all(|e| e.is_fail_closed_safety()
        && e.custom_kind == Some(CustomEventKind::FailClosedSafety)));

    // 2. On stale data, fail-closed returns true even if past events exist
    let past_raw = vec![raw("Old News", "USD", now - Duration::hours(50), "High")];

    let mut stale_engine = BlackoutEngine::compile(&past_raw, &[&fail_closed_cfg], utc(now));
    assert!(!stale_engine.is_blackout(&fail_closed_cfg)); // not stale yet

    stale_engine.set_stale(true);
    assert!(stale_engine.is_blackout(&fail_closed_cfg)); // now stale -> fail closed triggers
    let stale_status = stale_engine.status(&fail_closed_cfg);
    assert!(stale_status
        .unwrap()
        .summary_title()
        .contains("Calendar Data Stale"));
}

#[test]
fn test_multi_worker_isolation_and_filtering() {
    let now = Utc::now();
    // Raw event strictly for USD
    let events = vec![raw("US Retail Sales", "USD", now + Duration::minutes(2), "High")];

    // Simulate engine compile with mock event
    let compiled = BlackoutEngine::compile(
        &events,
        &[&RedFolderConfig {
            currencies: vec!["USD".into()],
            weekend_enabled: false,
            before_min: 5,
            after_min: 5,
            ..Default::default()
        }],
        utc(now),
    );

    assert_eq!(compiled.windows().len(), 1);

    // USD worker should be in blackout
    let usd_config = RedFolderConfig::builder().currencies(vec!["USD"]).build();
    let eur_config = RedFolderConfig::builder().currencies(vec!["EUR"]).build();

    assert!(compiled.is_blackout(&usd_config));
    // EUR worker should NOT be in blackout
    assert!(!compiled.is_blackout(&eur_config));
}

#[test]
fn test_custom_event_listener_callback() {
    let now = Utc::now();
    let events = vec![raw("Federal Reserve Chair Speech", "USD", now + Duration::minutes(8), "High")];

    let cfg = RedFolderConfig {
        currencies: vec!["USD".into()],
        weekend_enabled: false,
        before_min: 0,
        after_min: 15,
        ..Default::default()
    };
    let engine = BlackoutEngine::compile(&events, &[&cfg], utc(now));

    // Verify upcoming query matches correctly
    let upcoming = engine.upcoming_blackouts(&cfg, 2);
    assert_eq!(upcoming.len(), 1);
    assert_eq!(upcoming[0].summary_title(), "Federal Reserve Chair Speech");
}

#[test]
fn test_wildcard_currency_and_case_insensitivity() {
    let now = Utc::now();
    let events = vec![raw("Global Central Bank Forum", "ALL", now, "high")];

    let config = RedFolderConfig::builder()
        .currencies(vec!["GBP"])
        .impacts(vec!["High"])
        .weekend_curfew(false, "20:00", "21:00", "short")
        .build();

    let engine = BlackoutEngine::compile(&events, &[&config], utc(now));
    assert!(engine.is_blackout(&config));
}

#[test]
fn blackout_lasts_from_its_start_up_to_its_end() {
    let events = vec![raw("CPI", "USD", noon(), "High")];
    let cfg = RedFolderConfig { before_min: 10, after_min: 20, ..quiet() };
    let engine = BlackoutEngine::from_events(&events);
    let at = |minutes: i64| utc(noon() + Duration::minutes(minutes));
    assert!(!engine.is_blackout_at(&cfg, UtcTime { nanos: at(-10).nanos - 1 }));
    assert!(engine.is_blackout_at(&cfg, at(-10)));
    assert!(engine.is_blackout_at(&cfg, UtcTime { nanos: at(20).nanos - 1 }));
    assert!(!engine.is_blackout_at(&cfg, at(20)));
    let w = engine.current_window_at(&cfg, at(0)).unwrap();
    assert_eq!((w.start, w.end), (moment(at(-10)), moment(at(20))));
    assert_eq!(w.events[0].event_time, moment(at(0)));
    assert_eq!((w.events[0].country.as_str(), w.events[0].impact.as_str()), ("USD", "High"));
    // Without a buffer before it, the window starts at the event.
    let bare = RedFolderConfig { before_min: 0, ..cfg };
    assert_eq!(engine.current_window_at(&bare, at(0)).unwrap().start, moment(at(0)));
    assert!(!engine.is_blackout_at(&bare, at(-1)));
}

#[test]
fn windows_closer_than_the_threshold_are_merged() {
    let events = vec![
        raw("Third", "USD", noon() + Duration::minutes(121), "High"),
        raw("First", "USD", noon(), "High"),
        raw("Second", "USD", noon() + Duration::minutes(40), "High"),
    ];
    let cfg = RedFolderConfig { before_min: 5, after_min: 5, merge_threshold_min: 30, ..quiet() };
    let engine = BlackoutEngine::from_events(&events);
    let windows = engine.windows_for_config(&cfg, utc(noon() - Duration::hours(1)));
    // The gap of 30 minutes is bridged, that of 71 minutes is not.
    assert_eq!(windows.len(), 2);
    assert_eq!(windows[0].duration_minutes(), 50);
    assert_eq!(windows[0].summary_title(), "First (+1 events)");
    assert_eq!(windows[1].summary_title(), "Third");
    assert!(windows[1].start.time.nanos - windows[0].end.time.nanos > 30 * MINUTE);
    // The bridged gap belongs to the window, as of the gap itself too.
    let gap = utc(noon() + Duration::minutes(20));
    assert!(windows[0].is_active_at(gap));
    assert!(engine.is_blackout_at(&cfg, gap));
    assert_eq!(engine.windows_for_config(&cfg, gap), windows);
    let last = utc(noon() + Duration::minutes(45));
    assert!(!engine.is_blackout_at(&cfg, last));
    assert_eq!(engine.windows_for_config(&cfg, last).len(), 2);
    assert_eq!(engine.windows_for_config(&cfg, utc(noon() + Duration::minutes(46))).len(), 1);
    let strict = RedFolderConfig { merge_threshold_min: 29, ..cfg };
    assert_eq!(engine.windows_for_config(&strict, utc(noon() - Duration::hours(1))).len(), 3);
}

#[test]
fn a_long_window_swallows_a_short_one() {
    let events = vec![
        RawCalendarEvent { time: "All Day".to_string(), date: "2026-06-03".to_string(), ..raw("Holiday", "USD", noon(), "High") },
        raw("CPI", "USD", noon(), "High"),
    ];
    let cfg = RedFolderConfig { include_all_day: true, ..quiet() };
    let engine = BlackoutEngine::from_events(&events);
    let windows = engine.windows_for_config(&cfg, utc(noon()));
    assert_eq!(windows.len(), 1);
    assert_eq!(windows[0].duration_minutes(), 24 * 60);
    assert_eq!(windows[0].events[0].title, "Holiday [All Day]");
    assert_eq!(windows[0].events[1].title, "CPI");
}

#[test]
fn days_block_only_where_they_are_asked_for() {
    let day = |time: &str| RawCalendarEvent {
        time: time.to_string(),
        date: "2026-06-03".to_string(),
        ..raw("Summit", "USD", noon(), "High")
    };
    let engine = BlackoutEngine::from_events(&[day("All Day"), day("Tentative"), day("")]);
    assert_eq!(engine.parsed_events().len(), 3);
    assert!(!engine.is_blackout_at(&quiet(), utc(noon())));
    let all_day = RedFolderConfig { include_all_day: true, ..quiet() };
    let w = engine.current_window_at(&all_day, utc(noon())).unwrap();
    assert_eq!(w.events.len(), 1);
    let tentative = RedFolderConfig { include_tentative: true, ..quiet() };
    let w = engine.current_window_at(&tentative, utc(noon())).unwrap();
    assert_eq!(w.events.len(), 2);
    assert_eq!(w.events[0].title, "Summit [Tentative]");
    // The day is that of the source: here it begins four hours later.
    let zone = SourceZone::from_name("America/New_York");
    let eastern = BlackoutEngine::from_events_with_tz(&[day("All Day")], zone.clone());
    assert_eq!(eastern.timezone(), zone);
    let midnight = Utc.with_ymd_and_hms(2026, 6, 3, 0, 0, 0).unwrap();
    assert!(!eastern.is_blackout_at(&all_day, utc(midnight + Duration::hours(3))));
    assert!(eastern.is_blackout_at(&all_day, utc(midnight + Duration::hours(4))));
    assert!(eastern.is_blackout_at(&all_day, utc(midnight + Duration::hours(27))));
    assert!(!eastern.is_blackout_at(&all_day, utc(midnight + Duration::hours(28))));
}

#[test]
fn disabled_workers_are_never_blocked() {
    let off = RedFolderConfig { enabled: false, fail_safe_mode: FailSafeMode::FailClosed, ..Default::default() };
    let engine = BlackoutEngine::new().with_stale(true);
    let friday = utc(Utc.with_ymd_and_hms(2026, 6, 5, 20, 45, 0).unwrap());
    assert!(engine.windows_for_config(&off, friday).is_empty());
    assert!(!engine.is_blackout_at(&off, friday));
    assert!(engine.current_window_at(&off, friday).is_none());
    let on = RedFolderConfig { enabled: true, ..off };
    assert!(engine.is_blackout_at(&on, friday));
}

#[test]
fn curfew_blocks_whatever_is_watched() {
    let cfg = RedFolderConfig::builder().currencies(vec!["XAU"]).impacts(vec!["Low"]).build();
    let engine = BlackoutEngine::new();
    let friday = Utc.with_ymd_and_hms(2026, 6, 5, 20, 30, 0).unwrap();
    assert!(!engine.is_blackout_at(&cfg, utc(friday - Duration::seconds(1))));
    let w = engine.current_window_at(&cfg, utc(friday)).unwrap();
    assert_eq!(w.summary_title(), "Weekend Curfew (20:30-21:00 UTC)");
    let e = &w.events[0];
    assert!(e.is_custom && e.is_weekend_curfew());
    assert_eq!((e.country.as_str(), e.impact.as_str()), ("Global", "High"));
    assert!(!engine.is_blackout_at(&cfg, utc(friday + Duration::minutes(30))));
    // A curfew that cannot be worked out blocks nothing.
    let broken = RedFolderConfig { weekend_start: "x".to_string(), ..cfg };
    assert!(engine.windows_for_config(&broken, utc(friday)).is_empty());
}

#[test]
fn safety_window_surrounds_the_time_asked_for() {
    let cfg = RedFolderConfig { fail_safe_mode: FailSafeMode::FailClosed, ..quiet() };
    let at = utc(noon());
    let w = BlackoutEngine::new().current_window_at(&cfg, at).unwrap();
    assert_eq!(w.start.time.nanos, at.nanos - HOUR);
    assert_eq!(w.end.time.nanos, at.nanos + 24 * HOUR);
    assert_eq!(w.summary_title(), "Calendar Data Unavailable (Fail-Closed Safety Blackout)");
    let stale = BlackoutEngine::new().with_stale(true);
    assert!(stale.is_stale());
    assert_eq!(
        stale.current_window_at(&cfg, at).unwrap().summary_title(),
        "Calendar Data Stale (Fail-Closed Safety Blackout)"
    );
    // A worker that fails open does not care.
    assert!(!stale.is_blackout_at(&quiet(), at));
}

#[test]
fn past_events_are_dropped_at_their_end() {
    let events = vec![raw("CPI", "USD", noon(), "High")];
    let cfg = RedFolderConfig { before_min: 5, after_min: 10, ..quiet() };
    let engine = BlackoutEngine::from_events(&events);
    let at = |minutes: i64| utc(noon() + Duration::minutes(minutes));
    assert_eq!(engine.windows_for_config(&cfg, at(10)).len(), 1);
    assert_eq!(engine.windows_for_config(&cfg, UtcTime { nanos: at(10).nanos + 1 }).len(), 0);
}

#[test]
fn compiled_windows_are_pooled_by_start() {
    let events = vec![
        raw("US", "USD", noon() + Duration::hours(3), "High"),
        raw("EU", "EUR", noon() + Duration::hours(1), "High"),
    ];
    let usd = quiet();
    let eur = RedFolderConfig { currencies: vec!["EUR".into()], ..quiet() };
    let off = RedFolderConfig { enabled: false, currencies: vec!["All".into()], ..quiet() };
    let now = utc(noon());
    let engine = BlackoutEngine::compile(&events, &[&usd, &eur, &off], now);
    let titles: Vec<String> = engine.windows().iter().map(|w| w.summary_title()).collect();
    assert_eq!(titles, vec!["EU", "US"]);
    // With no worker the default configuration is compiled; it watches the curfew as well.
    let alone = BlackoutEngine::compile(&events, &[], now);
    assert_eq!(alone.windows().len(), 2);
    assert_eq!(alone.windows()[0].summary_title(), "US");
    assert!(engine.has_events() && engine.has_windows() && !engine.is_empty());
    assert!(BlackoutEngine::default().is_empty());
    assert_eq!(engine.raw_events().len(), 2);
    // Whatever an engine was compiled for, each worker's windows are its own.
    assert_eq!(engine.windows_for_config(&usd, now), alone.windows_for_config(&usd, now));
    assert_eq!(engine.clone().windows(), engine.windows());
}

#[test]
fn unreadable_events_are_left_out() {
    let mut broken = raw("Broken", "USD", noon(), "High");
    broken.date = "whenever".to_string();
    let engine = BlackoutEngine::from_events(&[broken, raw("CPI", "USD", noon(), "High")]);
    assert_eq!(engine.raw_events().len(), 2);
    assert_eq!(engine.parsed_events().len(), 1);
    let parsed = &engine.parsed_events()[0];
    assert_eq!(parsed.title, "CPI");
    assert_eq!(parsed.datetime, moment(utc(noon())));
    assert_eq!(parsed.timing, EventTiming::Exact(moment(utc(noon()))));
}

#[test]
fn upcoming_windows_start_within_the_horizon() {
    let events = vec![
        raw("Now", "USD", noon(), "High"),
        raw("Soon", "USD", noon() + Duration::hours(4), "High"),
        raw("Later", "USD", noon() + Duration::hours(9), "High"),
    ];
    let cfg = RedFolderConfig { before_min: 0, after_min: 1, ..quiet() };
    let engine = BlackoutEngine::from_events(&events);
    let titles = |hours: u32| -> Vec<String> {
        engine.upcoming_blackouts_at(&cfg, utc(noon()), hours).iter().map(|w| w.summary_title()).collect()
    };
    assert_eq!(titles(3), vec!["Now"]);
    assert_eq!(titles(4), vec!["Now", "Soon"]);
    assert_eq!(titles(100), vec!["Now", "Soon", "Later"]);
    // A window that has begun is not upcoming.
    let later = UtcTime { nanos: utc(noon()).nanos + 1 };
    assert_eq!(engine.upcoming_blackouts_at(&cfg, later, 3).len(), 0);
}

#[test]
fn filters_match_names_and_aliases() {
    let watched = |country: &str, impact: &str, cfg: &RedFolderConfig| {
        let event = EconomicEvent {
            title: "x".to_string(),
            country: country.to_string(),
            impact: impact.to_string(),
            datetime: moment(utc(noon())),
            timing: EventTiming::Exact(moment(utc(noon()))),
        };
        event_matches_economic_event(&event, cfg)
    };
    let usd = RedFolderConfig::default();
    assert!(watched("USD", "High", &usd));
    assert!(watched("usd", "red", &usd));
    assert!(watched("Global", "HIGH", &usd));
    assert!(!watched("EUR", "High", &usd));
    assert!(!watched("USD", "Medium", &usd));
    let all = RedFolderConfig::builder().currencies(vec!["all"]).impacts(vec!["med", "Orange"]).build();
    assert!(watched("EUR", "Medium", &all));
    assert!(watched("JPY", "ORANGE", &all));
    assert!(!watched("JPY", "Low", &all));
}

#[test]
fn custom_events_match_by_their_origin() {
    let custom = |kind: Option<CustomEventKind>| WindowEvent {
        is_custom: true,
        custom_kind: kind,
        event_time: moment(utc(noon())),
        country: "Global".to_string(),
        impact: "High".to_string(),
        title: "x".to_string(),
    };
    let curfew = custom(Some(CustomEventKind::WeekendCurfew));
    let safety = custom(Some(CustomEventKind::FailClosedSafety));
    let closed = RedFolderConfig { fail_safe_mode: FailSafeMode::FailClosed, ..quiet() };
    assert!(event_matches_config(&curfew, &RedFolderConfig::default()));
    assert!(!event_matches_config(&curfew, &quiet()));
    assert!(event_matches_config(&custom(None), &RedFolderConfig::default()));
    assert!(event_matches_config(&safety, &closed));
    assert!(!event_matches_config(&safety, &RedFolderConfig::default()));
    assert!(!event_matches_config(&safety, &RedFolderConfig { enabled: false, ..closed }));
}

#[test]
fn given_windows_are_narrowed_to_what_is_watched() {
    let event = |country: &str| WindowEvent {
        is_custom: false,
        custom_kind: None,
        event_time: moment(utc(noon())),
        country: country.to_string(),
        impact: "High".to_string(),
        title: country.to_string(),
    };
    let at = utc(noon());
    let windows = vec![
        BlackoutWindow { start: moment(at.minus_minutes(9)), end: moment(at), events: vec![event("USD")] },
        BlackoutWindow { start: moment(at), end: moment(at.plus_minutes(5)), events: vec![event("EUR"), event("USD")] },
    ];
    let cfg = quiet();
    let found = current_window_for_config(&cfg, &windows, at).unwrap();
    assert_eq!((found.start.time, found.end.time), (at, at.plus_minutes(5)));
    assert_eq!(found.events, vec![event("USD")]);
    assert!(is_blackout_for_config(&cfg, &windows, at));
    assert!(current_window_for_config(&cfg, &windows, at.plus_minutes(5)).is_none());
    let jpy = RedFolderConfig { currencies: vec!["JPY".into()], ..quiet() };
    assert!(current_window_for_config(&jpy, &windows, at).is_none());
    let off = RedFolderConfig { enabled: false, ..quiet() };
    assert!(!is_blackout_for_config(&off, &windows, at));
    assert!(current_window_for_config(&off, &windows, at).is_none());
    // On a worker's own windows both tests agree.
    let engine = BlackoutEngine::from_events(&[raw("CPI", "USD", noon(), "High")]);
    let own = engine.windows_for_config(&cfg, at);
    assert_eq!(is_blackout_for_config(&cfg, &own, at), engine.is_blackout_at(&cfg, at));
}

#[test]
fn releases_at_one_time_share_a_window() {
    let events = vec![
        raw("CPI m/m", "USD", noon(), "High"),
        raw("Core CPI m/m", "USD", noon(), "High"),
    ];
    let config = RedFolderConfig { merge_threshold_min: 0, ..quiet() };
    let engine = BlackoutEngine::from_events(&events);
    let windows = engine.windows_for_config(&config, utc(noon()));
    assert_eq!(windows.len(), 1);
    assert_eq!(windows[0].summary_title(), "CPI m/m (+1 events)");
    assert_eq!(windows[0].events[1].title, "Core CPI m/m");
}

#[test]
fn without_data_a_worker_that_fails_open_keeps_its_curfew() {
    let config = RedFolderConfig::default();
    let engine = BlackoutEngine::new();
    assert!(!engine.is_blackout_at(&config, utc(noon())));
    let friday = Utc.with_ymd_and_hms(2026, 6, 5, 20, 30, 0).unwrap();
    assert!(engine.is_blackout_at(&config, utc(friday)));
    assert!(!engine.is_blackout_at(&config, utc(friday + Duration::minutes(30))));
    assert!(!engine.is_blackout_at(&quiet(), utc(friday)));
}

#[test]
fn a_short_gap_behind_the_weekend_is_bridged() {
    // The curfew ends on Monday at 00:00; the event is at 00:40.
    let monday = |minutes: i64| Utc.with_ymd_and_hms(2026, 6, 8, 0, 0, 0).unwrap() + Duration::minutes(minutes);
    let cfg = RedFolderConfig {
        before_min: 10,
        after_min: 10,
        merge_threshold_min: 30,
        weekend_enabled: true,
        weekend_mode: WeekendMode::Weekend,
        ..Default::default()
    };
    let engine = BlackoutEngine::from_events(&[raw("CPI", "USD", monday(40), "High")]);
    let before = engine.current_window_at(&cfg, utc(monday(-60))).unwrap();
    assert_eq!((before.end.time, before.events.len()), (utc(monday(50)), 2));
    // In the gap, with the curfew over, it is the same window.
    assert_eq!(engine.current_window_at(&cfg, utc(monday(10))), Some(before));
    assert!(!engine.is_blackout_at(&cfg, utc(monday(50))));
    // Without an event close by, the curfew's end is the window's.
    let far = BlackoutEngine::from_events(&[raw("CPI", "USD", monday(41), "High")]);
    assert!(!far.is_blackout_at(&cfg, utc(monday(0))));
}

fn around_leap_second(before_min: i64, after_min: i64, text: &str) -> (BlackoutWindow, BlackoutEngine, RedFolderConfig) {
    let leap = RawCalendarEvent { date: text.to_string(), ..raw("CPI", "USD", noon(), "High") };
    let cfg = RedFolderConfig { before_min, after_min, ..quiet() };
    let engine = BlackoutEngine::from_events(&[leap]);
    let midnight = Utc.with_ymd_and_hms(2016, 12, 31, 12, 0, 0).unwrap();
    let windows = engine.windows_for_config(&cfg, utc(midnight));
    (windows[0].clone(), engine, cfg)
}

#[test]
fn windows_around_a_leap_second_are_those_of_the_clock() {
    for text in ["2016-12-31T23:59:60Z", "2016-12-31T23:59:60.75Z"] {
        let event = chrono::DateTime::parse_from_rfc3339(text).unwrap().with_timezone(&Utc);
        for (before, after) in [(10, 10), (0, 15), (15, 0), (0, 0), (1, 1440)] {
            let (w, engine, cfg) = around_leap_second(before, after, text);
            let (start, end) = (event - Duration::minutes(before), event + Duration::minutes(after));
            assert_eq!((chrono_time(w.start), chrono_time(w.end)), (start, end));
            assert_eq!(chrono_time(w.events[0].event_time), event);
            assert_eq!(w.duration_minutes(), (end - start).num_seconds() / 60);
            let now = start - Duration::seconds(630);
            assert_eq!(w.minutes_until_start(utc(now)), (start - now).num_minutes());
            assert_eq!(w.remaining_minutes_at(utc(now)), (end - now).num_seconds() / 60);
            for secs in [-900, -600, -1, 0, 1, 599, 600, 899, 900] {
                let t = Utc.with_ymd_and_hms(2017, 1, 1, 0, 0, 0).unwrap() + Duration::seconds(secs);
                assert_eq!(w.is_active_at(utc(t)), start <= t && t < end);
                assert_eq!(engine.is_blackout_at(&cfg, utc(t)), start <= t && t < end);
            }
        }
    }
    // Ten minutes before and after: the leap second is counted on one side only.
    let (w, _, _) = around_leap_second(10, 10, "2016-12-31T23:59:60Z");
    assert_eq!(w.duration_minutes(), 19);
}

#[test]
fn windows_in_one_leap_second_are_sorted_and_merged() {
    let at = |text: &str| RawCalendarEvent { date: text.to_string(), ..raw(text, "USD", noon(), "High") };
    let events = vec![at("2016-12-31T23:59:60.9Z"), at("2017-01-01T00:30:00Z"), at("2016-12-31T23:59:60.1Z")];
    let cfg = RedFolderConfig { before_min: 0, after_min: 0, merge_threshold_min: 0, ..quiet() };
    let engine = BlackoutEngine::from_events(&events);
    let before = utc(Utc.with_ymd_and_hms(2016, 12, 31, 12, 0, 0).unwrap());
    let titles = |cfg: &RedFolderConfig| -> Vec<String> {
        engine.windows_for_config(cfg, before).iter().map(|w| w.summary_title()).collect()
    };
    assert_eq!(
        titles(&cfg),
        vec!["2016-12-31T23:59:60.1Z", "2016-12-31T23:59:60.9Z", "2017-01-01T00:30:00Z"]
    );
    // From the leap second to half past midnight it is less than half an hour.
    let merged = RedFolderConfig { merge_threshold_min: 30, ..cfg };
    assert_eq!(titles(&merged), vec!["2016-12-31T23:59:60.1Z (+2 events)"]);
}

#[test]
fn every_event_stands_in_one_window() {
    let events: Vec<RawCalendarEvent> =
        (0..6).map(|i| raw(&format!("e{i}"), "USD", noon() + Duration::minutes(20 * i), "High")).collect();
    let cfg = RedFolderConfig { before_min: 5, after_min: 5, merge_threshold_min: 9, ..quiet() };
    let engine = BlackoutEngine::from_events(&events);
    for minutes in [-60, 0, 30, 47, 105] {
        let windows = engine.windows_for_config(&cfg, utc(noon() + Duration::minutes(minutes)));
        for i in 0..6 {
            let held: usize =
                windows.iter().map(|w| w.events.iter().filter(|e| e.title == format!("e{i}")).count()).sum();
            assert_eq!(held, usize::from(20 * i + 5 >= minutes), "{i} {minutes}");
        }
    }
}
