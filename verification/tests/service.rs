use chrono::{Duration, TimeZone, Utc};
use redfolder::calendar::RawCalendarEvent;
use redfolder::config::RedFolderConfig;
use redfolder::engine::BlackoutEngine;
use redfolder::error::RedFolderError;
use redfolder::events::RedFolderEvent;
use redfolder::service::{seconds_until_midnight, Alert, ServiceInner, ServiceState, StartDecision};
use redfolder::time::{utc_now, TimeSpan, UtcTime};
use redfolder::types::FailSafeMode;
use redfolder::watch::{watch_step, REFETCH_SECS};

fn utc(t: chrono::DateTime<Utc>) -> UtcTime {
    UtcTime::from_unix(t.timestamp(), t.timestamp_subsec_nanos())
}

fn raw(title: &str, country: &str, at: chrono::DateTime<Utc>) -> RawCalendarEvent {
    RawCalendarEvent {
        title: title.to_string(),
        country: country.to_string(),
        date: at.to_rfc3339(),
        time: String::new(),
        impact: "High".to_string(),
    }
}

/// A Wednesday at noon, away from any weekend.
fn noon() -> chrono::DateTime<Utc> {
    Utc.with_ymd_and_hms(2026, 6, 3, 12, 0, 0).unwrap()
}

fn at(minutes: i64) -> UtcTime {
    utc(noon() + Duration::minutes(minutes))
}

fn worker(currency: &str) -> RedFolderConfig {
    RedFolderConfig {
        currencies: vec![currency.into()],
        weekend_enabled: false,
        before_min: 5,
        after_min: 5,
        warning_before_min: Some(10),
        ..Default::default()
    }
}

fn service() -> ServiceInner {
    ServiceInner::new(TimeSpan::from_secs(15))
}

fn show(alerts: &[Alert]) -> Vec<String> {
    alerts
        .iter()
        .map(|a| {
            let id = a.event.worker_id().unwrap_or("?").to_string();
            let changed = a.notification.as_ref().map(|n| n.active);
            match &a.event {
                RedFolderEvent::BlackoutWarning { minutes_until_start, .. } => {
                    assert_eq!(changed, None);
                    format!("{id} warned {minutes_until_start}")
                }
                RedFolderEvent::BlackoutStarted { window, .. } => {
                    assert_eq!(changed, Some(true));
                    assert_eq!(a.notification.as_ref().unwrap().window.as_ref(), Some(window));
                    format!("{id} started {}", window.summary_title())
                }
                RedFolderEvent::BlackoutEnded { window, .. } => {
                    assert_eq!(changed, Some(false));
                    assert!(window.start == window.end && window.events.is_empty());
                    format!("{id} ended")
                }
                other => panic!("{other:?}"),
            }
        })
        .collect()
}

#[test]
fn test_event_bus_and_warning_dispatch() {
    let mut inner = service();
    let config = RedFolderConfig::builder()
        .currencies(vec!["USD"])
        .impacts(vec!["High"])
        .buffer_minutes(0, 15)
        .warning_minutes(10)
        .build();

    let now = noon();
    assert!(inner.register_worker("worker_usd", config, utc(now)).unwrap().is_empty());

    // Event starts in 5 minutes (triggering the 10-minute warning)
    let events = vec![raw("US CPI Release", "USD", now + Duration::minutes(5))];
    let cfg = RedFolderConfig {
        weekend_enabled: false,
        before_min: 0,
        after_min: 15,
        ..Default::default()
    };
    inner.set_engine(BlackoutEngine::compile(&events, &[&cfg], utc(now)));
    let alerts = inner.check_and_notify_workers(utc(now));

    // Verify the worker received BlackoutWarning
    assert_eq!(alerts.len(), 1);
    let ev = &alerts[0].event;
    assert!(ev.is_warning());
    assert_eq!(ev.worker_id(), Some("worker_usd"));
}

#[test]
fn test_service_worker_unregistration() {
    let mut inner = service();
    let config = RedFolderConfig { weekend_enabled: false, ..Default::default() };

    let now = utc_now();
    let _ = inner.register_worker("bot_to_remove", config, now).unwrap();
    assert!(!inner.is_blackout("bot_to_remove"));

    inner.unregister_worker("bot_to_remove");
    // Non-existent worker returns false
    assert!(!inner.is_blackout("bot_to_remove"));
    assert!(inner.current_window("bot_to_remove").is_none());
    assert!(inner.get_upcoming_blackouts("bot_to_remove", 24).is_empty());
}

#[test]
fn workers_are_told_of_every_change_once() {
    let mut inner = service();
    inner.register_worker("usd", worker("USD"), at(-120)).unwrap();
    inner.register_worker("eur", worker("EUR"), at(-120)).unwrap();
    let today = at(0).date();
    let event = inner.install_calendar(&vec![raw("CPI", "USD", noon())], None, today, at(-120));
    assert_eq!(event, RedFolderEvent::CalendarUpdated { total_events: 1, total_windows: 1 });

    let mut told = |minute: i64| show(&inner.check_and_notify_workers(at(minute)));
    assert!(told(-60).is_empty());
    // The window starts at minute -5; the warning is due ten minutes before.
    assert!(told(-16).is_empty());
    assert_eq!(told(-15), vec!["usd warned 10"]);
    assert!(told(-14).is_empty());
    assert_eq!(told(-5), vec!["usd started CPI"]);
    assert!(told(-5).is_empty());
    assert!(told(4).is_empty());
    assert_eq!(told(5), vec!["usd ended"]);
    assert!(told(6).is_empty());
}

#[test]
fn a_warning_needs_a_whole_minute() {
    let mut inner = service();
    inner.register_worker("usd", worker("USD"), at(-120)).unwrap();
    let now = at(-120);
    inner.install_calendar(&vec![raw("CPI", "USD", noon())], None, now.date(), now);
    let late = UtcTime { nanos: at(-6).nanos + 1 };
    assert!(inner.check_and_notify_workers(late).is_empty());
    let mut other = service();
    other.register_worker("usd", worker("USD"), now).unwrap();
    other.install_calendar(&vec![raw("CPI", "USD", noon())], None, now.date(), now);
    assert_eq!(show(&other.check_and_notify_workers(at(-6))), vec!["usd warned 1"]);
    // Without a wish for warnings there is none.
    let mut silent = service();
    silent.register_worker("usd", RedFolderConfig { warning_before_min: None, ..worker("USD") }, now).unwrap();
    silent.install_calendar(&vec![raw("CPI", "USD", noon())], None, now.date(), now);
    assert!(silent.check_and_notify_workers(at(-6)).is_empty());
}

#[test]
fn a_late_worker_is_told_at_once() {
    let mut inner = service();
    let events = vec![raw("CPI", "USD", noon())];
    inner.set_engine(BlackoutEngine::compile(&events, &[&worker("USD")], at(0)));
    assert_eq!(show(&inner.register_worker("late", worker("USD"), at(0)).unwrap()), vec!["late started CPI"]);
    // It is not told again.
    assert!(inner.check_and_notify_workers(at(0)).is_empty());
    assert!(inner.register_worker("eur", worker("EUR"), at(0)).unwrap().is_empty());
    let off = RedFolderConfig { enabled: false, ..worker("USD") };
    assert!(inner.register_worker("off", off, at(0)).unwrap().is_empty());
    assert!(inner.is_blackout_at("late", at(0)) && !inner.is_blackout_at("off", at(0)));
}

#[test]
fn a_name_stands_for_one_worker() {
    let mut inner = service();
    let events = vec![raw("CPI", "USD", noon()), raw("GDP", "EUR", noon() + Duration::minutes(60))];
    inner.register_worker("bot", worker("USD"), at(-600)).unwrap();
    inner.register_worker("other", worker("USD"), at(-600)).unwrap();
    inner.reregister_worker("bot", worker("EUR"), at(-600)).unwrap();
    inner.set_engine(BlackoutEngine::from_events(&events));
    assert!(!inner.is_blackout_at("bot", at(0)));
    assert!(inner.is_blackout_at("other", at(0)));
    assert_eq!(inner.current_window_at("bot", at(60)).unwrap().summary_title(), "GDP");
    assert_eq!(inner.upcoming_blackouts_at("bot", at(0), 1).len(), 1);
    assert_eq!(inner.upcoming_blackouts_at("nobody", at(0), 1).len(), 0);
    inner.unregister_worker("bot");
    inner.unregister_worker("nobody");
    assert!(inner.current_window_at("bot", at(60)).is_none());
    assert!(inner.current_window_at("other", at(0)).is_some());
}

#[test]
fn a_failed_sync_halts_workers_that_fail_closed() {
    let mut inner = service();
    let closed = RedFolderConfig { fail_safe_mode: FailSafeMode::FailClosed, ..worker("USD") };
    inner.register_worker("closed", closed, at(-600)).unwrap();
    inner.register_worker("open", worker("USD"), at(-600)).unwrap();
    let now = at(-600);
    inner.install_calendar(&vec![raw("CPI", "USD", noon())], None, now.date(), now);
    // Registered before there was any data, the one that fails closed was told of a blackout.
    assert_eq!(show(&inner.check_and_notify_workers(now)), vec!["closed ended"]);
    assert_eq!(
        inner.sync_failed("no route"),
        RedFolderEvent::CalendarSyncFailed { error: "no route".to_string() }
    );
    assert!(inner.engine().is_stale());
    assert_eq!(
        show(&inner.check_and_notify_workers(now)),
        vec!["closed started Calendar Data Stale (Fail-Closed Safety Blackout) (+1 events)"]
    );
    assert!(!inner.is_blackout_at("open", now));
    inner.install_calendar(&vec![raw("CPI", "USD", noon())], None, now.date(), now);
    assert_eq!(show(&inner.check_and_notify_workers(now)), vec!["closed ended"]);
}

#[test]
fn workers_are_checked_without_windows_in_the_pool() {
    let mut inner = service();
    inner.register_worker("usd", worker("USD"), at(-600)).unwrap();
    let closed = RedFolderConfig { fail_safe_mode: FailSafeMode::FailClosed, ..worker("USD") };
    inner.set_engine(BlackoutEngine::from_events(&[raw("CPI", "USD", noon())]));
    assert_eq!(show(&inner.check_and_notify_workers(at(0))), vec!["usd started CPI"]);
    // A calendar without events still brings a blackout that was announced to its end.
    let now = at(1);
    assert_eq!(inner.install_calendar(&vec![], None, now.date(), now), RedFolderEvent::CalendarUpdated { total_events: 0, total_windows: 0 });
    inner.register_worker("closed", closed, now).unwrap();
    let told = show(&inner.check_and_notify_workers(now));
    assert!(told.contains(&"usd ended".to_string()));
}

#[test]
fn warnings_come_as_early_as_they_are_wanted() {
    let mut inner = service();
    let early = RedFolderConfig { warning_before_min: Some(180), ..worker("USD") };
    inner.register_worker("usd", early, at(-600)).unwrap();
    inner.install_calendar(&vec![raw("CPI", "USD", noon())], None, at(-600).date(), at(-600));
    let mut told = |minute: i64| show(&inner.check_and_notify_workers(at(minute)));
    // The window starts at minute -5.
    assert!(told(-186).is_empty());
    assert_eq!(told(-185), vec!["usd warned 180"]);
    for minute in [-184, -130, -125, -60, -6] {
        assert!(told(minute).is_empty());
    }
    assert_eq!(told(-5), vec!["usd started CPI"]);
}

#[test]
fn the_next_transition_is_known() {
    let mut inner = service();
    assert_eq!(inner.next_transition(at(-600)), None);
    inner.register_worker("usd", worker("USD"), at(-600)).unwrap();
    inner.register_worker("eur", worker("EUR"), at(-600)).unwrap();
    let events = vec![
        raw("CPI", "USD", noon()),
        raw("GDP", "EUR", noon() + Duration::minutes(2)),
        raw("Far", "JPY", noon() - Duration::minutes(30)),
    ];
    inner.set_engine(BlackoutEngine::from_events(&events));
    let mut seen = vec![];
    let mut now = at(-600);
    while let Some(next) = inner.next_transition(now) {
        assert!(next > now);
        seen.push((next.nanos - at(0).nanos) / 60_000_000_000);
        now = next;
    }
    // Each window's warning, start and end, for the two workers in turn.
    assert_eq!(seen, vec![-15, -13, -5, -3, 5, 7]);
    inner.unregister_worker("eur");
    assert_eq!(inner.next_transition(at(5)), None);
    assert_eq!(inner.next_transition(UtcTime { nanos: at(5).nanos - 1 }), Some(at(5)));
}

#[test]
fn the_service_knows_of_its_last_sync() {
    let mut inner = service();
    assert_eq!((inner.last_sync_time(), inner.last_sync_error()), (None, None));
    let hour = TimeSpan::from_secs(3600);
    assert!(inner.is_calendar_stale(hour, at(0)));
    inner.install_calendar(&vec![raw("CPI", "USD", noon())], None, at(0).date(), at(0));
    assert_eq!((inner.last_sync_time(), inner.last_sync_error()), (Some(at(0)), None));
    assert!(!inner.is_calendar_stale(hour, at(60)));
    assert!(inner.is_calendar_stale(hour, UtcTime { nanos: at(60).nanos + 1 }));
    inner.sync_failed("no route");
    assert_eq!((inner.last_sync_time(), inner.last_sync_error()), (Some(at(0)), Some("no route")));
    inner.install_calendar(&vec![raw("CPI", "USD", noon())], None, at(1).date(), at(1));
    assert_eq!((inner.last_sync_time(), inner.last_sync_error()), (Some(at(1)), None));
}

#[test]
fn the_windows_of_a_worker_are_its_own() {
    let mut inner = service();
    inner.register_worker("usd", worker("USD"), at(-600)).unwrap();
    let events = vec![raw("CPI", "USD", noon()), raw("GDP", "EUR", noon() + Duration::minutes(60))];
    inner.set_engine(BlackoutEngine::from_events(&events));
    let windows = inner.windows_for_worker("usd", at(-600));
    assert_eq!(windows.len(), 1);
    assert_eq!((windows[0].start.time, windows[0].end.time), (at(-5), at(5)));
    assert_eq!(inner.windows_for_worker("usd", UtcTime { nanos: at(5).nanos - 1 }), windows);
    assert!(inner.windows_for_worker("usd", at(5)).is_empty());
    assert!(inner.windows_for_worker("nobody", at(-600)).is_empty());
}

#[test]
fn the_watch_fetches_and_announces() {
    let secs = TimeSpan::from_secs;
    assert_eq!(watch_step(secs(REFETCH_SECS - 1), false, false), (false, None));
    assert_eq!(watch_step(secs(REFETCH_SECS), true, true), (true, None));
    assert_eq!(watch_step(secs(0), false, true), (false, Some(true)));
    assert_eq!(watch_step(secs(901), true, false), (true, Some(false)));
    assert_eq!(REFETCH_SECS, 900);
}

#[test]
fn the_calendar_is_fetched_once_a_day() {
    let mut inner = service();
    let today = at(0).date();
    assert!(inner.needs_fetch(today));
    inner.register_worker("usd", worker("USD"), at(0)).unwrap();
    inner.install_calendar(&vec![raw("CPI", "USD", noon())], None, today, at(0));
    assert!(!inner.needs_fetch(today));
    assert!(inner.needs_fetch(at(24 * 60).date()));
    // No windows: it is fetched again.
    inner.install_calendar(&vec![], None, today, at(0));
    assert!(inner.needs_fetch(today));
}

#[test]
fn the_service_starts_for_enabled_workers() {
    let mut inner = service();
    assert_eq!(inner.start_decision(), StartDecision::NoWorkers);
    inner.register_worker("a", RedFolderConfig { enabled: false, ..worker("USD") }, at(0)).unwrap();
    assert_eq!(inner.start_decision(), StartDecision::AllDisabled);
    inner.register_worker("b", worker("USD"), at(0)).unwrap();
    assert_eq!(inner.start_decision(), StartDecision::Start);
}

#[test]
fn checks_are_at_least_a_tenth_of_a_second_apart() {
    let mut inner = service();
    assert_eq!(inner.check_interval(), TimeSpan::from_secs(15));
    assert!(matches!(inner.set_check_interval(TimeSpan::from_millis(99)), Err(RedFolderError::Service(_))));
    assert!(inner.set_check_interval(TimeSpan::from_millis(0)).is_err());
    assert_eq!(inner.check_interval(), TimeSpan::from_secs(15));
    assert!(inner.set_check_interval(TimeSpan::from_millis(100)).is_ok());
    assert_eq!(inner.check_interval(), TimeSpan::from_millis(100));
}

#[test]
fn midnight_is_at_least_a_second_away() {
    assert_eq!(seconds_until_midnight(at(0)), 12 * 3600);
    let midnight = utc(Utc.with_ymd_and_hms(2026, 6, 4, 0, 0, 0).unwrap());
    assert_eq!(seconds_until_midnight(midnight), 86_400);
    assert_eq!(seconds_until_midnight(UtcTime { nanos: midnight.nanos - 1 }), 1);
    assert_eq!(seconds_until_midnight(UtcTime { nanos: midnight.nanos - 2_500_000_000 }), 2);
    assert_eq!(seconds_until_midnight(UtcTime { nanos: -1 }), 1);
}

#[test]
fn a_started_service_refuses_a_second_start() {
    let mut inner = service();
    assert_eq!(inner.state(), ServiceState::Stopped);
    assert_eq!(inner.begin_start(), Ok(StartDecision::NoWorkers));
    assert_eq!(inner.state(), ServiceState::Stopped);
    inner.register_worker("a", worker("USD"), at(0)).unwrap();
    assert_eq!(inner.begin_start(), Ok(StartDecision::Start));
    assert_eq!(inner.state(), ServiceState::Starting);
    assert_eq!(
        inner.begin_start(),
        Err(RedFolderError::Service("service is already started".to_string()))
    );
    inner.finish_start(true);
    assert!(inner.is_running());
    assert!(inner.begin_start().is_err() && inner.is_running());
}

#[test]
fn a_failed_start_and_a_stopped_service_start_again() {
    let mut inner = service();
    inner.register_worker("a", worker("USD"), at(0)).unwrap();
    assert_eq!(inner.begin_start(), Ok(StartDecision::Start));
    inner.finish_start(false);
    assert_eq!(inner.state(), ServiceState::Stopped);
    assert!(!inner.begin_stop());
    assert_eq!(inner.begin_start(), Ok(StartDecision::Start));
    inner.finish_start(true);
    assert!(inner.begin_stop() && !inner.begin_stop());
    assert_eq!(inner.state(), ServiceState::Stopping);
    assert!(!inner.is_running() && inner.begin_start().is_err());
    inner.finish_stop();
    assert_eq!(inner.begin_start(), Ok(StartDecision::Start));
}

#[test]
fn a_failed_fetch_is_tried_again_in_a_quarter_of_an_hour() {
    let mut inner = service();
    assert_eq!(inner.seconds_until_sync(at(0)), 12 * 3600);
    inner.sync_failed("no network");
    assert_eq!(inner.seconds_until_sync(at(0)), 900);
    inner.install_calendar(&vec![raw("CPI", "USD", noon())], None, at(0).date(), at(0));
    assert_eq!(inner.seconds_until_sync(at(0)), 12 * 3600);
}

#[test]
fn a_worker_is_registered_once_and_with_a_valid_configuration() {
    let mut inner = service();
    inner.install_calendar(&vec![raw("CPI", "USD", noon())], None, at(0).date(), at(0));
    assert_eq!(
        inner.reregister_worker("a", worker("USD"), at(0)),
        Err(RedFolderError::Service("worker 'a' is not registered".to_string()))
    );
    let blank = RedFolderConfig { currencies: Vec::new(), ..worker("USD") };
    assert!(matches!(inner.register_worker("a", blank, at(0)), Err(RedFolderError::Config(_))));
    assert!(!inner.is_blackout_at("a", at(0)));
    assert_eq!(inner.register_worker("a", worker("USD"), at(0)).unwrap().len(), 1);
    assert_eq!(
        inner.register_worker("a", worker("EUR"), at(0)),
        Err(RedFolderError::Service("worker 'a' is already registered".to_string()))
    );
    assert!(inner.is_blackout_at("a", at(0)));
    let late = RedFolderConfig { weekend_start: "25:00".to_string(), ..worker("EUR") };
    assert_eq!(
        inner.reregister_worker("a", late, at(0)),
        Err(RedFolderError::ParseTime("25:00".to_string()))
    );
    assert!(inner.reregister_worker("a", worker("EUR"), at(0)).unwrap().is_empty());
    assert!(!inner.is_blackout_at("a", at(0)));
}

#[test]
fn checks_wait_for_the_next_transition() {
    let mut inner = service();
    assert_eq!(inner.wait_until_check(at(0)), TimeSpan::from_secs(15));
    inner.register_worker("usd", worker("USD"), at(-600)).unwrap();
    inner.set_engine(BlackoutEngine::from_events(&[raw("CPI", "USD", noon())]));
    assert_eq!(inner.wait_until_check(at(-600)), TimeSpan::from_secs(15));
    let close = UtcTime { nanos: at(-5).nanos - 1_500_000_000 };
    assert_eq!(inner.wait_until_check(close), TimeSpan::from_millis(1500));
    assert_eq!(inner.wait_until_check(at(-5)), TimeSpan::from_secs(15));
    assert_eq!(inner.wait_until_check(UtcTime { nanos: at(5).nanos - 1 }), TimeSpan { nanos: 1 });
}
