use chrono::{Duration, Utc};
use redfolder::time::{CalendarDate, Moment, UtcTime};
use redfolder::types::{
    BlackoutNotification, BlackoutWindow, Currency, CustomEventKind, EventTiming, FailSafeMode, Impact,
    WindowEvent,
};

fn utc(t: chrono::DateTime<Utc>) -> UtcTime {
    UtcTime::from_unix(t.timestamp(), t.timestamp_subsec_nanos())
}

fn at_minute(minutes: i64) -> UtcTime {
    UtcTime::from_unix(1_780_000_000 + minutes * 60, 0)
}

fn event(title: &str) -> WindowEvent {
    WindowEvent {
        is_custom: false,
        custom_kind: None,
        event_time: Moment::plain(at_minute(0)),
        country: "USD".to_string(),
        impact: "High".to_string(),
        title: title.to_string(),
    }
}

fn window(from: i64, to: i64, titles: &[&str]) -> BlackoutWindow {
    BlackoutWindow {
        start: Moment::plain(at_minute(from)),
        end: Moment::plain(at_minute(to)),
        events: titles.iter().map(|t| event(t)).collect(),
    }
}

#[test]
fn test_impact_parsing_and_matching() {
    assert_eq!("High".parse::<Impact>().unwrap(), Impact::High);
    assert_eq!("red".parse::<Impact>().unwrap(), Impact::High);
    assert_eq!("Medium".parse::<Impact>().unwrap(), Impact::Medium);
    assert_eq!("low".parse::<Impact>().unwrap(), Impact::Low);

    let high = Impact::High;
    assert!(high.is_high());
    assert!(high.matches_str("high"));
    assert!(high.matches_str("red"));
    assert!(!high.matches_str("medium"));
}

#[test]
fn test_blackout_window_methods() {
    let now = Utc::now();
    let window = BlackoutWindow {
        start: Moment::plain(utc(now - Duration::minutes(10))),
        end: Moment::plain(utc(now + Duration::minutes(20))),
        events: vec![WindowEvent {
            is_custom: false,
            custom_kind: None,
            event_time: Moment::plain(utc(now)),
            country: "USD".to_string(),
            impact: "High".to_string(),
            title: "US CPI Release".to_string(),
        }],
    };

    assert!(window.is_active());
    assert_eq!(window.duration_minutes(), 30);
    assert!(window.remaining_minutes() >= 19 && window.remaining_minutes() <= 20);
    assert_eq!(window.summary_title(), "US CPI Release");
}

#[test]
fn test_currency_parsing_and_matching() {
    assert_eq!("USD".parse::<Currency>().unwrap(), Currency::USD);
    assert_eq!("usd".parse::<Currency>().unwrap(), Currency::USD);
    assert_eq!("eur".parse::<Currency>().unwrap(), Currency::EUR);
    assert_eq!("ALL".parse::<Currency>().unwrap(), Currency::All);
    assert_eq!(
        "XAU".parse::<Currency>().unwrap(),
        Currency::Custom("XAU".into())
    );

    let usd = Currency::USD;
    assert!(usd.matches_str("USD"));
    assert!(usd.matches_str("usd"));
    assert!(usd.matches_str("all"));
    assert!(!usd.matches_str("EUR"));

    let all = Currency::All;
    assert!(all.matches_str("USD"));
    assert!(all.matches_str("JPY"));

    assert_eq!(String::from(Currency::EUR), "EUR");
    assert_eq!(Currency::from("GBP"), Currency::GBP);
}

#[test]
fn window_holds_its_start_and_not_its_end() {
    let w = window(0, 30, &["CPI"]);
    assert!(!w.is_active_at(UtcTime { nanos: at_minute(0).nanos - 1 }));
    assert!(w.is_active_at(at_minute(0)));
    assert!(w.is_active_at(UtcTime { nanos: at_minute(30).nanos - 1 }));
    assert!(!w.is_active_at(at_minute(30)));
}

#[test]
fn minutes_are_counted_towards_zero() {
    let w = window(0, 30, &[]);
    assert!(w.is_in_range());
    assert_eq!(w.remaining_minutes_at(at_minute(10)), 20);
    assert_eq!(w.remaining_minutes_at(UtcTime { nanos: at_minute(10).nanos + 1 }), 19);
    assert_eq!(w.remaining_minutes_at(at_minute(31)), 0);
    assert_eq!(w.minutes_until_start(at_minute(-5)), 5);
    assert_eq!(w.minutes_until_start(UtcTime { nanos: at_minute(-5).nanos + 1 }), 4);
    assert_eq!(w.minutes_until_start(UtcTime { nanos: at_minute(2).nanos + 1 }), -2);
    let backwards = window(30, 0, &[]);
    assert_eq!(backwards.duration_minutes(), -30);
    let far = BlackoutWindow {
        start: Moment::plain(UtcTime { nanos: i128::MIN }),
        end: Moment::plain(at_minute(0)),
        events: vec![],
    };
    assert!(!far.is_in_range());
}

#[test]
fn summary_counts_the_other_events() {
    assert_eq!(window(0, 1, &[]).summary_title(), "Blackout Window");
    assert_eq!(window(0, 1, &["CPI"]).summary_title(), "CPI");
    assert_eq!(window(0, 1, &["CPI", "FOMC"]).summary_title(), "CPI (+1 events)");
    let many: Vec<&str> = vec!["CPI"; 12];
    assert_eq!(window(0, 1, &many).summary_title(), "CPI (+11 events)");
}

#[test]
fn every_standard_code_is_read_in_any_case() {
    for code in ["USD", "EUR", "GBP", "JPY", "AUD", "CAD", "CHF", "NZD", "CNY"] {
        let parsed = Currency::from(code.to_lowercase().as_str());
        assert_eq!(parsed.as_str(), code);
        assert_eq!(parsed.to_string(), code);
        assert!(!matches!(parsed, Currency::Custom(_)));
    }
    assert_eq!(Currency::from("  global "), Currency::All);
    assert_eq!(Currency::from(" xau "), Currency::Custom("xau".to_string()));
    assert_eq!(Currency::from("try".to_string()), Currency::Custom("try".to_string()));
    assert!(Currency::Custom("XAU".to_string()).matches_str("xau"));
    assert!(!Currency::Custom("XAU".to_string()).matches_str("USD"));
    assert!(Currency::Custom("XAU".to_string()).matches_str("Global"));
    assert!(Currency::USD == "usd");
    assert_eq!(AsRef::<str>::as_ref(&Currency::All), "All");
    // The capital of the small letter sharp s is two letters.
    assert_eq!(Currency::from("ß"), Currency::Custom("ß".to_string()));
}

#[test]
fn every_impact_name_is_read_in_any_case() {
    assert_eq!(Impact::from(" MED "), Impact::Medium);
    assert_eq!(Impact::from("Holiday"), Impact::NonEconomic);
    assert_eq!(Impact::from("none"), Impact::NonEconomic);
    assert_eq!(Impact::from("Non-Economic"), Impact::NonEconomic);
    assert_eq!(Impact::from("Orange"), Impact::Custom("orange".to_string()));
    assert_eq!(String::from(Impact::NonEconomic), "Non-Economic");
    assert_eq!(Impact::Medium.to_string(), "Medium");
    assert!(Impact::Medium.matches_str("med"));
    assert!(Impact::NonEconomic.matches_str("HOLIDAY"));
    assert!(Impact::Custom("orange".to_string()).matches_str("Orange"));
    assert!(!Impact::Low.matches_str("High"));
    assert!(Impact::High.is_red_folder());
    assert!(Impact::High == "high");
    assert!(Impact::High > Impact::Medium);
}

#[test]
fn custom_events_name_their_origin() {
    let mut e = event("Curfew");
    assert!(!e.is_weekend_curfew() && !e.is_fail_closed_safety());
    e.custom_kind = Some(CustomEventKind::WeekendCurfew);
    assert!(e.is_weekend_curfew() && !e.is_fail_closed_safety());
    e.custom_kind = Some(CustomEventKind::FailClosedSafety);
    assert!(!e.is_weekend_curfew() && e.is_fail_closed_safety());
    assert_eq!(e.clone(), e);
}

#[test]
fn timings_and_policies_are_told_apart() {
    let day = CalendarDate { days_from_ce: 739_000 };
    assert!(EventTiming::Exact(Moment::plain(at_minute(1))).is_exact());
    assert!(EventTiming::AllDay(day).is_all_day());
    assert!(EventTiming::TentativeDate(day).is_tentative());
    assert_eq!(EventTiming::Exact(Moment::plain(at_minute(1))).exact_time(), Some(Moment::plain(at_minute(1))));
    assert_eq!(EventTiming::AllDay(day).exact_time(), None);
    assert_eq!(FailSafeMode::default(), FailSafeMode::FailOpen);
    assert!(!FailSafeMode::FailOpen.is_fail_closed());
    assert!(FailSafeMode::FailClosed.is_fail_closed());
    let note = BlackoutNotification { active: true, window: Some(window(0, 1, &["CPI"])) };
    assert_eq!(note.clone(), note);
}

#[test]
fn a_currency_is_read_back_from_its_text() {
    for text in ["usd", " Global", "XAU", " btc ", "", "ß"] {
        let c = Currency::from(text);
        assert_eq!(Currency::from(c.as_str()), c);
    }
}
