use redfolder::error::RedFolderError;
use redfolder::events::RedFolderEvent;
use redfolder::time::{utc_now, Moment, UtcTime};
use redfolder::types::BlackoutWindow;

#[test]
fn test_event_methods() {
    let now = utc_now();
    let window = BlackoutWindow {
        start: Moment::plain(now),
        end: Moment::plain(now.plus_minutes(30)),
        events: vec![],
    };

    let started = RedFolderEvent::BlackoutStarted {
        window: window.clone(),
        worker_id: Some("eurusd".into()),
    };

    assert!(started.is_blackout_started());
    assert!(!started.is_blackout_ended());
    assert_eq!(started.worker_id(), Some("eurusd"));
    assert!(started.window().is_some());

    let ended = RedFolderEvent::BlackoutEnded {
        window: window.clone(),
        worker_id: None,
    };
    assert!(ended.is_blackout_ended());

    let warning = RedFolderEvent::BlackoutWarning {
        window,
        minutes_until_start: 5,
        worker_id: None,
    };
    assert!(warning.is_warning());

    let sync_failed = RedFolderEvent::CalendarSyncFailed {
        error: "connection timeout".into(),
    };
    assert!(sync_failed.is_sync_failed());
    assert!(!sync_failed.is_warning());
    assert_eq!(sync_failed.worker_id(), None);
    assert_eq!(sync_failed.window(), None);
}

#[test]
fn calendar_events_are_for_no_worker() {
    let updated = RedFolderEvent::CalendarUpdated { total_events: 3, total_windows: 2 };
    assert_eq!(updated.worker_id(), None);
    assert_eq!(updated.window(), None);
    assert!(!updated.is_blackout_started() && !updated.is_sync_failed());
    assert_eq!(updated.clone(), updated);
    let window = BlackoutWindow { start: Moment::plain(UtcTime { nanos: 1 }), end: Moment::plain(UtcTime { nanos: 2 }), events: vec![] };
    let ended = RedFolderEvent::BlackoutEnded { window: window.clone(), worker_id: Some("a".to_string()) };
    assert_eq!(ended.window(), Some(&window));
    assert_eq!(ended.clone(), ended);
}

#[test]
fn every_error_has_its_text() {
    let cases = [
        (RedFolderError::Http("x".to_string()), "HTTP request error: x"),
        (RedFolderError::Io("x".to_string()), "IO error: x"),
        (RedFolderError::Json("x".to_string()), "Serialization / JSON error: x"),
        (
            RedFolderError::ParseTime("x".to_string()),
            "Failed to parse time string 'x': expected format HH:MM (e.g. '20:30')",
        ),
        (RedFolderError::InvalidTimestamp("x".to_string()), "Failed to parse date/timestamp: x"),
        (RedFolderError::Service("x".to_string()), "Service error: x"),
        (RedFolderError::Curfew("x".to_string()), "Curfew calculation error: x"),
        (RedFolderError::Config("x".to_string()), "Configuration error: x"),
        (RedFolderError::Calendar("x".to_string()), "Calendar error: x"),
    ];
    for (error, text) in cases {
        assert_eq!(error.to_string(), text);
        assert_eq!(error.clone(), error);
    }
}
