use redfolder::cache::CachedCalendarData;
use redfolder::calendar::{CalendarClient, RawCalendarEvent, CALENDAR_URL};
use redfolder::error::RedFolderError;
use redfolder::client::CacheVariables;
use redfolder::fetch::{settle_forced_fetch, sift_events, validated, FetchEvent, FetchStep};
use redfolder::time::{TimeSpan, UtcTime};
use redfolder::zone::SourceZone;

fn event(title: &str) -> RawCalendarEvent {
    RawCalendarEvent {
        title: title.to_string(),
        country: "USD".to_string(),
        date: "2026-06-10T18:00:00Z".to_string(),
        time: String::new(),
        impact: "High".to_string(),
    }
}

fn answer(status: u16, retry_after: Option<&str>) -> FetchEvent {
    FetchEvent::Answered {
        status,
        content_length: None,
        retry_after: retry_after.map(|s| s.to_string()),
        status_error: format!("status {status}"),
    }
}

fn at(secs: i64) -> UtcTime {
    UtcTime::from_unix(1_780_000_000 + secs, 0)
}

/// Plays events against a client and writes down the steps.
fn play(client: &CalendarClient, events: Vec<FetchEvent>) -> Vec<String> {
    let (mut state, first) = client.start_fetch();
    let mut steps = vec![show(&first)];
    for event in events {
        assert!(client.can_go_on(&state, &event));
        let (next, step) = client.on_event(state, event);
        state = next;
        steps.push(show(&step));
    }
    steps
}

fn show(step: &FetchStep) -> String {
    match step {
        FetchStep::Get(url) => format!("get {url}"),
        FetchStep::GetAfter(delay, url) => format!("{} ms {url}", delay.nanos / 1_000_000),
        FetchStep::ReadBody => "read".to_string(),
        FetchStep::Done(Ok(events)) => format!("{} events", events.len()),
        FetchStep::Done(Err(e)) => e.to_string(),
    }
}

fn two_urls() -> CalendarClient {
    CalendarClient::with_options("a", TimeSpan::from_secs(30)).with_fallback_url("b")
}

#[test]
fn test_client_builder_options() {
    let client = CalendarClient::without_cache()
        .with_fallback_url("https://fallback1.internal.org/calendar.json")
        .with_fallback_urls(vec!["https://fallback2.internal.org/calendar.json"])
        .with_max_response_bytes(5 * 1024 * 1024)
        .with_max_event_count(10_000)
        .with_max_retries(4)
        .with_backoff(TimeSpan::from_millis(200), TimeSpan::from_secs(5))
        .with_overall_timeout(TimeSpan::from_secs(15));

    assert_eq!(client.fallback_urls().len(), 2);
    assert_eq!(
        client.fallback_urls()[0],
        "https://fallback1.internal.org/calendar.json"
    );
    assert_eq!(client.max_response_bytes(), 5 * 1024 * 1024);
    assert_eq!(client.max_event_count(), 10_000);
    assert_eq!(client.max_retries(), 4);
    assert_eq!(client.backoff_initial_delay(), TimeSpan::from_millis(200));
    assert_eq!(client.max_retry_after(), TimeSpan::from_secs(5));
    assert_eq!(client.overall_timeout(), Some(TimeSpan::from_secs(15)));
}

#[test]
fn settings_have_their_defaults() {
    let mut client = CalendarClient::default();
    assert_eq!(client.calendar_url(), CALENDAR_URL);
    assert!(client.fallback_urls().is_empty());
    assert_eq!(client.request_timeout(), TimeSpan::from_secs(30));
    assert_eq!(client.max_response_bytes(), 10 * 1024 * 1024);
    assert_eq!(client.max_event_count(), 50_000);
    assert_eq!(client.max_retries(), 2);
    assert_eq!(client.backoff_initial_delay(), TimeSpan::from_millis(500));
    assert_eq!(client.max_retry_after(), TimeSpan::from_secs(10));
    assert_eq!(client.max_stale_cache_age(), Some(TimeSpan::from_secs(36 * 3600)));
    assert_eq!((client.cache_ttl(), client.overall_timeout()), (None, None));
    assert_eq!(client.calendar_timezone(), None);
    client.set_calendar_url("x");
    client.add_fallback_url("y");
    client.set_max_response_bytes(1);
    client.set_max_event_count(2);
    client.set_max_stale_cache_age(None);
    client.set_cache_ttl(Some(TimeSpan::from_secs(3)));
    client.set_calendar_timezone(SourceZone::from_name("UTC"));
    assert_eq!((client.calendar_url(), client.fallback_urls()[0].as_str()), ("x", "y"));
    assert_eq!((client.max_response_bytes(), client.max_event_count()), (1, 2));
    assert_eq!((client.max_stale_cache_age(), client.cache_ttl()), (None, Some(TimeSpan::from_secs(3))));
    assert_eq!(client.calendar_timezone(), SourceZone::from_name("UTC"));
    assert_eq!(client.clone(), client);
    let other = client
        .with_ttl(TimeSpan::from_secs(4))
        .with_max_stale_age(Some(TimeSpan::from_secs(5)))
        .with_timezone(SourceZone::from_name("Europe/Paris").unwrap());
    assert_eq!(other.cache_ttl(), Some(TimeSpan::from_secs(4)));
    assert_eq!(other.max_stale_cache_age(), Some(TimeSpan::from_secs(5)));
    assert_eq!(other.calendar_timezone().unwrap().name(), "Europe/Paris");
}

#[test]
fn waits_double_and_addresses_follow() {
    let down = || FetchEvent::TransportFailed("down".to_string());
    assert_eq!(
        play(&two_urls(), vec![down(), down(), down(), down(), down(), down()]),
        vec!["get a", "500 ms a", "1000 ms a", "get b", "500 ms b", "1000 ms b", "HTTP request error: down"]
    );
    assert_eq!(two_urls().backoff_delay(31).nanos, 500_000_000 << 31);
}

#[test]
fn servers_can_ask_for_a_wait_up_to_the_limit() {
    let client = two_urls();
    assert_eq!(play(&client, vec![answer(429, Some(" 3 "))])[1], "3000 ms a");
    assert_eq!(play(&client, vec![answer(429, Some("999999"))])[1], "10000 ms a");
    assert_eq!(play(&client, vec![answer(429, Some("soon"))])[1], "500 ms a");
    assert_eq!(play(&client, vec![answer(429, None)])[1], "500 ms a");
    // Only too many requests may ask.
    assert_eq!(play(&client, vec![answer(503, Some("3"))])[1], "500 ms a");
    assert_eq!(play(&client, vec![answer(408, None)])[1], "500 ms a");
}

#[test]
fn lasting_failures_go_on_to_the_next_address() {
    let client = two_urls();
    assert_eq!(
        play(&client, vec![answer(404, None), answer(403, None)]),
        vec!["get a", "get b", "HTTP request error: status 403"]
    );
    // A status that is no error leaves none behind.
    assert_eq!(
        play(&client, vec![answer(304, None), answer(302, None)]),
        vec!["get a", "get b", "Calendar error: fetch failed after retries on all candidate endpoints"]
    );
    // The last error there was is reported.
    assert_eq!(
        play(&client, vec![answer(404, None), answer(302, None)])[2],
        "HTTP request error: status 404"
    );
    // Too many requests to the last attempt.
    let once = two_urls().with_max_retries(0);
    assert_eq!(
        play(&once, vec![answer(429, Some("1")), answer(500, None)]),
        vec!["get a", "get b", "HTTP request error: status 500"]
    );
}

#[test]
fn bodies_are_bounded() {
    let client = two_urls().with_max_response_bytes(10).with_max_retries(1);
    let long = |n: u64| FetchEvent::Answered {
        status: 200,
        content_length: Some(n),
        retry_after: None,
        status_error: String::new(),
    };
    assert_eq!(play(&client, vec![long(10)])[1], "read");
    assert_eq!(
        play(&client, vec![long(11), long(12)]),
        vec![
            "get a",
            "get b",
            "Calendar error: upstream response Content-Length (12 bytes) exceeds maximum limit of 10 bytes"
        ]
    );
    assert!(client.accepts_chunk(4, 6));
    assert!(!client.accepts_chunk(4, 7));
    assert!(!client.accepts_chunk(usize::MAX, usize::MAX));
    assert_eq!(
        play(&client.clone().with_max_retries(0), vec![answer(200, None), FetchEvent::BodyTooLarge, FetchEvent::BodyTooLarge]),
        vec!["get a", "read", "get b", "Calendar error: upstream response body exceeded maximum limit of 10 bytes"]
    );
    assert_eq!(
        play(&client, vec![FetchEvent::BodyFailed("reset".to_string()), FetchEvent::BodyMalformed("eof".to_string())]),
        vec!["get a", "500 ms a", "get b"]
    );
    let single = CalendarClient::with_options("a", TimeSpan::from_secs(1)).with_max_retries(0);
    assert_eq!(
        play(&single, vec![FetchEvent::BodyMalformed("eof".to_string())])[1],
        "Serialization / JSON error: eof"
    );
}

#[test]
fn the_fetch_ends_with_the_events() {
    let client = two_urls().with_max_event_count(2);
    assert_eq!(
        play(&client, vec![answer(200, None), FetchEvent::Items(vec![Some(event("a")), Some(event("b"))])]),
        vec!["get a", "read", "2 events"]
    );
    assert_eq!(play(&client, vec![FetchEvent::Items(vec![])])[1], "0 events");
    assert_eq!(
        play(&client, vec![FetchEvent::Items(vec![None, None, None])])[1],
        "Calendar error: upstream response contained 3 events, exceeding limit of 2"
    );
}

#[test]
fn malformed_items_are_sifted_out() {
    let good = |n: usize| -> Vec<Option<RawCalendarEvent>> { (0..n).map(|i| Some(event(&format!("{i}")))).collect() };
    let with_bad = |n: usize, bad: Option<RawCalendarEvent>| {
        let mut items = good(n);
        items.insert(0, bad);
        items
    };
    // One malformed item in five is borne, one in four is not.
    let sifted = sift_events(with_bad(4, None), 100).unwrap();
    assert_eq!(sifted.len(), 4);
    assert_eq!(sifted[0].title, "0");
    assert_eq!(
        sift_events(with_bad(3, None), 100).unwrap_err().to_string(),
        "Calendar error: upstream response corrupted: 1/4 events malformed"
    );
    assert_eq!(
        sift_events(vec![None], 100).unwrap_err().to_string(),
        "Calendar error: all upstream calendar events were malformed"
    );
    let blank = RawCalendarEvent { date: "  ".to_string(), ..event("x") };
    assert_eq!(sift_events(with_bad(9, Some(blank)), 100).unwrap().len(), 9);
    // Lengths are counted in bytes.
    let title = |n: usize| RawCalendarEvent { title: "é".repeat(n), ..event("x") };
    assert_eq!(sift_events(with_bad(9, Some(title(250))), 100).unwrap().len(), 10);
    assert_eq!(sift_events(with_bad(9, Some(title(251))), 100).unwrap().len(), 9);
    let country = |s: &str| RawCalendarEvent { country: s.to_string(), ..event("x") };
    assert_eq!(sift_events(with_bad(9, Some(country("0123456789"))), 100).unwrap().len(), 10);
    assert_eq!(sift_events(with_bad(9, Some(country("0123456789a"))), 100).unwrap().len(), 9);
    assert!(sift_events(good(3), 2).is_err());
}

#[test]
fn a_fresh_cache_makes_a_fetch_unnecessary() {
    let ttl = Some(TimeSpan::from_secs(900));
    let cached = Some(CachedCalendarData::fresh(&vec![event("a")], at(0), ttl));
    let client = CalendarClient::default().with_ttl(TimeSpan::from_secs(900));
    assert!(client.is_cache_valid(&cached, at(900)) && !client.is_cache_valid(&cached, at(901)));
    assert!(!client.is_cache_valid(&None, at(0)));
    assert_eq!(client.serve_cached(&cached, at(900)).unwrap().len(), 1);
    assert!(client.serve_cached(&cached, at(901)).is_none());
    assert!(client.serve_cached(&None, at(0)).is_none());
    // Without a time to live there is always a fetch.
    assert!(CalendarClient::default().serve_cached(&cached, at(0)).is_none());
    let empty = Some(CachedCalendarData::fresh(&vec![], at(0), ttl));
    assert!(client.serve_cached(&empty, at(0)).is_none());
}

#[test]
fn fetches_are_settled_with_the_cache() {
    let client = CalendarClient::default();
    let cached = Some(CachedCalendarData::fresh(&vec![event("old")], at(0), None));
    let fail = || Err(RedFolderError::Calendar("down".to_string()));
    // Fetched events are used and stored.
    let settled = client.settle_fetch(Ok(vec![event("new")]), &cached, at(1));
    assert!(settled.save);
    assert_eq!(settled.events.unwrap()[0].title, "new");
    // An answer without events does not take the place of cached ones.
    let settled = client.settle_fetch(Ok(vec![]), &cached, at(1));
    assert!(!settled.save);
    assert_eq!(settled.events.unwrap()[0].title, "old");
    let settled = client.settle_fetch(Ok(vec![]), &None, at(1));
    assert!(!settled.save && settled.events.unwrap().is_empty());
    // A failure is made good by a cache that is not too old.
    let day_and_half = 36 * 3600;
    assert_eq!(client.settle_fetch(fail(), &cached, at(day_and_half)).events.unwrap()[0].title, "old");
    let late = client.settle_fetch(fail(), &cached, at(day_and_half + 1));
    assert_eq!(late.events.unwrap_err().to_string(), "Calendar error: down");
    assert!(!late.save);
    assert!(client.settle_fetch(fail(), &None, at(0)).events.is_err());
    let legacy = Some(CachedCalendarData::legacy(vec![event("old")]));
    assert!(client.settle_fetch(fail(), &legacy, UtcTime { nanos: 0 }).events.is_err());
    let never = client.with_max_stale_age(None);
    assert!(never.settle_fetch(fail(), &cached, at(0)).events.is_err());
    // A forced fetch takes cached events for none, but not for a failure.
    assert_eq!(settle_forced_fetch(Ok(vec![]), &cached).events.unwrap()[0].title, "old");
    assert!(settle_forced_fetch(Ok(vec![event("new")]), &cached).save);
    assert!(settle_forced_fetch(fail(), &cached).events.is_err());
}

#[test]
fn a_default_fetch_is_over_after_three_requests() {
    let client = CalendarClient::default();
    let mut waited: u128 = 0;
    let mut requests = 1;
    let (mut state, _) = client.start_fetch();
    loop {
        let (next, step) = client.on_event(state, answer(429, Some("60")));
        state = next;
        match step {
            FetchStep::GetAfter(delay, _) => {
                waited += delay.nanos;
                requests += 1;
            }
            FetchStep::Done(result) => {
                assert!(result.is_err());
                break;
            }
            other => panic!("{other:?}"),
        }
    }
    assert_eq!(requests, 3);
    assert_eq!(waited, 20_000_000_000);
}

#[test]
fn many_retries_are_borne_until_a_wait_grows_too_long() {
    let client = two_urls().with_max_retries(40).with_backoff(TimeSpan::from_secs(1), TimeSpan::from_secs(5));
    let (mut state, _) = client.start_fetch();
    for attempt in 0..32u32 {
        let down = FetchEvent::TransportFailed("down".to_string());
        assert!(client.can_go_on(&state, &down));
        let (next, step) = client.on_event(state, down);
        state = next;
        assert_eq!(show(&step), format!("{} ms a", 1000 * 2u64.pow(attempt)));
    }
    // A wait of two to the power of 32 seconds and more is never reckoned; any other event goes on.
    assert!(!client.can_go_on(&state, &FetchEvent::TransportFailed("down".to_string())));
    assert!(!client.can_go_on(&state, &answer(500, None)));
    assert!(client.can_go_on(&state, &answer(404, None)));
    assert!(client.can_go_on(&state, &answer(429, Some("3"))));
    let (_, step) = client.on_event(state, FetchEvent::Items(vec![Some(event("a"))]));
    assert_eq!(show(&step), "1 events");
}

#[test]
fn a_check_of_the_events_can_reject_them() {
    let events = || vec![event("a"), event("b")];
    assert_eq!(validated(events(), Ok(())), Ok(events()));
    let bad = RedFolderError::Calendar("signature does not match".to_string());
    assert_eq!(validated(events(), Err(bad)).unwrap_err().to_string(), "Calendar error: signature does not match");
}

#[test]
fn the_cache_has_its_place_on_every_system() {
    let none = || CacheVariables {
        local_app_data: None,
        app_data: None,
        user_profile: None,
        xdg_cache_home: None,
        home: None,
    };
    let some = |s: &str| Some(s.to_string());
    let dir = |windows: bool, v: CacheVariables| CalendarClient::default_cache_dir(windows, v).map(|parts| parts.join("/"));
    let all = || CacheVariables {
        local_app_data: some("L"),
        app_data: some("A"),
        user_profile: some("U"),
        xdg_cache_home: some("X"),
        home: some("H"),
    };
    assert_eq!(dir(true, all()), some("L/redfolder/cache"));
    assert_eq!(dir(true, CacheVariables { local_app_data: None, ..all() }), some("A/redfolder/cache"));
    let profile = || CacheVariables { local_app_data: None, app_data: None, ..all() };
    assert_eq!(dir(true, profile()), some("U/.cache/redfolder"));
    assert_eq!(dir(false, all()), some("X/redfolder"));
    let home = || CacheVariables { xdg_cache_home: None, ..all() };
    assert_eq!(dir(false, home()), some("H/.cache/redfolder"));
    // Without what the system has of its own, the other's variables do.
    assert_eq!(dir(true, CacheVariables { home: some("H"), ..none() }), some("H/.cache/redfolder"));
    assert_eq!(dir(false, CacheVariables { home: None, ..home() }), some("L/redfolder/cache"));
    assert_eq!(dir(false, CacheVariables { user_profile: some("U"), ..none() }), some("U/.cache/redfolder"));
    assert_eq!(dir(false, CacheVariables { app_data: some("A"), ..none() }), None);
    assert_eq!(dir(true, none()), None);
}

#[test]
fn test_default_cache_dir() {
    let some = |s: &str| Some(s.to_string());
    for (windows, local_app_data, home) in [(false, None, some("/home/trader")), (true, some("C:/Data"), None)] {
        let variables = CacheVariables {
            local_app_data,
            app_data: None,
            user_profile: None,
            xdg_cache_home: None,
            home,
        };
        let dir = CalendarClient::default_cache_dir(windows, variables).unwrap().join("/");
        assert!(!dir.is_empty());
        assert!(dir.contains("redfolder"));
    }
}
