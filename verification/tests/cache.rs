use redfolder::cache::{
    compute_events_sha256, events_to_json, hex, recover_cache, CachedCalendarData, LONGEST_SPAN,
};
use redfolder::cache::CacheMetadata;
use redfolder::calendar::{CalendarClient, RawCalendarEvent};
use redfolder::time::{TimeSpan, UtcTime};
use serde_json::Value;
use sha2::{Digest, Sha256};

fn event(title: &str) -> RawCalendarEvent {
    RawCalendarEvent {
        title: title.to_string(),
        country: "USD".to_string(),
        date: "2026-06-10T18:00:00Z".to_string(),
        time: String::new(),
        impact: "High".to_string(),
    }
}

fn at(secs: i64) -> UtcTime {
    UtcTime::from_unix(1_780_000_000 + secs, 0)
}

fn read_event(item: &Value) -> Option<RawCalendarEvent> {
    let text = |name: &str| item.get(name).and_then(Value::as_str).map(str::to_string);
    Some(RawCalendarEvent {
        title: text("title")?,
        country: text("country")?,
        date: text("date")?,
        time: text("time")?,
        impact: text("impact")?,
    })
}

fn read_events(items: &Value) -> Option<Vec<RawCalendarEvent>> {
    items.as_array()?.iter().map(read_event).collect()
}

fn read_time(text: &str) -> Option<UtcTime> {
    let t = chrono::DateTime::parse_from_rfc3339(text).ok()?;
    Some(UtcTime::from_unix(t.timestamp(), t.timestamp_subsec_nanos()))
}

fn read_data(file: &Value) -> Option<CachedCalendarData> {
    let metadata = file.get("metadata")?;
    Some(CachedCalendarData {
        metadata: CacheMetadata {
            version: metadata.get("version")?.as_u64()? as u32,
            fetched_at: read_time(metadata.get("fetched_at")?.as_str()?)?,
            expires_at: metadata.get("expires_at").and_then(Value::as_str).and_then(read_time),
            event_count: metadata.get("event_count")?.as_u64()? as usize,
            sha256: metadata.get("sha256").and_then(Value::as_str).map(str::to_string),
        },
        events: read_events(file.get("events")?)?,
    })
}

/// Loads a cache from the text of its file.
fn load(text: &str) -> Option<CachedCalendarData> {
    let file: Option<Value> = serde_json::from_str(text).ok();
    recover_cache(file.as_ref().and_then(read_data), file.as_ref().and_then(read_events))
}

#[test]
fn test_cache_save_and_load() {
    let events = vec![event("FOMC Rate Decision")];
    let saved = CachedCalendarData::fresh(&events, at(0), None);
    let structured = recover_cache(Some(saved), None).expect("structured cache should load");
    assert_eq!(structured.events.len(), 1);
    assert_eq!(structured.events[0].title, "FOMC Rate Decision");

    // Verify metadata
    assert_eq!(structured.metadata.version, 1);
    assert_eq!(structured.metadata.event_count, 1);
    assert!(structured.is_valid_at(at(1)));
}

#[test]
fn test_cache_sha256_checksum_and_tampering() {
    let events = vec![RawCalendarEvent {
        title: "US CPI Release".into(),
        country: "USD".into(),
        date: "2026-06-05".into(),
        time: "12:30".into(),
        impact: "High".into(),
    }];

    let saved = CachedCalendarData::fresh(&events, at(0), None);

    // Verify valid load with sha256
    let loaded = recover_cache(Some(saved.clone()), None).expect("cache should load cleanly");
    assert_eq!(loaded.events.len(), 1);
    assert!(loaded.metadata.sha256.is_some());

    // Tamper with cache content while keeping valid structure
    let mut tampered = saved;
    tampered.events[0].title = "Tampered Event".to_string();

    // Loading tampered cache must detect checksum mismatch and return None
    let result = recover_cache(Some(tampered), None);
    assert!(
        result.is_none(),
        "load_cache_data must reject cache with modified content due to sha256 checksum mismatch"
    );
}

#[test]
fn test_corrupted_cache_recovery() {
    // Corrupt garbage in the cache file
    let cache_file = "INVALID JSON { [[[[ }";

    // Should not panic, but gracefully return None
    assert!(load(cache_file).is_none());
    assert!(!CalendarClient::default().is_cache_valid(&load(cache_file), at(0)));
}

#[test]
fn caches_are_read_off_their_files() {
    let sum = compute_events_sha256(&[event("CPI")]);
    let events = events_to_json(&[event("CPI")]);
    let file = |version: u32, count: usize, sum: &str, events: &str| {
        format!(
            "{{\"metadata\":{{\"version\":{version},\"fetched_at\":\"2026-06-01T00:00:00Z\",\
             \"event_count\":{count},\"sha256\":\"{sum}\"}},\"events\":{events}}}"
        )
    };
    assert_eq!(load(&file(1, 1, &sum, &events)).unwrap().events, vec![event("CPI")]);
    assert!(load(&file(2, 1, &sum, &events)).is_none());
    assert!(load(&file(1, 2, &sum, &events)).is_none());
    assert!(load(&file(1, 1, "00", &events)).is_none());
    assert!(load(&file(1, 1, &sum, &events.replace("CPI", "PPI"))).is_none());
    assert!(load(&file(1, 1, &sum, "{}")).is_none());
}

#[test]
fn test_legacy_cache_fallback() {
    let legacy_json = r#"[
            {
                "title": "Legacy CPI",
                "country": "USD",
                "date": "2026-06-10T12:00:00Z",
                "time": "",
                "impact": "High"
            }
        ]"#;
    let loaded = load(legacy_json).expect("legacy cache should be supported");
    assert_eq!(loaded.events.len(), 1);
    assert_eq!(loaded.events[0].title, "Legacy CPI");
    assert_eq!(loaded.metadata.version, 0);
    assert_eq!(loaded.metadata.fetched_at, UtcTime { nanos: 0 });
    // Without a date it is neither fresh nor a stand-in.
    assert!(!loaded.is_valid_at(at(0)));
    assert!(!loaded.is_valid_at(UtcTime { nanos: 0 }));
    assert!(!loaded.is_acceptable_at(UtcTime { nanos: 0 }, Some(TimeSpan::from_secs(1))));
}

#[test]
fn checksum_is_that_of_the_compact_array() {
    let quoted = RawCalendarEvent {
        title: "A \"quoted\"\n\\ title é".to_string(),
        country: "EUR".to_string(),
        date: "d".to_string(),
        time: "t".to_string(),
        impact: "Low".to_string(),
    };
    let json = "[{\"title\":\"CPI\",\"country\":\"USD\",\"date\":\"2026-06-10T18:00:00Z\",\"time\":\"\",\"impact\":\"High\"},\
                {\"title\":\"A \\\"quoted\\\"\\n\\\\ title é\",\"country\":\"EUR\",\"date\":\"d\",\"time\":\"t\",\"impact\":\"Low\"}]";
    let events = [event("CPI"), quoted];
    assert_eq!(events_to_json(&events), json);
    let digest = Sha256::digest(json.as_bytes());
    assert_eq!(compute_events_sha256(&events), format!("{digest:x}"));
    assert_eq!(events_to_json(&[]), "[]");
    assert_eq!(
        compute_events_sha256(&[]),
        "4f53cda18c2baa0c0354bb5f9a3ecbe5ed12ab4d8e11ba873c2f11161202b945"
    );
}

#[test]
fn bytes_are_written_in_hexadecimal() {
    assert_eq!(hex(&vec![]), "");
    assert_eq!(hex(&vec![0, 9, 10, 15, 16, 171, 255]), "00090a0f10abff");
}

#[test]
fn caches_that_are_not_intact_are_not_used() {
    let good = CachedCalendarData::fresh(&vec![event("a"), event("b")], at(0), None);
    assert!(good.is_intact());
    let mut other_version = good.clone();
    other_version.metadata.version = 2;
    // A cache that is not intact does not fall back to plain events.
    assert!(recover_cache(Some(other_version), Some(vec![event("a")])).is_none());
    let mut truncated = good.clone();
    truncated.events.pop();
    assert!(!truncated.is_intact());
    let mut unsigned = good.clone();
    unsigned.metadata.sha256 = None;
    unsigned.events[0].title = "c".to_string();
    assert!(unsigned.is_intact());
    let mut swapped = good.clone();
    swapped.events.swap(0, 1);
    assert!(recover_cache(Some(swapped), None).is_none());
    assert_eq!(recover_cache(Some(good.clone()), None), Some(good));
}

#[test]
fn caches_expire_after_their_time_to_live() {
    let cached = CachedCalendarData::fresh(&vec![event("a")], at(0), Some(TimeSpan::from_secs(900)));
    assert_eq!(cached.metadata.expires_at, Some(at(900)));
    assert!(cached.is_valid_at(at(900)));
    assert!(!cached.is_valid_at(UtcTime { nanos: at(900).nanos + 1 }));
    let endless = CachedCalendarData::fresh(&vec![], at(0), Some(TimeSpan { nanos: LONGEST_SPAN + 1 }));
    assert_eq!(endless.metadata.expires_at, None);
    assert!(endless.is_valid_at(at(i32::MAX as i64)));
}

#[test]
fn stale_caches_stand_in_up_to_the_limit() {
    let cached = CachedCalendarData::fresh(&vec![event("a")], at(0), None);
    let day = Some(TimeSpan::from_secs(86_400));
    assert!(cached.is_acceptable_at(at(86_400), day));
    assert!(!cached.is_acceptable_at(at(86_401), day));
    assert!(!cached.is_acceptable_at(at(0), None));
    // A limit that is too long counts as 36 hours.
    let huge = Some(TimeSpan { nanos: u128::MAX });
    assert!(cached.is_acceptable_at(at(36 * 3600), huge));
    assert!(!cached.is_acceptable_at(at(36 * 3600 + 1), huge));
}

#[test]
fn texts_are_quoted_as_json_has_it() {
    // Every character that is escaped, and its neighbours.
    let title: String = (0u8..=0x7f).map(char::from).chain("\u{80}\u{2028}é😀".chars()).collect();
    let e = RawCalendarEvent { title: title.clone(), ..event("") };
    let json = events_to_json(&[e.clone()]);
    assert!(json.contains("\\u0000") && json.contains("\\u001f") && json.contains("\\b\\t\\n\\u000b\\f\\r"));
    assert!(json.contains(&serde_json::to_string(&title).unwrap()));
    let back: Value = serde_json::from_str(&json).unwrap();
    assert_eq!(read_events(&back), Some(vec![e]));
}

#[test]
fn different_events_have_different_json() {
    let moved = |title: &str, country: &str| RawCalendarEvent {
        title: title.to_string(),
        country: country.to_string(),
        ..event("")
    };
    let a = events_to_json(&[moved("a\",\"country\":\"", "b")]);
    let b = events_to_json(&[moved("a", "\",\"country\":\"b")]);
    let c = events_to_json(&[moved("a", "b"), moved("", "")]);
    assert!(a != b && b != c && a != c);
    assert_ne!(compute_events_sha256(&[moved("a", "b")]), compute_events_sha256(&[moved("ab", "")]));
}
