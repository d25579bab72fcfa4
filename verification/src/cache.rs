//! The cached calendar: its envelope, its checksum, and whether it may be used.

use crate::calendar::{RawCalendarEvent, RawEventModel};
use crate::json::{json_quoted, json_string, law_json_string_is_unambiguous};
use crate::json::lemma_same_beginning;
use crate::text::same_text;
use crate::time::{TimeSpan, UtcTime, HOUR};
use crate::views::{option_view, views};
use sha2::Digest;
use vstd::prelude::*;

verus! {

/// What stands beside cached events.
#[derive(Debug, PartialEq, Eq)]
pub struct CacheMetadata {
    /// Version of the cache's layout.
    pub version: u32,
    /// When the events were fetched.
    pub fetched_at: UtcTime,
    /// Until when the cache is fresh, if there is a limit.
    pub expires_at: Option<UtcTime>,
    /// The number of events.
    pub event_count: usize,
    /// The checksum of the events.
    pub sha256: Option<String>,
}

/// What a [`CacheMetadata`] is.
pub ghost struct MetadataModel {
    pub version: nat,
    pub fetched_at: int,
    pub expires_at: Option<int>,
    pub event_count: nat,
    pub sha256: Option<Seq<char>>,
}

impl View for CacheMetadata {
    type V = MetadataModel;

    open spec fn view(&self) -> MetadataModel {
        MetadataModel {
            version: self.version as nat,
            fetched_at: self.fetched_at@,
            expires_at: option_view(self.expires_at),
            event_count: self.event_count as nat,
            sha256: option_view(self.sha256),
        }
    }
}

impl Clone for CacheMetadata {
    fn clone(&self) -> (r: Self)
        ensures
            r@ == self@,
    {
        CacheMetadata {
            version: self.version,
            fetched_at: self.fetched_at,
            expires_at: self.expires_at,
            event_count: self.event_count,
            sha256: match &self.sha256 {
                Some(s) => Some(s.clone()),
                None => None,
            },
        }
    }
}

/// Cached events with what stands beside them.
#[derive(Debug, PartialEq, Eq)]
pub struct CachedCalendarData {
    pub metadata: CacheMetadata,
    pub events: Vec<RawCalendarEvent>,
}

/// What a [`CachedCalendarData`] is.
pub ghost struct CachedModel {
    pub metadata: MetadataModel,
    pub events: Seq<RawEventModel>,
}

impl View for CachedCalendarData {
    type V = CachedModel;

    open spec fn view(&self) -> CachedModel {
        CachedModel { metadata: self.metadata@, events: views(self.events@) }
    }
}

impl Clone for CachedCalendarData {
    fn clone(&self) -> (r: Self)
        ensures
            r@ == self@,
    {
        CachedCalendarData { metadata: self.metadata.clone(), events: clone_events(&self.events) }
    }
}

/// The same events once more.
pub(crate) fn clone_events(events: &Vec<RawCalendarEvent>) -> (r: Vec<RawCalendarEvent>)
    ensures
        views(r@) == views(events@),
{
    let r: Vec<RawCalendarEvent> = events.clone();
    assert(views(r@) =~= views(events@));
    r
}

/// The SHA-256 digest of `bytes`.
pub uninterp spec fn sha256_digest(bytes: Seq<u8>) -> Seq<u8>;

/// [`sha2::Sha256`], by its `digest`: the SHA-256 digest of `bytes`, 32 bytes that are a function of
/// those given.
#[verifier::external_body]
fn sha256(bytes: &[u8]) -> (r: Vec<u8>)
    ensures
        r@ == sha256_digest(bytes@),
        r@.len() == 32,
{
    sha2::Sha256::digest(bytes).to_vec()
}

/// The JSON object for an event.
pub open spec fn event_json(e: RawEventModel) -> Seq<char> {
    "{\"title\":"@ + json_string(e.title) + ",\"country\":"@ + json_string(e.country)
        + ",\"date\":"@ + json_string(e.date) + ",\"time\":"@ + json_string(e.time)
        + ",\"impact\":"@ + json_string(e.impact) + "}"@
}

/// The JSON objects for events, parted by commas.
pub open spec fn events_json_items(s: Seq<RawEventModel>) -> Seq<char>
    decreases s.len(),
{
    if s.len() == 0 {
        Seq::empty()
    } else if s.len() == 1 {
        event_json(s[0])
    } else {
        events_json_items(s.drop_last()) + ","@ + event_json(s.last())
    }
}

/// The JSON array for events, without white space.
pub open spec fn events_json(s: Seq<RawEventModel>) -> Seq<char> {
    "["@ + events_json_items(s) + "]"@
}

/// The hexadecimal digit for a number below 16.
pub open spec fn hex_digit(n: nat) -> char {
    if n < 10 {
        ('0' as u32 + n) as char
    } else {
        ('a' as u32 + n - 10) as char
    }
}

/// `bytes` in hexadecimal, two small digits each.
pub open spec fn hex_text(bytes: Seq<u8>) -> Seq<char>
    decreases bytes.len(),
{
    if bytes.len() == 0 {
        Seq::empty()
    } else {
        hex_text(bytes.drop_last()).push(hex_digit(bytes.last() as nat / 16)).push(
            hex_digit(bytes.last() as nat % 16),
        )
    }
}

/// The checksum of events: the SHA-256 digest, in hexadecimal, of their JSON array.
pub open spec fn events_checksum(s: Seq<RawEventModel>) -> Seq<char> {
    hex_text(sha256_digest(vstd::utf8::encode_utf8(events_json(s))))
}

fn hex_digit_text(n: u8) -> (r: &'static str)
    requires
        n < 16,
    ensures
        r@ == seq![hex_digit(n as nat)],
{
    proof {
        reveal_strlit("0");
        reveal_strlit("1");
        reveal_strlit("2");
        reveal_strlit("3");
        reveal_strlit("4");
        reveal_strlit("5");
        reveal_strlit("6");
        reveal_strlit("7");
        reveal_strlit("8");
        reveal_strlit("9");
        reveal_strlit("a");
        reveal_strlit("b");
        reveal_strlit("c");
        reveal_strlit("d");
        reveal_strlit("e");
        reveal_strlit("f");
    }
    match n {
        0 => "0",
        1 => "1",
        2 => "2",
        3 => "3",
        4 => "4",
        5 => "5",
        6 => "6",
        7 => "7",
        8 => "8",
        9 => "9",
        10 => "a",
        11 => "b",
        12 => "c",
        13 => "d",
        14 => "e",
        _ => "f",
    }
}

/// `bytes` in hexadecimal.
pub fn hex(bytes: &Vec<u8>) -> (r: String)
    ensures
        r@ == hex_text(bytes@),
{
    let mut out: String = String::new();
    let mut i: usize = 0;
    assert(out@ =~= hex_text(bytes@.take(0)));
    while i < bytes.len()
        invariant
            i <= bytes@.len(),
            out@ == hex_text(bytes@.take(i as int)),
        decreases bytes@.len() - i,
    {
        let b: u8 = bytes[i];
        let ghost before = out@;
        out.append(hex_digit_text(b / 16));
        out.append(hex_digit_text(b % 16));
        proof {
            assert(bytes@.take(i + 1).drop_last() =~= bytes@.take(i as int));
            assert(out@ =~= before.push(hex_digit(b as nat / 16)).push(hex_digit(b as nat % 16)));
        }
        i = i + 1;
    }
    assert(bytes@.take(i as int) =~= bytes@);
    out
}

fn push_event_json(out: &mut String, e: &RawCalendarEvent)
    ensures
        final(out)@ == old(out)@ + event_json(e@),
{
    let ghost before = out@;
    out.append("{\"title\":");
    out.append(json_quoted(e.title.as_str()).as_str());
    out.append(",\"country\":");
    out.append(json_quoted(e.country.as_str()).as_str());
    out.append(",\"date\":");
    out.append(json_quoted(e.date.as_str()).as_str());
    out.append(",\"time\":");
    out.append(json_quoted(e.time.as_str()).as_str());
    out.append(",\"impact\":");
    out.append(json_quoted(e.impact.as_str()).as_str());
    out.append("}");
    assert(out@ =~= before + event_json(e@));
}

/// The JSON array for events, without white space.
pub fn events_to_json(events: &[RawCalendarEvent]) -> (r: String)
    ensures
        r@ == events_json(views(events@)),
{
    let ghost all = views(events@);
    let mut out: String = "[".to_string();
    let mut i: usize = 0;
    assert(out@ =~= "["@ + events_json_items(all.take(0)));
    while i < events.len()
        invariant
            i <= events@.len(),
            all == views(events@),
            out@ == "["@ + events_json_items(all.take(i as int)),
        decreases events@.len() - i,
    {
        proof {
            assert(all.take(i + 1).drop_last() =~= all.take(i as int));
            assert(all.take(i + 1).last() == events@[i as int]@);
        }
        let ghost before = out@;
        if i > 0 {
            out.append(",");
        }
        push_event_json(&mut out, &events[i]);
        assert(out@ =~= "["@ + events_json_items(all.take(i + 1)));
        i = i + 1;
    }
    assert(all.take(i as int) =~= all);
    out.append("]");
    out
}

/// The checksum of events: the SHA-256 digest of their JSON array, in hexadecimal.
pub fn compute_events_sha256(events: &[RawCalendarEvent]) -> (r: String)
    ensures
        r@ == events_checksum(views(events@)),
{
    let json: String = events_to_json(events);
    hex(&sha256(json.as_str().as_bytes()))
}

/// The longest span that times can be moved by: as many milliseconds as an `i64` holds.
pub const LONGEST_SPAN: u128 = 9_223_372_036_854_775_807_000_000;

/// When a cache stored at `now` expires, if there is a limit. A limit that is too long is none.
pub open spec fn expiry(now: int, ttl: Option<nat>) -> Option<int> {
    match ttl {
        Some(t) => if t <= LONGEST_SPAN {
            Some(now + t)
        } else {
            None
        },
        None => None,
    }
}

impl CachedModel {
    /// The cache of events that were fetched at `now`.
    pub open spec fn fresh(events: Seq<RawEventModel>, now: int, ttl: Option<nat>) -> CachedModel {
        CachedModel {
            metadata: MetadataModel {
                version: 1,
                fetched_at: now,
                expires_at: expiry(now, ttl),
                event_count: events.len(),
                sha256: Some(events_checksum(events)),
            },
            events,
        }
    }

    /// The cache of events with nothing beside them, as they were once stored.
    pub open spec fn legacy(events: Seq<RawEventModel>) -> CachedModel {
        CachedModel {
            metadata: MetadataModel {
                version: 0,
                fetched_at: 0,
                expires_at: None,
                event_count: events.len(),
                sha256: None,
            },
            events,
        }
    }

    /// Whether the cache is of the current layout, with the number of events that it names, and
    /// with the checksum that it names if it names one.
    pub open spec fn intact(self) -> bool {
        &&& self.metadata.version == 1
        &&& self.metadata.event_count == self.events.len()
        &&& self.metadata.sha256 is Some ==> self.metadata.sha256->Some_0 == events_checksum(
            self.events,
        )
    }

    /// Whether the cache has not expired at `now`. One without a date never counts as fresh.
    pub open spec fn valid_at(self, now: int) -> bool {
        &&& self.metadata.version != 0
        &&& self.metadata.expires_at is Some ==> now <= self.metadata.expires_at->Some_0
    }

    /// Whether the cache may stand in for a failed fetch at `now`: it has a date, and is at most
    /// `max_stale` old. Without a limit it never does; a limit that is too long counts as 36 hours.
    pub open spec fn acceptable_at(self, now: int, max_stale: Option<nat>) -> bool {
        match max_stale {
            Some(limit) => self.metadata.version != 0 && now - self.metadata.fetched_at
                <= stale_limit(limit),
            None => false,
        }
    }
}

/// The oldest age of a cache for the configured one.
pub open spec fn stale_limit(limit: nat) -> int {
    if limit <= LONGEST_SPAN {
        limit as int
    } else {
        36 * HOUR as int
    }
}

/// What was found in a cache file: the cache if it is intact, or the events of an old cache file
/// where the file holds no more than them.
pub open spec fn recovered(
    full: Option<CachedModel>,
    plain: Option<Seq<RawEventModel>>,
) -> Option<CachedModel> {
    match full {
        Some(c) => if c.intact() {
            Some(c)
        } else {
            None
        },
        None => match plain {
            Some(events) => Some(CachedModel::legacy(events)),
            None => None,
        },
    }
}

impl CachedCalendarData {
    /// The cache of events that were fetched at `now`, fresh for `ttl`.
    pub fn fresh(events: &Vec<RawCalendarEvent>, now: UtcTime, ttl: Option<TimeSpan>) -> (r: Self)
        requires
            now.in_range(),
        ensures
            r@ == CachedModel::fresh(views(events@), now@, option_view(ttl)),
    {
        let expires_at: Option<UtcTime> = match ttl {
            Some(t) => if t.nanos <= LONGEST_SPAN {
                Some(UtcTime { nanos: now.nanos + t.nanos as i128 })
            } else {
                None
            },
            None => None,
        };
        CachedCalendarData {
            metadata: CacheMetadata {
                version: 1,
                fetched_at: now,
                expires_at,
                event_count: events.len(),
                sha256: Some(compute_events_sha256(events.as_slice())),
            },
            events: clone_events(events),
        }
    }

    /// The cache of events with nothing beside them.
    pub fn legacy(events: Vec<RawCalendarEvent>) -> (r: Self)
        ensures
            r@ == CachedModel::legacy(views(events@)),
    {
        CachedCalendarData {
            metadata: CacheMetadata {
                version: 0,
                fetched_at: UtcTime { nanos: 0 },
                expires_at: None,
                event_count: events.len(),
                sha256: None,
            },
            events,
        }
    }

    /// Whether the cache is of the current layout, with the number of events and the checksum that
    /// it names.
    pub fn is_intact(&self) -> (r: bool)
        ensures
            r == self@.intact(),
    {
        if self.metadata.version != 1 || self.metadata.event_count != self.events.len() {
            return false;
        }
        match &self.metadata.sha256 {
            Some(expected) => {
                let actual: String = compute_events_sha256(self.events.as_slice());
                same_text(actual.as_str(), expected.as_str())
            },
            None => true,
        }
    }

    /// Whether the cache has not expired at `now`.
    pub fn is_valid_at(&self, now: UtcTime) -> (r: bool)
        ensures
            r == self@.valid_at(now@),
    {
        if self.metadata.version == 0 {
            return false;
        }
        match self.metadata.expires_at {
            Some(t) => now.nanos <= t.nanos,
            None => true,
        }
    }

    /// Whether the cache may stand in for a failed fetch at `now`.
    pub fn is_acceptable_at(&self, now: UtcTime, max_stale: Option<TimeSpan>) -> (r: bool)
        requires
            now.in_range(),
        ensures
            r == self@.acceptable_at(now@, option_view(max_stale)),
    {
        if self.metadata.version == 0 {
            return false;
        }
        match max_stale {
            Some(limit) => {
                let longest: i128 = if limit.nanos <= LONGEST_SPAN {
                    limit.nanos as i128
                } else {
                    36 * HOUR
                };
                now.nanos - longest <= self.metadata.fetched_at.nanos
            },
            None => false,
        }
    }
}

/// What a cache file holds, by what reading it came to: the whole cache, or the plain events of an
/// old one. A cache that is not intact is not used.
pub fn recover_cache(
    full: Option<CachedCalendarData>,
    plain: Option<Vec<RawCalendarEvent>>,
) -> (r: Option<CachedCalendarData>)
    ensures
        option_view(r) == recovered(
            option_view(full),
            match plain {
                Some(events) => Some(views(events@)),
                None => None,
            },
        ),
{
    match full {
        Some(cached) => if cached.is_intact() {
            Some(cached)
        } else {
            None
        },
        None => match plain {
            Some(events) => Some(CachedCalendarData::legacy(events)),
            None => None,
        },
    }
}

/// A cache that was stored is read back as it was.
pub proof fn law_stored_cache_is_read_back(
    events: Seq<RawEventModel>,
    now: int,
    ttl: Option<nat>,
    plain: Option<Seq<RawEventModel>>,
)
    ensures
        recovered(Some(CachedModel::fresh(events, now, ttl)), plain) == Some(
            CachedModel::fresh(events, now, ttl),
        ),
{
}

/// The JSON objects for events, each behind a comma, and then `end`.
spec fn json_tail(s: Seq<RawEventModel>, end: Seq<char>) -> Seq<char>
    decreases s.len(),
{
    if s.len() == 0 {
        end
    } else {
        ","@ + (event_json(s.first()) + json_tail(s.drop_first(), end))
    }
}

proof fn lemma_json_tail_push(s: Seq<RawEventModel>, e: RawEventModel, end: Seq<char>)
    ensures
        json_tail(s.push(e), end) == json_tail(s, ","@ + (event_json(e) + end)),
    decreases s.len(),
{
    reveal_with_fuel(json_tail, 2);
    let more = s.push(e);
    if s.len() == 0 {
        assert(more.drop_first() =~= Seq::empty());
    } else {
        assert(more.drop_first() =~= s.drop_first().push(e));
        lemma_json_tail_push(s.drop_first(), e, end);
    }
}

/// The JSON objects for events, read from the front.
proof fn lemma_items_from_front(s: Seq<RawEventModel>, end: Seq<char>)
    requires
        s.len() > 0,
    ensures
        events_json_items(s) + end == event_json(s.first()) + json_tail(s.drop_first(), end),
    decreases s.len(),
{
    if s.len() == 1 {
        assert(s.drop_first() =~= Seq::empty());
    } else {
        let front = s.drop_last();
        let more = ","@ + (event_json(s.last()) + end);
        lemma_items_from_front(front, more);
        assert(events_json_items(s) + end =~= events_json_items(front) + more);
        assert(s.drop_first() =~= front.drop_first().push(s.last()));
        lemma_json_tail_push(front.drop_first(), s.last(), end);
    }
}

proof fn lemma_regroup(a: Seq<char>, b: Seq<char>, c: Seq<char>)
    ensures
        (a + b) + c == a + (b + c),
{
    assert((a + b) + c =~= a + (b + c));
}

/// A member of a JSON object with its comma, and what follows it.
spec fn json_member(head: Seq<char>, text: Seq<char>, rest: Seq<char>) -> Seq<char> {
    head + (json_string(text) + rest)
}

proof fn lemma_json_member_ends(
    head: Seq<char>,
    a: Seq<char>,
    b: Seq<char>,
    x: Seq<char>,
    y: Seq<char>,
)
    requires
        json_member(head, a, x) == json_member(head, b, y),
    ensures
        a == b,
        x == y,
{
    lemma_same_beginning(head, json_string(a) + x, json_string(b) + y);
    law_json_string_is_unambiguous(a, b, x, y);
}

/// The JSON object for an event, member by member, and what follows it.
spec fn event_members(e: RawEventModel, rest: Seq<char>) -> Seq<char> {
    json_member(
        "{\"title\":"@,
        e.title,
        json_member(
            ",\"country\":"@,
            e.country,
            json_member(
                ",\"date\":"@,
                e.date,
                json_member(
                    ",\"time\":"@,
                    e.time,
                    json_member(",\"impact\":"@, e.impact, "}"@ + rest),
                ),
            ),
        ),
    )
}

proof fn lemma_event_members(e: RawEventModel, rest: Seq<char>)
    ensures
        event_json(e) + rest == event_members(e, rest),
{
    let p1 = "{\"title\":"@ + json_string(e.title);
    let p2 = p1 + ",\"country\":"@;
    let p3 = p2 + json_string(e.country);
    let p4 = p3 + ",\"date\":"@;
    let p5 = p4 + json_string(e.date);
    let p6 = p5 + ",\"time\":"@;
    let p7 = p6 + json_string(e.time);
    let p8 = p7 + ",\"impact\":"@;
    let p9 = p8 + json_string(e.impact);
    let r5 = "}"@ + rest;
    let r4 = json_member(",\"impact\":"@, e.impact, r5);
    let r3 = json_member(",\"time\":"@, e.time, r4);
    let r2 = json_member(",\"date\":"@, e.date, r3);
    let r1 = json_member(",\"country\":"@, e.country, r2);
    lemma_regroup(p9, "}"@, rest);
    lemma_regroup(p8, json_string(e.impact), r5);
    lemma_regroup(p7, ",\"impact\":"@, json_string(e.impact) + r5);
    lemma_regroup(p6, json_string(e.time), r4);
    lemma_regroup(p5, ",\"time\":"@, json_string(e.time) + r4);
    lemma_regroup(p4, json_string(e.date), r3);
    lemma_regroup(p3, ",\"date\":"@, json_string(e.date) + r3);
    lemma_regroup(p2, json_string(e.country), r2);
    lemma_regroup(p1, ",\"country\":"@, json_string(e.country) + r2);
    lemma_regroup("{\"title\":"@, json_string(e.title), r1);
}

proof fn lemma_event_json_ends(d: RawEventModel, e: RawEventModel, x: Seq<char>, y: Seq<char>)
    requires
        event_json(d) + x == event_json(e) + y,
    ensures
        d == e,
        x == y,
{
    lemma_event_members(d, x);
    lemma_event_members(e, y);
    let x5 = "}"@ + x;
    let x4 = json_member(",\"impact\":"@, d.impact, x5);
    let x3 = json_member(",\"time\":"@, d.time, x4);
    let x2 = json_member(",\"date\":"@, d.date, x3);
    let x1 = json_member(",\"country\":"@, d.country, x2);
    let y5 = "}"@ + y;
    let y4 = json_member(",\"impact\":"@, e.impact, y5);
    let y3 = json_member(",\"time\":"@, e.time, y4);
    let y2 = json_member(",\"date\":"@, e.date, y3);
    let y1 = json_member(",\"country\":"@, e.country, y2);
    lemma_json_member_ends("{\"title\":"@, d.title, e.title, x1, y1);
    lemma_json_member_ends(",\"country\":"@, d.country, e.country, x2, y2);
    lemma_json_member_ends(",\"date\":"@, d.date, e.date, x3, y3);
    lemma_json_member_ends(",\"time\":"@, d.time, e.time, x4, y4);
    lemma_json_member_ends(",\"impact\":"@, d.impact, e.impact, x5, y5);
    lemma_same_beginning("}"@, x, y);
}

proof fn lemma_json_tail_tells(a: Seq<RawEventModel>, b: Seq<RawEventModel>)
    requires
        json_tail(a, "]"@) == json_tail(b, "]"@),
    ensures
        a == b,
    decreases a.len(),
{
    reveal_strlit("]");
    reveal_strlit(",");
    if a.len() == 0 && b.len() == 0 {
        assert(a =~= b);
    } else if a.len() == 0 {
        assert(json_tail(b, "]"@)[0] == ',');
    } else if b.len() == 0 {
        assert(json_tail(a, "]"@)[0] == ',');
    } else {
        let x = json_tail(a.drop_first(), "]"@);
        let y = json_tail(b.drop_first(), "]"@);
        lemma_same_beginning(","@, event_json(a.first()) + x, event_json(b.first()) + y);
        lemma_event_json_ends(a.first(), b.first(), x, y);
        lemma_json_tail_tells(a.drop_first(), b.drop_first());
        assert(a =~= seq![a.first()] + a.drop_first());
        assert(b =~= seq![b.first()] + b.drop_first());
    }
}

/// Different events have different JSON arrays.
pub proof fn law_events_json_is_unambiguous(a: Seq<RawEventModel>, b: Seq<RawEventModel>)
    requires
        events_json(a) == events_json(b),
    ensures
        a == b,
{
    reveal_strlit("]");
    reveal_strlit("{\"title\":");
    let x = events_json_items(a) + "]"@;
    let y = events_json_items(b) + "]"@;
    assert(events_json(a) =~= "["@ + x);
    assert(events_json(b) =~= "["@ + y);
    lemma_same_beginning("["@, x, y);
    if a.len() > 0 {
        lemma_items_from_front(a, "]"@);
        assert(event_json(a.first())[0] == '{');
        assert(x[0] == '{');
    } else {
        assert(x =~= "]"@);
    }
    if b.len() > 0 {
        lemma_items_from_front(b, "]"@);
        assert(event_json(b.first())[0] == '{');
        assert(y[0] == '{');
    } else {
        assert(y =~= "]"@);
    }
    if a.len() > 0 && b.len() > 0 {
        let u = json_tail(a.drop_first(), "]"@);
        let v = json_tail(b.drop_first(), "]"@);
        lemma_event_json_ends(a.first(), b.first(), u, v);
        lemma_json_tail_tells(a.drop_first(), b.drop_first());
        assert(a =~= seq![a.first()] + a.drop_first());
        assert(b =~= seq![b.first()] + b.drop_first());
    } else {
        assert(a =~= b);
    }
}

/// Different bytes have different hexadecimal texts.
pub proof fn law_hex_is_unambiguous(a: Seq<u8>, b: Seq<u8>)
    requires
        hex_text(a) == hex_text(b),
    ensures
        a == b,
    decreases a.len(),
{
    law_hex_has_two_digits_per_byte(a);
    law_hex_has_two_digits_per_byte(b);
    if a.len() > 0 {
        let x = hex_text(a);
        let y = hex_text(b);
        let n = x.len() as int;
        assert(x[n - 1] == hex_digit(a.last() as nat % 16));
        assert(y[n - 1] == hex_digit(b.last() as nat % 16));
        assert(x[n - 2] == hex_digit(a.last() as nat / 16));
        assert(y[n - 2] == hex_digit(b.last() as nat / 16));
        assert(a.last() == b.last());
        assert(x.take(n - 2) =~= hex_text(a.drop_last()));
        assert(y.take(n - 2) =~= hex_text(b.drop_last()));
        law_hex_is_unambiguous(a.drop_last(), b.drop_last());
        assert(a =~= a.drop_last().push(a.last()));
        assert(b =~= b.drop_last().push(b.last()));
    } else {
        assert(a =~= b);
    }
}

/// The bytes that the checksum of events is taken of.
pub open spec fn events_bytes(s: Seq<RawEventModel>) -> Seq<u8> {
    vstd::utf8::encode_utf8(events_json(s))
}

/// A stored cache is not used once its events are altered, unless SHA-256 gives two different texts
/// one digest.
pub proof fn law_altered_cache_is_rejected(
    events: Seq<RawEventModel>,
    now: int,
    ttl: Option<nat>,
    altered: Seq<RawEventModel>,
    plain: Option<Seq<RawEventModel>>,
)
    requires
        altered != events,
    ensures
        events_bytes(altered) != events_bytes(events),
        sha256_digest(events_bytes(altered)) != sha256_digest(events_bytes(events)) ==> recovered(
            Some(CachedModel { events: altered, ..CachedModel::fresh(events, now, ttl) }),
            plain,
        ) is None,
        altered.len() != events.len() ==> recovered(
            Some(CachedModel { events: altered, ..CachedModel::fresh(events, now, ttl) }),
            plain,
        ) is None,
{
    vstd::utf8::encode_utf8_decode_utf8(events_json(events));
    vstd::utf8::encode_utf8_decode_utf8(events_json(altered));
    if events_bytes(altered) == events_bytes(events) {
        law_events_json_is_unambiguous(altered, events);
    }
    if events_checksum(altered) == events_checksum(events) {
        law_hex_is_unambiguous(
            sha256_digest(events_bytes(altered)),
            sha256_digest(events_bytes(events)),
        );
    }
}

/// A cache without a date is neither fresh at any time nor used in place of a failed fetch.
pub proof fn law_legacy_cache_is_never_trusted(
    events: Seq<RawEventModel>,
    now: int,
    max_stale: Option<nat>,
)
    ensures
        !CachedModel::legacy(events).valid_at(now),
        !CachedModel::legacy(events).acceptable_at(now, max_stale),
{
}

/// A stored cache is fresh for its whole time to live, and no longer.
pub proof fn law_cache_is_fresh_for_its_time_to_live(
    events: Seq<RawEventModel>,
    stored: int,
    ttl: nat,
    now: int,
)
    requires
        ttl <= LONGEST_SPAN,
    ensures
        CachedModel::fresh(events, stored, Some(ttl)).valid_at(now) <==> now <= stored + ttl,
{
}

/// A stored cache stands in for a failed fetch exactly until the age limit.
pub proof fn law_cache_is_acceptable_up_to_the_age_limit(
    events: Seq<RawEventModel>,
    stored: int,
    ttl: Option<nat>,
    limit: nat,
    now: int,
)
    requires
        limit <= LONGEST_SPAN,
    ensures
        CachedModel::fresh(events, stored, ttl).acceptable_at(now, Some(limit)) <==> now - stored
            <= limit,
{
}

/// Hexadecimal text has two digits for each byte.
pub proof fn law_hex_has_two_digits_per_byte(bytes: Seq<u8>)
    ensures
        hex_text(bytes).len() == 2 * bytes.len(),
    decreases bytes.len(),
{
    if bytes.len() > 0 {
        law_hex_has_two_digits_per_byte(bytes.drop_last());
    }
}

/// The JSON array of events holds one object for each, in their order and parted by commas, with the
/// five members in this order and no white space.
pub proof fn law_events_are_written_in_turn(s: Seq<RawEventModel>, e: RawEventModel)
    ensures
        ({
            let object = "{\"title\":"@ + json_string(e.title) + ",\"country\":"@ + json_string(
                e.country,
            ) + ",\"date\":"@ + json_string(e.date) + ",\"time\":"@ + json_string(e.time)
                + ",\"impact\":"@ + json_string(e.impact) + "}"@;
            let longer = events_json(s.push(e));
            &&& s.len() == 0 ==> events_json(s) == "["@ + "]"@ && longer == "["@ + object + "]"@
            &&& s.len() > 0 ==> longer == events_json(s).drop_last() + ","@ + object + "]"@
        }),
{
    reveal_strlit("]");
    let longer = s.push(e);
    assert(longer.drop_last() =~= s);
    assert(longer.last() == e);
    if s.len() == 0 {
        assert(events_json_items(s) =~= Seq::empty());
        assert(events_json(s) =~= "["@ + "]"@);
    } else {
        assert(events_json(s).drop_last() =~= "["@ + events_json_items(s));
        assert(events_json(longer) =~= events_json(s).drop_last() + ","@ + event_json(e) + "]"@);
    }
}

/// Every byte is written with its two hexadecimal digits, the higher one first.
pub proof fn law_bytes_are_written_in_hex(bytes: Seq<u8>, b: u8)
    ensures
        hex_text(Seq::empty()).len() == 0,
        hex_text(bytes.push(b)) == hex_text(bytes) + seq![
            "0123456789abcdef"@[b as int / 16],
            "0123456789abcdef"@[b as int % 16],
        ],
{
    reveal_strlit("0123456789abcdef");
    assert(bytes.push(b).drop_last() =~= bytes);
    assert(hex_digit(b as nat / 16) == "0123456789abcdef"@[b as int / 16]);
    assert(hex_digit(b as nat % 16) == "0123456789abcdef"@[b as int % 16]);
    assert(hex_text(bytes.push(b)) =~= hex_text(bytes) + seq![
        hex_digit(b as nat / 16),
        hex_digit(b as nat % 16),
    ]);
}

/// The checksum of events is the SHA-256 digest of their JSON array in UTF-8, in hexadecimal.
pub proof fn law_checksum_of_events(s: Seq<RawEventModel>)
    ensures
        events_checksum(s) == hex_text(sha256_digest(vstd::utf8::encode_utf8(events_json(s)))),
{
}

/// A cache that is stored names its layout, when its events were fetched, when it expires, how many
/// events it holds, and their checksum. A time to live of more milliseconds than an `i64` holds is no
/// limit, and neither is none.
pub proof fn law_stored_cache_names_its_events(
    events: Seq<RawEventModel>,
    now: int,
    ttl: Option<nat>,
)
    ensures
        ({
            let c = CachedModel::fresh(events, now, ttl);
            &&& c.events == events
            &&& c.metadata.version == 1
            &&& c.metadata.fetched_at == now
            &&& c.metadata.event_count == events.len()
            &&& c.metadata.sha256 == Some(events_checksum(events))
            &&& c.metadata.expires_at is Some <==> ttl is Some && ttl->Some_0
                <= 9_223_372_036_854_775_807_000_000
            &&& c.metadata.expires_at matches Some(t) ==> t == now + ttl->Some_0
        }),
        ({
            let c = CachedModel::legacy(events);
            &&& c.events == events
            &&& c.metadata.version == 0
            &&& c.metadata.fetched_at == 0
            &&& c.metadata.event_count == events.len()
            &&& c.metadata.sha256 is None
            &&& c.metadata.expires_at is None
        }),
{
}

/// What is read from a file is used as it is where it is of the current layout, holds as many events as
/// it names, and bears their checksum or none. Where it is not, nothing is used. Plain events count
/// only where there is no cache.
pub proof fn law_only_intact_caches_are_read(
    c: CachedModel,
    plain: Option<Seq<RawEventModel>>,
    events: Seq<RawEventModel>,
)
    ensures
        ({
            let sound = {
                &&& c.metadata.version == 1
                &&& c.metadata.event_count == c.events.len()
                &&& c.metadata.sha256 is None || c.metadata.sha256 == Some(events_checksum(c.events))
            };
            &&& c.intact() <==> sound
            &&& sound ==> recovered(Some(c), plain) == Some(c)
            &&& !sound ==> recovered(Some(c), plain) is None
        }),
        recovered(None, Some(events)) == Some(CachedModel::legacy(events)),
        recovered(None, None) is None,
{
}

/// A cache with a date is fresh until it expires, and always where it does not.
pub proof fn law_cache_is_fresh_until_it_expires(c: CachedModel, now: int)
    ensures
        c.metadata.version == 0 ==> !c.valid_at(now),
        c.metadata.version != 0 && c.metadata.expires_at is None ==> c.valid_at(now),
        c.metadata.version != 0 ==> (c.metadata.expires_at matches Some(t) ==> (c.valid_at(now) <==> now
            <= t)),
{
}

/// A cache with a date stands in for a failed fetch while it is no older than the limit; without a
/// limit it never does. A limit of more milliseconds than an `i64` holds counts as 36 hours.
pub proof fn law_cache_stands_in_while_young(c: CachedModel, now: int, max_stale: Option<nat>)
    ensures
        max_stale is None || c.metadata.version == 0 ==> !c.acceptable_at(now, max_stale),
        c.metadata.version != 0 ==> (max_stale matches Some(limit) ==> {
            &&& limit <= 9_223_372_036_854_775_807_000_000 ==> (c.acceptable_at(now, max_stale) <==> now
                - c.metadata.fetched_at <= limit)
            &&& limit > 9_223_372_036_854_775_807_000_000 ==> (c.acceptable_at(now, max_stale) <==> now
                - c.metadata.fetched_at <= 129_600_000_000_000)
        }),
{
}

/// A cache shows what its fields hold.
pub proof fn law_cache_by_field(c: CachedCalendarData, i: int)
    ensures
        c@.metadata.version == c.metadata.version,
        c@.metadata.fetched_at == c.metadata.fetched_at@,
        c@.metadata.expires_at is Some <==> c.metadata.expires_at is Some,
        c.metadata.expires_at matches Some(t) ==> c@.metadata.expires_at == Some(t@),
        c@.metadata.event_count == c.metadata.event_count,
        c@.metadata.sha256 is Some <==> c.metadata.sha256 is Some,
        c.metadata.sha256 matches Some(s) ==> c@.metadata.sha256 == Some(s@),
        c@.events.len() == c.events@.len(),
        0 <= i < c.events@.len() ==> c@.events[i] == c.events@[i]@,
{
}

} // verus!
