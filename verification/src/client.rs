//! Settings of the calendar client.

use crate::time::{TimeSpan, SECOND};
use crate::views::{lemma_views_push, option_view, views};
use crate::zone::{clone_zone, zone_view, SourceZone};
use vstd::prelude::*;

verus! {

/// Address of the weekly calendar feed.
pub const CALENDAR_URL: &'static str = "https://nfs.faireconomy.media/ff_calendar_thisweek.json";

/// File name of the cache.
pub const DEFAULT_CACHE_FILENAME: &'static str = "economic_calendar.json";

/// Largest response body, in bytes, that is read: 10 MiB.
pub const DEFAULT_MAX_RESPONSE_BYTES: usize = 10 * 1024 * 1024;

/// Largest number of events that is accepted.
pub const DEFAULT_MAX_EVENT_COUNT: usize = 50_000;

/// User agent of requests. The feed rejects those of unknown programs.
pub const DEFAULT_USER_AGENT: &'static str =
    "Mozilla/5.0 (Windows NT 10.0; Win64; x64) AppleWebKit/537.36 (KHTML, like Gecko) Chrome/120.0.0.0 Safari/537.36";

/// Settings of a calendar client.
#[derive(Debug, PartialEq, Eq)]
pub struct CalendarClient {
    calendar_url: String,
    fallback_urls: Vec<String>,
    request_timeout: TimeSpan,
    cache_ttl: Option<TimeSpan>,
    calendar_timezone: Option<SourceZone>,
    max_stale_cache_age: Option<TimeSpan>,
    max_response_bytes: usize,
    max_event_count: usize,
    max_retries: usize,
    backoff_initial_delay: TimeSpan,
    max_retry_after: TimeSpan,
    overall_timeout: Option<TimeSpan>,
}

/// What a [`CalendarClient`] is.
pub ghost struct ClientModel {
    pub calendar_url: Seq<char>,
    pub fallback_urls: Seq<Seq<char>>,
    pub request_timeout: nat,
    pub cache_ttl: Option<nat>,
    pub calendar_timezone: Option<Seq<char>>,
    pub max_stale_cache_age: Option<nat>,
    pub max_response_bytes: nat,
    pub max_event_count: nat,
    pub max_retries: nat,
    pub backoff_initial_delay: nat,
    pub max_retry_after: nat,
    pub overall_timeout: Option<nat>,
}

impl View for CalendarClient {
    type V = ClientModel;

    closed spec fn view(&self) -> ClientModel {
        ClientModel {
            calendar_url: self.calendar_url@,
            fallback_urls: views(self.fallback_urls@),
            request_timeout: self.request_timeout@,
            cache_ttl: option_view(self.cache_ttl),
            calendar_timezone: zone_view(self.calendar_timezone),
            max_stale_cache_age: option_view(self.max_stale_cache_age),
            max_response_bytes: self.max_response_bytes as nat,
            max_event_count: self.max_event_count as nat,
            max_retries: self.max_retries as nat,
            backoff_initial_delay: self.backoff_initial_delay@,
            max_retry_after: self.max_retry_after@,
            overall_timeout: option_view(self.overall_timeout),
        }
    }
}

/// `n` doubled so many times.
pub open spec fn doubled(n: nat, times: nat) -> nat
    decreases times,
{
    if times == 0 {
        n
    } else {
        2 * doubled(n, (times - 1) as nat)
    }
}

impl ClientModel {
    /// The default settings for a feed.
    pub open spec fn standard(url: Seq<char>, request_timeout: nat) -> ClientModel {
        ClientModel {
            calendar_url: url,
            fallback_urls: Seq::empty(),
            request_timeout,
            cache_ttl: None,
            calendar_timezone: None,
            max_stale_cache_age: Some((36 * 3600 * SECOND) as nat),
            max_response_bytes: DEFAULT_MAX_RESPONSE_BYTES as nat,
            max_event_count: DEFAULT_MAX_EVENT_COUNT as nat,
            max_retries: 2,
            backoff_initial_delay: 500_000_000,
            max_retry_after: (10 * SECOND) as nat,
            overall_timeout: None,
        }
    }

    /// The addresses to try, in order.
    pub open spec fn urls(self) -> Seq<Seq<char>> {
        seq![self.calendar_url] + self.fallback_urls
    }

    /// How long to wait after the attempt numbered `attempt` from 0: twice as long each time.
    pub open spec fn backoff(self, attempt: nat) -> nat {
        doubled(self.backoff_initial_delay, attempt)
    }

    /// Whether the wait after the attempt numbered `attempt` from 0 can be reckoned: the first wait
    /// is doubled fewer than 32 times, and has no more seconds than a `u64` holds.
    pub open spec fn reckons(self, attempt: nat) -> bool {
        &&& attempt < 32
        &&& self.backoff_initial_delay <= 0x1_0000_0000_0000_0000 * SECOND
    }
}

/// The variables of the environment that name a place for caches.
#[derive(Debug, PartialEq, Eq)]
pub struct CacheVariables {
    /// `LOCALAPPDATA`
    pub local_app_data: Option<String>,
    /// `APPDATA`
    pub app_data: Option<String>,
    /// `USERPROFILE`
    pub user_profile: Option<String>,
    /// `XDG_CACHE_HOME`
    pub xdg_cache_home: Option<String>,
    /// `HOME`
    pub home: Option<String>,
}

/// The directory for caches by the environment, part by part: on Windows that of the local
/// application data, of the application data, or of the user's profile, and elsewhere, or without
/// those, the XDG cache directory, that of the home directory, that of the local application data,
/// or that of the user's profile. There is none without any of them.
pub open spec fn cache_dir_of(windows: bool, v: CacheVariables) -> Option<Seq<Seq<char>>> {
    if windows && v.local_app_data is Some {
        Some(seq![v.local_app_data->Some_0@, "redfolder"@, "cache"@])
    } else if windows && v.app_data is Some {
        Some(seq![v.app_data->Some_0@, "redfolder"@, "cache"@])
    } else if windows && v.user_profile is Some {
        Some(seq![v.user_profile->Some_0@, ".cache"@, "redfolder"@])
    } else if v.xdg_cache_home is Some {
        Some(seq![v.xdg_cache_home->Some_0@, "redfolder"@])
    } else if v.home is Some {
        Some(seq![v.home->Some_0@, ".cache"@, "redfolder"@])
    } else if v.local_app_data is Some {
        Some(seq![v.local_app_data->Some_0@, "redfolder"@, "cache"@])
    } else if v.user_profile is Some {
        Some(seq![v.user_profile->Some_0@, ".cache"@, "redfolder"@])
    } else {
        None
    }
}

fn three_parts(a: String, b: &str, c: &str) -> (r: Vec<String>)
    ensures
        views(r@) == seq![a@, b@, c@],
{
    let r: Vec<String> = vec![a, b.to_string(), c.to_string()];
    assert(views(r@) =~= seq![a@, b@, c@]);
    r
}

impl Clone for CalendarClient {
    fn clone(&self) -> (r: Self)
        ensures
            r@ == self@,
    {
        let fallback_urls: Vec<String> = self.fallback_urls.clone();
        assert(views(fallback_urls@) =~= views(self.fallback_urls@));
        CalendarClient {
            calendar_url: self.calendar_url.clone(),
            fallback_urls,
            request_timeout: self.request_timeout,
            cache_ttl: self.cache_ttl,
            calendar_timezone: clone_zone(&self.calendar_timezone),
            max_stale_cache_age: self.max_stale_cache_age,
            max_response_bytes: self.max_response_bytes,
            max_event_count: self.max_event_count,
            max_retries: self.max_retries,
            backoff_initial_delay: self.backoff_initial_delay,
            max_retry_after: self.max_retry_after,
            overall_timeout: self.overall_timeout,
        }
    }
}

impl Default for CalendarClient {
    fn default() -> (r: Self)
        ensures
            r@ == ClientModel::standard(CALENDAR_URL@, (30 * SECOND) as nat),
    {
        CalendarClient::without_cache()
    }
}

impl CalendarClient {
    /// The default directory for the cache, part by part, if the environment names one.
    #[must_use]
    pub fn default_cache_dir(windows: bool, variables: CacheVariables) -> (r: Option<Vec<String>>)
        ensures
            (match r {
                Some(parts) => Some(views(parts@)),
                None => None,
            }) == cache_dir_of(windows, variables),
    {
        if windows {
            if let Some(dir) = variables.local_app_data {
                return Some(three_parts(dir, "redfolder", "cache"));
            }
            if let Some(dir) = variables.app_data {
                return Some(three_parts(dir, "redfolder", "cache"));
            }
            if let Some(dir) = variables.user_profile {
                return Some(three_parts(dir, ".cache", "redfolder"));
            }
        }
        if let Some(dir) = variables.xdg_cache_home {
            let parts: Vec<String> = vec![dir, "redfolder".to_string()];
            assert(views(parts@) =~= seq![dir@, "redfolder"@]);
            return Some(parts);
        }
        if let Some(dir) = variables.home {
            return Some(three_parts(dir, ".cache", "redfolder"));
        }
        if let Some(dir) = variables.local_app_data {
            return Some(three_parts(dir, "redfolder", "cache"));
        }
        if let Some(dir) = variables.user_profile {
            return Some(three_parts(dir, ".cache", "redfolder"));
        }
        None
    }

    /// The default settings for the usual feed.
    #[must_use]
    pub fn without_cache() -> (r: Self)
        ensures
            r@ == ClientModel::standard(CALENDAR_URL@, (30 * SECOND) as nat),
    {
        CalendarClient::with_options(CALENDAR_URL, TimeSpan::from_secs(30))
    }

    /// The default settings for the feed at `calendar_url`.
    pub fn with_options(calendar_url: &str, request_timeout: TimeSpan) -> (r: Self)
        ensures
            r@ == ClientModel::standard(calendar_url@, request_timeout@),
    {
        let fallback_urls: Vec<String> = Vec::new();
        assert(views(fallback_urls@) =~= Seq::empty());
        CalendarClient {
            calendar_url: calendar_url.to_string(),
            fallback_urls,
            request_timeout,
            cache_ttl: None,
            calendar_timezone: None,
            max_stale_cache_age: Some(TimeSpan::from_secs(36 * 3600)),
            max_response_bytes: DEFAULT_MAX_RESPONSE_BYTES,
            max_event_count: DEFAULT_MAX_EVENT_COUNT,
            max_retries: 2,
            backoff_initial_delay: TimeSpan::from_millis(500),
            max_retry_after: TimeSpan::from_secs(10),
            overall_timeout: None,
        }
    }

    /// Adds an address that is tried when those before it have failed.
    #[must_use]
    pub fn with_fallback_url(self, url: &str) -> (r: Self)
        ensures
            r@ == (ClientModel { fallback_urls: self@.fallback_urls.push(url@), ..self@ }),
    {
        let mut client: Self = self;
        client.add_fallback_url(url);
        client
    }

    /// Adds addresses that are tried, in order, when those before them have failed.
    #[must_use]
    pub fn with_fallback_urls(self, urls: Vec<&str>) -> (r: Self)
        ensures
            r@ == (ClientModel { fallback_urls: self@.fallback_urls + views(urls@), ..self@ }),
    {
        let mut client: Self = self;
        let ghost given = views(urls@);
        let mut i: usize = 0;
        assert(self@.fallback_urls + given.take(0) =~= self@.fallback_urls);
        while i < urls.len()
            invariant
                i <= urls@.len(),
                given == views(urls@),
                client@ == (ClientModel {
                    fallback_urls: self@.fallback_urls + given.take(i as int),
                    ..self@
                }),
            decreases urls@.len() - i,
        {
            client.add_fallback_url(urls[i]);
            proof {
                assert(self@.fallback_urls + given.take(i + 1) =~= (self@.fallback_urls
                    + given.take(i as int)).push(given[i as int]));
            }
            i = i + 1;
        }
        assert(given.take(i as int) =~= given);
        client
    }

    /// The addresses that are tried when the first one has failed.
    #[must_use]
    pub fn fallback_urls(&self) -> (r: &[String])
        ensures
            views(r@) == self@.fallback_urls,
    {
        self.fallback_urls.as_slice()
    }

    /// The address that is tried first.
    #[must_use]
    pub fn calendar_url(&self) -> (r: &str)
        ensures
            r@ == self@.calendar_url,
    {
        self.calendar_url.as_str()
    }

    /// Sets the address that is tried first.
    pub fn set_calendar_url(&mut self, url: &str)
        ensures
            final(self)@ == (ClientModel { calendar_url: url@, ..old(self)@ }),
    {
        self.calendar_url = url.to_string();
    }

    /// Adds an address that is tried when those before it have failed.
    pub fn add_fallback_url(&mut self, url: &str)
        ensures
            final(self)@ == (ClientModel {
                fallback_urls: old(self)@.fallback_urls.push(url@),
                ..old(self)@
            }),
    {
        let added: String = url.to_string();
        proof {
            lemma_views_push(self.fallback_urls@, added);
        }
        self.fallback_urls.push(added);
    }

    /// Sets the largest response body that is read.
    #[must_use]
    pub fn with_max_response_bytes(self, max_bytes: usize) -> (r: Self)
        ensures
            r@ == (ClientModel { max_response_bytes: max_bytes as nat, ..self@ }),
    {
        let mut client: Self = self;
        client.max_response_bytes = max_bytes;
        client
    }

    /// Sets the largest response body that is read.
    pub fn set_max_response_bytes(&mut self, max_bytes: usize)
        ensures
            final(self)@ == (ClientModel { max_response_bytes: max_bytes as nat, ..old(self)@ }),
    {
        self.max_response_bytes = max_bytes;
    }

    /// The largest response body, in bytes, that is read.
    #[must_use]
    pub fn max_response_bytes(&self) -> (r: usize)
        ensures
            r == self@.max_response_bytes,
    {
        self.max_response_bytes
    }

    /// Sets the largest number of events that is accepted.
    #[must_use]
    pub fn with_max_event_count(self, max_events: usize) -> (r: Self)
        ensures
            r@ == (ClientModel { max_event_count: max_events as nat, ..self@ }),
    {
        let mut client: Self = self;
        client.max_event_count = max_events;
        client
    }

    /// Sets the largest number of events that is accepted.
    pub fn set_max_event_count(&mut self, max_events: usize)
        ensures
            final(self)@ == (ClientModel { max_event_count: max_events as nat, ..old(self)@ }),
    {
        self.max_event_count = max_events;
    }

    /// The largest number of events that is accepted.
    #[must_use]
    pub fn max_event_count(&self) -> (r: usize)
        ensures
            r == self@.max_event_count,
    {
        self.max_event_count
    }

    /// Sets how often a request is repeated after a passing failure.
    #[must_use]
    pub fn with_max_retries(self, max_retries: usize) -> (r: Self)
        ensures
            r@ == (ClientModel { max_retries: max_retries as nat, ..self@ }),
    {
        let mut client: Self = self;
        client.max_retries = max_retries;
        client
    }

    /// How often a request is repeated after a passing failure.
    #[must_use]
    pub fn max_retries(&self) -> (r: usize)
        ensures
            r == self@.max_retries,
    {
        self.max_retries
    }

    /// Sets the first wait before a request is repeated, and the longest wait that a server can ask
    /// for.
    #[must_use]
    pub fn with_backoff(self, initial_delay: TimeSpan, max_retry_after: TimeSpan) -> (r: Self)
        ensures
            r@ == (ClientModel {
                backoff_initial_delay: initial_delay@,
                max_retry_after: max_retry_after@,
                ..self@
            }),
    {
        let mut client: Self = self;
        client.backoff_initial_delay = initial_delay;
        client.max_retry_after = max_retry_after;
        client
    }

    /// The first wait before a request is repeated.
    #[must_use]
    pub fn backoff_initial_delay(&self) -> (r: TimeSpan)
        ensures
            r@ == self@.backoff_initial_delay,
    {
        self.backoff_initial_delay
    }

    /// The longest wait that a server can ask for.
    #[must_use]
    pub fn max_retry_after(&self) -> (r: TimeSpan)
        ensures
            r@ == self@.max_retry_after,
    {
        self.max_retry_after
    }

    /// Sets the time that a fetch may take with all its repetitions.
    #[must_use]
    pub fn with_overall_timeout(self, timeout: TimeSpan) -> (r: Self)
        ensures
            r@ == (ClientModel { overall_timeout: Some(timeout@), ..self@ }),
    {
        let mut client: Self = self;
        client.overall_timeout = Some(timeout);
        client
    }

    /// The time that a fetch may take with all its repetitions, if it is limited.
    #[must_use]
    pub fn overall_timeout(&self) -> (r: Option<TimeSpan>)
        ensures
            option_view(r) == self@.overall_timeout,
    {
        self.overall_timeout
    }

    /// The time that one request may take.
    #[must_use]
    pub fn request_timeout(&self) -> (r: TimeSpan)
        ensures
            r@ == self@.request_timeout,
    {
        self.request_timeout
    }

    /// Sets the time zone of the feed's wall-clock readings.
    #[must_use]
    pub fn with_timezone(self, tz: SourceZone) -> (r: Self)
        ensures
            r@ == (ClientModel { calendar_timezone: Some(tz@), ..self@ }),
    {
        let mut client: Self = self;
        client.calendar_timezone = Some(tz);
        client
    }

    /// Sets the time zone of the feed's wall-clock readings; `None` for UTC.
    pub fn set_calendar_timezone(&mut self, tz: Option<SourceZone>)
        ensures
            final(self)@ == (ClientModel { calendar_timezone: zone_view(tz), ..old(self)@ }),
    {
        self.calendar_timezone = tz;
    }

    /// The time zone of the feed's wall-clock readings, if it is not UTC.
    #[must_use]
    pub fn calendar_timezone(&self) -> (r: Option<SourceZone>)
        ensures
            zone_view(r) == self@.calendar_timezone,
    {
        clone_zone(&self.calendar_timezone)
    }

    /// Sets how old a cache may be to stand in for a failed fetch; with `None` it never does.
    #[must_use]
    pub fn with_max_stale_age(self, max_age: Option<TimeSpan>) -> (r: Self)
        ensures
            r@ == (ClientModel { max_stale_cache_age: option_view(max_age), ..self@ }),
    {
        let mut client: Self = self;
        client.max_stale_cache_age = max_age;
        client
    }

    /// Sets how old a cache may be to stand in for a failed fetch; with `None` it never does.
    pub fn set_max_stale_cache_age(&mut self, max_age: Option<TimeSpan>)
        ensures
            final(self)@ == (ClientModel {
                max_stale_cache_age: option_view(max_age),
                ..old(self)@
            }),
    {
        self.max_stale_cache_age = max_age;
    }

    /// How old a cache may be to stand in for a failed fetch.
    #[must_use]
    pub fn max_stale_cache_age(&self) -> (r: Option<TimeSpan>)
        ensures
            option_view(r) == self@.max_stale_cache_age,
    {
        self.max_stale_cache_age
    }

    /// Sets for how long a cache is used without a fetch.
    #[must_use]
    pub fn with_ttl(self, ttl: TimeSpan) -> (r: Self)
        ensures
            r@ == (ClientModel { cache_ttl: Some(ttl@), ..self@ }),
    {
        let mut client: Self = self;
        client.cache_ttl = Some(ttl);
        client
    }

    /// Sets for how long a cache is used without a fetch; with `None` there is always a fetch.
    pub fn set_cache_ttl(&mut self, ttl: Option<TimeSpan>)
        ensures
            final(self)@ == (ClientModel { cache_ttl: option_view(ttl), ..old(self)@ }),
    {
        self.cache_ttl = ttl;
    }

    /// For how long a cache is used without a fetch.
    #[must_use]
    pub fn cache_ttl(&self) -> (r: Option<TimeSpan>)
        ensures
            option_view(r) == self@.cache_ttl,
    {
        self.cache_ttl
    }

    /// Whether the wait after the attempt numbered `attempt` from 0 can be reckoned.
    pub(crate) fn can_reckon(&self, attempt: usize) -> (r: bool)
        ensures
            r == self@.reckons(attempt as nat),
    {
        attempt < 32 && self.backoff_initial_delay.nanos <= 0x1_0000_0000_0000_0000 * 1_000_000_000
    }

    /// Whether there is an address behind the one at place `i`.
    pub(crate) fn has_url_after(&self, i: usize) -> (r: bool)
        ensures
            r == (i + 1 < self@.urls().len()),
            r ==> i < usize::MAX,
    {
        i < self.fallback_urls.len()
    }

    /// The address at place `i`.
    pub(crate) fn url(&self, i: usize) -> (r: &str)
        requires
            i < self@.urls().len(),
        ensures
            r@ == self@.urls()[i as int],
    {
        if i == 0 {
            self.calendar_url.as_str()
        } else {
            self.fallback_urls[i - 1].as_str()
        }
    }

    /// How long to wait after the attempt numbered `attempt` from 0.
    pub fn backoff_delay(&self, attempt: usize) -> (r: TimeSpan)
        requires
            self@.reckons(attempt as nat),
        ensures
            r@ == self@.backoff(attempt as nat),
    {
        let mut nanos: u128 = self.backoff_initial_delay.nanos;
        let mut i: usize = 0;
        while i < attempt
            invariant
                i <= attempt < 32,
                self.backoff_initial_delay@ <= 0x1_0000_0000_0000_0000 * SECOND,
                nanos == doubled(self.backoff_initial_delay@, i as nat),
            decreases attempt - i,
        {
            proof {
                lemma_doubled_bound(self.backoff_initial_delay@, i as nat);
            }
            nanos = 2 * nanos;
            i = i + 1;
        }
        TimeSpan { nanos }
    }
}

/// Doubling keeps an order.
pub proof fn lemma_doubled_monotone(m: nat, n: nat, times: nat)
    requires
        m <= n,
    ensures
        doubled(m, times) <= doubled(n, times),
    decreases times,
{
    if times > 0 {
        lemma_doubled_monotone(m, n, (times - 1) as nat);
    }
}

/// Doubling more often gives no less.
pub proof fn lemma_doubled_grows(n: nat, times: nat, more: nat)
    requires
        times <= more,
    ensures
        doubled(n, times) <= doubled(n, more),
    decreases more,
{
    if times < more {
        lemma_doubled_grows(n, times, (more - 1) as nat);
    }
}

proof fn lemma_doubled_bound(n: nat, times: nat)
    requires
        n <= 0x1_0000_0000_0000_0000 * SECOND,
        times < 32,
    ensures
        doubled(n, times) <= 0x2000_0000_0000_0000_0000_0000_0000_0000,
{
    let m: nat = 0x4000_0000_0000_0000_0000_0000;
    lemma_doubled_monotone(n, m, times);
    lemma_doubled_grows(m, times, 31);
    assert(doubled(m, 31) == 0x2000_0000_0000_0000_0000_0000_0000_0000) by {
        reveal_with_fuel(doubled, 32);
    }
}

/// The settings that a client starts with: one address, no time to live of caches, no time zone; a cache
/// of at most 36 hours stands in for a failure; at most 10 MiB and 50,000 events are taken; a request is
/// repeated twice, first after half a second, and a server can ask for ten seconds.
pub proof fn law_default_settings(url: Seq<char>, request_timeout: nat)
    ensures
        ({
            let c = ClientModel::standard(url, request_timeout);
            &&& c.calendar_url == url
            &&& c.fallback_urls.len() == 0
            &&& c.request_timeout == request_timeout
            &&& c.cache_ttl is None
            &&& c.calendar_timezone is None
            &&& c.max_stale_cache_age == Some(129_600_000_000_000nat)
            &&& c.max_response_bytes == 10_485_760
            &&& c.max_event_count == 50_000
            &&& c.max_retries == 2
            &&& c.backoff_initial_delay == 500_000_000
            &&& c.max_retry_after == 10_000_000_000
            &&& c.overall_timeout is None
        }),
        CALENDAR_URL@ == "https://nfs.faireconomy.media/ff_calendar_thisweek.json"@,
        DEFAULT_CACHE_FILENAME@ == "economic_calendar.json"@,
{
}

/// The first address comes before the others, and those keep their order.
pub proof fn law_addresses_in_order(client: ClientModel, i: int)
    ensures
        client.urls().len() == client.fallback_urls.len() + 1,
        client.urls()[0] == client.calendar_url,
        0 <= i < client.fallback_urls.len() ==> client.urls()[i + 1] == client.fallback_urls[i],
{
}

/// The first wait is the one that was set, and each wait is twice as long as the one before it. A wait
/// can be reckoned up to the 32nd attempt, where the first has no more seconds than a `u64` holds.
pub proof fn law_waits_double(client: ClientModel, attempt: nat)
    ensures
        client.backoff(0) == client.backoff_initial_delay,
        client.backoff(attempt + 1) == 2 * client.backoff(attempt),
        client.reckons(attempt) <==> attempt < 32 && client.backoff_initial_delay
            <= 18_446_744_073_709_551_616_000_000_000,
{
}

/// Where caches are kept, by the first of these variables that is set: on Windows `LOCALAPPDATA`,
/// `APPDATA` and `USERPROFILE`, and then everywhere `XDG_CACHE_HOME`, `HOME`, `LOCALAPPDATA` and
/// `USERPROFILE`. Without any there is no place.
pub proof fn law_place_of_caches(windows: bool, v: CacheVariables)
    ensures
        ({
            let place = cache_dir_of(windows, v);
            let under_data = |base: Seq<char>| Some(seq![base, "redfolder"@, "cache"@]);
            let under_home = |base: Seq<char>| Some(seq![base, ".cache"@, "redfolder"@]);
            let none_on_windows = v.local_app_data is None && v.app_data is None
                && v.user_profile is None;
            let general = !windows || none_on_windows;
            &&& windows ==> (v.local_app_data matches Some(s) ==> place == under_data(s@))
            &&& windows && v.local_app_data is None ==> (v.app_data matches Some(s) ==> place
                == under_data(s@))
            &&& windows && v.local_app_data is None && v.app_data is None ==> (
            v.user_profile matches Some(s) ==> place == under_home(s@))
            &&& general ==> (v.xdg_cache_home matches Some(s) ==> place == Some(
                seq![s@, "redfolder"@],
            ))
            &&& general && v.xdg_cache_home is None ==> (v.home matches Some(s) ==> place
                == under_home(s@))
            &&& general && v.xdg_cache_home is None && v.home is None ==> (
            v.local_app_data matches Some(s) ==> place == under_data(s@))
            &&& general && v.xdg_cache_home is None && v.home is None && v.local_app_data is None ==> (
            v.user_profile matches Some(s) ==> place == under_home(s@))
            &&& general && v.xdg_cache_home is None && v.home is None && v.local_app_data is None
                && v.user_profile is None ==> place is None
        }),
{
}

} // verus!
