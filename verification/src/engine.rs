//! The blackout engine: from calendar events to a worker's blackout windows.

use crate::calendar::{date_to_utc_start, day_beginning, parse_event_timing, RawCalendarEvent};
use crate::calendar::RawEventModel;
use crate::config::{ConfigModel, RedFolderConfig};
use crate::curfew::{curfew_title, curfew_window, law_curfew_is_current_or_next};
use crate::curfew::{weekend_window_for_mode, weekend_window_title_for_mode};
use crate::merge::{bounded, by_start, law_merged_window_has_given_ends, lemma_by_start_contains};
use crate::merge::{merge_windows, merged_windows, not_over, sort_windows};
use crate::text::{join, same_ignoring_case};
use crate::time::{in_calendar, utc_now, CalendarDate, UtcTime, CALENDAR_SECS, DAY, HOUR, MINUTE};
use crate::time::{Moment, MomentModel, SECOND, WEEK};
use crate::types::{BlackoutWindow, Currency, CurrencyModel, CustomEventKind, EconomicEvent};
use crate::types::{EconomicEventModel, EventTiming, Impact, ImpactModel, WindowEvent};
use crate::types::{WindowEventModel, WindowModel};
use crate::views::{lemma_filter_map_step, lemma_filter_step, lemma_take_push, lemma_views_push};
use crate::views::{option_view, views};
use crate::zone::{clone_zone, day_start, day_to_utc_start, zone_view, SourceZone};
use vstd::prelude::*;

verus! {

impl ConfigModel {
    /// Whether the configuration watches the country code: one of its currencies covers it. `All`
    /// and `Global` are watched by every configuration.
    pub open spec fn watches_country(self, country: Seq<char>) -> bool {
        ||| same_ignoring_case(country, "All"@)
        ||| same_ignoring_case(country, "Global"@)
        ||| exists|i: int|
            0 <= i < self.currencies.len() && CurrencyModel::parse(
                (#[trigger] self.currencies[i]).text(),
            ).covers(country)
    }

    /// Whether the configuration watches the impact: one of its levels is the one that the text
    /// denotes, or is named by it.
    pub open spec fn watches_impact(self, impact: Seq<char>) -> bool {
        exists|i: int|
            0 <= i < self.impacts.len() && {
                let level = ImpactModel::parse((#[trigger] self.impacts[i]).text());
                level == ImpactModel::parse(impact) || level.named(impact)
            }
    }

    /// Whether the configuration watches events of this country and impact.
    pub open spec fn watches(self, country: Seq<char>, impact: Seq<char>) -> bool {
        self.watches_country(country) && self.watches_impact(impact)
    }

    /// Whether the configuration watches an event of a window. Events that no calendar lists are
    /// watched by their origin, whatever the filters are.
    pub open spec fn watches_window_event(self, event: WindowEventModel) -> bool {
        if event.is_custom {
            if event.custom_kind == Some(CustomEventKind::FailClosedSafety) {
                self.enabled && self.fail_safe_mode is FailClosed
            } else {
                self.weekend_enabled
            }
        } else {
            self.watches(event.country, event.impact)
        }
    }

    /// Whether the buffers are at most a thousand million million minutes long.
    pub open spec fn buffers_in_range(self) -> bool {
        &&& -1_000_000_000_000_000 <= self.before_min <= 1_000_000_000_000_000
        &&& -1_000_000_000_000_000 <= self.after_min <= 1_000_000_000_000_000
    }
}

fn watches_country(config: &RedFolderConfig, country: &str) -> (r: bool)
    ensures
        r == config@.watches_country(country@),
{
    if country.eq_ignore_ascii_case("All") || country.eq_ignore_ascii_case("Global") {
        return true;
    }
    let mut i: usize = 0;
    while i < config.currencies.len()
        invariant
            i <= config.currencies.len(),
            !same_ignoring_case(country@, "All"@),
            !same_ignoring_case(country@, "Global"@),
            forall|k: int|
                0 <= k < i ==> !CurrencyModel::parse(
                    (#[trigger] config@.currencies[k]).text(),
                ).covers(country@),
        decreases config.currencies.len() - i,
    {
        assert(config@.currencies[i as int] == config.currencies@[i as int]@);
        if Currency::from_text(config.currencies[i].as_str()).matches_str(country) {
            return true;
        }
        i = i + 1;
    }
    false
}

fn watches_impact(config: &RedFolderConfig, impact: &str) -> (r: bool)
    ensures
        r == config@.watches_impact(impact@),
{
    let level: Impact = Impact::from_text(impact);
    let mut i: usize = 0;
    while i < config.impacts.len()
        invariant
            i <= config.impacts.len(),
            level@ == ImpactModel::parse(impact@),
            forall|k: int|
                0 <= k < i ==> {
                    let watched = ImpactModel::parse((#[trigger] config@.impacts[k]).text());
                    watched != ImpactModel::parse(impact@) && !watched.named(impact@)
                },
        decreases config.impacts.len() - i,
    {
        assert(config@.impacts[i as int] == config.impacts@[i as int]@);
        let watched: Impact = Impact::from_text(config.impacts[i].name());
        if watched.same_level(&level) || watched.matches_str(impact) {
            return true;
        }
        i = i + 1;
    }
    false
}

/// Whether the configuration watches a calendar event.
#[must_use]
pub fn event_matches_economic_event(event: &EconomicEvent, config: &RedFolderConfig) -> (r: bool)
    ensures
        r == config@.watches(event@.country, event@.impact),
{
    watches_country(config, event.country.as_str()) && watches_impact(
        config,
        event.impact.as_str(),
    )
}

/// Whether the configuration watches an event of a window.
///
/// Events that no calendar lists are watched by their origin: the halt on data outages where the
/// configuration fails closed, and the weekend curfew where it is on, whatever the currency and
/// impact filters are.
#[must_use]
pub fn event_matches_config(event: &WindowEvent, config: &RedFolderConfig) -> (r: bool)
    ensures
        r == config@.watches_window_event(event@),
{
    if event.is_custom {
        if event.is_fail_closed_safety() {
            config.enabled && config.fail_safe_mode.is_fail_closed()
        } else {
            config.weekend_enabled
        }
    } else {
        watches_country(config, event.country.as_str()) && watches_impact(
            config,
            event.impact.as_str(),
        )
    }
}

impl RawEventModel {
    /// The event with its time worked out, if it has one.
    pub open spec fn economic(self, zone: Option<Seq<char>>) -> Option<EconomicEventModel> {
        match (self.timing(zone), self.datetime(zone)) {
            (Some(timing), Some(datetime)) => Some(
                EconomicEventModel {
                    title: self.title,
                    country: self.country,
                    impact: self.impact,
                    datetime,
                    timing,
                },
            ),
            _ => None,
        }
    }
}

/// Working out the time of an event in `zone`.
pub open spec fn economic_in(zone: Option<Seq<char>>) -> spec_fn(RawEventModel) -> Option<
    EconomicEventModel,
> {
    |e: RawEventModel| e.economic(zone)
}

/// The events that have a time, with their times worked out.
pub open spec fn economic_events(
    raw: Seq<RawEventModel>,
    zone: Option<Seq<char>>,
) -> Seq<EconomicEventModel> {
    raw.filter_map(economic_in(zone))
}

/// The window that one event blocks.
pub open spec fn single(from: MomentModel, until: MomentModel, event: WindowEventModel) -> WindowModel {
    WindowModel::lasting(from, until, seq![event])
}

/// The calendar event `event` as an event of a window.
pub open spec fn listed(
    event: EconomicEventModel,
    time: MomentModel,
    title: Seq<char>,
) -> WindowEventModel {
    WindowEventModel {
        is_custom: false,
        custom_kind: None,
        event_time: time,
        country: event.country,
        impact: event.impact,
        title,
    }
}

/// The window from the beginning of `day` to that of the next day in `zone`. Where the next day's
/// beginning is not known, the window lasts 24 hours.
pub open spec fn day_candidate(
    event: EconomicEventModel,
    day: int,
    suffix: Seq<char>,
    zone: Option<Seq<char>>,
) -> Option<WindowModel> {
    match day_start(day, zone) {
        None => None,
        Some(start) => {
            let end = match day_start(day + 1, zone) {
                Some(t) => t,
                None => start + DAY,
            };
            let from = MomentModel::plain(start);
            Some(single(from, MomentModel::plain(end), listed(event, from, event.title + suffix)))
        },
    }
}

impl ConfigModel {
    /// The window that a calendar event blocks under this configuration: none for an event that is
    /// not watched.
    pub open spec fn candidate(self, event: EconomicEventModel, zone: Option<Seq<char>>) -> Option<
        WindowModel,
    > {
        if !self.watches(event.country, event.impact) {
            None
        } else {
            match event.timing {
                EventTiming::Exact(t) => Some(
                    single(
                        t@.moved(-(self.before_min * MINUTE)),
                        t@.moved(self.after_min * MINUTE),
                        listed(event, t@, event.title),
                    ),
                ),
                EventTiming::AllDay(d) => if self.include_all_day {
                    day_candidate(event, d@, " [All Day]"@, zone)
                } else {
                    None
                },
                EventTiming::TentativeDate(d) => if self.include_tentative {
                    day_candidate(event, d@, " [Tentative]"@, zone)
                } else {
                    None
                },
            }
        }
    }

    /// The window of a weekend curfew from `start` to `end`.
    pub open spec fn curfew_from(self, start: int, end: int) -> WindowModel {
        single(
            MomentModel::plain(start),
            MomentModel::plain(end),
            WindowEventModel {
                is_custom: true,
                custom_kind: Some(CustomEventKind::WeekendCurfew),
                event_time: MomentModel::plain(start),
                country: "Global"@,
                impact: "High"@,
                title: curfew_title(self.weekend_start, self.weekend_end, self.weekend_mode),
            },
        )
    }

    /// The window of the weekend curfew as of `now`.
    pub open spec fn curfew_candidate(self, now: int) -> Option<WindowModel> {
        if self.weekend_enabled {
            match curfew_window(now, self.weekend_start, self.weekend_end, self.weekend_mode) {
                Ok((start, end)) => Some(self.curfew_from(start, end)),
                Err(_) => None,
            }
        } else {
            None
        }
    }

    /// The window of the weekend curfew that was last over at `now`, where one of `news` starts
    /// within the merge threshold after it.
    pub open spec fn past_curfew_candidate(self, news: Seq<WindowModel>, now: int) -> Option<
        WindowModel,
    > {
        match self.curfew_candidate(now) {
            Some(c) => {
                let past = self.curfew_from(c.start - WEEK, c.end - WEEK);
                if one_follows(news, past.end, self.merge_threshold_min * MINUTE) {
                    Some(past)
                } else {
                    None
                }
            },
            None => None,
        }
    }

    /// The window of the halt on data outages as of `now`: from an hour before to a day after it.
    pub open spec fn safety_candidate(self, no_data: bool, stale: bool, now: int) -> Option<
        WindowModel,
    > {
        if self.fail_safe_mode is FailClosed && (no_data || stale) {
            Some(
                single(
                    MomentModel::plain(now - HOUR),
                    MomentModel::plain(now + 24 * HOUR),
                    WindowEventModel {
                        is_custom: true,
                        custom_kind: Some(CustomEventKind::FailClosedSafety),
                        event_time: MomentModel::plain(now),
                        country: "Global"@,
                        impact: "High"@,
                        title: if stale {
                            "Calendar Data Stale (Fail-Closed Safety Blackout)"@
                        } else {
                            "Calendar Data Unavailable (Fail-Closed Safety Blackout)"@
                        },
                    },
                ),
            )
        } else {
            None
        }
    }
}

impl ConfigModel {
    /// Whether the window starts or ends at `time`, or a warning of it is due then.
    pub open spec fn turns(self, w: WindowModel, time: int) -> bool {
        ||| time == w.start
        ||| time == w.end
        ||| self.warning_before_min is Some && time == w.from().moved(
            -(self.warning_before_min->Some_0 * MINUTE),
        ).at
    }
}

/// Whether one of `windows` starts at `end`, or at most `gap` later.
pub open spec fn one_follows(windows: Seq<WindowModel>, end: int, gap: int) -> bool {
    exists|i: int|
        0 <= i < windows.len() && end <= (#[trigger] windows[i]).start && windows[i].from().since(
            MomentModel::plain(end),
        ) <= gap
}

/// Finding the window that a calendar event blocks.
pub open spec fn candidate_for(config: ConfigModel, zone: Option<Seq<char>>) -> spec_fn(
    EconomicEventModel,
) -> Option<WindowModel> {
    |e: EconomicEventModel| config.candidate(e, zone)
}

/// What is there, as a sequence.
pub open spec fn option_seq<T>(o: Option<T>) -> Seq<T> {
    match o {
        Some(x) => seq![x],
        None => Seq::empty(),
    }
}

/// What a [`BlackoutEngine`] is.
pub ghost struct EngineModel {
    pub raw_events: Seq<RawEventModel>,
    pub parsed_events: Seq<EconomicEventModel>,
    pub windows: Seq<WindowModel>,
    pub timezone: Option<Seq<char>>,
    pub stale: bool,
}

impl EngineModel {
    /// An engine with these events and no windows.
    pub open spec fn with_events(raw: Seq<RawEventModel>, zone: Option<Seq<char>>) -> EngineModel {
        EngineModel {
            raw_events: raw,
            parsed_events: economic_events(raw, zone),
            windows: Seq::empty(),
            timezone: zone,
            stale: false,
        }
    }

    /// The windows of the calendar events that block a worker with this configuration, past ones
    /// among them.
    pub open spec fn news(self, config: ConfigModel) -> Seq<WindowModel> {
        self.parsed_events.filter_map(candidate_for(config, self.timezone))
    }

    /// The windows of the rules that block a worker with this configuration, as of `now`: its
    /// weekend curfews, and the halt on data outages.
    pub open spec fn rules(self, config: ConfigModel, now: int) -> Seq<WindowModel> {
        option_seq(config.past_curfew_candidate(self.news(config), now)) + option_seq(
            config.curfew_candidate(now),
        ) + option_seq(config.safety_candidate(self.raw_events.len() == 0, self.stale, now))
    }

    /// The windows of the single events and rules that block a worker with this configuration, as
    /// of `now`.
    pub open spec fn candidates(self, config: ConfigModel, now: int) -> Seq<WindowModel> {
        self.news(config) + self.rules(config, now)
    }

    /// The candidates by their starts, merged where they lie close together.
    pub open spec fn merged(self, config: ConfigModel, now: int) -> Seq<WindowModel> {
        merged_windows(
            by_start(self.candidates(config, now)),
            config.merge_threshold_min * MINUTE,
        )
    }

    /// The blackout windows of a worker with this configuration, as of `now`: those of the single
    /// events and rules, by their starts, merged where they lie close together, without those that
    /// are over. A past event stays with the window that it is part of.
    pub open spec fn windows_for(self, config: ConfigModel, now: int) -> Seq<WindowModel> {
        if config.enabled {
            self.merged(config, now).filter(not_over(now))
        } else {
            Seq::empty()
        }
    }
}

/// The windows of several workers, one worker after the other.
pub open spec fn pooled_windows(
    engine: EngineModel,
    configs: Seq<ConfigModel>,
    now: int,
) -> Seq<WindowModel>
    decreases configs.len(),
{
    if configs.len() == 0 {
        Seq::empty()
    } else {
        pooled_windows(engine, configs.drop_last(), now) + engine.windows_for(configs.last(), now)
    }
}

/// The first of `s` that is active at `time`.
pub open spec fn first_active(s: Seq<WindowModel>, time: int) -> Option<WindowModel>
    decreases s.len(),
{
    if s.len() == 0 {
        None
    } else if s.first().active_at(time) {
        Some(s.first())
    } else {
        first_active(s.drop_first(), time)
    }
}

/// The windows that start from `now` on, and at most `span` later.
pub open spec fn starting_within(now: int, span: int) -> spec_fn(WindowModel) -> bool {
    |w: WindowModel| MomentModel::plain(now).not_after(w.from()) && w.start <= now + span
}

impl EngineModel {
    /// The windows for reference: those of the only worker, or those of all workers by their
    /// starts, or those of the default configuration where there is no worker.
    pub open spec fn compiled_windows(self, configs: Seq<ConfigModel>, now: int) -> Seq<
        WindowModel,
    > {
        if configs.len() == 0 {
            self.windows_for(ConfigModel::standard(), now)
        } else if configs.len() == 1 {
            self.windows_for(configs[0], now)
        } else {
            by_start(pooled_windows(self, configs, now))
        }
    }

    /// An engine with these events and the windows of these workers.
    pub open spec fn compiled(
        raw: Seq<RawEventModel>,
        configs: Seq<ConfigModel>,
        now: int,
        zone: Option<Seq<char>>,
    ) -> EngineModel {
        let engine = EngineModel::with_events(raw, zone);
        EngineModel { windows: engine.compiled_windows(configs, now), ..engine }
    }

    /// Whether a worker with this configuration is blocked at `time`.
    pub open spec fn blackout_at(self, config: ConfigModel, time: int) -> bool {
        exists|i: int|
            0 <= i < self.windows_for(config, time).len() && (#[trigger] self.windows_for(
                config,
                time,
            )[i]).active_at(time)
    }

    /// The window that blocks a worker with this configuration at `time`.
    pub open spec fn window_at(self, config: ConfigModel, time: int) -> Option<WindowModel> {
        first_active(self.windows_for(config, time), time)
    }

    /// Whether something changes for a worker with this configuration at `time`, as far as is known
    /// at `now`: a window starts or ends, or a warning of one is due.
    pub open spec fn changes_at(self, config: ConfigModel, now: int, time: int) -> bool {
        exists|i: int|
            0 <= i < self.windows_for(config, now).len() && config.turns(
                #[trigger] self.windows_for(config, now)[i],
                time,
            )
    }

    /// The windows of a worker with this configuration that start within `span` of `now`.
    pub open spec fn starting(self, config: ConfigModel, now: int, span: int) -> Seq<WindowModel> {
        self.windows_for(config, now).filter(starting_within(now, span))
    }

    /// The windows of a worker with this configuration that start within `hours` hours of `now`.
    pub open spec fn upcoming(self, config: ConfigModel, now: int, hours: int) -> Seq<WindowModel> {
        self.starting(config, now, hours * HOUR)
    }
}

/// The events that a worker with this configuration watches.
pub open spec fn watched_by(config: ConfigModel) -> spec_fn(WindowEventModel) -> bool {
    |e: WindowEventModel| config.watches_window_event(e)
}

/// Whether a window blocks a worker with this configuration at `time`: it is active, and the worker
/// watches one of its events.
pub open spec fn blocks(w: WindowModel, config: ConfigModel, time: int) -> bool {
    w.active_at(time) && w.events.filter(watched_by(config)).len() > 0
}

/// The first of `s` that blocks a worker with this configuration at `time`, with the events that
/// the worker watches.
pub open spec fn first_blocking(
    s: Seq<WindowModel>,
    config: ConfigModel,
    time: int,
) -> Option<WindowModel>
    decreases s.len(),
{
    if s.len() == 0 {
        None
    } else if blocks(s.first(), config, time) {
        Some(WindowModel { events: s.first().events.filter(watched_by(config)), ..s.first() })
    } else {
        first_blocking(s.drop_first(), config, time)
    }
}

/// Working out the time of an event.
fn economic_event(raw: &RawCalendarEvent, zone: &Option<SourceZone>) -> (r: Option<EconomicEvent>)
    ensures
        option_view(r) == raw@.economic(zone_view(*zone)),
        r matches Some(e) ==> (e.timing matches EventTiming::Exact(t) ==> t.in_range()),
{
    let timing: EventTiming = match parse_event_timing(raw, zone) {
        Some(t) => t,
        None => return None,
    };
    let datetime: Moment = match timing {
        EventTiming::Exact(t) => t,
        EventTiming::AllDay(d) => match day_beginning(d, zone) {
            Some(t) => t,
            None => return None,
        },
        EventTiming::TentativeDate(d) => match day_beginning(d, zone) {
            Some(t) => t,
            None => return None,
        },
    };
    Some(
        EconomicEvent {
            title: raw.title.clone(),
            country: raw.country.clone(),
            impact: raw.impact.clone(),
            datetime,
            timing,
        },
    )
}

/// The window that one event blocks.
fn single_window(start: Moment, end: Moment, event: WindowEvent) -> (r: BlackoutWindow)
    ensures
        r@ == single(start@, end@, event@),
        r.start == start,
        r.end == end,
{
    let events: Vec<WindowEvent> = vec![event];
    assert(views(events@) =~= seq![event@]);
    BlackoutWindow { start, end, events }
}

/// The window of the day of an event that has no time.
fn day_window(
    event: &EconomicEvent,
    date: CalendarDate,
    suffix: &str,
    zone: &Option<SourceZone>,
) -> (r: Option<BlackoutWindow>)
    ensures
        option_view(r) == day_candidate(event@, date@, suffix@, zone_view(*zone)),
        r matches Some(w) ==> bounded(w@),
        r matches Some(w) ==> w.in_range(),
{
    let start: UtcTime = match date_to_utc_start(date, zone) {
        Some(t) => t,
        None => return None,
    };
    let end: UtcTime = match day_to_utc_start(date.days_from_ce as i64 + 1, zone) {
        Some(t) => t,
        None => UtcTime { nanos: start.nanos + DAY },
    };
    Some(
        single_window(
            Moment::plain(start),
            Moment::plain(end),
            WindowEvent {
                is_custom: false,
                custom_kind: None,
                event_time: Moment::plain(start),
                country: event.country.clone(),
                impact: event.impact.clone(),
                title: join(event.title.as_str(), suffix),
            },
        ),
    )
}

/// The window that a calendar event blocks.
fn event_window(
    event: &EconomicEvent,
    config: &RedFolderConfig,
    zone: &Option<SourceZone>,
) -> (r: Option<BlackoutWindow>)
    requires
        event.timing matches EventTiming::Exact(t) ==> t.in_range(),
    ensures
        option_view(r) == config@.candidate(event@, zone_view(*zone)),
        r matches Some(w) ==> bounded(w@),
        config@.buffers_in_range() ==> (r matches Some(w) ==> w.in_range()),
{
    if !event_matches_economic_event(event, config) {
        return None;
    }
    match event.timing {
        EventTiming::Exact(t) => Some(
            single_window(
                t.minus_minutes(config.before_min),
                t.plus_minutes(config.after_min),
                WindowEvent {
                    is_custom: false,
                    custom_kind: None,
                    event_time: t,
                    country: event.country.clone(),
                    impact: event.impact.clone(),
                    title: event.title.clone(),
                },
            ),
        ),
        EventTiming::AllDay(date) => if config.include_all_day {
            day_window(event, date, " [All Day]", zone)
        } else {
            None
        },
        EventTiming::TentativeDate(date) => if config.include_tentative {
            day_window(event, date, " [Tentative]", zone)
        } else {
            None
        },
    }
}

/// The window of a weekend curfew from `start` to `end`.
fn curfew_blackout(config: &RedFolderConfig, start: UtcTime, end: UtcTime) -> (r: BlackoutWindow)
    ensures
        r@ == config@.curfew_from(start@, end@),
        r.start.time == start,
        r.end.time == end,
{
    single_window(
        Moment::plain(start),
        Moment::plain(end),
        WindowEvent {
            is_custom: true,
            custom_kind: Some(CustomEventKind::WeekendCurfew),
            event_time: Moment::plain(start),
            country: "Global".to_string(),
            impact: "High".to_string(),
            title: weekend_window_title_for_mode(
                config.weekend_start.as_str(),
                config.weekend_end.as_str(),
                config.weekend_mode,
            ),
        },
    )
}

/// The window of the weekend curfew.
fn weekend_window(config: &RedFolderConfig, now: UtcTime) -> (r: Option<BlackoutWindow>)
    requires
        now.in_range(),
    ensures
        option_view(r) == config@.curfew_candidate(now@),
        r matches Some(w) ==> near_calendar(w@),
{
    if !config.weekend_enabled {
        return None;
    }
    let start_text: &str = config.weekend_start.as_str();
    let end_text: &str = config.weekend_end.as_str();
    match weekend_window_for_mode(now, start_text, end_text, config.weekend_mode) {
        Ok((start, end)) => {
            proof {
                law_curfew_is_current_or_next(
                    now@,
                    start_text@,
                    end_text@,
                    config.weekend_mode,
                );
            }
            Some(curfew_blackout(config, start, end))
        },
        Err(_) => None,
    }
}

/// Whether a window lies within a few weeks of the calendar's range.
spec fn near_calendar(w: WindowModel) -> bool {
    &&& -CALENDAR_SECS * SECOND - 2 * WEEK <= w.start
    &&& w.start <= w.end
    &&& w.end <= CALENDAR_SECS * SECOND + 3 * WEEK
    &&& w.plain()
}

/// Whether one of `windows` starts at `end`, or at most `gap` later.
fn follows(windows: &Vec<BlackoutWindow>, end: UtcTime, gap: i128) -> (r: bool)
    requires
        -0x1_0000_0000_0000_0000_0000_0000 <= end@ <= 0x1_0000_0000_0000_0000_0000_0000,
        forall|i: int| 0 <= i < windows@.len() ==> bounded((#[trigger] windows@[i])@),
    ensures
        r == one_follows(views(windows@), end@, gap as int),
{
    let mut i: usize = 0;
    while i < windows.len()
        invariant
            i <= windows@.len(),
            -0x1_0000_0000_0000_0000_0000_0000 <= end@ <= 0x1_0000_0000_0000_0000_0000_0000,
            forall|k: int| 0 <= k < windows@.len() ==> bounded((#[trigger] windows@[k])@),
            forall|k: int|
                0 <= k < i ==> !(end@ <= (#[trigger] views(windows@)[k]).start && views(
                    windows@,
                )[k].from().since(MomentModel::plain(end@)) <= gap),
        decreases windows@.len() - i,
    {
        assert(views(windows@)[i as int] == windows@[i as int]@);
        assert(bounded(windows@[i as int]@));
        if end.nanos <= windows[i].start.time.nanos && windows[i].start.since(Moment::plain(end))
            <= gap {
            return true;
        }
        i = i + 1;
    }
    false
}

/// The windows that are not over before `now`.
fn drop_over(windows: Vec<BlackoutWindow>, now: UtcTime) -> (r: Vec<BlackoutWindow>)
    requires
        forall|i: int| 0 <= i < windows@.len() ==> bounded((#[trigger] windows@[i])@),
    ensures
        forall|i: int| 0 <= i < r@.len() ==> bounded((#[trigger] r@[i])@),
        views(r@) == views(windows@).filter(not_over(now@)),
        (forall|i: int| 0 <= i < windows@.len() ==> (#[trigger] windows@[i]).in_range()) ==> forall|
            i: int,
        |
            0 <= i < r@.len() ==> (#[trigger] r@[i]).in_range(),
{
    let ghost given = windows@;
    let ghost all = views(given);
    let ghost f = not_over(now@);
    let mut out: Vec<BlackoutWindow> = Vec::new();
    proof {
        reveal(Seq::filter);
        assert(views(out@) =~= all.take(0).filter(f));
    }
    for window in it: windows
        invariant
            it.seq() == given,
            all == views(given),
            f == not_over(now@),
            views(out@) == all.take(it.index() as int).filter(f),
            forall|i: int| 0 <= i < given.len() ==> bounded((#[trigger] given[i])@),
            forall|i: int| 0 <= i < out@.len() ==> bounded((#[trigger] out@[i])@),
            (forall|i: int| 0 <= i < given.len() ==> (#[trigger] given[i]).in_range()) ==> forall|
                i: int,
            |
                0 <= i < out@.len() ==> (#[trigger] out@[i]).in_range(),
    {
        proof {
            lemma_filter_step(all, it.index() as int, f);
            assert(all[it.index() as int] == window@);
            assert(given[it.index() as int] == window);
        }
        if Moment::plain(now).not_after(window.end) {
            proof {
                lemma_views_push(out@, window);
            }
            out.push(window);
        }
    }
    assert(all.take(all.len() as int) =~= all);
    out
}

/// The window of the halt on data outages.
fn safety_window(config: &RedFolderConfig, no_data: bool, stale: bool, now: UtcTime) -> (r: Option<
    BlackoutWindow,
>)
    requires
        now.in_range(),
    ensures
        option_view(r) == config@.safety_candidate(no_data, stale, now@),
        r matches Some(w) ==> bounded(w@) && w.in_range(),
{
    if config.fail_safe_mode.is_fail_closed() && (no_data || stale) {
        let title: &str = if stale {
            "Calendar Data Stale (Fail-Closed Safety Blackout)"
        } else {
            "Calendar Data Unavailable (Fail-Closed Safety Blackout)"
        };
        Some(
            single_window(
                Moment::plain(UtcTime { nanos: now.nanos - HOUR }),
                Moment::plain(now.plus_hours(24)),
                WindowEvent {
                    is_custom: true,
                    custom_kind: Some(CustomEventKind::FailClosedSafety),
                    event_time: Moment::plain(now),
                    country: "Global".to_string(),
                    impact: "High".to_string(),
                    title: title.to_string(),
                },
            ),
        )
    } else {
        None
    }
}

/// Calendar events held in memory, from which each worker's blackout windows are worked out.
#[derive(Debug)]
pub struct BlackoutEngine {
    raw_events: Vec<RawCalendarEvent>,
    parsed_events: Vec<EconomicEvent>,
    windows: Vec<BlackoutWindow>,
    timezone: Option<SourceZone>,
    stale: bool,
}

impl View for BlackoutEngine {
    type V = EngineModel;

    closed spec fn view(&self) -> EngineModel {
        EngineModel {
            raw_events: views(self.raw_events@),
            parsed_events: views(self.parsed_events@),
            windows: views(self.windows@),
            timezone: zone_view(self.timezone),
            stale: self.stale,
        }
    }
}

impl BlackoutEngine {
    /// The parsed events are those of the raw events, and instants lie within the calendar.
    #[verifier::type_invariant]
    spec fn consistent(self) -> bool {
        &&& self@.parsed_events == economic_events(self@.raw_events, self@.timezone)
        &&& forall|i: int|
            0 <= i < self.parsed_events@.len() ==> ((#[trigger] self.parsed_events@[i]).timing
                matches EventTiming::Exact(t) ==> t.in_range())
    }

    /// An engine without events.
    #[must_use]
    pub fn new() -> (r: Self)
        ensures
            r@ == EngineModel::with_events(Seq::empty(), None),
    {
        let raw_events: Vec<RawCalendarEvent> = Vec::new();
        let parsed_events: Vec<EconomicEvent> = Vec::new();
        let windows: Vec<BlackoutWindow> = Vec::new();
        assert(views(raw_events@) =~= Seq::empty());
        assert(views(parsed_events@) =~= economic_events(Seq::empty(), None));
        assert(views(windows@) =~= Seq::empty());
        BlackoutEngine { raw_events, parsed_events, windows, timezone: None, stale: false }
    }

    /// An engine with the given events; wall-clock readings are those of UTC.
    #[must_use]
    pub fn from_events(raw_events: &[RawCalendarEvent]) -> (r: Self)
        ensures
            r@ == EngineModel::with_events(views(raw_events@), None),
    {
        Self::from_events_with_tz(raw_events, None)
    }

    /// An engine with the given events; wall-clock readings are those of `default_tz`, or of UTC
    /// where it is `None`.
    #[must_use]
    pub fn from_events_with_tz(
        raw_events: &[RawCalendarEvent],
        default_tz: Option<SourceZone>,
    ) -> (r: Self)
        ensures
            r@ == EngineModel::with_events(views(raw_events@), zone_view(default_tz)),
    {
        let ghost given = views(raw_events@);
        let ghost zone = zone_view(default_tz);
        let mut raw: Vec<RawCalendarEvent> = Vec::new();
        let mut parsed: Vec<EconomicEvent> = Vec::new();
        let mut i: usize = 0;
        assert(views(raw@) =~= given.take(0));
        assert(views(parsed@) =~= economic_events(given.take(0), zone));
        while i < raw_events.len()
            invariant
                i <= raw_events@.len(),
                given == views(raw_events@),
                zone == zone_view(default_tz),
                views(raw@) == given.take(i as int),
                views(parsed@) == economic_events(given.take(i as int), zone),
                forall|k: int|
                    0 <= k < parsed@.len() ==> ((#[trigger] parsed@[k]).timing matches
                        EventTiming::Exact(t) ==> t.in_range()),
            decreases raw_events@.len() - i,
        {
            proof {
                lemma_take_push(given, i as int);
                lemma_filter_map_step(given, i as int, economic_in(zone));
            }
            let copy: RawCalendarEvent = raw_events[i].clone();
            proof {
                lemma_views_push(raw@, copy);
            }
            raw.push(copy);
            if let Some(event) = economic_event(&raw_events[i], &default_tz) {
                proof {
                    lemma_views_push(parsed@, event);
                }
                parsed.push(event);
            }
            i = i + 1;
        }
        assert(given.take(i as int) =~= given);
        let windows: Vec<BlackoutWindow> = Vec::new();
        assert(views(windows@) =~= Seq::empty());
        BlackoutEngine {
            raw_events: raw,
            parsed_events: parsed,
            windows,
            timezone: default_tz,
            stale: false,
        }
    }

    /// The windows of the single events and rules that block a worker.
    fn candidate_windows(&self, config: &RedFolderConfig, now: UtcTime) -> (r: Vec<BlackoutWindow>)
        requires
            now.in_range(),
        ensures
            views(r@) == self@.candidates(config@, now@),
            forall|i: int| 0 <= i < r@.len() ==> bounded((#[trigger] r@[i])@),
            config@.buffers_in_range() ==> forall|i: int|
                0 <= i < r@.len() ==> (#[trigger] r@[i]).in_range(),
    {
        proof {
            use_type_invariant(self);
        }
        let ghost given = self@.parsed_events;
        let ghost f = candidate_for(config@, self@.timezone);
        let mut out: Vec<BlackoutWindow> = Vec::new();
        let mut i: usize = 0;
        assert(views(out@) =~= given.take(0).filter_map(f));
        while i < self.parsed_events.len()
            invariant
                i <= self.parsed_events@.len(),
                now.in_range(),
                given == views(self.parsed_events@),
                f == candidate_for(config@, zone_view(self.timezone)),
                views(out@) == given.take(i as int).filter_map(f),
                forall|k: int|
                    0 <= k < self.parsed_events@.len() ==> ((
                    #[trigger] self.parsed_events@[k]).timing matches EventTiming::Exact(t)
                        ==> t.in_range()),
                forall|k: int| 0 <= k < out@.len() ==> bounded((#[trigger] out@[k])@),
                config@.buffers_in_range() ==> forall|k: int|
                    0 <= k < out@.len() ==> (#[trigger] out@[k]).in_range(),
            decreases self.parsed_events@.len() - i,
        {
            proof {
                lemma_filter_map_step(given, i as int, f);
                assert(given[i as int] == self.parsed_events@[i as int]@);
            }
            if let Some(window) = event_window(&self.parsed_events[i], config, &self.timezone) {
                proof {
                    lemma_views_push(out@, window);
                }
                out.push(window);
            }
            i = i + 1;
        }
        assert(given.take(i as int) =~= given);
        let ghost news = views(out@);
        let ghost past = config@.past_curfew_candidate(news, now@);
        if let Some(window) = weekend_window(config, now) {
            let week: i128 = 7 * DAY;
            let gap: i128 = config.merge_threshold_min as i128 * MINUTE;
            let ended: UtcTime = UtcTime { nanos: window.end.time.nanos - week };
            if follows(&out, ended, gap) {
                let over: BlackoutWindow = curfew_blackout(
                    config,
                    UtcTime { nanos: window.start.time.nanos - week },
                    ended,
                );
                proof {
                    lemma_views_push(out@, over);
                }
                out.push(over);
            }
            assert(views(out@) =~= news + option_seq(past));
            proof {
                lemma_views_push(out@, window);
            }
            out.push(window);
        }
        let ghost with_curfew = news + (option_seq(past) + option_seq(
            config@.curfew_candidate(now@),
        ));
        assert(views(out@) =~= with_curfew);
        if let Some(window) = safety_window(config, self.raw_events.len() == 0, self.stale, now) {
            proof {
                lemma_views_push(out@, window);
            }
            out.push(window);
        }
        assert(views(out@) =~= self@.candidates(config@, now@));
        out
    }

    /// The blackout windows of a worker with this configuration, as of `now`: its own buffers,
    /// merge threshold, filters and curfew, whatever other workers use.
    #[must_use]
    pub fn windows_for_config(&self, config: &RedFolderConfig, now: UtcTime) -> (r: Vec<
        BlackoutWindow,
    >)
        requires
            now.in_range(),
        ensures
            views(r@) == self@.windows_for(config@, now@),
            forall|i: int| 0 <= i < r@.len() ==> bounded((#[trigger] r@[i])@),
            config@.buffers_in_range() ==> forall|i: int|
                0 <= i < r@.len() ==> (#[trigger] r@[i]).in_range(),
    {
        if !config.enabled {
            let none: Vec<BlackoutWindow> = Vec::new();
            assert(views(none@) =~= Seq::empty());
            return none;
        }
        let found: Vec<BlackoutWindow> = self.candidate_windows(config, now);
        let ghost single_windows = found@;
        let sorted: Vec<BlackoutWindow> = sort_windows(found);
        let gap: i128 = config.merge_threshold_min as i128 * MINUTE;
        proof {
            lemma_sorted_are_given(sorted@, single_windows);
        }
        let ghost in_order = sorted@;
        let merged: Vec<BlackoutWindow> = merge_windows(sorted, gap);
        proof {
            if config@.buffers_in_range() {
                lemma_merged_in_range(merged@, in_order, gap as int);
            }
        }
        drop_over(merged, now)
    }

    /// An engine with the given events and the windows of the workers with the given
    /// configurations; wall-clock readings are those of UTC.
    #[must_use]
    pub fn compile(
        raw_events: &[RawCalendarEvent],
        configs: &[&RedFolderConfig],
        now: UtcTime,
    ) -> (r: Self)
        requires
            now.in_range(),
        ensures
            r@ == EngineModel::compiled(views(raw_events@), views(configs@), now@, None),
    {
        Self::compile_with_tz(raw_events, configs, now, None)
    }

    /// An engine with the given events and the windows of the workers with the given
    /// configurations; wall-clock readings are those of `default_tz`, or of UTC where it is `None`.
    ///
    /// Each worker's windows are its own: they are pooled, not merged with those of another.
    #[must_use]
    pub fn compile_with_tz(
        raw_events: &[RawCalendarEvent],
        configs: &[&RedFolderConfig],
        now: UtcTime,
        default_tz: Option<SourceZone>,
    ) -> (r: Self)
        requires
            now.in_range(),
        ensures
            r@ == EngineModel::compiled(
                views(raw_events@),
                views(configs@),
                now@,
                zone_view(default_tz),
            ),
    {
        let mut engine: BlackoutEngine = Self::from_events_with_tz(raw_events, default_tz);
        let windows: Vec<BlackoutWindow> = if configs.len() == 0 {
            let standard: RedFolderConfig = RedFolderConfig::default();
            engine.windows_for_config(&standard, now)
        } else if configs.len() == 1 {
            engine.windows_for_config(configs[0], now)
        } else {
            engine.pool_windows(configs, now)
        };
        proof {
            use_type_invariant(&engine);
        }
        engine.windows = windows;
        engine
    }

    /// The windows of all workers by their starts.
    fn pool_windows(&self, configs: &[&RedFolderConfig], now: UtcTime) -> (r: Vec<BlackoutWindow>)
        requires
            now.in_range(),
        ensures
            views(r@) == by_start(pooled_windows(self@, views(configs@), now@)),
    {
        let ghost given = views(configs@);
        let mut pool: Vec<BlackoutWindow> = Vec::new();
        let mut i: usize = 0;
        assert(views(pool@) =~= pooled_windows(self@, given.take(0), now@));
        while i < configs.len()
            invariant
                i <= configs@.len(),
                now.in_range(),
                given == views(configs@),
                views(pool@) == pooled_windows(self@, given.take(i as int), now@),
            decreases configs@.len() - i,
        {
            proof {
                assert(given.take(i + 1).drop_last() =~= given.take(i as int));
                assert(given.take(i + 1).last() == configs@[i as int]@);
            }
            if configs[i].enabled {
                let mut own: Vec<BlackoutWindow> = self.windows_for_config(configs[i], now);
                proof {
                    assert(views(pool@ + own@) =~= views(pool@) + views(own@));
                }
                pool.append(&mut own);
            } else {
                assert(views(pool@) =~= views(pool@) + self@.windows_for(configs@[i as int]@, now@));
            }
            i = i + 1;
        }
        assert(given.take(i as int) =~= given);
        sort_windows(pool)
    }

    /// The raw calendar events.
    #[must_use]
    pub fn raw_events(&self) -> (r: &[RawCalendarEvent])
        ensures
            views(r@) == self@.raw_events,
    {
        self.raw_events.as_slice()
    }

    /// The calendar events whose times have been worked out.
    #[must_use]
    pub fn parsed_events(&self) -> (r: &[EconomicEvent])
        ensures
            views(r@) == self@.parsed_events,
            self@.parsed_events == economic_events(self@.raw_events, self@.timezone),
    {
        proof {
            use_type_invariant(self);
        }
        self.parsed_events.as_slice()
    }

    /// The windows compiled for reference. With several workers they are the pooled windows of all
    /// of them; see [`BlackoutEngine::windows_for_config`] for those of one worker.
    #[must_use]
    pub fn windows(&self) -> (r: &[BlackoutWindow])
        ensures
            views(r@) == self@.windows,
    {
        self.windows.as_slice()
    }

    /// Whether there are neither raw events nor compiled windows.
    #[must_use]
    pub fn is_empty(&self) -> (r: bool)
        ensures
            r == (self@.raw_events.len() == 0 && self@.windows.len() == 0),
    {
        self.raw_events.len() == 0 && self.windows.len() == 0
    }

    /// Whether there are raw events.
    #[must_use]
    pub fn has_events(&self) -> (r: bool)
        ensures
            r == (self@.raw_events.len() > 0),
    {
        self.raw_events.len() > 0
    }

    /// Whether there are compiled windows.
    #[must_use]
    pub fn has_windows(&self) -> (r: bool)
        ensures
            r == (self@.windows.len() > 0),
    {
        self.windows.len() > 0
    }

    /// The time zone of wall-clock readings and days, if it is not UTC.
    #[must_use]
    pub fn timezone(&self) -> (r: Option<SourceZone>)
        ensures
            zone_view(r) == self@.timezone,
    {
        clone_zone(&self.timezone)
    }

    /// Whether the calendar data is marked as stale.
    #[must_use]
    pub fn is_stale(&self) -> (r: bool)
        ensures
            r == self@.stale,
    {
        self.stale
    }

    /// Marks the calendar data as stale or fresh.
    pub fn set_stale(&mut self, stale: bool)
        ensures
            final(self)@ == (EngineModel { stale, ..old(self)@ }),
    {
        proof {
            use_type_invariant(&*self);
        }
        self.stale = stale;
    }

    /// The same engine with its calendar data marked as stale or fresh.
    #[must_use]
    pub fn with_stale(self, stale: bool) -> (r: Self)
        ensures
            r@ == (EngineModel { stale, ..self@ }),
    {
        let mut engine: Self = self;
        engine.set_stale(stale);
        engine
    }

    /// Whether a worker with this configuration is blocked now.
    #[must_use]
    pub fn is_blackout(&self, config: &RedFolderConfig) -> (r: bool)
        ensures
            exists|now: int|
                (#[trigger] in_calendar(now)) && r == self@.blackout_at(config@, now),
    {
        let now: UtcTime = utc_now();
        self.is_blackout_at(config, now)
    }

    /// Whether a worker with this configuration is blocked at `time`.
    #[must_use]
    pub fn is_blackout_at(&self, config: &RedFolderConfig, time: UtcTime) -> (r: bool)
        requires
            time.in_range(),
        ensures
            r == self@.blackout_at(config@, time@),
    {
        let windows: Vec<BlackoutWindow> = self.windows_for_config(config, time);
        let ghost all = self@.windows_for(config@, time@);
        let mut i: usize = 0;
        while i < windows.len()
            invariant
                i <= windows@.len(),
                all == views(windows@),
                all == self@.windows_for(config@, time@),
                forall|k: int| 0 <= k < i ==> !(#[trigger] all[k]).active_at(time@),
            decreases windows@.len() - i,
        {
            if windows[i].is_active_at(time) {
                assert(all[i as int].active_at(time@));
                return true;
            }
            i = i + 1;
        }
        false
    }

    /// The window that blocks a worker with this configuration now, if one does.
    #[must_use]
    pub fn current_window(&self, config: &RedFolderConfig) -> (r: Option<BlackoutWindow>)
        ensures
            exists|now: int|
                (#[trigger] in_calendar(now)) && option_view(r) == self@.window_at(config@, now),
            config@.buffers_in_range() ==> (r matches Some(w) ==> w.in_range()),
    {
        let now: UtcTime = utc_now();
        self.current_window_at(config, now)
    }

    /// The window that blocks a worker with this configuration at `time`, if one does.
    #[must_use]
    pub fn current_window_at(&self, config: &RedFolderConfig, time: UtcTime) -> (r: Option<
        BlackoutWindow,
    >)
        requires
            time.in_range(),
        ensures
            option_view(r) == self@.window_at(config@, time@),
            config@.buffers_in_range() ==> (r matches Some(w) ==> w.in_range()),
    {
        let windows: Vec<BlackoutWindow> = self.windows_for_config(config, time);
        let ghost all = self@.windows_for(config@, time@);
        assert(all.skip(0) =~= all);
        let mut i: usize = 0;
        while i < windows.len()
            invariant
                i <= windows@.len(),
                all == views(windows@),
                all == self@.windows_for(config@, time@),
                first_active(all, time@) == first_active(all.skip(i as int), time@),
                config@.buffers_in_range() ==> forall|k: int|
                    0 <= k < windows@.len() ==> (#[trigger] windows@[k]).in_range(),
            decreases windows@.len() - i,
        {
            proof {
                assert(all.skip(i as int).first() == windows@[i as int]@);
                assert(all.skip(i as int).drop_first() =~= all.skip(i + 1));
            }
            if windows[i].is_active_at(time) {
                return Some(windows[i].clone());
            }
            i = i + 1;
        }
        None
    }

    /// The window that blocks a worker with this configuration now, if one does: one look at the
    /// clock for both questions.
    #[must_use]
    pub fn status(&self, config: &RedFolderConfig) -> (r: Option<BlackoutWindow>)
        ensures
            exists|now: int|
                (#[trigger] in_calendar(now)) && option_view(r) == self@.window_at(config@, now),
            config@.buffers_in_range() ==> (r matches Some(w) ==> w.in_range()),
    {
        self.current_window(config)
    }

    /// The window that blocks a worker with this configuration at `time`, if one does.
    #[must_use]
    pub fn status_at(&self, config: &RedFolderConfig, time: UtcTime) -> (r: Option<BlackoutWindow>)
        requires
            time.in_range(),
        ensures
            option_view(r) == self@.window_at(config@, time@),
            config@.buffers_in_range() ==> (r matches Some(w) ==> w.in_range()),
    {
        self.current_window_at(config, time)
    }

    /// The windows of a worker with this configuration that start within `hours` hours from now.
    #[must_use]
    pub fn upcoming_blackouts(&self, config: &RedFolderConfig, hours: u32) -> (r: Vec<
        BlackoutWindow,
    >)
        ensures
            exists|now: int|
                (#[trigger] in_calendar(now)) && views(r@) == self@.upcoming(
                    config@,
                    now,
                    hours as int,
                ),
            config@.buffers_in_range() ==> forall|i: int|
                0 <= i < r@.len() ==> (#[trigger] r@[i]).in_range(),
    {
        let now: UtcTime = utc_now();
        self.upcoming_blackouts_at(config, now, hours)
    }

    /// The windows of a worker with this configuration that start within `hours` hours of `now`.
    #[must_use]
    pub fn upcoming_blackouts_at(&self, config: &RedFolderConfig, now: UtcTime, hours: u32) -> (r:
        Vec<BlackoutWindow>)
        requires
            now.in_range(),
        ensures
            views(r@) == self@.upcoming(config@, now@, hours as int),
            config@.buffers_in_range() ==> forall|i: int|
                0 <= i < r@.len() ==> (#[trigger] r@[i]).in_range(),
    {
        self.windows_until(config, now, now.plus_hours(hours))
    }

    /// The windows of a worker with this configuration that start between `now` and `cutoff`.
    pub(crate) fn windows_until(&self, config: &RedFolderConfig, now: UtcTime, cutoff: UtcTime) -> (r:
        Vec<BlackoutWindow>)
        requires
            now.in_range(),
        ensures
            views(r@) == self@.starting(config@, now@, cutoff@ - now@),
            forall|i: int| 0 <= i < r@.len() ==> bounded((#[trigger] r@[i])@),
            config@.buffers_in_range() ==> forall|i: int|
                0 <= i < r@.len() ==> (#[trigger] r@[i]).in_range(),
    {
        let windows: Vec<BlackoutWindow> = self.windows_for_config(config, now);
        let ghost all = self@.windows_for(config@, now@);
        let ghost f = starting_within(now@, cutoff@ - now@);
        let mut out: Vec<BlackoutWindow> = Vec::new();
        let mut i: usize = 0;
        proof {
            reveal(Seq::filter);
            assert(views(out@) =~= all.take(0).filter(f));
        }
        while i < windows.len()
            invariant
                i <= windows@.len(),
                all == views(windows@),
                f == starting_within(now@, cutoff@ - now@),
                views(out@) == all.take(i as int).filter(f),
                forall|k: int| 0 <= k < windows@.len() ==> bounded((#[trigger] windows@[k])@),
                forall|k: int| 0 <= k < out@.len() ==> bounded((#[trigger] out@[k])@),
                config@.buffers_in_range() ==> forall|k: int|
                    0 <= k < windows@.len() ==> (#[trigger] windows@[k]).in_range(),
                config@.buffers_in_range() ==> forall|k: int|
                    0 <= k < out@.len() ==> (#[trigger] out@[k]).in_range(),
            decreases windows@.len() - i,
        {
            proof {
                lemma_filter_step(all, i as int, f);
                assert(all[i as int] == windows@[i as int]@);
            }
            if Moment::plain(now).not_after(windows[i].start) && windows[i].start.time.nanos
                <= cutoff.nanos {
                let window: BlackoutWindow = windows[i].clone();
                proof {
                    lemma_views_push(out@, window);
                }
                out.push(window);
            }
            i = i + 1;
        }
        assert(all.take(i as int) =~= all);
        out
    }
}

/// The earlier of two times, of which either may be missing.
pub(crate) fn earlier(a: Option<UtcTime>, b: Option<UtcTime>) -> (r: Option<UtcTime>)
    ensures
        r == a || r == b,
        a matches Some(t) ==> r is Some && r->Some_0@ <= t@,
        b matches Some(t) ==> r is Some && r->Some_0@ <= t@,
{
    match (a, b) {
        (Some(x), Some(y)) => if x.nanos <= y.nanos {
            a
        } else {
            b
        },
        (Some(_), None) => a,
        (None, _) => b,
    }
}

/// The time, if it comes after `now`.
fn time_after(nanos: i128, now: UtcTime) -> (r: Option<UtcTime>)
    ensures
        option_view(r) == if now@ < nanos {
            Some(nanos as int)
        } else {
            None
        },
{
    if now.nanos < nanos {
        Some(UtcTime { nanos })
    } else {
        None
    }
}

/// The first time after `now` at which a window starts or ends, or a warning of it is due.
fn next_turn(config: &RedFolderConfig, w: &BlackoutWindow, now: UtcTime) -> (r: Option<UtcTime>)
    requires
        bounded(w@),
    ensures
        match r {
            Some(t) => {
                &&& now@ < t@
                &&& config@.turns(w@, t@)
                &&& forall|u: int| now@ < u && #[trigger] config@.turns(w@, u) ==> t@ <= u
            },
            None => forall|u: int| now@ < u ==> !#[trigger] config@.turns(w@, u),
        },
        r matches Some(t) ==> t@ <= 0x200_0000_0000_0000_0000_0000_0000_0000,
{
    let mut best: Option<UtcTime> = earlier(
        time_after(w.start.time.nanos, now),
        time_after(w.end.time.nanos, now),
    );
    if let Some(minutes) = config.warning_before_min {
        best = earlier(best, time_after(w.start.minus_minutes(minutes).time.nanos, now));
    }
    best
}

impl BlackoutEngine {
    /// The next time after `now` at which something changes for a worker with this configuration.
    pub(crate) fn next_change(&self, config: &RedFolderConfig, now: UtcTime) -> (r: Option<UtcTime>)
        requires
            now.in_range(),
        ensures
            match r {
                Some(t) => {
                    &&& now@ < t@
                    &&& self@.changes_at(config@, now@, t@)
                    &&& forall|u: int|
                        now@ < u && #[trigger] self@.changes_at(config@, now@, u) ==> t@ <= u
                },
                None => forall|u: int| now@ < u ==> !#[trigger] self@.changes_at(config@, now@, u),
            },
            r matches Some(t) ==> t@ <= 0x200_0000_0000_0000_0000_0000_0000_0000,
    {
        let windows: Vec<BlackoutWindow> = self.windows_for_config(config, now);
        let ghost all = self@.windows_for(config@, now@);
        let mut best: Option<UtcTime> = None;
        let mut i: usize = 0;
        while i < windows.len()
            invariant
                i <= windows@.len(),
                all == views(windows@),
                all == self@.windows_for(config@, now@),
                forall|k: int| 0 <= k < windows@.len() ==> bounded((#[trigger] windows@[k])@),
                best matches Some(t) ==> now@ < t@ && self@.changes_at(config@, now@, t@),
                best matches Some(t) ==> t@ <= 0x200_0000_0000_0000_0000_0000_0000_0000,
                forall|k: int, u: int|
                    0 <= k < i && now@ < u && #[trigger] config@.turns(all[k], u) ==> best is Some
                        && best->Some_0@ <= u,
            decreases windows@.len() - i,
        {
            assert(all[i as int] == windows@[i as int]@);
            let found: Option<UtcTime> = next_turn(config, &windows[i], now);
            proof {
                if let Some(t) = found {
                    assert(config@.turns(self@.windows_for(config@, now@)[i as int], t@));
                    assert(self@.changes_at(config@, now@, t@));
                }
            }
            best = earlier(best, found);
            i = i + 1;
        }
        best
    }
}

impl Default for BlackoutEngine {
    fn default() -> (r: Self)
        ensures
            r@ == EngineModel::with_events(Seq::empty(), None),
    {
        BlackoutEngine::new()
    }
}

impl Clone for BlackoutEngine {
    fn clone(&self) -> (r: Self)
        ensures
            r@ == self@,
    {
        proof {
            use_type_invariant(self);
        }
        let raw_events: Vec<RawCalendarEvent> = self.raw_events.clone();
        let parsed_events: Vec<EconomicEvent> = self.parsed_events.clone();
        let windows: Vec<BlackoutWindow> = self.windows.clone();
        assert(views(raw_events@) =~= views(self.raw_events@));
        assert(views(parsed_events@) =~= views(self.parsed_events@));
        assert(views(windows@) =~= views(self.windows@));
        assert forall|i: int| 0 <= i < parsed_events@.len() implies ((
        #[trigger] parsed_events@[i]).timing matches EventTiming::Exact(t) ==> t.in_range()) by {
            assert(parsed_events@[i]@ == self.parsed_events@[i]@);
        }
        BlackoutEngine {
            raw_events,
            parsed_events,
            windows,
            timezone: clone_zone(&self.timezone),
            stale: self.stale,
        }
    }
}

/// Whether one of `windows` blocks a worker with this configuration at `at`.
#[must_use]
pub fn is_blackout_for_config(
    config: &RedFolderConfig,
    windows: &[BlackoutWindow],
    at: UtcTime,
) -> (r: bool)
    ensures
        r == (config@.enabled && exists|i: int|
            0 <= i < windows@.len() && blocks((#[trigger] windows@[i])@, config@, at@)),
{
    if !config.enabled {
        return false;
    }
    let mut i: usize = 0;
    while i < windows.len()
        invariant
            i <= windows@.len(),
            config.enabled,
            forall|k: int| 0 <= k < i ==> !blocks((#[trigger] windows@[k])@, config@, at@),
        decreases windows@.len() - i,
    {
        if windows[i].is_active_at(at) && watched_events(&windows[i].events, config).len() > 0 {
            assert(blocks(windows@[i as int]@, config@, at@));
            return true;
        }
        i = i + 1;
    }
    false
}

/// The events that a worker with this configuration watches.
fn watched_events(events: &Vec<WindowEvent>, config: &RedFolderConfig) -> (r: Vec<WindowEvent>)
    ensures
        views(r@) == views(events@).filter(watched_by(config@)),
{
    let ghost all = views(events@);
    let ghost f = watched_by(config@);
    let mut out: Vec<WindowEvent> = Vec::new();
    let mut i: usize = 0;
    proof {
        reveal(Seq::filter);
        assert(views(out@) =~= all.take(0).filter(f));
    }
    while i < events.len()
        invariant
            i <= events@.len(),
            all == views(events@),
            f == watched_by(config@),
            views(out@) == all.take(i as int).filter(f),
        decreases events@.len() - i,
    {
        proof {
            lemma_filter_step(all, i as int, f);
            assert(all[i as int] == events@[i as int]@);
        }
        if event_matches_config(&events[i], config) {
            let event: WindowEvent = events[i].clone();
            proof {
                lemma_views_push(out@, event);
            }
            out.push(event);
        }
        i = i + 1;
    }
    assert(all.take(i as int) =~= all);
    out
}

/// The first of `windows` that blocks a worker with this configuration at `at`, with the events
/// that the worker watches.
#[must_use]
pub fn current_window_for_config(
    config: &RedFolderConfig,
    windows: &[BlackoutWindow],
    at: UtcTime,
) -> (r: Option<BlackoutWindow>)
    ensures
        option_view(r) == if config@.enabled {
            first_blocking(views(windows@), config@, at@)
        } else {
            None
        },
{
    if !config.enabled {
        return None;
    }
    let ghost all = views(windows@);
    assert(all.skip(0) =~= all);
    let mut i: usize = 0;
    while i < windows.len()
        invariant
            i <= windows@.len(),
            all == views(windows@),
            config.enabled,
            first_blocking(all, config@, at@) == first_blocking(all.skip(i as int), config@, at@),
        decreases windows@.len() - i,
    {
        proof {
            assert(all.skip(i as int).first() == windows@[i as int]@);
            assert(all.skip(i as int).drop_first() =~= all.skip(i + 1));
        }
        if windows[i].is_active_at(at) {
            let matching: Vec<WindowEvent> = watched_events(&windows[i].events, config);
            if matching.len() > 0 {
                return Some(
                    BlackoutWindow {
                        start: windows[i].start,
                        end: windows[i].end,
                        events: matching,
                    },
                );
            }
        }
        i = i + 1;
    }
    None
}

/// Sorted windows are as bounded as those given.
proof fn lemma_sorted_are_given(sorted: Seq<BlackoutWindow>, given: Seq<BlackoutWindow>)
    requires
        views(sorted) == by_start(views(given)),
    ensures
        (forall|i: int| 0 <= i < given.len() ==> bounded((#[trigger] given[i])@)) ==> forall|i: int|
            0 <= i < sorted.len() ==> bounded((#[trigger] sorted[i])@),
        (forall|i: int| 0 <= i < given.len() ==> (#[trigger] given[i]).in_range()) ==> forall|
            i: int,
        |
            0 <= i < sorted.len() ==> (#[trigger] sorted[i]).in_range(),
{
    assert forall|i: int| 0 <= i < sorted.len() implies exists|k: int|
        0 <= k < given.len() && given[k]@ == (#[trigger] sorted[i])@ by {
        lemma_by_start_contains(views(given), sorted[i]@);
        assert(views(sorted)[i] == sorted[i]@);
        assert(views(given).contains(sorted[i]@));
        let k = choose|k: int| 0 <= k < views(given).len() && views(given)[k] == sorted[i]@;
        assert(given[k]@ == sorted[i]@);
    }
}

/// Merged windows are in range where those given are.
proof fn lemma_merged_in_range(merged: Seq<BlackoutWindow>, given: Seq<BlackoutWindow>, gap: int)
    requires
        views(merged) == merged_windows(views(given), gap),
        forall|i: int| 0 <= i < given.len() ==> (#[trigger] given[i]).in_range(),
    ensures
        forall|i: int| 0 <= i < merged.len() ==> (#[trigger] merged[i]).in_range(),
{
    assert forall|i: int| 0 <= i < merged.len() implies (#[trigger] merged[i]).in_range() by {
        let s = views(given);
        assert(views(merged)[i] == merged[i]@);
        law_merged_window_has_given_ends(s, gap, i);
        let j = choose|j: int| 0 <= j < s.len() && (#[trigger] s[j]).from() == merged[i]@.from();
        let k = choose|k: int| 0 <= k < s.len() && (#[trigger] s[k]).until() == merged[i]@.until();
        assert(given[j].in_range() && given[k].in_range());
    }
}

/// What may be there is a sequence of one item, or of none.
pub proof fn law_optional_item<T>(x: T)
    ensures
        option_seq(Some(x)) == seq![x],
        option_seq(None::<T>).len() == 0,
{
}

/// Buffers of up to a thousand million million minutes leave windows that can be counted.
pub proof fn law_countable_windows(config: ConfigModel, w: BlackoutWindow)
    ensures
        config.buffers_in_range() <==> {
            &&& -1_000_000_000_000_000 <= config.before_min <= 1_000_000_000_000_000
            &&& -1_000_000_000_000_000 <= config.after_min <= 1_000_000_000_000_000
        },
        w.in_range() <==> {
            &&& -0x4000_0000_0000_0000_0000_0000 <= w.start.time.nanos
                <= 0x4000_0000_0000_0000_0000_0000
            &&& -0x4000_0000_0000_0000_0000_0000 <= w.end.time.nanos
                <= 0x4000_0000_0000_0000_0000_0000
            &&& w.start.lag <= 1_000_000_000
            &&& w.end.lag <= 1_000_000_000
        },
{
}

} // verus!
