//! What the blackout engine guarantees, over its contracts.

use crate::calendar::RawEventModel;
use crate::config::{law_valid_curfew_is_never_in_error, ConfigModel};
use crate::curfew::{curfew_title, curfew_window, law_curfew_is_current_or_next};
use crate::curfew::{law_curfew_stays_until_it_ends, law_ended_curfew_is_a_week_behind};
use crate::engine::{blocks, candidate_for, economic_events, economic_in, first_active};
use crate::engine::{first_blocking, one_follows, option_seq, pooled_windows, starting_within};
use crate::engine::{watched_by, EngineModel};
use crate::merge::{law_lasting_windows_keep_events, law_sorting_keeps_events, not_over};
use crate::merge::{lemma_held_in, lemma_held_somewhere, times_held};
use crate::merge::{all_plain, by_start, events_all, events_of, law_close_windows_are_merged};
use crate::merge::{bridged, law_merged_windows_lie_apart, law_merging_bridges_short_gaps};
use crate::merge::{lemma_merged_are_forward, lemma_merged_events_all};
use crate::merge::{law_merged_windows_stay_sorted, law_merging_covers_every_window};
use crate::merge::{law_merging_fills_gaps_only, law_merging_keeps_events, law_sorting_sorts};
use crate::merge::{law_sorting_is_stable, law_sorting_keeps_windows, starts_at};
use crate::merge::{lemma_by_start_contains, merged_windows, sorted_by_start, spans};
use crate::text::{ascii_lower, lower_case, same_ignoring_case, trimmed, upper_case};
use crate::time::{CalendarDate, Moment, MomentModel, HOUR, MINUTE, WEEK};
use crate::types::{law_currency_is_read_in_any_case, law_impact_is_read_in_any_case};
use crate::types::{law_currency_covers_its_code, law_currency_is_read_by_its_code};
use crate::types::{law_impact_has_its_names, law_impact_is_read_by_its_names};
use crate::types::{CurrencyModel, CustomEventKind, EconomicEventModel, EventTiming, ImpactModel};
use crate::types::{WindowEventModel, WindowModel};
use crate::views::{lemma_filter_map_step, lemma_filter_order};
use crate::zone::day_start;
use vstd::prelude::*;

verus! {

/// A disabled worker has no windows and is never blocked, whatever the calendar holds.
pub proof fn law_disabled_worker_is_never_blocked(
    engine: EngineModel,
    config: ConfigModel,
    time: int,
)
    requires
        !config.enabled,
    ensures
        engine.windows_for(config, time).len() == 0,
        !engine.blackout_at(config, time),
        engine.window_at(config, time) is None,
{
}

proof fn lemma_first_active(s: Seq<WindowModel>, time: int)
    ensures
        match first_active(s, time) {
            Some(w) => s.contains(w) && w.active_at(time),
            None => forall|i: int| 0 <= i < s.len() ==> !(#[trigger] s[i]).active_at(time),
        },
    decreases s.len(),
{
    if s.len() > 0 && !s.first().active_at(time) {
        let rest = s.drop_first();
        lemma_first_active(rest, time);
        match first_active(s, time) {
            Some(w) => {
                let k = choose|k: int| 0 <= k < rest.len() && rest[k] == w;
                assert(s[k + 1] == w);
            },
            None => {
                assert forall|i: int| 0 <= i < s.len() implies !(#[trigger] s[i]).active_at(time) by {
                    if i > 0 {
                        assert(rest[i - 1] == s[i]);
                    }
                }
            },
        }
    } else if s.len() > 0 {
        assert(s[0] == s.first());
    }
}

/// A worker is blocked exactly while there is a window that blocks it, and that window is active
/// and one of the worker's own.
pub proof fn law_blocked_exactly_while_in_a_window(
    engine: EngineModel,
    config: ConfigModel,
    time: int,
)
    ensures
        engine.blackout_at(config, time) <==> engine.window_at(config, time) is Some,
        engine.window_at(config, time) matches Some(w) ==> w.active_at(time) && engine.windows_for(
            config,
            time,
        ).contains(w),
{
    let s = engine.windows_for(config, time);
    lemma_first_active(s, time);
    if let Some(w) = engine.window_at(config, time) {
        let i = choose|i: int| 0 <= i < s.len() && s[i] == w;
        assert(s[i].active_at(time));
    }
}

impl EngineModel {
    /// Whether no event or rule that blocks a worker ends before it begins. It is so for every valid
    /// configuration but for days in a time zone, of which only the zone database can tell.
    pub open spec fn runs_forward(self, config: ConfigModel, now: int) -> bool {
        forall|i: int|
            0 <= i < self.candidates(config, now).len() ==> (#[trigger] self.candidates(
                config,
                now,
            )[i]).start <= self.candidates(config, now)[i].end
    }
}

impl EngineModel {
    /// Whether no event that blocks a worker does so from or until an instant in a leap second. Only
    /// an event in a leap second can, and only with no buffer before or after it.
    pub open spec fn leapless(self, config: ConfigModel) -> bool {
        all_plain(self.news(config))
    }
}

/// With a buffer before and a buffer after it, no event blocks a worker from or until an instant in
/// a leap second.
pub proof fn law_buffers_leave_leap_seconds(engine: EngineModel, config: ConfigModel)
    requires
        config.before_min != 0,
        config.after_min != 0,
    ensures
        engine.leapless(config),
{
    let news = engine.news(config);
    let f = candidate_for(config, engine.timezone);
    assert forall|i: int| 0 <= i < news.len() implies (#[trigger] news[i]).plain() by {
        lemma_filter_map_from(engine.parsed_events, f, i);
    }
}

proof fn lemma_sorted_plain(engine: EngineModel, config: ConfigModel, now: int)
    requires
        engine.leapless(config),
    ensures
        all_plain(engine.candidates(config, now)),
        all_plain(by_start(engine.candidates(config, now))),
{
    let given = engine.candidates(config, now);
    let news = engine.news(config);
    let s = by_start(given);
    assert forall|i: int| 0 <= i < given.len() implies (#[trigger] given[i]).plain() by {
        if i < news.len() {
            assert(news[i].plain());
        } else {
            assert(given[i] == engine.rules(config, now)[i - news.len()]);
        }
    }
    assert forall|i: int| 0 <= i < s.len() implies (#[trigger] s[i]).plain() by {
        lemma_by_start_contains(given, s[i]);
        let k = choose|k: int| 0 <= k < given.len() && given[k] == s[i];
        assert(given[k].plain());
    }
}

/// No event or rule of a valid configuration ends before it begins, where days are those of UTC or
/// are not asked for.
pub proof fn law_valid_worker_runs_forward(engine: EngineModel, config: ConfigModel, now: int)
    requires
        config.fault() is None,
        engine.timezone is None || !config.include_all_day && !config.include_tentative,
    ensures
        engine.runs_forward(config, now),
{
    let given = engine.candidates(config, now);
    let news = engine.news(config);
    if config.weekend_enabled {
        law_valid_curfew_is_never_in_error(config, now);
        law_curfew_is_current_or_next(
            now,
            config.weekend_start,
            config.weekend_end,
            config.weekend_mode,
        );
    }
    assert forall|i: int| 0 <= i < given.len() implies (#[trigger] given[i]).start <= given[i].end by {
        if i < news.len() {
            let f = candidate_for(config, engine.timezone);
            lemma_filter_map_from(engine.parsed_events, f, i);
            let j = choose|j: int|
                0 <= j < engine.parsed_events.len() && f(#[trigger] engine.parsed_events[j]) == Some(
                    news[i],
                );
            lemma_candidate_runs_forward(config, engine.parsed_events[j], engine.timezone);
        }
    }
}

proof fn lemma_candidate_runs_forward(
    config: ConfigModel,
    event: EconomicEventModel,
    zone: Option<Seq<char>>,
)
    requires
        config.before_min >= 0,
        config.after_min >= 0,
        zone is None || !config.include_all_day && !config.include_tentative,
    ensures
        config.candidate(event, zone) matches Some(w) ==> w.start <= w.end,
{
    assert(config.before_min * MINUTE >= 0 && config.after_min * MINUTE >= 0);
}

proof fn lemma_own_window_is_merged(engine: EngineModel, config: ConfigModel, now: int, k: int) -> (m:
    int)
    requires
        0 <= k < engine.windows_for(config, now).len(),
    ensures
        config.enabled,
        0 <= m < engine.merged(config, now).len(),
        engine.merged(config, now)[m] == engine.windows_for(config, now)[k],
        engine.windows_for(config, now)[k].lasts_until(now),
{
    lemma_filter_order(engine.merged(config, now), not_over(now), k, k).0
}

proof fn lemma_merged_is_own_window(engine: EngineModel, config: ConfigModel, now: int, m: int) -> (k:
    int)
    requires
        config.enabled,
        0 <= m < engine.merged(config, now).len(),
        engine.merged(config, now)[m].lasts_until(now),
    ensures
        0 <= k < engine.windows_for(config, now).len(),
        engine.windows_for(config, now)[k] == engine.merged(config, now)[m],
{
    let s = engine.windows_for(config, now);
    engine.merged(config, now).lemma_filter_contains(not_over(now), m);
    choose|k: int| 0 <= k < s.len() && s[k] == engine.merged(config, now)[m]
}

/// A worker's windows stand by their starts, and none is over. Any two have a gap between them that
/// is longer than the merge threshold, as far as leap seconds do not make the count of the time
/// between them depend on where it starts. Where no event or rule ends before it begins, neither does
/// a window.
pub proof fn law_windows_are_sorted_and_apart(
    engine: EngineModel,
    config: ConfigModel,
    now: int,
    i: int,
    j: int,
)
    requires
        0 <= i < j < engine.windows_for(config, now).len(),
    ensures
        engine.windows_for(config, now)[i].from().not_after(
            engine.windows_for(config, now)[j].from(),
        ),
        engine.windows_for(config, now)[i].lasts_until(now),
        engine.windows_for(config, now)[j].lasts_until(now),
        engine.leapless(config) ==> engine.windows_for(config, now)[j].start - engine.windows_for(
            config,
            now,
        )[i].end > config.merge_threshold_min * MINUTE,
        engine.runs_forward(config, now) ==> {
            &&& engine.windows_for(config, now)[i].start <= engine.windows_for(config, now)[i].end
            &&& engine.windows_for(config, now)[j].start <= engine.windows_for(config, now)[j].end
        },
{
    let s = by_start(engine.candidates(config, now));
    let gap = config.merge_threshold_min * MINUTE;
    law_sorting_sorts(engine.candidates(config, now));
    law_merged_windows_stay_sorted(s, gap);
    let (a, b) = lemma_filter_order(engine.merged(config, now), not_over(now), i, j);
    if engine.leapless(config) {
        lemma_sorted_plain(engine, config, now);
        law_merged_windows_lie_apart(s, gap, a, b);
    }
    if engine.runs_forward(config, now) {
        lemma_sorted_runs_forward(engine, config, now);
        lemma_merged_are_forward(s, gap);
    }
}

proof fn lemma_sorted_runs_forward(engine: EngineModel, config: ConfigModel, now: int)
    requires
        engine.runs_forward(config, now),
    ensures
        forall|i: int|
            0 <= i < by_start(engine.candidates(config, now)).len() ==> (#[trigger] by_start(
                engine.candidates(config, now),
            )[i]).start <= by_start(engine.candidates(config, now))[i].end,
{
    let given = engine.candidates(config, now);
    let s = by_start(given);
    assert forall|i: int| 0 <= i < s.len() implies (#[trigger] s[i]).start <= s[i].end by {
        lemma_by_start_contains(given, s[i]);
        let k = choose|k: int| 0 <= k < given.len() && given[k] == s[i];
        assert(given[k].start <= given[k].end);
    }
}

/// Every event and rule that blocks a worker and is not over does so throughout: at each instant of
/// its own window the worker is in one of its windows.
pub proof fn law_every_candidate_is_covered(
    engine: EngineModel,
    config: ConfigModel,
    now: int,
    w: WindowModel,
)
    requires
        config.enabled,
        engine.candidates(config, now).contains(w),
        w.lasts_until(now),
    ensures
        exists|k: int|
            0 <= k < engine.windows_for(config, now).len() && spans(
                #[trigger] engine.windows_for(config, now)[k],
                w,
            ),
{
    let given = engine.candidates(config, now);
    let s = by_start(given);
    lemma_by_start_contains(given, w);
    law_sorting_sorts(given);
    let i = choose|i: int| 0 <= i < s.len() && s[i] == w;
    let gap = config.merge_threshold_min * MINUTE;
    law_merging_covers_every_window(s, gap, i);
    let m = choose|m: int|
        0 <= m < merged_windows(s, gap).len() && spans(#[trigger] merged_windows(s, gap)[m], s[i]);
    let k = lemma_merged_is_own_window(engine, config, now, m);
    assert(spans(engine.windows_for(config, now)[k], w));
}

proof fn lemma_active_candidate_blocks(
    engine: EngineModel,
    config: ConfigModel,
    time: int,
    w: WindowModel,
)
    requires
        config.enabled,
        engine.candidates(config, time).contains(w),
        w.active_at(time),
    ensures
        engine.blackout_at(config, time),
{
    law_every_candidate_is_covered(engine, config, time, w);
    let k = choose|k: int|
        0 <= k < engine.windows_for(config, time).len() && spans(
            #[trigger] engine.windows_for(config, time)[k],
            w,
        );
    assert(engine.windows_for(config, time)[k].active_at(time));
}

proof fn lemma_filter_map_contains<A, B>(s: Seq<A>, f: spec_fn(A) -> Option<B>, i: int)
    requires
        0 <= i < s.len(),
        f(s[i]) is Some,
    ensures
        s.filter_map(f).contains(f(s[i])->Some_0),
    decreases s.len(),
{
    let n = s.len() as int;
    lemma_filter_map_step(s, n - 1, f);
    assert(s.take(n) =~= s);
    let front = s.take(n - 1);
    let x = f(s[i])->Some_0;
    if i == n - 1 {
        assert(front.filter_map(f).push(x)[front.filter_map(f).len() as int] == x);
    } else {
        lemma_filter_map_contains(front, f, i);
        let k = choose|k: int| 0 <= k < front.filter_map(f).len() && front.filter_map(f)[k] == x;
        assert(s.filter_map(f)[k] == x);
    }
}

/// A watched event with a known time blocks a worker from `before_min` minutes before it, that
/// instant included, until `after_min` minutes after it, that instant excluded.
pub proof fn law_watched_event_blocks_its_buffers(
    engine: EngineModel,
    config: ConfigModel,
    i: int,
    at: Moment,
    time: int,
)
    requires
        config.enabled,
        0 <= i < engine.parsed_events.len(),
        config.watches(engine.parsed_events[i].country, engine.parsed_events[i].impact),
        engine.parsed_events[i].timing == EventTiming::Exact(at),
        at@.moved(-(config.before_min * MINUTE)).at <= time,
        time < at@.moved(config.after_min * MINUTE).at,
    ensures
        engine.blackout_at(config, time),
{
    let event = engine.parsed_events[i];
    let f = candidate_for(config, engine.timezone);
    let w = config.candidate(event, engine.timezone)->Some_0;
    let news = engine.news(config);
    lemma_filter_map_contains(engine.parsed_events, f, i);
    let k = choose|k: int| 0 <= k < news.len() && news[k] == w;
    assert(engine.candidates(config, time)[k] == w);
    lemma_active_candidate_blocks(engine, config, time, w);
}

/// With no buffer before it, a watched event's window starts at the event.
pub proof fn law_zero_buffer_starts_at_the_event(
    config: ConfigModel,
    event: EconomicEventModel,
    at: Moment,
    zone: Option<Seq<char>>,
)
    requires
        config.before_min == 0,
        event.timing == EventTiming::Exact(at),
    ensures
        config.candidate(event, zone) matches Some(w) ==> w.from() == at@,
{
}

/// Unless they are asked for, all-day and tentative events block nothing.
pub proof fn law_undated_times_block_nothing_unasked(
    config: ConfigModel,
    event: EconomicEventModel,
    zone: Option<Seq<char>>,
)
    requires
        event.timing is AllDay && !config.include_all_day || event.timing is TentativeDate
            && !config.include_tentative,
    ensures
        config.candidate(event, zone) is None,
{
}

/// A worker is blocked only by an event or rule of its own: at the time, the window of one is
/// active, or starts within the merge threshold, where none blocks from or until an instant in a leap
/// second.
pub proof fn law_no_blackout_without_cause(engine: EngineModel, config: ConfigModel, time: int)
    requires
        engine.leapless(config),
        config.merge_threshold_min >= 0,
        engine.blackout_at(config, time),
    ensures
        exists|i: int|
            0 <= i < engine.candidates(config, time).len() && (#[trigger] engine.candidates(
                config,
                time,
            )[i]).start - config.merge_threshold_min * MINUTE <= time && time < engine.candidates(
                config,
                time,
            )[i].end,
{
    let given = engine.candidates(config, time);
    let s = by_start(given);
    let gap = config.merge_threshold_min * MINUTE;
    let k = choose|k: int|
        0 <= k < engine.windows_for(config, time).len() && (#[trigger] engine.windows_for(
            config,
            time,
        )[k]).active_at(time);
    let m = lemma_own_window_is_merged(engine, config, time, k);
    lemma_sorted_plain(engine, config, time);
    law_merging_fills_gaps_only(s, gap, m, time);
    let j = choose|j: int| 0 <= j < s.len() && (#[trigger] s[j]).start - gap <= time && time < s[j].end;
    lemma_by_start_contains(given, s[j]);
    let i = choose|i: int| 0 <= i < given.len() && given[i] == s[j];
    assert(given[i].start - gap <= time && time < given[i].end);
}

proof fn lemma_curfew_at_later_time(config: ConfigModel, now: int, time: int)
    requires
        now <= time,
        config.curfew_candidate(now) is Some,
    ensures
        config.curfew_candidate(time) is Some,
        config.curfew_candidate(time)->Some_0.end - WEEK <= time,
        config.curfew_candidate(time)->Some_0.start <= config.curfew_candidate(time)->Some_0.end,
        config.curfew_candidate(now)->Some_0.end - WEEK <= config.curfew_candidate(
            time,
        )->Some_0.end - WEEK,
        time < config.curfew_candidate(now)->Some_0.end ==> config.curfew_candidate(time)
            == config.curfew_candidate(now),
        config.curfew_candidate(now)->Some_0.end <= time ==> config.curfew_candidate(now)->Some_0.end
            <= config.curfew_candidate(time)->Some_0.end - WEEK,
{
    let start = config.weekend_start;
    let end = config.weekend_end;
    let mode = config.weekend_mode;
    law_curfew_is_current_or_next(now, start, end, mode);
    law_curfew_is_current_or_next(time, start, end, mode);
    let first = curfew_window(now, start, end, mode)->Ok_0;
    if time < first.1 {
        law_curfew_stays_until_it_ends(now, time, start, end, mode);
    } else {
        law_ended_curfew_is_a_week_behind(now, time, start, end, mode);
    }
}

/// A window that starts after `time`, within the merge threshold of one that is over by then, blocks
/// the gap between them as of `time`.
proof fn lemma_bridge_blocks(
    engine: EngineModel,
    config: ConfigModel,
    time: int,
    a: WindowModel,
    b: WindowModel,
)
    requires
        engine.leapless(config),
        config.enabled,
        engine.candidates(config, time).contains(a),
        engine.candidates(config, time).contains(b),
        bridged(a, b, config.merge_threshold_min * MINUTE, time),
    ensures
        engine.blackout_at(config, time),
{
    let given = engine.candidates(config, time);
    let i = choose|i: int| 0 <= i < given.len() && given[i] == a;
    let j = choose|j: int| 0 <= j < given.len() && given[j] == b;
    law_close_candidates_share_a_window(engine, config, time, i, j);
    let k = choose|k: int|
        0 <= k < engine.windows_for(config, time).len() && spans(
            #[trigger] engine.windows_for(config, time)[k],
            given[i],
        ) && spans(engine.windows_for(config, time)[k], given[j]);
    assert(engine.windows_for(config, time)[k].active_at(time));
}

/// Once a window of a worker is known, it keeps its word: at every later time within it the worker is
/// blocked as of that time, in the gaps between its events too. Beyond the weekend curfew, where
/// another curfew may lie between the events, that is so where none of them ends before it begins,
/// and none blocks from or until an instant in a leap second.
pub proof fn law_window_blocks_until_it_ends(
    engine: EngineModel,
    config: ConfigModel,
    now: int,
    time: int,
    k: int,
)
    requires
        engine.outlasts_curfew(config, now, time),
        now <= time,
        0 <= k < engine.windows_for(config, now).len(),
        engine.windows_for(config, now)[k].active_at(time),
    ensures
        engine.blackout_at(config, time),
{
    let given = engine.candidates(config, now);
    let s = by_start(given);
    let gap = config.merge_threshold_min * MINUTE;
    let m = lemma_own_window_is_merged(engine, config, now, k);
    if config.safety_candidate(engine.raw_events.len() == 0, engine.stale, now) is Some {
        law_fail_closed_blocks_without_data(engine, config, time);
    } else if !config.curfew_over(now, time) {
        lemma_same_candidates(engine, config, now, time);
        let j = lemma_merged_is_own_window(engine, config, time, m);
        assert(engine.windows_for(config, time)[j].active_at(time));
    } else {
        lemma_sorted_runs_forward(engine, config, now);
        lemma_sorted_plain(engine, config, now);
        law_merging_bridges_short_gaps(s, gap, m, time);
        if exists|j: int| 0 <= j < s.len() && (#[trigger] s[j]).active_at(time) {
            let j = choose|j: int| 0 <= j < s.len() && (#[trigger] s[j]).active_at(time);
            lemma_by_start_contains(given, s[j]);
            lemma_active_candidate_stays(engine, config, now, time, s[j]);
        } else {
            let (i, j) = choose|i: int, j: int|
                0 <= i < s.len() && 0 <= j < s.len() && bridged(
                    #[trigger] s[i],
                    #[trigger] s[j],
                    gap,
                    time,
                );
            lemma_by_start_contains(given, s[i]);
            lemma_by_start_contains(given, s[j]);
            lemma_bridge_stays(engine, config, now, time, s[i], s[j]);
        }
    }
}

impl ConfigModel {
    /// Whether the weekend curfew that was current or next at `now` is over at `time`.
    pub open spec fn curfew_over(self, now: int, time: int) -> bool {
        self.curfew_candidate(now) matches Some(c) && c.end <= time
    }
}

impl EngineModel {
    /// Whether, if the weekend curfew of `now` is over at `time`, no event or rule ends before it
    /// begins, and none blocks from or until an instant in a leap second.
    pub open spec fn outlasts_curfew(self, config: ConfigModel, now: int, time: int) -> bool {
        config.curfew_over(now, time) ==> self.leapless(config) && self.runs_forward(config, now)
    }
}

/// Until the weekend curfew is over, a worker's events and rules stay the same.
proof fn lemma_same_candidates(engine: EngineModel, config: ConfigModel, now: int, time: int)
    requires
        now <= time,
        !config.curfew_over(now, time),
        config.safety_candidate(engine.raw_events.len() == 0, engine.stale, now) is None,
    ensures
        engine.candidates(config, time) == engine.candidates(config, now),
{
    if config.curfew_candidate(now) is Some {
        lemma_curfew_at_later_time(config, now, time);
    }
}

/// Where a candidate comes from.
proof fn lemma_candidate_origin(engine: EngineModel, config: ConfigModel, now: int, w: WindowModel)
    requires
        engine.candidates(config, now).contains(w),
    ensures
        ({
            ||| engine.news(config).contains(w)
            ||| config.past_curfew_candidate(engine.news(config), now) == Some(w)
            ||| config.curfew_candidate(now) == Some(w)
            ||| config.safety_candidate(engine.raw_events.len() == 0, engine.stale, now) == Some(w)
        }),
{
    let given = engine.candidates(config, now);
    let news = engine.news(config);
    let i = choose|i: int| 0 <= i < given.len() && given[i] == w;
    if i < news.len() {
        assert(news[i] == w);
    } else {
        assert(engine.rules(config, now)[i - news.len()] == w);
    }
}

/// What is a candidate.
proof fn lemma_candidate_from(engine: EngineModel, config: ConfigModel, now: int)
    ensures
        forall|w: WindowModel|
            engine.news(config).contains(w) ==> #[trigger] engine.candidates(config, now).contains(w),
        config.past_curfew_candidate(engine.news(config), now) matches Some(w)
            ==> engine.candidates(config, now).contains(w),
        config.curfew_candidate(now) matches Some(w) ==> engine.candidates(config, now).contains(w),
        config.safety_candidate(engine.raw_events.len() == 0, engine.stale, now) matches Some(w)
            ==> engine.candidates(config, now).contains(w),
{
    let given = engine.candidates(config, now);
    let news = engine.news(config);
    let past = option_seq(config.past_curfew_candidate(news, now));
    let curfew = option_seq(config.curfew_candidate(now));
    assert forall|w: WindowModel| news.contains(w) implies #[trigger] given.contains(w) by {
        let i = choose|i: int| 0 <= i < news.len() && news[i] == w;
        assert(given[i] == w);
    }
    if let Some(w) = config.past_curfew_candidate(news, now) {
        assert(given[news.len() as int] == w);
    }
    if let Some(w) = config.curfew_candidate(now) {
        assert(given[(news.len() + past.len()) as int] == w);
    }
    if let Some(w) = config.safety_candidate(engine.raw_events.len() == 0, engine.stale, now) {
        assert(given[(news.len() + past.len() + curfew.len()) as int] == w);
    }
}

proof fn lemma_active_candidate_stays(
    engine: EngineModel,
    config: ConfigModel,
    now: int,
    time: int,
    w: WindowModel,
)
    requires
        config.enabled,
        now <= time,
        engine.candidates(config, now).contains(w),
        w.active_at(time),
    ensures
        engine.blackout_at(config, time),
{
    lemma_candidate_origin(engine, config, now, w);
    lemma_candidate_from(engine, config, time);
    if engine.news(config).contains(w) {
        lemma_active_candidate_blocks(engine, config, time, w);
    } else if config.safety_candidate(engine.raw_events.len() == 0, engine.stale, now) == Some(w) {
        law_fail_closed_blocks_without_data(engine, config, time);
    } else {
        lemma_curfew_at_later_time(config, now, now);
        lemma_curfew_at_later_time(config, now, time);
        lemma_active_candidate_blocks(engine, config, time, w);
    }
}

proof fn lemma_bridge_stays(
    engine: EngineModel,
    config: ConfigModel,
    now: int,
    time: int,
    a: WindowModel,
    b: WindowModel,
)
    requires
        engine.leapless(config),
        config.enabled,
        now <= time,
        engine.candidates(config, now).contains(a),
        engine.candidates(config, now).contains(b),
        bridged(a, b, config.merge_threshold_min * MINUTE, time),
    ensures
        engine.blackout_at(config, time),
{
    let news = engine.news(config);
    let gap = config.merge_threshold_min * MINUTE;
    lemma_candidate_origin(engine, config, now, a);
    lemma_candidate_origin(engine, config, now, b);
    lemma_candidate_from(engine, config, time);
    if config.safety_candidate(engine.raw_events.len() == 0, engine.stale, now) is Some {
        law_fail_closed_blocks_without_data(engine, config, time);
    } else {
        if config.curfew_candidate(now) is Some {
            lemma_curfew_at_later_time(config, now, now);
            lemma_curfew_at_later_time(config, now, time);
        }
        // What starts after `time` is an event, or the curfew that is still to come.
        assert(engine.candidates(config, time).contains(b));
        if news.contains(a) {
            lemma_bridge_blocks(engine, config, time, a, b);
        } else {
            let over = config.curfew_candidate(time)->Some_0;
            let past = config.curfew_from(over.start - WEEK, over.end - WEEK);
            assert(a.end <= past.end <= time);
            if news.contains(b) {
                let j = choose|j: int| 0 <= j < news.len() && news[j] == b;
                assert(news[j].plain());
                assert(past.end <= news[j].start <= past.end + gap);
                assert(one_follows(news, past.end, gap));
            }
            assert(config.past_curfew_candidate(news, time) == Some(past));
            lemma_bridge_blocks(engine, config, time, past, b);
        }
    }
}

/// Whether a worker is blocked does not change as long as nothing is known to change for it: it is
/// enough to look again at the next start or end of one of its windows.
pub proof fn law_nothing_changes_unforeseen(
    engine: EngineModel,
    config: ConfigModel,
    now: int,
    time: int,
)
    requires
        engine.outlasts_curfew(config, now, time),
        now <= time,
        forall|t: int| now < t <= time ==> !#[trigger] engine.changes_at(config, now, t),
    ensures
        engine.blackout_at(config, time) == engine.blackout_at(config, now),
{
    let own = engine.windows_for(config, now);
    if engine.blackout_at(config, now) {
        let k = choose|k: int| 0 <= k < own.len() && (#[trigger] own[k]).active_at(now);
        assert(config.turns(own[k], own[k].end));
        assert(engine.changes_at(config, now, own[k].end));
        law_window_blocks_until_it_ends(engine, config, now, time, k);
    } else if engine.blackout_at(config, time) {
        let later = engine.windows_for(config, time);
        let j = choose|j: int| 0 <= j < later.len() && (#[trigger] later[j]).active_at(time);
        let m = lemma_own_window_is_merged(engine, config, time, j);
        lemma_candidates_stay(engine, config, now, time);
        let k = lemma_merged_is_own_window(engine, config, now, m);
        assert(!own[k].active_at(now));
        assert(config.turns(own[k], own[k].start));
        assert(engine.changes_at(config, now, own[k].start));
    }
}

/// While nothing changes for a worker that is not blocked, its events and rules stay the same.
proof fn lemma_candidates_stay(engine: EngineModel, config: ConfigModel, now: int, time: int)
    requires
        config.enabled,
        now <= time,
        forall|t: int| now < t <= time ==> !#[trigger] engine.changes_at(config, now, t),
        !engine.blackout_at(config, now),
    ensures
        engine.candidates(config, time) == engine.candidates(config, now),
{
    if config.safety_candidate(engine.raw_events.len() == 0, engine.stale, now) is Some {
        law_fail_closed_blocks_without_data(engine, config, now);
    }
    if let Some(c) = config.curfew_candidate(now) {
        lemma_curfew_at_later_time(config, now, now);
        lemma_curfew_at_later_time(config, now, time);
        if c.end <= time {
            let own = engine.windows_for(config, now);
            law_curfew_is_current_or_next(
                now,
                config.weekend_start,
                config.weekend_end,
                config.weekend_mode,
            );
            lemma_candidate_from(engine, config, now);
            law_every_candidate_is_covered(engine, config, now, c);
            let k = choose|k: int| 0 <= k < own.len() && spans(#[trigger] own[k], c);
            assert(!own[k].active_at(now));
            assert(config.turns(own[k], own[k].start));
            assert(engine.changes_at(config, now, own[k].start));
        }
    }
}

/// Without a merge threshold, a worker is blocked exactly while the window of an event or rule of
/// its own is active, where none blocks from or until an instant in a leap second.
pub proof fn law_unmerged_worker_is_blocked_exactly_by_its_events(
    engine: EngineModel,
    config: ConfigModel,
    time: int,
)
    requires
        engine.leapless(config),
        config.enabled,
        config.merge_threshold_min == 0,
    ensures
        engine.blackout_at(config, time) <==> exists|i: int|
            0 <= i < engine.candidates(config, time).len() && (#[trigger] engine.candidates(
                config,
                time,
            )[i]).active_at(time),
{
    let given = engine.candidates(config, time);
    if engine.blackout_at(config, time) {
        law_no_blackout_without_cause(engine, config, time);
        let i = choose|i: int|
            0 <= i < given.len() && (#[trigger] given[i]).start - config.merge_threshold_min * MINUTE
                <= time && time < given[i].end;
        assert(given[i].active_at(time));
    }
    if exists|i: int| 0 <= i < given.len() && (#[trigger] given[i]).active_at(time) {
        let i = choose|i: int| 0 <= i < given.len() && (#[trigger] given[i]).active_at(time);
        lemma_active_candidate_blocks(engine, config, time, given[i]);
    }
}

/// Events and rules whose windows overlap, or lie at most the merge threshold apart, block a worker
/// without a break: until both are over, both lie within one of its windows. That is so where no
/// event blocks from or until an instant in a leap second, next to which the time between two windows
/// depends on which of them is looked at first.
pub proof fn law_close_candidates_share_a_window(
    engine: EngineModel,
    config: ConfigModel,
    now: int,
    i: int,
    j: int,
)
    requires
        engine.leapless(config),
        config.enabled,
        0 <= i < engine.candidates(config, now).len(),
        0 <= j < engine.candidates(config, now).len(),
        engine.candidates(config, now)[j].start - engine.candidates(config, now)[i].end
            <= config.merge_threshold_min * MINUTE,
        engine.candidates(config, now)[i].start < engine.candidates(config, now)[j].start
            || engine.candidates(config, now)[i].start - engine.candidates(config, now)[j].end
            <= config.merge_threshold_min * MINUTE,
        engine.candidates(config, now)[i].lasts_until(now) || engine.candidates(
            config,
            now,
        )[j].lasts_until(now),
    ensures
        exists|k: int|
            0 <= k < engine.windows_for(config, now).len() && spans(
                #[trigger] engine.windows_for(config, now)[k],
                engine.candidates(config, now)[i],
            ) && spans(engine.windows_for(config, now)[k], engine.candidates(config, now)[j]),
{
    let given = engine.candidates(config, now);
    let s = by_start(given);
    law_sorting_sorts(given);
    lemma_by_start_contains(given, given[i]);
    lemma_by_start_contains(given, given[j]);
    let a = choose|a: int| 0 <= a < s.len() && s[a] == given[i];
    let b = choose|b: int| 0 <= b < s.len() && s[b] == given[j];
    let gap = config.merge_threshold_min * MINUTE;
    lemma_sorted_plain(engine, config, now);
    if a < b {
        law_close_windows_are_merged(s, gap, a, b);
    } else if b < a {
        assert(s[b].from().not_after(s[a].from()));
        law_close_windows_are_merged(s, gap, b, a);
    } else {
        law_merging_covers_every_window(s, gap, a);
    }
    let m = choose|m: int|
        0 <= m < merged_windows(s, gap).len() && spans(
            #[trigger] merged_windows(s, gap)[m],
            s[a],
        ) && spans(merged_windows(s, gap)[m], s[b]);
    let k = lemma_merged_is_own_window(engine, config, now, m);
    assert(spans(engine.windows_for(config, now)[k], given[i]));
}

/// The merged windows, over or not, hold each of the events that block a worker once, by the starts
/// of their windows.
pub proof fn law_merged_windows_hold_every_event_once(
    engine: EngineModel,
    config: ConfigModel,
    now: int,
)
    ensures
        events_of(engine.merged(config, now)) == events_of(
            by_start(engine.candidates(config, now)),
        ),
{
    law_merging_keeps_events(
        by_start(engine.candidates(config, now)),
        config.merge_threshold_min * MINUTE,
    );
}

/// An event or rule that blocks a worker and is not over stands in exactly one of its windows, and
/// there once: a window holds it, all windows together hold it no more often than it blocks the
/// worker, and only one that blocks the worker twice can stand in two.
pub proof fn law_windows_hold_every_event_once(
    engine: EngineModel,
    config: ConfigModel,
    now: int,
    i: int,
)
    requires
        config.enabled,
        0 <= i < engine.candidates(config, now).len(),
        engine.candidates(config, now)[i].lasts_until(now),
    ensures
        ({
            let given = engine.candidates(config, now);
            let own = engine.windows_for(config, now);
            let e = given[i].events[0];
            &&& given[i].events == seq![e]
            &&& exists|k: int| 0 <= k < own.len() && (#[trigger] own[k]).events.contains(e)
            &&& 1 <= times_held(own, e) <= times_held(given, e)
            &&& forall|j: int, k: int|
                0 <= j < k < own.len() && (#[trigger] own[j]).events.contains(e) && (
                #[trigger] own[k]).events.contains(e) ==> times_held(given, e) >= 2
        }),
{
    let given = engine.candidates(config, now);
    let own = engine.windows_for(config, now);
    let s = by_start(given);
    let gap = config.merge_threshold_min * MINUTE;
    let news = engine.news(config);
    let e = given[i].events[0];
    if i < news.len() {
        lemma_filter_map_from(engine.parsed_events, candidate_for(config, engine.timezone), i);
        assert(news[i] == given[i]);
    } else {
        assert(given[i] == engine.rules(config, now)[i - news.len()]);
    }
    assert(given[i].events =~= seq![e]);
    let p = not_over(now);
    lemma_by_start_contains(given, given[i]);
    let a = choose|a: int| 0 <= a < s.len() && s[a] == given[i];
    s.lemma_filter_contains(p, a);
    let b = choose|b: int| 0 <= b < s.filter(p).len() && s.filter(p)[b] == given[i];
    assert(given[i].events[0] == e);
    assert(s.filter(p)[b].events.contains(e));
    lemma_held_in(s.filter(p), b, e);
    law_lasting_windows_keep_events(s, gap, now, e);
    law_sorting_keeps_events(given, e);
    let k = lemma_held_somewhere(own, e);
    assert forall|j: int, k: int|
        0 <= j < k < own.len() && (#[trigger] own[j]).events.contains(e) && (
        #[trigger] own[k]).events.contains(e) implies times_held(given, e) >= 2 by {
        lemma_held_in(own, j, e);
    }
}

/// A worker that fails closed is blocked at all times while there is no calendar data, or while it
/// is stale.
pub proof fn law_fail_closed_blocks_without_data(
    engine: EngineModel,
    config: ConfigModel,
    time: int,
)
    requires
        config.enabled,
        config.fail_safe_mode is FailClosed,
        engine.raw_events.len() == 0 || engine.stale,
    ensures
        engine.blackout_at(config, time),
{
    let w = config.safety_candidate(engine.raw_events.len() == 0, engine.stale, time)->Some_0;
    let given = engine.candidates(config, time);
    assert(given[given.len() - 1] == w);
    lemma_active_candidate_blocks(engine, config, time, w);
}

/// To a worker that fails open it makes no difference whether calendar data is stale.
pub proof fn law_fail_open_ignores_staleness(
    engine: EngineModel,
    config: ConfigModel,
    stale: bool,
    now: int,
)
    requires
        config.fail_safe_mode is FailOpen,
    ensures
        (EngineModel { stale, ..engine }).windows_for(config, now) == engine.windows_for(
            config,
            now,
        ),
{
}

/// A worker that fails open is not blocked without calendar data, but for its weekend curfew.
pub proof fn law_fail_open_trades_without_data(
    config: ConfigModel,
    zone: Option<Seq<char>>,
    stale: bool,
    time: int,
)
    requires
        config.enabled,
        config.fail_safe_mode is FailOpen,
    ensures
        ({
            let engine = EngineModel { stale, ..EngineModel::with_events(Seq::empty(), zone) };
            engine.blackout_at(config, time) <==> (match config.curfew_candidate(time) {
                Some(curfew) => curfew.active_at(time),
                None => false,
            })
        }),
{
    let engine = EngineModel { stale, ..EngineModel::with_events(Seq::empty(), zone) };
    let given = engine.candidates(config, time);
    match config.curfew_candidate(time) {
        Some(curfew) => {
            let gap = config.merge_threshold_min * MINUTE;
            reveal_with_fuel(by_start, 2);
            reveal_with_fuel(merged_windows, 2);
            assert(engine.news(config) =~= Seq::empty());
            assert(given =~= seq![curfew]);
            assert(given.drop_last() =~= Seq::empty());
            assert(by_start(given) =~= given);
            assert(merged_windows(given, gap) =~= given);
            law_curfew_is_current_or_next(
                time,
                config.weekend_start,
                config.weekend_end,
                config.weekend_mode,
            );
            let k = lemma_merged_is_own_window(engine, config, time, 0);
            if engine.blackout_at(config, time) {
                let j = choose|j: int|
                    0 <= j < engine.windows_for(config, time).len()
                        && (#[trigger] engine.windows_for(config, time)[j]).active_at(time);
                let m = lemma_own_window_is_merged(engine, config, time, j);
            }
        },
        None => {
            assert(given =~= Seq::empty());
            if engine.blackout_at(config, time) {
                let j = choose|j: int|
                    0 <= j < engine.windows_for(config, time).len()
                        && (#[trigger] engine.windows_for(config, time)[j]).active_at(time);
                let m = lemma_own_window_is_merged(engine, config, time, j);
            }
        },
    }
}

/// The weekend curfew blocks a worker whatever currencies and impacts it watches.
pub proof fn law_curfew_blocks_whatever_is_watched(
    engine: EngineModel,
    config: ConfigModel,
    time: int,
)
    requires
        config.enabled,
        config.weekend_enabled,
        curfew_window(time, config.weekend_start, config.weekend_end, config.weekend_mode) matches
            Ok((start, end)) && start <= time < end,
    ensures
        engine.blackout_at(config, time),
{
    let w = config.curfew_candidate(time)->Some_0;
    let news = engine.news(config);
    let past = option_seq(config.past_curfew_candidate(news, time));
    assert(engine.candidates(config, time)[(news.len() + past.len()) as int] == w);
    lemma_active_candidate_blocks(engine, config, time, w);
}

/// A worker's windows do not depend on the configurations of other workers that an engine was
/// compiled for, nor on when that was.
pub proof fn law_workers_are_isolated(
    raw: Seq<RawEventModel>,
    zone: Option<Seq<char>>,
    configs: Seq<ConfigModel>,
    compiled_at: int,
    config: ConfigModel,
    now: int,
)
    ensures
        EngineModel::compiled(raw, configs, compiled_at, zone).windows_for(config, now)
            == EngineModel::with_events(raw, zone).windows_for(config, now),
{
}

/// An event that a worker does not watch makes no difference to it.
pub proof fn law_unwatched_event_makes_no_difference(
    raw: Seq<RawEventModel>,
    event: RawEventModel,
    zone: Option<Seq<char>>,
    config: ConfigModel,
    now: int,
)
    requires
        raw.len() > 0 || config.fail_safe_mode is FailOpen || !config.enabled,
        !config.watches(event.country, event.impact),
    ensures
        EngineModel::with_events(raw.push(event), zone).windows_for(config, now)
            == EngineModel::with_events(raw, zone).windows_for(config, now),
{
    let n = raw.len() as int;
    let more = raw.push(event);
    lemma_filter_map_step(more, n, economic_in(zone));
    assert(more.take(n) =~= raw);
    assert(more.take(n + 1) =~= more);
    let parsed = economic_events(raw, zone);
    let f = candidate_for(config, zone);
    if let Some(e) = event.economic(zone) {
        let longer = parsed.push(e);
        lemma_filter_map_step(longer, parsed.len() as int, f);
        assert(longer.take(parsed.len() as int) =~= parsed);
        assert(longer.take(longer.len() as int) =~= longer);
        assert(economic_events(more, zone) == longer);
        assert(longer.filter_map(f) == parsed.filter_map(f));
    }
}

/// Whether an event's country code is watched does not depend on the case of its letters.
pub proof fn law_country_is_watched_in_any_case(config: ConfigModel, a: Seq<char>, b: Seq<char>)
    requires
        same_ignoring_case(a, b),
    ensures
        config.watches_country(a) == config.watches_country(b),
{
    assert(forall|i: int| 0 <= i < b.len() ==> ascii_lower(a[i]) == ascii_lower(#[trigger] b[i]));
    if config.watches_country(a) {
        lemma_country_in_any_case(config, a, b);
    }
    if config.watches_country(b) {
        lemma_country_in_any_case(config, b, a);
    }
}

proof fn lemma_country_in_any_case(config: ConfigModel, a: Seq<char>, b: Seq<char>)
    requires
        same_ignoring_case(a, b),
        config.watches_country(a),
    ensures
        config.watches_country(b),
{
    assert forall|t: Seq<char>| #[trigger] same_ignoring_case(a, t) implies same_ignoring_case(
        b,
        t,
    ) by {
        assert(forall|i: int| 0 <= i < b.len() ==> ascii_lower(a[i]) == ascii_lower(#[trigger] b[i]));
    }
    assert forall|t: Seq<char>| #[trigger] same_ignoring_case(t, a) implies same_ignoring_case(
        t,
        b,
    ) by {}
    if exists|i: int|
        0 <= i < config.currencies.len() && CurrencyModel::parse(
            (#[trigger] config.currencies[i]).text(),
        ).covers(a) {
        let i = choose|i: int|
            0 <= i < config.currencies.len() && CurrencyModel::parse(
                (#[trigger] config.currencies[i]).text(),
            ).covers(a);
        assert(CurrencyModel::parse(config.currencies[i].text()).covers(b));
    }
}

/// A worker that names standard currencies watches their codes, in any case, and no others but
/// those of every currency.
pub proof fn law_standard_currencies_are_watched(config: ConfigModel, country: Seq<char>)
    requires
        forall|i: int| 0 <= i < config.currencies.len() ==> !((#[trigger] config.currencies[i]) is Custom),
    ensures
        config.watches_country(country) <==> {
            ||| same_ignoring_case(country, "All"@)
            ||| same_ignoring_case(country, "Global"@)
            ||| exists|i: int|
                0 <= i < config.currencies.len() && (#[trigger] config.currencies[i]).covers(country)
        },
{
    assert forall|i: int| 0 <= i < config.currencies.len() implies CurrencyModel::parse(
        (#[trigger] config.currencies[i]).text(),
    ) == config.currencies[i] by {
        law_currency_is_read_in_any_case(config.currencies[i], config.currencies[i].text());
    }
}

/// A worker that names standard impact levels watches the texts that denote one of them, and no
/// others.
pub proof fn law_standard_impacts_are_watched(config: ConfigModel, impact: Seq<char>)
    requires
        forall|i: int| 0 <= i < config.impacts.len() ==> !((#[trigger] config.impacts[i]) is Custom),
    ensures
        config.watches_impact(impact) <==> exists|i: int|
            0 <= i < config.impacts.len() && #[trigger] config.impacts[i] == ImpactModel::parse(impact),
{
    assert forall|i: int| 0 <= i < config.impacts.len() implies ImpactModel::parse(
        (#[trigger] config.impacts[i]).text(),
    ) == config.impacts[i] && (config.impacts[i].named(impact) ==> config.impacts[i]
        == ImpactModel::parse(impact)) by {
        let level = config.impacts[i];
        law_impact_is_read_in_any_case(level, level.text());
        if level.named(impact) {
            law_impact_is_read_in_any_case(level, impact);
        }
    }
}

/// Of given windows, one that blocks a worker exists exactly where a blocking window is found; it
/// keeps its time, and the events found with it are all watched by the worker.
pub proof fn law_blocking_window_is_found(s: Seq<WindowModel>, config: ConfigModel, time: int)
    ensures
        first_blocking(s, config, time) is Some <==> exists|i: int|
            0 <= i < s.len() && blocks(#[trigger] s[i], config, time),
        first_blocking(s, config, time) matches Some(w) ==> {
            &&& w.active_at(time)
            &&& w.events.len() > 0
            &&& forall|k: int|
                0 <= k < w.events.len() ==> config.watches_window_event(#[trigger] w.events[k])
        },
    decreases s.len(),
{
    if s.len() > 0 {
        let rest = s.drop_first();
        law_blocking_window_is_found(rest, config, time);
        if blocks(s.first(), config, time) {
            assert(blocks(s[0], config, time));
            let kept = s.first().events.filter(watched_by(config));
            assert forall|k: int| 0 <= k < kept.len() implies config.watches_window_event(
                #[trigger] kept[k],
            ) by {
                s.first().events.lemma_filter_pred(watched_by(config), k);
            }
        } else {
            if exists|i: int| 0 <= i < s.len() && blocks(#[trigger] s[i], config, time) {
                let i = choose|i: int| 0 <= i < s.len() && blocks(#[trigger] s[i], config, time);
                assert(rest[i - 1] == s[i]);
            }
            if exists|i: int| 0 <= i < rest.len() && blocks(#[trigger] rest[i], config, time) {
                let i = choose|i: int| 0 <= i < rest.len() && blocks(#[trigger] rest[i], config, time);
                assert(s[i + 1] == rest[i]);
            }
        }
    }
}

proof fn lemma_filter_map_from<A, B>(s: Seq<A>, f: spec_fn(A) -> Option<B>, k: int)
    requires
        0 <= k < s.filter_map(f).len(),
    ensures
        exists|i: int| 0 <= i < s.len() && f(#[trigger] s[i]) == Some(s.filter_map(f)[k]),
    decreases s.len(),
{
    let n = s.len() as int;
    if n > 0 {
        lemma_filter_map_step(s, n - 1, f);
        assert(s.take(n) =~= s);
        let front = s.take(n - 1);
        if k < front.filter_map(f).len() {
            lemma_filter_map_from(front, f, k);
            let i = choose|i: int|
                0 <= i < front.len() && f(#[trigger] front[i]) == Some(front.filter_map(f)[k]);
            assert(f(s[i]) == Some(s.filter_map(f)[k]));
        } else {
            assert(f(s[n - 1]) == Some(s.filter_map(f)[k]));
        }
    }
}

/// Every event in a worker's windows is one that the worker watches.
pub proof fn law_own_windows_hold_watched_events_only(
    engine: EngineModel,
    config: ConfigModel,
    now: int,
)
    ensures
        events_all(engine.windows_for(config, now), watched_by(config)),
{
    if config.enabled {
        let p = watched_by(config);
        let given = engine.candidates(config, now);
        let f = candidate_for(config, engine.timezone);
        let news = engine.news(config);
        assert forall|i: int| 0 <= i < given.len() implies (#[trigger] given[i]).events.len() == 1
            && p(given[i].events[0]) by {
            if i < news.len() {
                lemma_filter_map_from(engine.parsed_events, f, i);
                let j = choose|j: int|
                    0 <= j < engine.parsed_events.len() && f(#[trigger] engine.parsed_events[j])
                        == Some(news[i]);
                assert(config.candidate(engine.parsed_events[j], engine.timezone) == Some(
                    given[i],
                ));
            } else {
                assert(given[i] == engine.rules(config, now)[i - news.len()]);
            }
        }
        let s = by_start(given);
        assert(events_all(s, p)) by {
            assert forall|i: int| 0 <= i < s.len() implies (#[trigger] s[i]).events.len() > 0
                && forall|k: int| 0 <= k < s[i].events.len() ==> p(#[trigger] s[i].events[k]) by {
                lemma_by_start_contains(given, s[i]);
                let j = choose|j: int| 0 <= j < given.len() && given[j] == s[i];
                assert(given[j].events.len() == 1);
            }
        }
        lemma_merged_events_all(s, config.merge_threshold_min * MINUTE, p);
        let own = engine.windows_for(config, now);
        assert forall|i: int| 0 <= i < own.len() implies (#[trigger] own[i]).events.len() > 0
            && forall|k: int| 0 <= k < own[i].events.len() ==> p(#[trigger] own[i].events[k]) by {
            let m = lemma_own_window_is_merged(engine, config, now, i);
            assert(engine.merged(config, now)[m].events.len() > 0);
        }
    }
}

/// Asked about a worker's own windows, the test of given windows agrees with the engine.
pub proof fn law_both_blackout_tests_agree(engine: EngineModel, config: ConfigModel, time: int)
    ensures
        engine.blackout_at(config, time) <==> config.enabled && exists|i: int|
            0 <= i < engine.windows_for(config, time).len() && blocks(
                #[trigger] engine.windows_for(config, time)[i],
                config,
                time,
            ),
{
    let s = engine.windows_for(config, time);
    law_own_windows_hold_watched_events_only(engine, config, time);
    assert forall|i: int| 0 <= i < s.len() && (#[trigger] s[i]).active_at(time) implies blocks(
        s[i],
        config,
        time,
    ) by {
        s[i].events.lemma_filter_contains(watched_by(config), 0);
    }
    if engine.blackout_at(config, time) {
        let i = choose|i: int| 0 <= i < s.len() && (#[trigger] s[i]).active_at(time);
        assert(blocks(s[i], config, time));
    }
}

/// A worker watches the country codes `All` and `Global`, and besides those the codes of its
/// currencies, in any case. A currency of a name of its own is watched by that name, white space
/// around it set aside, and where the name is a code in other letters, by that code.
pub proof fn law_watched_countries(config: ConfigModel, country: Seq<char>)
    ensures
        config.watches_country(country) <==> {
            ||| same_ignoring_case(country, "All"@)
            ||| same_ignoring_case(country, "Global"@)
            ||| exists|i: int|
                0 <= i < config.currencies.len() && match #[trigger] config.currencies[i] {
                    CurrencyModel::USD => same_ignoring_case(country, "USD"@),
                    CurrencyModel::EUR => same_ignoring_case(country, "EUR"@),
                    CurrencyModel::GBP => same_ignoring_case(country, "GBP"@),
                    CurrencyModel::JPY => same_ignoring_case(country, "JPY"@),
                    CurrencyModel::AUD => same_ignoring_case(country, "AUD"@),
                    CurrencyModel::CAD => same_ignoring_case(country, "CAD"@),
                    CurrencyModel::CHF => same_ignoring_case(country, "CHF"@),
                    CurrencyModel::NZD => same_ignoring_case(country, "NZD"@),
                    CurrencyModel::CNY => same_ignoring_case(country, "CNY"@),
                    CurrencyModel::All => true,
                    CurrencyModel::Custom(name) => {
                        let code = upper_case(trimmed(name));
                        if code == "ALL"@ || code == "GLOBAL"@ {
                            true
                        } else if code == "USD"@ || code == "EUR"@ || code == "GBP"@ || code == "JPY"@
                            || code == "AUD"@ || code == "CAD"@ || code == "CHF"@ || code == "NZD"@
                            || code == "CNY"@ {
                            same_ignoring_case(country, code)
                        } else {
                            same_ignoring_case(country, trimmed(name))
                        }
                    },
                }
        },
{
    assert(same_ignoring_case(country, "all"@) <==> same_ignoring_case(country, "All"@)) by {
        lemma_names_of_every_currency();
    }
    assert(same_ignoring_case(country, "global"@) <==> same_ignoring_case(country, "Global"@)) by {
        lemma_names_of_every_currency();
    }
    assert forall|i: int| 0 <= i < config.currencies.len() implies (CurrencyModel::parse(
        (#[trigger] config.currencies[i]).text(),
    ).covers(country) <==> (match config.currencies[i] {
        CurrencyModel::USD => same_ignoring_case(country, "USD"@),
        CurrencyModel::EUR => same_ignoring_case(country, "EUR"@),
        CurrencyModel::GBP => same_ignoring_case(country, "GBP"@),
        CurrencyModel::JPY => same_ignoring_case(country, "JPY"@),
        CurrencyModel::AUD => same_ignoring_case(country, "AUD"@),
        CurrencyModel::CAD => same_ignoring_case(country, "CAD"@),
        CurrencyModel::CHF => same_ignoring_case(country, "CHF"@),
        CurrencyModel::NZD => same_ignoring_case(country, "NZD"@),
        CurrencyModel::CNY => same_ignoring_case(country, "CNY"@),
        CurrencyModel::All => true,
        CurrencyModel::Custom(name) => {
            let code = upper_case(trimmed(name));
            if code == "ALL"@ || code == "GLOBAL"@ {
                true
            } else if code == "USD"@ || code == "EUR"@ || code == "GBP"@ || code == "JPY"@ || code
                == "AUD"@ || code == "CAD"@ || code == "CHF"@ || code == "NZD"@ || code == "CNY"@ {
                same_ignoring_case(country, code)
            } else {
                same_ignoring_case(country, trimmed(name))
            }
        },
    }) || same_ignoring_case(country, "all"@) || same_ignoring_case(country, "global"@)) by {
        let c = config.currencies[i];
        match c {
            CurrencyModel::Custom(name) => {
                law_currency_is_read_by_its_code(name);
                law_currency_covers_its_code(trimmed(name), country);
            },
            _ => {
                law_currency_is_read_in_any_case(c, c.text());
                law_currency_covers_its_code(country, country);
            },
        }
    }
}

proof fn lemma_names_of_every_currency()
    ensures
        same_ignoring_case("all"@, "All"@),
        same_ignoring_case("global"@, "Global"@),
        forall|s: Seq<char>| #[trigger]
            same_ignoring_case(s, "all"@) <==> same_ignoring_case(s, "All"@),
        forall|s: Seq<char>| #[trigger]
            same_ignoring_case(s, "global"@) <==> same_ignoring_case(s, "Global"@),
{
    reveal_strlit("all");
    reveal_strlit("All");
    reveal_strlit("global");
    reveal_strlit("Global");
    assert forall|i: int| 0 <= i < 3 implies ascii_lower(#[trigger] "all"@[i]) == ascii_lower(
        "All"@[i],
    ) by {
        assert(i == 0 || i == 1 || i == 2);
    }
    assert forall|i: int| 0 <= i < 6 implies ascii_lower(#[trigger] "global"@[i]) == ascii_lower(
        "Global"@[i],
    ) by {
        assert(i == 0 || i == 1 || i == 2 || i == 3 || i == 4 || i == 5);
    }
    assert forall|s: Seq<char>| #[trigger]
        same_ignoring_case(s, "all"@) <==> same_ignoring_case(s, "All"@) by {
        if s.len() == 3 {
            assert(ascii_lower("all"@[0]) == ascii_lower("All"@[0]));
            assert(ascii_lower("all"@[1]) == ascii_lower("All"@[1]));
            assert(ascii_lower("all"@[2]) == ascii_lower("All"@[2]));
        }
    }
    assert forall|s: Seq<char>| #[trigger]
        same_ignoring_case(s, "global"@) <==> same_ignoring_case(s, "Global"@) by {
        if s.len() == 6 {
            assert forall|i: int| 0 <= i < 6 implies ascii_lower("global"@[i]) == ascii_lower(
                #[trigger] "Global"@[i],
            ) by {
                assert(ascii_lower("global"@[i]) == ascii_lower("Global"@[i]));
            }
        }
    }
}

/// A worker watches the impacts that are named like one of its levels, in whatever case and with
/// whatever white space around the name: `high` and `red`, `medium` and `med`, `low`, and
/// `non-economic`, `none` and `holiday` name one level each. A level of a name of its own is watched
/// by that name.
pub proof fn law_watched_impacts(config: ConfigModel, impact: Seq<char>)
    ensures
        ({
            let name = lower_case(trimmed(impact));
            config.watches_impact(impact) <==> exists|i: int|
                0 <= i < config.impacts.len() && match #[trigger] config.impacts[i] {
                    ImpactModel::High => name == "high"@ || name == "red"@,
                    ImpactModel::Medium => name == "medium"@ || name == "med"@,
                    ImpactModel::Low => name == "low"@,
                    ImpactModel::NonEconomic => name == "non-economic"@ || name == "none"@ || name
                        == "holiday"@,
                    ImpactModel::Custom(own) => {
                        let level = lower_case(trimmed(own));
                        if level == "high"@ || level == "red"@ {
                            name == "high"@ || name == "red"@
                        } else if level == "medium"@ || level == "med"@ {
                            name == "medium"@ || name == "med"@
                        } else if level == "low"@ {
                            name == "low"@
                        } else if level == "non-economic"@ || level == "none"@ || level
                            == "holiday"@ {
                            name == "non-economic"@ || name == "none"@ || name == "holiday"@
                        } else {
                            name == level || same_ignoring_case(impact, level)
                        }
                    },
                }
        }),
{
    law_impact_is_read_by_its_names(impact);
    let found = ImpactModel::parse(impact);
    assert forall|i: int| 0 <= i < config.impacts.len() implies (!(ImpactModel::parse(
        (#[trigger] config.impacts[i]).text(),
    ) is Custom) ==> (ImpactModel::parse(config.impacts[i].text()).named(impact)
        ==> ImpactModel::parse(config.impacts[i].text()) == found)) by {
        let level = ImpactModel::parse(config.impacts[i].text());
        if !(level is Custom) && level.named(impact) {
            law_impact_is_read_in_any_case(level, impact);
        }
    }
    assert forall|i: int| 0 <= i < config.impacts.len() implies (!((
    #[trigger] config.impacts[i]) is Custom) ==> ImpactModel::parse(config.impacts[i].text())
        == config.impacts[i]) by {
        let level = config.impacts[i];
        if !(level is Custom) {
            law_impact_has_its_names(level.text(), level.text());
            lemma_level_names_itself(level);
            law_impact_is_read_in_any_case(level, level.text());
        }
    }
    assert forall|i: int| 0 <= i < config.impacts.len() implies ((
    #[trigger] config.impacts[i]) matches ImpactModel::Custom(own) ==> {
        let level = ImpactModel::parse(own);
        &&& level is High <==> lower_case(trimmed(own)) == "high"@ || lower_case(trimmed(own))
            == "red"@
        &&& level is Medium <==> lower_case(trimmed(own)) == "medium"@ || lower_case(trimmed(own))
            == "med"@
        &&& level is Low <==> lower_case(trimmed(own)) == "low"@
        &&& level is NonEconomic <==> lower_case(trimmed(own)) == "non-economic"@ || lower_case(
            trimmed(own),
        ) == "none"@ || lower_case(trimmed(own)) == "holiday"@
        &&& level matches ImpactModel::Custom(text) ==> text == lower_case(trimmed(own)) && (
        level.named(impact) <==> same_ignoring_case(impact, text))
    }) by {
        if let ImpactModel::Custom(own) = config.impacts[i] {
            law_impact_is_read_by_its_names(own);
            law_impact_has_its_names(impact, lower_case(trimmed(own)));
        }
    }
}

proof fn lemma_level_names_itself(level: ImpactModel)
    ensures
        level.named(level.text()),
{
}

/// A worker watches an event exactly if it watches both its country and its impact. Of the events of
/// windows, it watches those of calendars in the same way, the halt on data outages if it is enabled
/// and fails closed, and the weekend curfew if that is on.
pub proof fn law_watched_events(
    config: ConfigModel,
    country: Seq<char>,
    impact: Seq<char>,
    event: WindowEventModel,
)
    ensures
        config.watches(country, impact) <==> config.watches_country(country)
            && config.watches_impact(impact),
        !event.is_custom ==> (config.watches_window_event(event) <==> config.watches_country(
            event.country,
        ) && config.watches_impact(event.impact)),
        event.is_custom && event.custom_kind == Some(CustomEventKind::FailClosedSafety) ==> (
        config.watches_window_event(event) <==> config.enabled && config.fail_safe_mode is FailClosed),
        event.is_custom && event.custom_kind != Some(CustomEventKind::FailClosedSafety) ==> (
        config.watches_window_event(event) <==> config.weekend_enabled),
{
}

/// An event with a known time blocks a worker that watches it from `before_min` minutes before it
/// until `after_min` minutes after it, and no one else. Its window holds that event alone, with the
/// time, the country, the impact and the title that the calendar gives it.
pub proof fn law_window_of_an_exact_event(
    config: ConfigModel,
    event: EconomicEventModel,
    zone: Option<Seq<char>>,
    at: Moment,
)
    requires
        event.timing == EventTiming::Exact(at),
    ensures
        config.candidate(event, zone) is Some <==> config.watches(event.country, event.impact),
        config.candidate(event, zone) matches Some(w) ==> {
            &&& w.from() == at@.moved(-(config.before_min * 60_000_000_000))
            &&& w.until() == at@.moved(config.after_min * 60_000_000_000)
            &&& at@.lag == 0 ==> {
                &&& w.start == at@.at - config.before_min * 60_000_000_000
                &&& w.end == at@.at + config.after_min * 60_000_000_000
                &&& w.plain()
            }
            &&& w.events.len() == 1
            &&& !w.events[0].is_custom && w.events[0].custom_kind is None
            &&& w.events[0].event_time == at@
            &&& w.events[0].country == event.country
            &&& w.events[0].impact == event.impact
            &&& w.events[0].title == event.title
        },
{
}

/// An event of which only the day is known, or that lasts all day, blocks a worker that watches it and
/// asks for such events, and no one else: from the beginning of that day in the zone until the
/// beginning of the next, or for 24 hours where that has none. Its window holds that event alone, and
/// its title tells which kind of day it is.
pub proof fn law_window_of_a_day(
    config: ConfigModel,
    event: EconomicEventModel,
    zone: Option<Seq<char>>,
    date: CalendarDate,
)
    requires
        event.timing == EventTiming::AllDay(date) || event.timing == EventTiming::TentativeDate(date),
    ensures
        config.candidate(event, zone) is Some <==> {
            &&& config.watches(event.country, event.impact)
            &&& event.timing is AllDay ==> config.include_all_day
            &&& event.timing is TentativeDate ==> config.include_tentative
            &&& day_start(date@, zone) is Some
        },
        config.candidate(event, zone) matches Some(w) ==> {
            &&& day_start(date@, zone) == Some(w.start)
            &&& match day_start(date@ + 1, zone) {
                Some(t) => w.end == t,
                None => w.end == w.start + 86_400_000_000_000,
            }
            &&& w.plain()
            &&& w.events.len() == 1
            &&& !w.events[0].is_custom && w.events[0].custom_kind is None
            &&& w.events[0].event_time == (MomentModel { at: w.start, lag: 0 })
            &&& w.events[0].country == event.country
            &&& w.events[0].impact == event.impact
            &&& event.timing is AllDay ==> w.events[0].title == event.title + " [All Day]"@
            &&& event.timing is TentativeDate ==> w.events[0].title == event.title + " [Tentative]"@
            &&& forall|time: int| #[trigger]
                w.active_at(time) <==> day_start(date@, zone)->Some_0 <= time && time
                    < match day_start(date@ + 1, zone) {
                    Some(next) => next,
                    None => day_start(date@, zone)->Some_0 + 86_400_000_000_000,
                }
        },
{
}

/// A watched event of which only the day is known, or that lasts all day, blocks a worker that asks
/// for such events at every time of that day in the engine's time zone.
pub proof fn law_watched_day_is_blocked(
    engine: EngineModel,
    config: ConfigModel,
    i: int,
    date: CalendarDate,
    time: int,
)
    requires
        config.enabled,
        0 <= i < engine.parsed_events.len(),
        config.watches(engine.parsed_events[i].country, engine.parsed_events[i].impact),
        engine.parsed_events[i].timing == EventTiming::AllDay(date) && config.include_all_day
            || engine.parsed_events[i].timing == EventTiming::TentativeDate(date)
            && config.include_tentative,
        day_start(date@, engine.timezone) matches Some(begin) && begin <= time,
        match day_start(date@ + 1, engine.timezone) {
            Some(next) => time < next,
            None => time < day_start(date@, engine.timezone)->Some_0 + 86_400_000_000_000,
        },
    ensures
        engine.blackout_at(config, time),
{
    let event = engine.parsed_events[i];
    law_window_of_a_day(config, event, engine.timezone, date);
    let w = config.candidate(event, engine.timezone)->Some_0;
    let news = engine.news(config);
    lemma_filter_map_contains(engine.parsed_events, candidate_for(config, engine.timezone), i);
    let k = choose|k: int| 0 <= k < news.len() && news[k] == w;
    assert(engine.candidates(config, time)[k] == w);
    lemma_active_candidate_blocks(engine, config, time, w);
}

/// Where its weekend curfew is on and its times are times, a worker is blocked by the curfew that is
/// current or next, and by no curfew otherwise.
pub proof fn law_window_of_a_curfew(config: ConfigModel, now: int)
    ensures
        ({
            let found = curfew_window(
                now,
                config.weekend_start,
                config.weekend_end,
                config.weekend_mode,
            );
            &&& config.curfew_candidate(now) is Some <==> config.weekend_enabled && found is Ok
            &&& config.curfew_candidate(now) matches Some(w) ==> {
                &&& (w.start, w.end) == found->Ok_0
                &&& w.plain()
                &&& w.events.len() == 1
                &&& w.events[0].is_custom
                &&& w.events[0].custom_kind == Some(CustomEventKind::WeekendCurfew)
                &&& w.events[0].event_time == (MomentModel { at: w.start, lag: 0 })
                &&& w.events[0].country == "Global"@
                &&& w.events[0].impact == "High"@
                &&& w.events[0].title == curfew_title(
                    config.weekend_start,
                    config.weekend_end,
                    config.weekend_mode,
                )
            }
        }),
{
}

/// The curfew of the week before counts only where an event follows it within the merge threshold; it
/// is then the curfew that is current or next, a week earlier.
pub proof fn law_past_curfew_counts_where_news_follow(
    config: ConfigModel,
    news: Seq<WindowModel>,
    now: int,
)
    ensures
        ({
            let week = 604_800_000_000_000int;
            let gap = config.merge_threshold_min * 60_000_000_000;
            &&& config.past_curfew_candidate(news, now) is Some <==> (config.curfew_candidate(
                now,
            ) matches Some(c) && exists|i: int|
                0 <= i < news.len() && c.end - week <= (#[trigger] news[i]).start
                    && news[i].from().since(MomentModel { at: c.end - week, lag: 0 }) <= gap)
            &&& config.past_curfew_candidate(news, now) matches Some(w) ==> {
                let c = config.curfew_candidate(now)->Some_0;
                &&& w.start == c.start - week && w.end == c.end - week && w.plain()
                &&& w.events.len() == 1
                &&& w.events[0] == (WindowEventModel {
                    event_time: MomentModel { at: w.start, lag: 0 },
                    ..c.events[0]
                })
            }
        }),
{
    if let Some(c) = config.curfew_candidate(now) {
        let gap = config.merge_threshold_min * MINUTE;
        if one_follows(news, c.end - WEEK, gap) {
            let i = choose|i: int|
                0 <= i < news.len() && c.end - WEEK <= (#[trigger] news[i]).start
                    && news[i].from().since(MomentModel::plain(c.end - WEEK)) <= gap;
            assert(news[i].from().since(MomentModel::plain(c.end - WEEK)) <= gap);
        }
    }
}

/// A worker that fails closed is blocked, while there is no calendar data or while it is stale, from an
/// hour before until a day after the time in question; no other worker is, and none otherwise.
pub proof fn law_window_of_a_data_outage(config: ConfigModel, no_data: bool, stale: bool, now: int)
    ensures
        config.safety_candidate(no_data, stale, now) is Some <==> config.fail_safe_mode is FailClosed
            && (no_data || stale),
        config.safety_candidate(no_data, stale, now) matches Some(w) ==> {
            &&& w.start == now - 3_600_000_000_000
            &&& w.end == now + 86_400_000_000_000
            &&& w.plain()
            &&& w.events.len() == 1
            &&& w.events[0].is_custom
            &&& w.events[0].custom_kind == Some(CustomEventKind::FailClosedSafety)
            &&& w.events[0].event_time == (MomentModel { at: now, lag: 0 })
            &&& w.events[0].country == "Global"@
            &&& w.events[0].impact == "High"@
            &&& stale ==> w.events[0].title == "Calendar Data Stale (Fail-Closed Safety Blackout)"@
            &&& !stale ==> w.events[0].title
                == "Calendar Data Unavailable (Fail-Closed Safety Blackout)"@
        },
{
}

/// What blocks a worker is the events of the calendar, in its order, then the curfew of the week before
/// where it counts, the curfew that is current or next, and the halt on data outages.
pub proof fn law_what_blocks_a_worker(
    engine: EngineModel,
    config: ConfigModel,
    now: int,
    more: EconomicEventModel,
)
    ensures
        ({
            let news = engine.news(config);
            let all = engine.candidates(config, now);
            let past = config.past_curfew_candidate(news, now);
            let curfew = config.curfew_candidate(now);
            let halt = config.safety_candidate(engine.raw_events.len() == 0, engine.stale, now);
            let count = |o: Option<WindowModel>|
                if o is Some {
                    1int
                } else {
                    0int
                };
            &&& all.len() == news.len() + count(past) + count(curfew) + count(halt)
            &&& forall|i: int| 0 <= i < news.len() ==> #[trigger] all[i] == news[i]
            &&& past matches Some(w) ==> all[news.len() as int] == w
            &&& curfew matches Some(w) ==> all[news.len() + count(past)] == w
            &&& halt matches Some(w) ==> all[all.len() - 1] == w
        }),
        engine.parsed_events.len() == 0 ==> engine.news(config).len() == 0,
        (EngineModel { parsed_events: engine.parsed_events.push(more), ..engine }).news(config)
            == match config.candidate(more, engine.timezone) {
            Some(w) => engine.news(config).push(w),
            None => engine.news(config),
        },
{
    let n = engine.parsed_events.len() as int;
    let longer = engine.parsed_events.push(more);
    lemma_filter_map_step(longer, n, candidate_for(config, engine.timezone));
    assert(longer.take(n) =~= engine.parsed_events);
    assert(longer.take(n + 1) =~= longer);
}

/// An engine holds the events that it was given, with the time of each that has one, event by event;
/// its data is not stale, and it has the zone that it was given.
pub proof fn law_engine_holds_its_events(
    raw: Seq<RawEventModel>,
    zone: Option<Seq<char>>,
    more: RawEventModel,
)
    ensures
        EngineModel::with_events(raw, zone).raw_events == raw,
        EngineModel::with_events(raw, zone).timezone == zone,
        EngineModel::with_events(raw, zone).windows.len() == 0,
        !EngineModel::with_events(raw, zone).stale,
        raw.len() == 0 ==> EngineModel::with_events(raw, zone).parsed_events.len() == 0,
        ({
            let before = EngineModel::with_events(raw, zone).parsed_events;
            let after = EngineModel::with_events(raw.push(more), zone).parsed_events;
            match (more.timing(zone), more.datetime(zone)) {
                (Some(timing), Some(datetime)) => after == before.push(
                    EconomicEventModel {
                        title: more.title,
                        country: more.country,
                        impact: more.impact,
                        datetime,
                        timing,
                    },
                ),
                _ => after == before,
            }
        }),
{
    let n = raw.len() as int;
    lemma_filter_map_step(raw.push(more), n, economic_in(zone));
    assert(raw.push(more).take(n) =~= raw);
    assert(raw.push(more).take(n + 1) =~= raw.push(more));
}

/// The windows compiled for reference are those of the only worker; those of all workers, each on its
/// own, by their starts; or those of the default configuration where there is no worker.
pub proof fn law_windows_for_reference(
    raw: Seq<RawEventModel>,
    configs: Seq<ConfigModel>,
    now: int,
    zone: Option<Seq<char>>,
    w: WindowModel,
)
    ensures
        ({
            let engine = EngineModel::with_events(raw, zone);
            let compiled = EngineModel::compiled(raw, configs, now, zone);
            &&& compiled == (EngineModel { windows: compiled.windows, ..engine })
            &&& configs.len() == 0 ==> compiled.windows == engine.windows_for(
                ConfigModel::standard(),
                now,
            )
            &&& configs.len() == 1 ==> compiled.windows == engine.windows_for(configs[0], now)
            &&& configs.len() > 1 ==> {
                &&& sorted_by_start(compiled.windows)
                &&& compiled.windows.contains(w) <==> exists|i: int|
                    0 <= i < configs.len() && engine.windows_for(
                        #[trigger] configs[i],
                        now,
                    ).contains(w)
            }
        }),
{
    let engine = EngineModel::with_events(raw, zone);
    let pool = pooled_windows(engine, configs, now);
    law_sorting_sorts(pool);
    lemma_by_start_contains(pool, w);
    lemma_pooled_windows(engine, configs, now, w);
}

proof fn lemma_pooled_windows(engine: EngineModel, configs: Seq<ConfigModel>, now: int, w: WindowModel)
    ensures
        pooled_windows(engine, configs, now).contains(w) <==> exists|i: int|
            0 <= i < configs.len() && engine.windows_for(#[trigger] configs[i], now).contains(w),
    decreases configs.len(),
{
    if configs.len() > 0 {
        let front = configs.drop_last();
        let a = pooled_windows(engine, front, now);
        let b = engine.windows_for(configs.last(), now);
        lemma_pooled_windows(engine, front, now, w);
        assert(configs.last() == configs[configs.len() - 1]);
        if a.contains(w) {
            let k = choose|k: int| 0 <= k < a.len() && a[k] == w;
            assert((a + b)[k] == w);
            let i = choose|i: int|
                0 <= i < front.len() && engine.windows_for(#[trigger] front[i], now).contains(w);
            assert(configs[i] == front[i]);
        }
        if b.contains(w) {
            let k = choose|k: int| 0 <= k < b.len() && b[k] == w;
            assert((a + b)[a.len() + k] == w);
        }
        if (a + b).contains(w) && !a.contains(w) {
            let k = choose|k: int| 0 <= k < (a + b).len() && (a + b)[k] == w;
            if k < a.len() {
                assert(a[k] == w);
            } else {
                assert(b[k - a.len()] == w);
            }
        }
        if exists|i: int|
            0 <= i < configs.len() && engine.windows_for(#[trigger] configs[i], now).contains(w) {
            let i = choose|i: int|
                0 <= i < configs.len() && engine.windows_for(#[trigger] configs[i], now).contains(w);
            if i < front.len() {
                assert(front[i] == configs[i]);
            }
        }
    }
}

/// An enabled worker's windows are the merged ones that have not ended before the time in question,
/// and none of the others.
pub proof fn law_own_windows_are_those_not_over(
    engine: EngineModel,
    config: ConfigModel,
    now: int,
    w: WindowModel,
)
    requires
        config.enabled,
    ensures
        engine.windows_for(config, now).contains(w) <==> engine.merged(config, now).contains(w) && (now
            < w.end || now == w.end && w.end_lag <= 0),
        engine.windows_for(config, now) == engine.merged(config, now).filter(
            |x: WindowModel| now < x.end || now == x.end && x.end_lag <= 0,
        ),
        engine.merged(config, now) == merged_windows(
            by_start(engine.candidates(config, now)),
            config.merge_threshold_min * 60_000_000_000,
        ),
{
    let own = engine.windows_for(config, now);
    let merged = engine.merged(config, now);
    assert(not_over(now) =~= (|x: WindowModel| now < x.end || now == x.end && x.end_lag <= 0));
    if own.contains(w) {
        let k = choose|k: int| 0 <= k < own.len() && own[k] == w;
        let m = lemma_own_window_is_merged(engine, config, now, k);
        assert(merged[m] == w);
    }
    if merged.contains(w) && w.lasts_until(now) {
        let m = choose|m: int| 0 <= m < merged.len() && merged[m] == w;
        let k = lemma_merged_is_own_window(engine, config, now, m);
        assert(own[k] == w);
    }
}

/// A worker is blocked exactly while one of its windows has begun and not ended, and the window that
/// blocks it is the first of those.
pub proof fn law_first_active_window_blocks(engine: EngineModel, config: ConfigModel, time: int)
    ensures
        ({
            let own = engine.windows_for(config, time);
            &&& engine.blackout_at(config, time) <==> exists|i: int|
                0 <= i < own.len() && (#[trigger] own[i]).start <= time && time < own[i].end
            &&& engine.window_at(config, time) matches Some(w) ==> exists|i: int|
                0 <= i < own.len() && #[trigger] own[i] == w && w.start <= time && time < w.end
                    && forall|j: int|
                    0 <= j < i ==> !((#[trigger] own[j]).start <= time && time < own[j].end)
            &&& engine.window_at(config, time) is None ==> !engine.blackout_at(config, time)
        }),
{
    let own = engine.windows_for(config, time);
    lemma_first_of_active(own, time);
    if engine.blackout_at(config, time) {
        let i = choose|i: int| 0 <= i < own.len() && (#[trigger] own[i]).active_at(time);
        assert(own[i].start <= time && time < own[i].end);
    }
    if exists|i: int| 0 <= i < own.len() && (#[trigger] own[i]).start <= time && time < own[i].end {
        let i = choose|i: int|
            0 <= i < own.len() && (#[trigger] own[i]).start <= time && time < own[i].end;
        assert(own[i].active_at(time));
    }
}

proof fn lemma_first_of_active(s: Seq<WindowModel>, time: int)
    ensures
        match first_active(s, time) {
            Some(w) => exists|i: int|
                0 <= i < s.len() && #[trigger] s[i] == w && w.start <= time && time < w.end && forall|
                    j: int,
                |
                    0 <= j < i ==> !((#[trigger] s[j]).start <= time && time < s[j].end),
            None => forall|i: int| 0 <= i < s.len() ==> !(#[trigger] s[i]).active_at(time),
        },
    decreases s.len(),
{
    if s.len() > 0 {
        let rest = s.drop_first();
        lemma_first_of_active(rest, time);
        if s.first().active_at(time) {
            assert(s[0] == s.first());
        } else {
            match first_active(s, time) {
                Some(w) => {
                    let i = choose|i: int|
                        0 <= i < rest.len() && #[trigger] rest[i] == w && w.start <= time && time
                            < w.end && forall|j: int|
                            0 <= j < i ==> !((#[trigger] rest[j]).start <= time && time
                                < rest[j].end);
                    assert(s[i + 1] == w);
                    assert forall|j: int| 0 <= j < i + 1 implies !((#[trigger] s[j]).start <= time
                        && time < s[j].end) by {
                        if j > 0 {
                            assert(rest[j - 1] == s[j]);
                        }
                    }
                },
                None => {
                    assert forall|i: int| 0 <= i < s.len() implies !(#[trigger] s[i]).active_at(
                        time,
                    ) by {
                        if i > 0 {
                            assert(rest[i - 1] == s[i]);
                        }
                    }
                },
            }
        }
    }
}

/// The windows that a worker has still to expect are those of its own that start from the time in
/// question on and at most so many hours later, in the order of its own.
pub proof fn law_upcoming_windows_start_in_time(
    engine: EngineModel,
    config: ConfigModel,
    now: int,
    hours: int,
    w: WindowModel,
)
    ensures
        engine.upcoming(config, now, hours).contains(w) <==> {
            &&& engine.windows_for(config, now).contains(w)
            &&& now < w.start || now == w.start && w.start_lag <= 0
            &&& w.start <= now + hours * 3_600_000_000_000
        },
        sorted_by_start(engine.upcoming(config, now, hours)),
{
    let own = engine.windows_for(config, now);
    let f = starting_within(now, hours * HOUR);
    let s = own.filter(f);
    if s.contains(w) {
        let k = choose|k: int| 0 <= k < s.len() && s[k] == w;
        let i = lemma_filter_order(own, f, k, k).0;
        assert(own[i] == w);
    }
    if own.contains(w) && f(w) {
        let i = choose|i: int| 0 <= i < own.len() && own[i] == w;
        own.lemma_filter_contains(f, i);
    }
    assert forall|i: int, j: int| 0 <= i <= j < s.len() implies (
    #[trigger] s[i]).from().not_after((#[trigger] s[j]).from()) by {
        let (a, b) = lemma_filter_order(own, f, i, j);
        if a < b {
            law_windows_are_sorted_and_apart(engine, config, now, a, b);
        }
    }
}

/// Something changes for a worker at a time exactly if one of its windows starts or ends then, or is as
/// many minutes ahead as the worker asks to be warned.
pub proof fn law_changes_of_a_worker(
    engine: EngineModel,
    config: ConfigModel,
    now: int,
    time: int,
)
    ensures
        engine.changes_at(config, now, time) <==> exists|i: int|
            0 <= i < engine.windows_for(config, now).len() && ({
                let w = #[trigger] engine.windows_for(config, now)[i];
                ||| time == w.start
                ||| time == w.end
                ||| config.warning_before_min matches Some(minutes) && time == w.from().moved(
                    -(minutes * 60_000_000_000),
                ).at
            }),
{
    let own = engine.windows_for(config, now);
    if engine.changes_at(config, now, time) {
        let i = choose|i: int| 0 <= i < own.len() && config.turns(#[trigger] own[i], time);
        assert(own[i].start == time || own[i].end == time || config.warning_before_min is Some);
    }
    if exists|i: int|
        0 <= i < own.len() && ({
            let w = #[trigger] own[i];
            ||| time == w.start
            ||| time == w.end
            ||| config.warning_before_min matches Some(minutes) && time == w.from().moved(
                -(minutes * 60_000_000_000),
            ).at
        }) {
        let i = choose|i: int|
            0 <= i < own.len() && ({
                let w = #[trigger] own[i];
                ||| time == w.start
                ||| time == w.end
                ||| config.warning_before_min matches Some(minutes) && time == w.from().moved(
                    -(minutes * 60_000_000_000),
                ).at
            });
        assert(config.turns(own[i], time));
    }
}

/// Of given windows, the one found to block a worker is the first that is active with an event that the
/// worker watches: it keeps its time, and all of its events that the worker watches.
pub proof fn law_first_blocking_window_is_found(
    s: Seq<WindowModel>,
    config: ConfigModel,
    time: int,
    e: WindowEventModel,
)
    ensures
        ({
            let blocks_worker = |w: WindowModel|
                w.start <= time && time < w.end && exists|k: int|
                    0 <= k < w.events.len() && config.watches_window_event(#[trigger] w.events[k]);
            match first_blocking(s, config, time) {
                Some(w) => exists|i: int| #![trigger s[i]]
                    {
                        &&& 0 <= i < s.len()
                        &&& blocks_worker(s[i])
                        &&& forall|j: int| 0 <= j < i ==> !blocks_worker(#[trigger] s[j])
                        &&& w.from() == s[i].from() && w.until() == s[i].until()
                        &&& w.events.contains(e) <==> s[i].events.contains(e)
                            && config.watches_window_event(e)
                        &&& w.events == s[i].events.filter(
                            |x: WindowEventModel| config.watches_window_event(x),
                        )
                    },
                None => forall|i: int| 0 <= i < s.len() ==> !blocks_worker(#[trigger] s[i]),
            }
        }),
    decreases s.len(),
{
    let blocks_worker = |w: WindowModel|
        w.start <= time && time < w.end && exists|k: int|
            0 <= k < w.events.len() && config.watches_window_event(#[trigger] w.events[k]);
    if s.len() > 0 {
        let rest = s.drop_first();
        law_first_blocking_window_is_found(rest, config, time, e);
        lemma_blocks(s.first(), config, time);
        let p = watched_by(config);
        if blocks(s.first(), config, time) {
            assert(s[0] == s.first() && blocks_worker(s[0]));
            let kept = s.first().events.filter(p);
            assert(p =~= (|x: WindowEventModel| config.watches_window_event(x)));
            if kept.contains(e) {
                let k = choose|k: int| 0 <= k < kept.len() && kept[k] == e;
                let i = lemma_filter_order(s.first().events, p, k, k).0;
                assert(s.first().events[i] == e);
            }
            if s.first().events.contains(e) && config.watches_window_event(e) {
                let i = choose|i: int| 0 <= i < s.first().events.len() && s.first().events[i] == e;
                s.first().events.lemma_filter_contains(p, i);
            }
        } else {
            assert(!blocks_worker(s[0]));
            assert(first_blocking(s, config, time) == first_blocking(rest, config, time));
            match first_blocking(rest, config, time) {
                Some(w) => {
                    let i = choose|i: int| #![trigger rest[i]]
                        {
                            &&& 0 <= i < rest.len()
                            &&& blocks_worker(rest[i])
                            &&& forall|j: int| 0 <= j < i ==> !blocks_worker(#[trigger] rest[j])
                            &&& w.from() == rest[i].from() && w.until() == rest[i].until()
                            &&& w.events.contains(e) <==> rest[i].events.contains(e)
                                && config.watches_window_event(e)
                            &&& w.events == rest[i].events.filter(
                                |x: WindowEventModel| config.watches_window_event(x),
                            )
                        };
                    assert(s[i + 1] == rest[i]);
                    assert forall|j: int| 0 <= j < i + 1 implies !blocks_worker(#[trigger] s[j]) by {
                        if j > 0 {
                            assert(rest[j - 1] == s[j]);
                        }
                    }
                },
                None => {
                    assert forall|i: int| 0 <= i < s.len() implies !blocks_worker(#[trigger] s[i]) by {
                        if i > 0 {
                            assert(rest[i - 1] == s[i]);
                        }
                    }
                },
            }
        }
    }
}

proof fn lemma_blocks(w: WindowModel, config: ConfigModel, time: int)
    ensures
        blocks(w, config, time) <==> w.start <= time && time < w.end && exists|k: int|
            0 <= k < w.events.len() && config.watches_window_event(#[trigger] w.events[k]),
{
    let p = watched_by(config);
    let kept = w.events.filter(p);
    if kept.len() > 0 {
        let i = lemma_filter_order(w.events, p, 0, 0).0;
        assert(config.watches_window_event(w.events[i]));
    }
    if exists|k: int| 0 <= k < w.events.len() && config.watches_window_event(#[trigger] w.events[k]) {
        let k = choose|k: int|
            0 <= k < w.events.len() && config.watches_window_event(#[trigger] w.events[k]);
        w.events.lemma_filter_contains(p, k);
    }
}

/// The windows compiled for one worker more hold its windows besides those of the others, each as often
/// as it is a window of a worker; of windows with one start, those of the others come first.
pub proof fn law_windows_of_one_more_worker(
    raw: Seq<RawEventModel>,
    configs: Seq<ConfigModel>,
    more: ConfigModel,
    now: int,
    zone: Option<Seq<char>>,
    start: MomentModel,
)
    requires
        configs.len() > 0,
    ensures
        ({
            let engine = EngineModel::with_events(raw, zone);
            let before = EngineModel::compiled(raw, configs, now, zone).windows;
            let after = EngineModel::compiled(raw, configs.push(more), now, zone).windows;
            &&& after.to_multiset() == before.to_multiset().add(
                engine.windows_for(more, now).to_multiset(),
            )
            &&& after.filter(|w: WindowModel| w.from() == start) == before.filter(
                |w: WindowModel| w.from() == start,
            ) + engine.windows_for(more, now).filter(|w: WindowModel| w.from() == start)
        }),
{
    let engine = EngineModel::with_events(raw, zone);
    let own = engine.windows_for(more, now);
    let pool = pooled_windows(engine, configs, now);
    let longer = configs.push(more);
    let p = starts_at(start);
    assert(p =~= (|w: WindowModel| w.from() == start));
    assert(longer.drop_last() =~= configs);
    law_sorting_keeps_windows(pool + own);
    law_sorting_is_stable(pool + own, start);
    vstd::seq_lib::lemma_multiset_commutative(pool, own);
    Seq::filter_distributes_over_add(pool, own, p);
    if configs.len() == 1 {
        assert(configs.drop_last() =~= Seq::empty());
        assert(pooled_windows(engine, configs.drop_last(), now) =~= Seq::empty());
        assert(pool =~= engine.windows_for(configs[0], now));
    } else {
        law_sorting_keeps_windows(pool);
        law_sorting_is_stable(pool, start);
    }
}

} // verus!
