//! The weekend market close.

use crate::error::{ErrorModel, RedFolderError, Result};
use crate::text::{digits_value, join3, parse_u64, same_ignoring_case, trim_end, trim_start};
use crate::text::{trimmed, u64_value};
use crate::time::{countable, floor_div, in_calendar, utc_now, UtcTime, DAY, HOUR, MINUTE, WEEK};
use vstd::prelude::*;
use vstd::std_specs::cmp::PartialEqSpec;

verus! {

/// How long the weekend curfew lasts.
#[derive(Debug, Clone, Copy, PartialEq, Eq, Structural)]
pub enum WeekendMode {
    /// Until the configured end time on Friday evening.
    Short,
    /// Throughout the weekend, until Monday 00:00 UTC.
    Weekend,
}

impl Default for WeekendMode {
    fn default() -> (r: WeekendMode)
        ensures
            r is Short,
    {
        WeekendMode::Short
    }
}

impl WeekendMode {
    /// The mode's name.
    pub open spec fn text(self) -> Seq<char> {
        match self {
            WeekendMode::Short => "short"@,
            WeekendMode::Weekend => "weekend"@,
        }
    }

    /// The mode that `s` names in any case, or the error that tells what was expected.
    pub open spec fn parsed(s: Seq<char>) -> std::result::Result<WeekendMode, ErrorModel> {
        if same_ignoring_case(s, "weekend"@) {
            Ok(WeekendMode::Weekend)
        } else if same_ignoring_case(s, "short"@) {
            Ok(WeekendMode::Short)
        } else {
            Err(
                ErrorModel::Curfew(
                    "invalid weekend mode '"@ + s + "': expected 'short' or 'weekend'"@,
                ),
            )
        }
    }

    /// The mode's name.
    #[must_use]
    pub fn to_string(&self) -> (r: String)
        ensures
            r@ == self.text(),
    {
        self.as_ref().to_string()
    }
}

/// What parsing a mode came to.
pub open spec fn mode_view(r: Result<WeekendMode>) -> std::result::Result<WeekendMode, ErrorModel> {
    match r {
        Ok(m) => Ok(m),
        Err(e) => Err(e@),
    }
}

impl AsRef<str> for WeekendMode {
    fn as_ref(&self) -> (r: &str)
        ensures
            r@ == self.text(),
    {
        match self {
            WeekendMode::Short => "short",
            WeekendMode::Weekend => "weekend",
        }
    }
}

impl<'a> PartialEq<&'a str> for WeekendMode {
    fn eq(&self, other: &&'a str) -> (r: bool) {
        self.as_ref().eq_ignore_ascii_case(other)
    }
}

impl<'a> vstd::std_specs::cmp::PartialEqSpecImpl<&'a str> for WeekendMode {
    open spec fn obeys_eq_spec() -> bool {
        true
    }

    open spec fn eq_spec(&self, other: &&'a str) -> bool {
        same_ignoring_case(self.text(), other@)
    }
}

impl<'a> PartialEq<WeekendMode> for &'a str {
    fn eq(&self, other: &WeekendMode) -> (r: bool) {
        other.as_ref().eq_ignore_ascii_case(self)
    }
}

impl<'a> vstd::std_specs::cmp::PartialEqSpecImpl<WeekendMode> for &'a str {
    open spec fn obeys_eq_spec() -> bool {
        true
    }

    open spec fn eq_spec(&self, other: &WeekendMode) -> bool {
        same_ignoring_case(other.text(), self@)
    }
}

impl PartialEq<String> for WeekendMode {
    fn eq(&self, other: &String) -> (r: bool) {
        self.as_ref().eq_ignore_ascii_case(other.as_str())
    }
}

impl vstd::std_specs::cmp::PartialEqSpecImpl<String> for WeekendMode {
    open spec fn obeys_eq_spec() -> bool {
        true
    }

    open spec fn eq_spec(&self, other: &String) -> bool {
        same_ignoring_case(self.text(), other@)
    }
}

impl PartialEq<WeekendMode> for String {
    fn eq(&self, other: &WeekendMode) -> (r: bool) {
        other.as_ref().eq_ignore_ascii_case(self.as_str())
    }
}

impl vstd::std_specs::cmp::PartialEqSpecImpl<WeekendMode> for String {
    open spec fn obeys_eq_spec() -> bool {
        true
    }

    open spec fn eq_spec(&self, other: &WeekendMode) -> bool {
        same_ignoring_case(other.text(), self@)
    }
}

/// The mode that `s` names.
pub(crate) fn mode_from_text(s: &str) -> (r: Result<WeekendMode>)
    ensures
        mode_view(r) == WeekendMode::parsed(s@),
{
    if s.eq_ignore_ascii_case("weekend") {
        Ok(WeekendMode::Weekend)
    } else if s.eq_ignore_ascii_case("short") {
        Ok(WeekendMode::Short)
    } else {
        Err(
            RedFolderError::Curfew(
                join3("invalid weekend mode '", s, "': expected 'short' or 'weekend'"),
            ),
        )
    }
}

impl std::str::FromStr for WeekendMode {
    type Err = RedFolderError;

    fn from_str(s: &str) -> (r: Result<Self>)
        ensures
            mode_view(r) == WeekendMode::parsed(s@),
    {
        mode_from_text(s)
    }
}

impl vstd::std_specs::convert::TryFromSpecImpl<&str> for WeekendMode {
    open spec fn obeys_try_from_spec() -> bool {
        false
    }

    open spec fn try_from_spec(s: &str) -> Result<WeekendMode> {
        arbitrary()
    }
}

impl TryFrom<&str> for WeekendMode {
    type Error = RedFolderError;

    fn try_from(s: &str) -> (r: Result<Self>)
        ensures
            mode_view(r) == WeekendMode::parsed(s@),
    {
        mode_from_text(s)
    }
}

impl vstd::std_specs::convert::TryFromSpecImpl<String> for WeekendMode {
    open spec fn obeys_try_from_spec() -> bool {
        false
    }

    open spec fn try_from_spec(s: String) -> Result<WeekendMode> {
        arbitrary()
    }
}

impl TryFrom<String> for WeekendMode {
    type Error = RedFolderError;

    fn try_from(s: String) -> (r: Result<Self>)
        ensures
            mode_view(r) == WeekendMode::parsed(s@),
    {
        mode_from_text(s.as_str())
    }
}

impl vstd::std_specs::convert::FromSpecImpl<WeekendMode> for String {
    open spec fn obeys_from_spec() -> bool {
        false
    }

    open spec fn from_spec(m: WeekendMode) -> String {
        arbitrary()
    }
}

impl From<WeekendMode> for String {
    fn from(m: WeekendMode) -> (r: String)
        ensures
            r@ == m.text(),
    {
        m.to_string()
    }
}

/// Whether `i` is the place of the only colon of `s`.
pub open spec fn only_colon(s: Seq<char>, i: int) -> bool {
    &&& 0 <= i < s.len()
    &&& s[i] == ':'
    &&& forall|j: int| 0 <= j < s.len() && j != i ==> #[trigger] s[j] != ':'
}

/// The hour and the minute that `s` gives: two numbers parted by the only colon, white space
/// around either set aside, the hour below 24 and the minute below 60.
pub open spec fn clock_time(s: Seq<char>) -> Option<(u32, u32)> {
    if exists|i: int| only_colon(s, i) {
        let i = choose|i: int| only_colon(s, i);
        match (u64_value(trimmed(s.take(i))), u64_value(trimmed(s.skip(i + 1)))) {
            (Some(h), Some(m)) => if h < 24 && m < 60 {
                Some((h as u32, m as u32))
            } else {
                None
            },
            _ => None,
        }
    } else {
        None
    }
}

/// Parses a 24-hour time in the form `HH:MM` (such as `20:30`).
pub fn parse_time(s: &str) -> (r: Result<(u32, u32)>)
    ensures
        match r {
            Ok(t) => clock_time(s@) == Some(t),
            Err(e) => clock_time(s@) is None && e@ == ErrorModel::ParseTime(s@),
        },
{
    let len: usize = s.unicode_len();
    let mut colon: usize = len;
    let mut i: usize = 0;
    while i < len
        invariant
            i <= len == s@.len(),
            colon < i || colon == len,
            colon < len ==> s@[colon as int] == ':',
            forall|j: int| 0 <= j < i && j != colon ==> #[trigger] s@[j] != ':',
        decreases len - i,
    {
        if s.get_char(i) == ':' {
            if colon < len {
                proof {
                    if exists|k: int| only_colon(s@, k) {
                        let k = choose|k: int| only_colon(s@, k);
                        assert(s@[colon as int] == ':' && s@[i as int] == ':');
                    }
                }
                return Err(RedFolderError::ParseTime(s.to_string()));
            }
            colon = i;
        }
        i = i + 1;
    }
    if colon == len {
        return Err(RedFolderError::ParseTime(s.to_string()));
    }
    proof {
        assert(only_colon(s@, colon as int));
        let k = choose|k: int| only_colon(s@, k);
        assert(only_colon(s@, k));
        assert(k == colon);
        assert(s@.subrange(0, colon as int) =~= s@.take(colon as int));
        assert(s@.subrange(colon + 1, len as int) =~= s@.skip(colon + 1));
    }
    let hour: Option<u64> = parse_u64(s.substring_char(0, colon).trim());
    let minute: Option<u64> = parse_u64(s.substring_char(colon + 1, len).trim());
    match (hour, minute) {
        (Some(h), Some(m)) => if h < 24 && m < 60 {
            Ok((h as u32, m as u32))
        } else {
            Err(RedFolderError::ParseTime(s.to_string()))
        },
        _ => Err(RedFolderError::ParseTime(s.to_string())),
    }
}

/// The time from midnight to `clock`.
pub open spec fn since_midnight(clock: (u32, u32)) -> int {
    clock.0 * HOUR + clock.1 * MINUTE
}

/// How long after Friday midnight the curfew ends: the day after where a short curfew's end time
/// does not come after its start time, and Monday midnight in weekend mode.
pub open spec fn curfew_end(start: (u32, u32), end: (u32, u32), mode: WeekendMode) -> int {
    match mode {
        WeekendMode::Weekend => 3 * DAY as int,
        WeekendMode::Short => if since_midnight(end) <= since_midnight(start) {
            DAY + since_midnight(end)
        } else {
            since_midnight(end)
        },
    }
}

/// The first of the weekly windows from `from` to `to` after Friday midnight that ends after `at`.
/// 1970-01-02 was a Friday.
pub open spec fn first_window_after(at: int, from: int, to: int) -> (int, int) {
    let week = 7 * DAY as int;
    let friday = DAY + ((at - DAY - to) / week + 1) * week;
    (friday + from, friday + to)
}

/// The curfew window for `at`: the first that ends after it, or the error in a configured time.
/// The end time is not read in weekend mode.
pub open spec fn curfew_window(
    at: int,
    start: Seq<char>,
    end: Seq<char>,
    mode: WeekendMode,
) -> std::result::Result<(int, int), ErrorModel> {
    match (clock_time(start), clock_time(end)) {
        (None, _) => Err(ErrorModel::ParseTime(start)),
        (Some(from), Some(to)) => Ok(
            first_window_after(at, since_midnight(from), curfew_end(from, to, mode)),
        ),
        (Some(from), None) => match mode {
            WeekendMode::Short => Err(ErrorModel::ParseTime(end)),
            WeekendMode::Weekend => Ok(
                first_window_after(at, since_midnight(from), curfew_end(from, (0, 0), mode)),
            ),
        },
    }
}

/// The window in the week numbered `week` is the first to end after `at` if the one before does not.
proof fn lemma_window_of_week(at: int, from: int, to: int, week: int)
    requires
        (7 * week - 6) * DAY + to <= at < (7 * week + 1) * DAY + to,
    ensures
        first_window_after(at, from, to) == (
            (7 * week + 1) * DAY + from,
            (7 * week + 1) * DAY + to,
        ),
{
    let span = 7 * DAY as int;
    assert(week * span == 7 * week * DAY) by (nonlinear_arith)
        requires
            span == 7 * DAY as int,
    ;
    assert((7 * week + 1) * DAY == 7 * week * DAY + DAY) by (nonlinear_arith);
    assert((7 * week - 6) * DAY == 7 * week * DAY - 6 * DAY) by (nonlinear_arith);
    assert((at - DAY - to) / span == week - 1) by (nonlinear_arith)
        requires
            span == 7 * DAY as int,
            week * span - span <= at - DAY - to < week * span,
    ;
}

/// What a window, or the error in its place, is.
pub open spec fn window_result_view(
    r: Result<(UtcTime, UtcTime)>,
) -> std::result::Result<(int, int), ErrorModel> {
    match r {
        Ok((start, end)) => Ok((start@, end@)),
        Err(e) => Err(e@),
    }
}

/// The first of the weekly windows from `from` to `to` after Friday midnight that ends after `at`.
fn window_after(at: UtcTime, from: i128, to: i128) -> (r: (UtcTime, UtcTime))
    requires
        at.in_range(),
        0 <= from < DAY,
        from < to <= 3 * DAY,
    ensures
        (r.0@, r.1@) == first_window_after(at@, from as int, to as int),
        countable(r.0@),
        countable(r.1@),
{
    // Monday = 0 .. Friday = 4 .. Sunday = 6
    let day: i128 = floor_div(at.nanos, DAY);
    let weekday: i128 = day + 3 - floor_div(day + 3, 7) * 7;
    let days_since_friday: i128 = if weekday >= 4 {
        weekday - 4
    } else {
        weekday + 3
    };
    let friday_number: i128 = day - days_since_friday;
    let ghost week = (friday_number - 1) / 7;
    assert(friday_number == 7 * week + 1);
    let friday: i128 = friday_number * DAY;
    assert(friday == (7 * week + 1) * DAY);
    assert(friday <= at.nanos < friday + 7 * DAY) by {
        assert(days_since_friday <= 6);
        assert(day * DAY <= at.nanos < day * DAY + DAY);
        assert(friday == day * DAY - days_since_friday * DAY) by (nonlinear_arith)
            requires
                friday == (day - days_since_friday) * DAY,
        ;
    }
    assert((7 * week - 6) * DAY == friday - 7 * DAY) by (nonlinear_arith)
        requires
            friday == (7 * week + 1) * DAY,
    ;
    assert((7 * (week + 1) + 1) * DAY == friday + 7 * DAY) by (nonlinear_arith)
        requires
            friday == (7 * week + 1) * DAY,
    ;
    if at.nanos < friday + to {
        proof {
            lemma_window_of_week(at@, from as int, to as int, week);
        }
        (UtcTime { nanos: friday + from }, UtcTime { nanos: friday + to })
    } else {
        let next: i128 = friday + 7 * DAY;
        proof {
            lemma_window_of_week(at@, from as int, to as int, week + 1);
        }
        (UtcTime { nanos: next + from }, UtcTime { nanos: next + to })
    }
}

/// The weekend curfew window that holds `at`, or else the next one.
pub fn weekend_window_for_mode(
    at: UtcTime,
    start_str: &str,
    end_str: &str,
    mode: WeekendMode,
) -> (r: Result<(UtcTime, UtcTime)>)
    requires
        at.in_range(),
    ensures
        window_result_view(r) == curfew_window(at@, start_str@, end_str@, mode),
        r matches Ok((start, end)) ==> countable(start@) && countable(end@),
{
    let (sh, sm): (u32, u32) = match parse_time(start_str) {
        Ok(t) => t,
        Err(e) => return Err(e),
    };
    let from: i128 = sh as i128 * HOUR + sm as i128 * MINUTE;
    let to: i128 = match mode {
        WeekendMode::Weekend => 3 * DAY,
        WeekendMode::Short => {
            let (eh, em): (u32, u32) = match parse_time(end_str) {
                Ok(t) => t,
                Err(e) => return Err(e),
            };
            let end: i128 = eh as i128 * HOUR + em as i128 * MINUTE;
            if end <= from {
                DAY + end
            } else {
                end
            }
        },
    };
    Ok(window_after(at, from, to))
}

/// The curfew window for `at` where the mode is given by its name.
pub open spec fn curfew_window_named(
    at: int,
    start: Seq<char>,
    end: Seq<char>,
    mode: Seq<char>,
) -> std::result::Result<(int, int), ErrorModel> {
    match WeekendMode::parsed(mode) {
        Ok(m) => curfew_window(at, start, end, m),
        Err(e) => Err(e),
    }
}

/// The weekend curfew window that holds `at`, or else the next one.
///
/// - `at`: the time in question.
/// - `start_str`: the UTC time at which the curfew begins on Friday, such as `20:30`.
/// - `end_str`: the UTC time at which a `short` curfew ends, on Friday or, past midnight, Saturday.
/// - `mode`: `short`, or `weekend` for a curfew until Monday 00:00 UTC.
pub fn weekend_window_at(
    at: UtcTime,
    start_str: &str,
    end_str: &str,
    mode: &str,
) -> (r: Result<(UtcTime, UtcTime)>)
    requires
        at.in_range(),
    ensures
        window_result_view(r) == curfew_window_named(at@, start_str@, end_str@, mode@),
{
    match mode_from_text(mode) {
        Ok(m) => weekend_window_for_mode(at, start_str, end_str, m),
        Err(e) => Err(e),
    }
}

/// The weekend curfew window that holds the current time, or else the next one.
pub fn next_weekend_window(start_str: &str, end_str: &str, mode: &str) -> (r: Result<
    (UtcTime, UtcTime),
>)
    ensures
        exists|now: int|
            (#[trigger] in_calendar(now)) && window_result_view(r) == curfew_window_named(
                now,
                start_str@,
                end_str@,
                mode@,
            ),
{
    let now: UtcTime = utc_now();
    weekend_window_at(now, start_str, end_str, mode)
}

/// What the weekend curfew is called.
pub open spec fn curfew_title(start: Seq<char>, end: Seq<char>, mode: WeekendMode) -> Seq<char> {
    match mode {
        WeekendMode::Weekend => "Weekend Blackout (Market Close)"@,
        WeekendMode::Short => "Weekend Curfew ("@ + start + "-"@ + end + " UTC)"@,
    }
}

/// What the weekend curfew is called.
#[must_use]
pub fn weekend_window_title_for_mode(start_str: &str, end_str: &str, mode: WeekendMode) -> (r:
    String)
    ensures
        r@ == curfew_title(start_str@, end_str@, mode),
{
    match mode {
        WeekendMode::Weekend => "Weekend Blackout (Market Close)".to_string(),
        WeekendMode::Short => {
            let from: String = join3("Weekend Curfew (", start_str, "-");
            join3(from.as_str(), end_str, " UTC)")
        },
    }
}

/// What the weekend curfew is called, for a mode given by its name; an unknown mode counts as
/// `short`.
#[must_use]
pub fn weekend_window_title(start_str: &str, end_str: &str, mode: &str) -> (r: String)
    ensures
        r@ == curfew_title(
            start_str@,
            end_str@,
            match WeekendMode::parsed(mode@) {
                Ok(m) => m,
                Err(_) => WeekendMode::Short,
            },
        ),
{
    let m: WeekendMode = match mode_from_text(mode) {
        Ok(m) => m,
        Err(_) => WeekendMode::Short,
    };
    weekend_window_title_for_mode(start_str, end_str, m)
}

/// The day of the week of an instant, from Monday, 0, to Sunday, 6.
pub open spec fn weekday(t: int) -> int {
    (t / (DAY as int) + 3) % 7
}

/// The day and the time of day of an instant given by both.
proof fn lemma_day_and_time(day: int, time: int)
    requires
        0 <= time < DAY,
    ensures
        (day * DAY + time) / (DAY as int) == day,
        (day * DAY + time) % (DAY as int) == time,
{
}

/// The curfew window in terms of the number of its Friday.
proof fn lemma_first_window(at: int, from: int, to: int) -> (week: int)
    requires
        0 <= from < DAY,
    ensures
        week == (at - DAY - to) / (7 * DAY as int) + 1,
        first_window_after(at, from, to) == (
            (7 * week + 1) * DAY + from,
            (7 * week + 1) * DAY + to,
        ),
        (7 * week - 6) * DAY + to <= at < (7 * week + 1) * DAY + to,
        weekday((7 * week + 1) * DAY + from) == 4,
{
    let span = 7 * DAY as int;
    let week = (at - DAY - to) / span + 1;
    assert(week * span == 7 * week * DAY) by (nonlinear_arith)
        requires
            span == 7 * DAY as int,
    ;
    assert((7 * week + 1) * DAY == 7 * week * DAY + DAY) by (nonlinear_arith);
    assert((7 * week - 6) * DAY == 7 * week * DAY - 6 * DAY) by (nonlinear_arith);
    assert((week - 1) * span <= at - DAY - to < week * span) by (nonlinear_arith)
        requires
            span == 7 * DAY as int,
            week == (at - DAY - to) / span + 1,
    ;
    assert((week - 1) * span == week * span - span) by (nonlinear_arith);
    lemma_day_and_time(7 * week + 1, from);
    week
}

/// The offsets of a curfew lie within the weekend.
proof fn lemma_curfew_offsets(start: Seq<char>, end: Seq<char>, mode: WeekendMode)
    requires
        clock_time(start) is Some,
    ensures
        0 <= since_midnight(clock_time(start)->Some_0) < DAY,
        clock_time(end) matches Some(to) ==> since_midnight(clock_time(start)->Some_0) < curfew_end(
            clock_time(start)->Some_0,
            to,
            mode,
        ) <= 3 * DAY,
{
}

/// The curfew begins on a Friday, ends after it begins, and is the first one to end after the time
/// in question: that time lies before its end, and not before the end of the curfew of the week
/// before.
pub proof fn law_curfew_is_current_or_next(
    at: int,
    start: Seq<char>,
    end: Seq<char>,
    mode: WeekendMode,
)
    requires
        curfew_window(at, start, end, mode) is Ok,
    ensures
        ({
            let window = curfew_window(at, start, end, mode)->Ok_0;
            &&& weekday(window.0) == 4
            &&& window.0 < window.1
            &&& window.1 - 7 * DAY <= at < window.1
        }),
{
    let from = clock_time(start)->Some_0;
    let to = match clock_time(end) {
        Some(to) => to,
        None => (0, 0),
    };
    lemma_curfew_offsets(start, end, mode);
    let week = lemma_first_window(at, since_midnight(from), curfew_end(from, to, mode));
}

/// Until it ends, every time asked for gives the same curfew.
pub proof fn law_curfew_stays_until_it_ends(
    at: int,
    later: int,
    start: Seq<char>,
    end: Seq<char>,
    mode: WeekendMode,
)
    requires
        curfew_window(at, start, end, mode) is Ok,
        at <= later < curfew_window(at, start, end, mode)->Ok_0.1,
    ensures
        curfew_window(later, start, end, mode) == curfew_window(at, start, end, mode),
{
}

/// Asked for at its end, a curfew gives way to the one a week later.
pub proof fn law_next_curfew_is_a_week_later(
    at: int,
    start: Seq<char>,
    end: Seq<char>,
    mode: WeekendMode,
)
    requires
        curfew_window(at, start, end, mode) is Ok,
    ensures
        ({
            let window = curfew_window(at, start, end, mode)->Ok_0;
            curfew_window(window.1, start, end, mode) == Ok::<(int, int), ErrorModel>(
                (window.0 + 7 * DAY, window.1 + 7 * DAY),
            )
        }),
{
    let from = clock_time(start)->Some_0;
    let to = match clock_time(end) {
        Some(to) => to,
        None => (0, 0),
    };
    let length = curfew_end(from, to, mode);
    lemma_curfew_offsets(start, end, mode);
    let week = lemma_first_window(at, since_midnight(from), length);
    let window = curfew_window(at, start, end, mode)->Ok_0;
    let later = lemma_first_window(window.1, since_midnight(from), length);
    assert(later == week + 1);
}

/// Once a curfew has ended, the one that is current or next ends at least a week after it.
pub proof fn law_ended_curfew_is_a_week_behind(
    at: int,
    later: int,
    start: Seq<char>,
    end: Seq<char>,
    mode: WeekendMode,
)
    requires
        curfew_window(at, start, end, mode) is Ok,
        curfew_window(at, start, end, mode)->Ok_0.1 <= later,
    ensures
        curfew_window(later, start, end, mode) is Ok,
        curfew_window(later, start, end, mode)->Ok_0.1 >= curfew_window(at, start, end, mode)->Ok_0.1
            + WEEK,
{
    let from = clock_time(start)->Some_0;
    let to = match clock_time(end) {
        Some(to) => to,
        None => (0, 0),
    };
    let length = curfew_end(from, to, mode);
    lemma_curfew_offsets(start, end, mode);
    let week = lemma_first_window(at, since_midnight(from), length);
    let next = lemma_first_window(later, since_midnight(from), length);
    assert(week < next) by {
        assert((7 * week + 1) * DAY < (7 * next + 1) * DAY);
        if next <= week {
            assert((7 * next + 1) * DAY <= (7 * week + 1) * DAY) by (nonlinear_arith)
                requires
                    next <= week,
            ;
        }
    }
    assert((7 * next + 1) * DAY >= (7 * week + 1) * DAY + WEEK) by (nonlinear_arith)
        requires
            week + 1 <= next,
            WEEK == 7 * DAY,
    ;
}

/// In weekend mode the curfew lasts from its start time on Friday until Monday 00:00 UTC, whatever
/// end time is configured.
pub proof fn law_weekend_mode_ends_on_monday(at: int, start: Seq<char>, end: Seq<char>)
    requires
        clock_time(start) is Some,
    ensures
        curfew_window(at, start, end, WeekendMode::Weekend) is Ok,
        ({
            let window = curfew_window(at, start, end, WeekendMode::Weekend)->Ok_0;
            &&& weekday(window.1) == 0
            &&& window.1 % (DAY as int) == 0
            &&& window.1 - window.0 == 3 * DAY - since_midnight(clock_time(start)->Some_0)
        }),
{
    let from = clock_time(start)->Some_0;
    lemma_curfew_offsets(start, end, WeekendMode::Weekend);
    let week = lemma_first_window(at, since_midnight(from), 3 * DAY as int);
    assert((7 * week + 4) * DAY == (7 * week + 1) * DAY + 3 * DAY) by (nonlinear_arith);
    lemma_day_and_time(7 * week + 4, 0);
}

/// A short curfew whose end time does not come after its start time ends on Saturday; any other
/// ends on the Friday on which it begins.
pub proof fn law_short_curfew_rolls_over_midnight(at: int, start: Seq<char>, end: Seq<char>)
    requires
        clock_time(start) is Some,
        clock_time(end) is Some,
    ensures
        curfew_window(at, start, end, WeekendMode::Short) is Ok,
        ({
            let window = curfew_window(at, start, end, WeekendMode::Short)->Ok_0;
            let from = since_midnight(clock_time(start)->Some_0);
            let to = since_midnight(clock_time(end)->Some_0);
            &&& to <= from ==> weekday(window.1) == 5
            &&& from < to ==> weekday(window.1) == 4
            &&& window.1 % (DAY as int) == to
        }),
{
    let from = clock_time(start)->Some_0;
    let to = clock_time(end)->Some_0;
    lemma_curfew_offsets(start, end, WeekendMode::Short);
    let week = lemma_first_window(
        at,
        since_midnight(from),
        curfew_end(from, to, WeekendMode::Short),
    );
    assert((7 * week + 2) * DAY == (7 * week + 1) * DAY + DAY) by (nonlinear_arith);
    lemma_day_and_time(7 * week + 1, since_midnight(to));
    lemma_day_and_time(7 * week + 2, since_midnight(to));
}

/// The number that a decimal digit denotes.
pub open spec fn digit(c: char) -> int {
    c as u32 - '0' as u32
}

/// Two digits denote the number they spell.
proof fn lemma_two_digits(s: Seq<char>)
    requires
        s.len() == 2,
        '0' <= s[0] <= '9',
        '0' <= s[1] <= '9',
    ensures
        u64_value(trimmed(s)) == Some((10 * digit(s[0]) + digit(s[1])) as u64),
{
    assert(trim_start(s) == s);
    assert(trim_end(s) == s);
    assert(s.drop_last() =~= seq![s[0]]);
    assert(seq![s[0]].drop_last() =~= Seq::empty());
    reveal_with_fuel(digits_value, 3);
    assert(digits_value(s) == 10 * digit(s[0]) + digit(s[1]));
}

/// A time is written as two digits, a colon and two digits: the hour below 24, and the minute
/// below 60.
pub proof fn law_clock_time_of_digits(s: Seq<char>)
    requires
        s.len() == 5,
        s[2] == ':',
        forall|i: int| 0 <= i < 5 && i != 2 ==> '0' <= #[trigger] s[i] <= '9',
    ensures
        ({
            let h = 10 * digit(s[0]) + digit(s[1]);
            let m = 10 * digit(s[3]) + digit(s[4]);
            clock_time(s) == if h < 24 && m < 60 {
                Some((h as u32, m as u32))
            } else {
                None
            }
        }),
{
    assert(only_colon(s, 2));
    let i = choose|i: int| only_colon(s, i);
    assert(only_colon(s, i));
    assert(i == 2);
    lemma_two_digits(s.take(2));
    lemma_two_digits(s.skip(3));
}

/// In both modes the curfew begins on a Friday at the configured start time. In weekend mode it ends
/// three midnights later; in short mode it ends when the configured end time next comes, after more
/// than no time and at most a day. It is the first such curfew to end after the time in question.
pub proof fn law_curfew_keeps_its_times(
    at: int,
    start: Seq<char>,
    end: Seq<char>,
    mode: WeekendMode,
)
    requires
        curfew_window(at, start, end, mode) is Ok,
    ensures
        ({
            let (from, until) = curfew_window(at, start, end, mode)->Ok_0;
            let day = 86_400_000_000_000int;
            &&& clock_time(start) matches Some((h, m)) && from % day == h * 3_600_000_000_000 + m
                * 60_000_000_000
            &&& (from / day + 3) % 7 == 4
            &&& until - 7 * day <= at < until
            &&& mode is Weekend ==> until == (from / day + 3) * day
            &&& mode is Short ==> {
                &&& from < until <= from + day
                &&& clock_time(end) matches Some((h, m)) && until % day == h * 3_600_000_000_000 + m
                    * 60_000_000_000
            }
        }),
{
    let from = clock_time(start)->Some_0;
    let to = match clock_time(end) {
        Some(to) => to,
        None => (0, 0),
    };
    lemma_curfew_offsets(start, end, mode);
    let length = curfew_end(from, to, mode);
    let week = lemma_first_window(at, since_midnight(from), length);
    lemma_day_and_time(7 * week + 1, since_midnight(from));
    assert((7 * week + 4) * DAY == (7 * week + 1) * DAY + 3 * DAY) by (nonlinear_arith);
    if mode is Short {
        assert((7 * week + 2) * DAY == (7 * week + 1) * DAY + DAY) by (nonlinear_arith);
        lemma_day_and_time(7 * week + 1, since_midnight(to));
        lemma_day_and_time(7 * week + 2, since_midnight(to));
    }
}

/// There is a curfew for every time, unless the start time is no time, or a short curfew's end time is
/// none: the error then names the text. The end time does not matter in weekend mode.
pub proof fn law_curfew_fails_on_times_only(
    at: int,
    start: Seq<char>,
    end: Seq<char>,
    other_end: Seq<char>,
    mode: WeekendMode,
)
    ensures
        clock_time(start) is None ==> curfew_window(at, start, end, mode) == Err::<
            (int, int),
            ErrorModel,
        >(ErrorModel::ParseTime(start)),
        clock_time(start) is Some && clock_time(end) is None && mode is Short ==> curfew_window(
            at,
            start,
            end,
            mode,
        ) == Err::<(int, int), ErrorModel>(ErrorModel::ParseTime(end)),
        clock_time(start) is Some && (clock_time(end) is Some || mode is Weekend) ==> curfew_window(
            at,
            start,
            end,
            mode,
        ) is Ok,
        mode is Weekend ==> curfew_window(at, start, end, mode) == curfew_window(
            at,
            start,
            other_end,
            mode,
        ),
{
}

/// The modes are named `short` and `weekend`, in any case; another name is an error that quotes it.
pub proof fn law_mode_is_read_by_its_name(
    at: int,
    start: Seq<char>,
    end: Seq<char>,
    mode: Seq<char>,
)
    ensures
        WeekendMode::Short.text() == "short"@,
        WeekendMode::Weekend.text() == "weekend"@,
        same_ignoring_case(mode, "short"@) ==> WeekendMode::parsed(mode) == Ok::<
            WeekendMode,
            ErrorModel,
        >(WeekendMode::Short) && curfew_window_named(at, start, end, mode) == curfew_window(
            at,
            start,
            end,
            WeekendMode::Short,
        ),
        same_ignoring_case(mode, "weekend"@) ==> WeekendMode::parsed(mode) == Ok::<
            WeekendMode,
            ErrorModel,
        >(WeekendMode::Weekend) && curfew_window_named(at, start, end, mode) == curfew_window(
            at,
            start,
            end,
            WeekendMode::Weekend,
        ),
        !same_ignoring_case(mode, "short"@) && !same_ignoring_case(mode, "weekend"@) ==> {
            let fault = ErrorModel::Curfew(
                "invalid weekend mode '"@ + mode + "': expected 'short' or 'weekend'"@,
            );
            &&& WeekendMode::parsed(mode) == Err::<WeekendMode, ErrorModel>(fault)
            &&& curfew_window_named(at, start, end, mode) == Err::<(int, int), ErrorModel>(fault)
        },
{
    reveal_strlit("short");
    reveal_strlit("weekend");
}

/// A time is an hour below 24 and a minute below 60, with a colon between them and white space around
/// either set aside.
pub proof fn law_clock_time_of_parts(hour: Seq<char>, minute: Seq<char>)
    requires
        !hour.contains(':'),
        !minute.contains(':'),
    ensures
        clock_time(hour + seq![':'] + minute) == match (
            u64_value(trimmed(hour)),
            u64_value(trimmed(minute)),
        ) {
            (Some(h), Some(m)) => if h < 24 && m < 60 {
                Some((h as u32, m as u32))
            } else {
                None
            },
            _ => None,
        },
{
    let s = hour + seq![':'] + minute;
    let n = hour.len() as int;
    assert(s[n] == ':');
    assert forall|j: int| 0 <= j < s.len() && j != n implies #[trigger] s[j] != ':' by {
        if j < n {
            assert(hour[j] == s[j]);
        } else {
            assert(minute[j - n - 1] == s[j]);
        }
    }
    assert(only_colon(s, n));
    let i = choose|i: int| only_colon(s, i);
    assert(only_colon(s, i));
    assert(i == n);
    assert(s.take(n) =~= hour);
    assert(s.skip(n + 1) =~= minute);
}

/// A text without a colon, or with more than one, is no time.
pub proof fn law_clock_time_has_one_colon(s: Seq<char>)
    requires
        !s.contains(':') || exists|i: int, j: int|
            0 <= i < j < s.len() && #[trigger] s[i] == ':' && #[trigger] s[j] == ':',
    ensures
        clock_time(s) is None,
{
    if exists|k: int| only_colon(s, k) {
        let k = choose|k: int| only_colon(s, k);
        assert(s[k] == ':');
        assert(s.contains(':'));
    }
}

/// A whole-weekend curfew has a title of its own, and a short one names its times.
pub proof fn law_curfew_title(start: Seq<char>, end: Seq<char>)
    ensures
        curfew_title(start, end, WeekendMode::Weekend) == "Weekend Blackout (Market Close)"@,
        curfew_title(start, end, WeekendMode::Short) == "Weekend Curfew ("@ + start + "-"@ + end
            + " UTC)"@,
{
}

/// A curfew mode equals the texts that name it in any case, whichever stands first, and no others.
pub proof fn law_mode_equals_its_name(mode: WeekendMode, text: &str, owned: String)
    ensures
        <WeekendMode as PartialEqSpec<&str>>::obeys_eq_spec(),
        <&str as PartialEqSpec<WeekendMode>>::obeys_eq_spec(),
        <WeekendMode as PartialEqSpec<String>>::obeys_eq_spec(),
        <String as PartialEqSpec<WeekendMode>>::obeys_eq_spec(),
        PartialEqSpec::eq_spec(&mode, &text) <==> same_ignoring_case(mode.text(), text@),
        PartialEqSpec::eq_spec(&text, &mode) <==> same_ignoring_case(mode.text(), text@),
        PartialEqSpec::eq_spec(&mode, &owned) <==> same_ignoring_case(mode.text(), owned@),
        PartialEqSpec::eq_spec(&owned, &mode) <==> same_ignoring_case(mode.text(), owned@),
        WeekendMode::Short.text() == "short"@,
        WeekendMode::Weekend.text() == "weekend"@,
{
}

/// A mode, or a window, that was worked out shows itself, and its error otherwise.
pub proof fn law_outcomes_are_shown(
    mode: WeekendMode,
    start: UtcTime,
    end: UtcTime,
    e: RedFolderError,
)
    ensures
        mode_view(Ok(mode)) == Ok::<WeekendMode, ErrorModel>(mode),
        mode_view(Err(e)) == Err::<WeekendMode, ErrorModel>(e@),
        window_result_view(Ok((start, end))) == Ok::<(int, int), ErrorModel>((start@, end@)),
        window_result_view(Err(e)) == Err::<(int, int), ErrorModel>(e@),
{
}

} // verus!
