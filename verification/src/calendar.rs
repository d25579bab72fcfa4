//! Calendar events as the feed delivers them, and when they take place.

use crate::text::{begins_with, blank, contains, first_word, holds_text, join3, leading_word};
use crate::text::{lower_case, same_ignoring_case, starts_with, trimmed};
use crate::time::{moment_of, CalendarDate, Moment, MomentModel, UtcTime, CALENDAR_SECS};
use crate::types::EventTiming;
use crate::views::option_view;
use crate::zone::{day_start, law_reading_means_when_it_is_shown, meant, readings_in_order};
use crate::zone::{law_skipped_reading_means_an_hour_later, resolve_reading, zone_readings};
use crate::zone::{zone_view, SourceZone};
use vstd::prelude::*;

pub use crate::cache::{CacheMetadata, CachedCalendarData};
pub use crate::client::{CalendarClient, CALENDAR_URL, DEFAULT_CACHE_FILENAME};
pub use crate::client::{DEFAULT_MAX_EVENT_COUNT, DEFAULT_MAX_RESPONSE_BYTES, DEFAULT_USER_AGENT};
pub use crate::zone::date_to_utc_start;

verus! {

/// A calendar event as the feed delivers it.
#[derive(Debug, PartialEq, Eq)]
pub struct RawCalendarEvent {
    pub title: String,
    pub country: String,
    pub date: String,
    pub time: String,
    pub impact: String,
}

/// What a [`RawCalendarEvent`] is.
pub ghost struct RawEventModel {
    pub title: Seq<char>,
    pub country: Seq<char>,
    pub date: Seq<char>,
    pub time: Seq<char>,
    pub impact: Seq<char>,
}

impl View for RawCalendarEvent {
    type V = RawEventModel;

    open spec fn view(&self) -> RawEventModel {
        RawEventModel {
            title: self.title@,
            country: self.country@,
            date: self.date@,
            time: self.time@,
            impact: self.impact@,
        }
    }
}

impl Clone for RawCalendarEvent {
    fn clone(&self) -> (r: Self)
        ensures
            r@ == self@,
    {
        RawCalendarEvent {
            title: self.title.clone(),
            country: self.country.clone(),
            date: self.date.clone(),
            time: self.time.clone(),
            impact: self.impact.clone(),
        }
    }
}

impl RawEventModel {
    /// Whether the event lasts all day or is a day of a longer meeting.
    pub open spec fn all_day(self) -> bool {
        ||| same_ignoring_case(trimmed(self.time), "all day"@)
        ||| begins_with(lower_case(trimmed(self.time)), "day "@)
        ||| holds_text(lower_case(self.date), "all day"@)
    }

    /// Whether the event's time is marked as not known yet.
    pub open spec fn tentative(self) -> bool {
        same_ignoring_case(trimmed(self.time), "tentative"@)
    }
}

impl RawCalendarEvent {
    /// Whether the event lasts all day or is a day of a longer meeting.
    #[must_use]
    pub fn is_all_day(&self) -> (r: bool)
        ensures
            r == self@.all_day(),
    {
        let t: &str = self.time.as_str().trim();
        t.eq_ignore_ascii_case("all day") || starts_with(t.to_lowercase().as_str(), "day ")
            || contains(self.date.as_str().to_lowercase().as_str(), "all day")
    }

    /// Whether the event's time is marked as not known yet.
    #[must_use]
    pub fn is_tentative(&self) -> (r: bool)
        ensures
            r == self@.tentative(),
    {
        self.time.as_str().trim().eq_ignore_ascii_case("tentative")
    }
}

/// The number of the date that `text` denotes in `format`, where 0001-01-01 is day 1: what
/// [`chrono::NaiveDate::parse_from_str`] returns.
pub uninterp spec fn parsed_date(text: Seq<char>, format: Seq<char>) -> Option<int>;

/// The instant that `text` denotes by RFC 3339, in whole seconds since the epoch and nanoseconds:
/// what [`chrono::DateTime::parse_from_rfc3339`] returns.
pub uninterp spec fn parsed_rfc3339(text: Seq<char>) -> Option<(int, int)>;

/// The instant that `text` denotes in `format`, in whole seconds since the epoch and nanoseconds:
/// what [`chrono::DateTime::parse_from_str`] returns.
pub uninterp spec fn parsed_instant(text: Seq<char>, format: Seq<char>) -> Option<(int, int)>;

/// The wall-clock reading that `text` denotes in `format`, as the instant at which a UTC clock
/// shows it, in whole seconds since the epoch and nanoseconds: what
/// [`chrono::NaiveDateTime::parse_from_str`] returns.
pub uninterp spec fn parsed_reading(text: Seq<char>, format: Seq<char>) -> Option<(int, int)>;

/// A point in time given by its parts, as integers.
pub open spec fn parts_view(parts: Option<(i64, u32)>) -> Option<(int, int)> {
    match parts {
        Some((secs, nanos)) => Some((secs as int, nanos as int)),
        None => None,
    }
}

/// Whether a point in time given by its parts is one of the calendar.
pub open spec fn parts_in_calendar(parts: Option<(i64, u32)>) -> bool {
    match parts {
        Some((secs, nanos)) => -CALENDAR_SECS <= secs <= CALENDAR_SECS && nanos < 2_000_000_000,
        None => true,
    }
}

/// [`chrono::NaiveDate::parse_from_str`]: the date that `text` denotes in `format`, a function of
/// both texts, here by its number of days from 0001-01-01.
#[verifier::external_body]
fn parse_date(text: &str, format: &str) -> (r: Option<i32>)
    ensures
        parsed_date(text@, format@) == match r {
            Some(d) => Some(d as int),
            None => None,
        },
{
    let date = chrono::NaiveDate::parse_from_str(text, format).ok()?;
    Some(chrono::Datelike::num_days_from_ce(&date))
}

/// [`chrono::DateTime::parse_from_rfc3339`]: the instant that `text` denotes, a function of the
/// text. Dates of that crate lie within 263,000 years of the epoch, and the nanoseconds of a leap
/// second count beyond a thousand million.
#[verifier::external_body]
fn parse_rfc3339(text: &str) -> (r: Option<(i64, u32)>)
    ensures
        parsed_rfc3339(text@) == parts_view(r),
        parts_in_calendar(r),
{
    let t = chrono::DateTime::parse_from_rfc3339(text).ok()?;
    Some((t.timestamp(), t.timestamp_subsec_nanos()))
}

/// [`chrono::DateTime::parse_from_str`]: the instant that `text` denotes in `format`, a function of
/// both texts, within the range of that crate's dates.
#[verifier::external_body]
fn parse_instant(text: &str, format: &str) -> (r: Option<(i64, u32)>)
    ensures
        parsed_instant(text@, format@) == parts_view(r),
        parts_in_calendar(r),
{
    let t = chrono::DateTime::parse_from_str(text, format).ok()?;
    Some((t.timestamp(), t.timestamp_subsec_nanos()))
}

/// [`chrono::NaiveDateTime::parse_from_str`]: the reading that `text` denotes in `format`, a
/// function of both texts, within the range of that crate's dates.
#[verifier::external_body]
fn parse_reading(text: &str, format: &str) -> (r: Option<(i64, u32)>)
    ensures
        parsed_reading(text@, format@) == parts_view(r),
        parts_in_calendar(r),
{
    let t = chrono::NaiveDateTime::parse_from_str(text, format).ok()?.and_utc();
    Some((t.timestamp(), t.timestamp_subsec_nanos()))
}

/// The first of two that is there.
pub open spec fn first_of<T>(a: Option<T>, b: Option<T>) -> Option<T> {
    match a {
        Some(x) => Some(x),
        None => b,
    }
}

/// The date that `text` denotes in the first of the known formats that fits.
pub open spec fn date_in_text(text: Seq<char>) -> Option<int> {
    first_of(
        parsed_date(text, "%Y-%m-%d"@),
        first_of(
            parsed_date(text, "%m-%d-%Y"@),
            first_of(parsed_date(text, "%m/%d/%Y"@), parsed_date(text, "%Y/%m/%d"@)),
        ),
    )
}

/// The reading that `text` denotes in the first of the known formats that fits.
pub open spec fn reading_in_text(text: Seq<char>) -> Option<(int, int)> {
    first_of(
        parsed_reading(text, "%m-%d-%Y %I:%M%p"@),
        first_of(
            parsed_reading(text, "%Y-%m-%d %I:%M%p"@),
            first_of(
                parsed_reading(text, "%m/%d/%Y %I:%M%p"@),
                first_of(
                    parsed_reading(text, "%Y/%m/%d %I:%M%p"@),
                    first_of(
                        parsed_reading(text, "%m-%d-%Y %H:%M"@),
                        first_of(
                            parsed_reading(text, "%Y-%m-%d %H:%M"@),
                            first_of(
                                parsed_reading(text, "%Y-%m-%dT%H:%M:%S"@),
                                parsed_reading(text, "%Y-%m-%d %H:%M:%S"@),
                            ),
                        ),
                    ),
                ),
            ),
        ),
    )
}

/// The instant that `text` denotes with its offset from UTC: by RFC 3339, or else in ISO 8601.
pub open spec fn stamp_in_text(text: Seq<char>) -> Option<(int, int)> {
    first_of(parsed_rfc3339(text), parsed_instant(text, "%+"@))
}

fn find_date(text: &str) -> (r: Option<i32>)
    ensures
        date_in_text(text@) == match r {
            Some(d) => Some(d as int),
            None => None,
        },
{
    if let Some(d) = parse_date(text, "%Y-%m-%d") {
        return Some(d);
    }
    if let Some(d) = parse_date(text, "%m-%d-%Y") {
        return Some(d);
    }
    if let Some(d) = parse_date(text, "%m/%d/%Y") {
        return Some(d);
    }
    parse_date(text, "%Y/%m/%d")
}

fn find_reading(text: &str) -> (r: Option<(i64, u32)>)
    ensures
        reading_in_text(text@) == parts_view(r),
        parts_in_calendar(r),
{
    if let Some(t) = parse_reading(text, "%m-%d-%Y %I:%M%p") {
        return Some(t);
    }
    if let Some(t) = parse_reading(text, "%Y-%m-%d %I:%M%p") {
        return Some(t);
    }
    if let Some(t) = parse_reading(text, "%m/%d/%Y %I:%M%p") {
        return Some(t);
    }
    if let Some(t) = parse_reading(text, "%Y/%m/%d %I:%M%p") {
        return Some(t);
    }
    if let Some(t) = parse_reading(text, "%m-%d-%Y %H:%M") {
        return Some(t);
    }
    if let Some(t) = parse_reading(text, "%Y-%m-%d %H:%M") {
        return Some(t);
    }
    if let Some(t) = parse_reading(text, "%Y-%m-%dT%H:%M:%S") {
        return Some(t);
    }
    parse_reading(text, "%Y-%m-%d %H:%M:%S")
}

fn find_stamp(text: &str) -> (r: Option<(i64, u32)>)
    ensures
        stamp_in_text(text@) == parts_view(r),
        parts_in_calendar(r),
{
    if let Some(t) = parse_rfc3339(text) {
        return Some(t);
    }
    parse_instant(text, "%+")
}

/// What was read off the texts of an event.
#[derive(Debug, Clone, Copy, PartialEq, Eq, Structural)]
pub struct TimingReadings {
    /// Whether the date text holds anything.
    pub has_date: bool,
    /// Whether the time text holds anything.
    pub has_time: bool,
    /// Whether the event is marked as lasting all day.
    pub all_day: bool,
    /// Whether the event is marked as tentative.
    pub tentative: bool,
    /// The date that the first word of the date text denotes.
    pub leading_date: Option<CalendarDate>,
    /// The date that the whole date text denotes.
    pub whole_date: Option<CalendarDate>,
    /// The instant that the date text denotes with its offset from UTC.
    pub stamp: Option<Moment>,
    /// The instant meant by the wall-clock reading that the texts denote.
    pub local: Option<Moment>,
}

/// When an event takes place, by what was read off its texts. A date without a time is tentative,
/// never midnight.
pub open spec fn timing_of(r: TimingReadings) -> Option<EventTiming> {
    if !r.has_date {
        None
    } else if r.all_day && r.leading_date is Some {
        Some(EventTiming::AllDay(r.leading_date->Some_0))
    } else if r.tentative && r.leading_date is Some {
        Some(EventTiming::TentativeDate(r.leading_date->Some_0))
    } else if r.stamp is Some {
        Some(EventTiming::Exact(r.stamp->Some_0))
    } else if !r.has_time && r.whole_date is Some {
        Some(EventTiming::TentativeDate(r.whole_date->Some_0))
    } else if r.local is Some {
        Some(EventTiming::Exact(r.local->Some_0))
    } else {
        None
    }
}

/// When an event takes place, by what was read off its texts.
pub fn classify_timing(r: TimingReadings) -> (timing: Option<EventTiming>)
    ensures
        timing == timing_of(r),
{
    if !r.has_date {
        return None;
    }
    if r.all_day {
        if let Some(d) = r.leading_date {
            return Some(EventTiming::AllDay(d));
        }
    }
    if r.tentative {
        if let Some(d) = r.leading_date {
            return Some(EventTiming::TentativeDate(d));
        }
    }
    if let Some(t) = r.stamp {
        return Some(EventTiming::Exact(t));
    }
    if !r.has_time {
        if let Some(d) = r.whole_date {
            return Some(EventTiming::TentativeDate(d));
        }
    }
    match r.local {
        Some(t) => Some(EventTiming::Exact(t)),
        None => None,
    }
}

/// The date with that number.
pub open spec fn date_numbered(day: Option<int>) -> Option<CalendarDate> {
    match day {
        Some(d) => Some(CalendarDate { days_from_ce: d as i32 }),
        None => None,
    }
}

/// That instant.
pub open spec fn moment_at(t: Option<MomentModel>) -> Option<Moment> {
    match t {
        Some(t) => Some(Moment { time: UtcTime { nanos: t.at as i128 }, lag: t.lag as u32 }),
        None => None,
    }
}

/// The instant given by its parts.
pub open spec fn joined(parts: Option<(int, int)>) -> Option<MomentModel> {
    match parts {
        Some((secs, nanos)) => Some(moment_of(secs, nanos)),
        None => None,
    }
}

impl RawEventModel {
    /// The date text with the time text behind it, if there is one.
    pub open spec fn date_and_time(self) -> Seq<char> {
        if blank(self.time) {
            trimmed(self.date)
        } else {
            trimmed(self.date) + " "@ + trimmed(self.time)
        }
    }

    /// What can be read off the event's texts; wall-clock readings are those of `zone`, or of UTC
    /// where there is none.
    pub open spec fn readings(self, zone: Option<Seq<char>>) -> TimingReadings {
        let date = trimmed(self.date);
        TimingReadings {
            has_date: !blank(self.date),
            has_time: !blank(self.time),
            all_day: self.all_day(),
            tentative: self.tentative(),
            leading_date: date_numbered(date_in_text(first_word(date))),
            whole_date: date_numbered(date_in_text(date)),
            stamp: moment_at(joined(stamp_in_text(date))),
            local: match reading_in_text(self.date_and_time()) {
                Some((secs, nanos)) => moment_at(meant(zone, secs, nanos)),
                None => None,
            },
        }
    }

    /// When the event takes place.
    pub open spec fn timing(self, zone: Option<Seq<char>>) -> Option<EventTiming> {
        timing_of(self.readings(zone))
    }

    /// The instant at which the event takes place or its day begins.
    pub open spec fn datetime(self, zone: Option<Seq<char>>) -> Option<MomentModel> {
        match self.timing(zone) {
            Some(EventTiming::Exact(t)) => Some(t@),
            Some(EventTiming::AllDay(d)) => day_moment(d@, zone),
            Some(EventTiming::TentativeDate(d)) => day_moment(d@, zone),
            None => None,
        }
    }
}

/// When the event takes place: at an instant, throughout a day, or at a time of a day that is not
/// known yet.
///
/// Wall-clock readings are those of `default_tz`, daylight saving time included, or of UTC where it
/// is `None`.
pub fn parse_event_timing(raw: &RawCalendarEvent, default_tz: &Option<SourceZone>) -> (r: Option<
    EventTiming,
>)
    ensures
        r == raw@.timing(zone_view(*default_tz)),
        r matches Some(EventTiming::Exact(t)) ==> t.in_range(),
{
    let date: &str = raw.date.as_str().trim();
    if date.is_empty() {
        return None;
    }
    let time: &str = raw.time.as_str().trim();
    let has_time: bool = !time.is_empty();
    let leading_date: Option<CalendarDate> = match find_date(leading_word(date)) {
        Some(d) => Some(CalendarDate { days_from_ce: d }),
        None => None,
    };
    let whole_date: Option<CalendarDate> = match find_date(date) {
        Some(d) => Some(CalendarDate { days_from_ce: d }),
        None => None,
    };
    let stamp: Option<Moment> = match find_stamp(date) {
        Some((secs, nanos)) => Some(Moment::from_unix(secs, nanos)),
        None => None,
    };
    let text: String = if has_time {
        join3(date, " ", time)
    } else {
        date.to_string()
    };
    let local: Option<Moment> = match find_reading(text.as_str()) {
        Some((secs, nanos)) => resolve_reading(secs, nanos, default_tz),
        None => None,
    };
    let readings: TimingReadings = TimingReadings {
        has_date: true,
        has_time,
        all_day: raw.is_all_day(),
        tentative: raw.is_tentative(),
        leading_date,
        whole_date,
        stamp,
        local,
    };
    assert(readings == raw@.readings(zone_view(*default_tz)));
    classify_timing(readings)
}

/// The instant at which the event takes place or its day begins, where wall-clock readings and days
/// are those of `default_tz`, or of UTC where it is `None`.
pub fn parse_event_datetime_with_tz(
    raw: &RawCalendarEvent,
    default_tz: &Option<SourceZone>,
) -> (r: Option<Moment>)
    ensures
        option_view(r) == raw@.datetime(zone_view(*default_tz)),
{
    match parse_event_timing(raw, default_tz) {
        Some(EventTiming::Exact(t)) => Some(t),
        Some(EventTiming::AllDay(d)) => day_beginning(d, default_tz),
        Some(EventTiming::TentativeDate(d)) => day_beginning(d, default_tz),
        None => None,
    }
}

/// The instant at which a day begins in `zone`, or in UTC where there is none.
pub open spec fn day_moment(day: int, zone: Option<Seq<char>>) -> Option<MomentModel> {
    match day_start(day, zone) {
        Some(t) => Some(MomentModel::plain(t)),
        None => None,
    }
}

/// The instant at which the date begins in `zone`, or in UTC where there is none.
pub(crate) fn day_beginning(date: CalendarDate, zone: &Option<SourceZone>) -> (r: Option<Moment>)
    ensures
        option_view(r) == day_moment(date@, zone_view(*zone)),
{
    match date_to_utc_start(date, zone) {
        Some(t) => Some(Moment::plain(t)),
        None => None,
    }
}

/// The instant at which the event takes place or its day begins, in UTC.
pub fn parse_event_datetime(raw: &RawCalendarEvent) -> (r: Option<Moment>)
    ensures
        option_view(r) == raw@.datetime(None),
{
    parse_event_datetime_with_tz(raw, &None)
}

/// An event without a date text has no time.
pub proof fn law_undated_event_has_no_time(raw: RawEventModel, zone: Option<Seq<char>>)
    requires
        blank(raw.date),
    ensures
        raw.timing(zone) is None,
        raw.datetime(zone) is None,
{
}

/// An event whose date text is nothing but a date, with no time text, is never taken to be at
/// midnight or at any other instant.
pub proof fn law_date_alone_is_not_exact(raw: RawEventModel, zone: Option<Seq<char>>)
    requires
        blank(raw.time),
        date_in_text(trimmed(raw.date)) is Some,
        stamp_in_text(trimmed(raw.date)) is None,
    ensures
        !(raw.timing(zone) matches Some(EventTiming::Exact(_))),
{
}

/// An instant given with its offset from UTC does not depend on the source's time zone.
pub proof fn law_stamped_event_ignores_zone(
    raw: RawEventModel,
    zone: Option<Seq<char>>,
    other: Option<Seq<char>>,
)
    requires
        stamp_in_text(trimmed(raw.date)) is Some,
    ensures
        raw.timing(zone) == raw.timing(other),
{
}

/// A date is read by year, month and day, or by month, day and year, with hyphens or with slashes: in
/// the first of these formats that the text fits, and in no other.
pub proof fn law_date_is_read_in_the_first_format_that_fits(text: Seq<char>, k: int)
    requires
        0 <= k < 4,
    ensures
        ({
            let formats = seq![
                "%Y-%m-%d"@,
                "%m-%d-%Y"@,
                "%m/%d/%Y"@,
                "%Y/%m/%d"@,
            ];
            let reads = |j: int| parsed_date(text, formats[j]) is Some;
            &&& reads(k) && (forall|j: int| 0 <= j < k ==> !#[trigger] reads(j)) ==> date_in_text(text)
                == parsed_date(text, formats[k])
            &&& (forall|j: int| 0 <= j < 4 ==> !#[trigger] reads(j)) ==> date_in_text(text) is None
        }),
{
    let formats = seq![
        "%Y-%m-%d"@,
        "%m-%d-%Y"@,
        "%m/%d/%Y"@,
        "%Y/%m/%d"@,
    ];
    let reads = |j: int| parsed_date(text, formats[j]) is Some;
    assert(reads(0) == (parsed_date(text, "%Y-%m-%d"@) is Some));
    assert(reads(1) == (parsed_date(text, "%m-%d-%Y"@) is Some));
    assert(reads(2) == (parsed_date(text, "%m/%d/%Y"@) is Some));
    assert(reads(3) == (parsed_date(text, "%Y/%m/%d"@) is Some));
}

/// A date and a time are read on the clock of twelve hours, or else of twenty-four, in the first of
/// the known formats that the text fits, and in no other.
pub proof fn law_reading_is_read_in_the_first_format_that_fits(text: Seq<char>, k: int)
    requires
        0 <= k < 8,
    ensures
        ({
            let formats = seq![
                "%m-%d-%Y %I:%M%p"@,
                "%Y-%m-%d %I:%M%p"@,
                "%m/%d/%Y %I:%M%p"@,
                "%Y/%m/%d %I:%M%p"@,
                "%m-%d-%Y %H:%M"@,
                "%Y-%m-%d %H:%M"@,
                "%Y-%m-%dT%H:%M:%S"@,
                "%Y-%m-%d %H:%M:%S"@,
            ];
            let reads = |j: int| parsed_reading(text, formats[j]) is Some;
            &&& reads(k) && (forall|j: int| 0 <= j < k ==> !#[trigger] reads(j)) ==> reading_in_text(text)
                == parsed_reading(text, formats[k])
            &&& (forall|j: int| 0 <= j < 8 ==> !#[trigger] reads(j)) ==> reading_in_text(text) is None
        }),
{
    let formats = seq![
        "%m-%d-%Y %I:%M%p"@,
        "%Y-%m-%d %I:%M%p"@,
        "%m/%d/%Y %I:%M%p"@,
        "%Y/%m/%d %I:%M%p"@,
        "%m-%d-%Y %H:%M"@,
        "%Y-%m-%d %H:%M"@,
        "%Y-%m-%dT%H:%M:%S"@,
        "%Y-%m-%d %H:%M:%S"@,
    ];
    let reads = |j: int| parsed_reading(text, formats[j]) is Some;
    assert(reads(0) == (parsed_reading(text, "%m-%d-%Y %I:%M%p"@) is Some));
    assert(reads(1) == (parsed_reading(text, "%Y-%m-%d %I:%M%p"@) is Some));
    assert(reads(2) == (parsed_reading(text, "%m/%d/%Y %I:%M%p"@) is Some));
    assert(reads(3) == (parsed_reading(text, "%Y/%m/%d %I:%M%p"@) is Some));
    assert(reads(4) == (parsed_reading(text, "%m-%d-%Y %H:%M"@) is Some));
    assert(reads(5) == (parsed_reading(text, "%Y-%m-%d %H:%M"@) is Some));
    assert(reads(6) == (parsed_reading(text, "%Y-%m-%dT%H:%M:%S"@) is Some));
    assert(reads(7) == (parsed_reading(text, "%Y-%m-%d %H:%M:%S"@) is Some));
}

/// An instant with its offset from UTC is read by RFC 3339, and else in ISO 8601.
pub proof fn law_stamp_is_read_with_its_offset(text: Seq<char>)
    ensures
        parsed_rfc3339(text) is Some ==> stamp_in_text(text) == parsed_rfc3339(text),
        parsed_rfc3339(text) is None ==> stamp_in_text(text) == parsed_instant(text, "%+"@),
{
}

/// An event lasts all day if its time says so or counts the days of a meeting, or if its date text
/// says so; it is tentative if its time says that.
pub proof fn law_marks_of_an_event(raw: RawEventModel)
    ensures
        raw.all_day() <==> same_ignoring_case(trimmed(raw.time), "all day"@) || begins_with(
            lower_case(trimmed(raw.time)),
            "day "@,
        ) || holds_text(lower_case(raw.date), "all day"@),
        raw.tentative() <==> same_ignoring_case(trimmed(raw.time), "tentative"@),
{
}

/// An event that is marked as lasting all day takes place on the date that the first word of its date
/// text denotes.
pub proof fn law_all_day_event_takes_place_on_its_date(
    raw: RawEventModel,
    zone: Option<Seq<char>>,
    day: int,
)
    requires
        !blank(raw.date),
        raw.all_day(),
        date_in_text(first_word(trimmed(raw.date))) == Some(day),
        i32::MIN <= day <= i32::MAX,
    ensures
        raw.timing(zone) matches Some(EventTiming::AllDay(d)) && d@ == day,
{
}

/// A tentative event takes place on the date that the first word of its date text denotes, at a time
/// that is not known.
pub proof fn law_tentative_event_takes_place_on_its_date(
    raw: RawEventModel,
    zone: Option<Seq<char>>,
    day: int,
)
    requires
        !blank(raw.date),
        raw.tentative(),
        !raw.all_day(),
        date_in_text(first_word(trimmed(raw.date))) == Some(day),
        i32::MIN <= day <= i32::MAX,
    ensures
        raw.timing(zone) matches Some(EventTiming::TentativeDate(d)) && d@ == day,
{
}

impl RawEventModel {
    /// Whether the event is marked as one of a day, whose date can be read.
    pub open spec fn of_a_day(self) -> bool {
        &&& self.all_day() || self.tentative()
        &&& date_in_text(first_word(trimmed(self.date))) is Some
    }
}

/// An event whose date text gives the instant with its offset from UTC takes place at that instant,
/// whatever its time text and the source's zone are.
pub proof fn law_stamped_event_takes_place_at_its_instant(
    raw: RawEventModel,
    zone: Option<Seq<char>>,
    secs: int,
    nanos: int,
)
    requires
        !blank(raw.date),
        !raw.of_a_day(),
        stamp_in_text(trimmed(raw.date)) == Some((secs, nanos)),
        -CALENDAR_SECS <= secs <= CALENDAR_SECS,
        0 <= nanos < 2_000_000_000,
    ensures
        raw.timing(zone) matches Some(EventTiming::Exact(t)) && t@ == moment_of(secs, nanos),
{
    lemma_moment_fits(secs, nanos);
}

proof fn lemma_moment_fits(secs: int, nanos: int)
    requires
        -2 * CALENDAR_SECS <= secs <= 2 * CALENDAR_SECS,
        0 <= nanos < 2_000_000_000,
    ensures
        moment_at(Some(moment_of(secs, nanos))) is Some,
        moment_at(Some(moment_of(secs, nanos)))->Some_0@ == moment_of(secs, nanos),
{
}

/// An event whose date text is a date and whose time text is blank takes place on that date, at a time
/// that is not known.
pub proof fn law_date_without_a_time_is_tentative(
    raw: RawEventModel,
    zone: Option<Seq<char>>,
    day: int,
)
    requires
        !blank(raw.date),
        !raw.of_a_day(),
        stamp_in_text(trimmed(raw.date)) is None,
        blank(raw.time),
        date_in_text(trimmed(raw.date)) == Some(day),
        i32::MIN <= day <= i32::MAX,
    ensures
        raw.timing(zone) matches Some(EventTiming::TentativeDate(d)) && d@ == day,
{
}

impl RawEventModel {
    /// Whether when the event takes place is told by a wall clock: it is not one of a day, gives no
    /// offset from UTC, and gives more than a date.
    pub open spec fn by_wall_clock(self) -> bool {
        &&& !blank(self.date)
        &&& !self.of_a_day()
        &&& stamp_in_text(trimmed(self.date)) is None
        &&& blank(self.time) ==> date_in_text(trimmed(self.date)) is None
    }
}

/// What is read off a wall clock stands in the date text and, behind a space, in the time text.
pub proof fn law_date_and_time_are_read_together(raw: RawEventModel)
    ensures
        blank(raw.time) ==> raw.date_and_time() == trimmed(raw.date),
        !blank(raw.time) ==> raw.date_and_time() == trimmed(raw.date) + " "@ + trimmed(raw.time),
{
}

/// Where the source's zone is known, an event told by a wall clock takes place at an instant at which
/// the zone's clocks show its date and time, the earliest of those.
pub proof fn law_local_event_takes_place_when_clocks_show_it(
    raw: RawEventModel,
    zone: Seq<char>,
    secs: int,
    nanos: int,
)
    requires
        raw.by_wall_clock(),
        reading_in_text(raw.date_and_time()) == Some((secs, nanos)),
        -CALENDAR_SECS <= secs <= CALENDAR_SECS,
        0 <= nanos < 2_000_000_000,
        zone_readings(zone, secs, nanos).len() > 0,
        readings_in_order(zone_readings(zone, secs, nanos), nanos),
        forall|i: int|
            0 <= i < zone_readings(zone, secs, nanos).len() ==> -CALENDAR_SECS <= (
            #[trigger] zone_readings(zone, secs, nanos)[i]).0 <= CALENDAR_SECS,
    ensures
        ({
            let shown = zone_readings(zone, secs, nanos);
            &&& raw.timing(Some(zone)) matches Some(EventTiming::Exact(t))
            &&& exists|i: int| 0 <= i < shown.len() && t@ == moment_of((#[trigger] shown[i]).0, nanos)
            &&& forall|i: int|
                0 <= i < shown.len() ==> t@.not_after(moment_of((#[trigger] shown[i]).0, nanos))
        }),
{
    let shown = zone_readings(zone, secs, nanos);
    law_reading_means_when_it_is_shown(zone, secs, nanos);
    let t = meant(Some(zone), secs, nanos)->Some_0;
    let i = choose|i: int|
        0 <= i < shown.len() && t == moment_of((#[trigger] shown[i]).0, shown[i].1);
    lemma_moment_fits(shown[i].0, nanos);
    assert(shown[i].1 == nanos);
}

/// Where the clocks of the source's zone skip its date and time, an event told by a wall clock takes
/// place when they first show the time one hour later, and has no time if they skip that too.
pub proof fn law_skipped_event_takes_place_an_hour_later(
    raw: RawEventModel,
    zone: Seq<char>,
    secs: int,
    nanos: int,
    part: int,
)
    requires
        raw.by_wall_clock(),
        reading_in_text(raw.date_and_time()) == Some((secs, nanos)),
        -CALENDAR_SECS <= secs <= CALENDAR_SECS,
        0 <= nanos < 2_000_000_000,
        part == nanos % 1_000_000_000,
        zone_readings(zone, secs, nanos).len() == 0,
        readings_in_order(zone_readings(zone, secs + 3600, part), part),
        forall|i: int|
            0 <= i < zone_readings(zone, secs + 3600, part).len() ==> -CALENDAR_SECS <= (
            #[trigger] zone_readings(zone, secs + 3600, part)[i]).0 <= CALENDAR_SECS,
    ensures
        ({
            let later = zone_readings(zone, secs + 3600, part);
            &&& later.len() == 0 ==> raw.timing(Some(zone)) is None
            &&& later.len() > 0 ==> (raw.timing(Some(zone)) matches Some(EventTiming::Exact(t))
                && t@.lag == 0 && t@.at == later[0].0 * 1_000_000_000 + part)
        }),
{
    law_skipped_reading_means_an_hour_later(zone, secs, nanos);
    let later = zone_readings(zone, secs + 3600, part);
    if later.len() > 0 {
        assert(later[0].1 == part);
        lemma_moment_fits(later[0].0, part);
        assert(meant(Some(zone), secs, nanos) == Some(moment_of(later[0].0, part)));
    }
}

/// Where no zone is known, an event told by a wall clock takes place when a clock of UTC shows its
/// date and time.
pub proof fn law_event_without_a_zone_is_in_utc(raw: RawEventModel, secs: int, nanos: int)
    requires
        raw.by_wall_clock(),
        reading_in_text(raw.date_and_time()) == Some((secs, nanos)),
        -CALENDAR_SECS <= secs <= CALENDAR_SECS,
        0 <= nanos < 2_000_000_000,
    ensures
        raw.timing(None) matches Some(EventTiming::Exact(t)) && t@ == moment_of(secs, nanos),
{
    lemma_moment_fits(secs, nanos);
}

/// An event has no time exactly if it has no date text, or neither an instant, nor a date, nor a date
/// and time that means an instant in the zone can be read off its texts.
pub proof fn law_event_without_a_time_cannot_be_read(raw: RawEventModel, zone: Option<Seq<char>>)
    ensures
        raw.timing(zone) is None <==> blank(raw.date) || raw.by_wall_clock() && (reading_in_text(
            raw.date_and_time(),
        ) matches Some((secs, nanos)) ==> meant(zone, secs, nanos) is None),
{
}

/// The marks of an event of a day are those of all days and of unknown times, in the first word of its
/// date text; a time is told by a wall clock otherwise, unless there is an offset or nothing but a
/// date.
pub proof fn law_kinds_of_events(raw: RawEventModel)
    ensures
        raw.of_a_day() <==> (raw.all_day() || raw.tentative()) && date_in_text(
            first_word(trimmed(raw.date)),
        ) is Some,
        raw.by_wall_clock() <==> !blank(raw.date) && !raw.of_a_day() && stamp_in_text(
            trimmed(raw.date),
        ) is None && !(blank(raw.time) && date_in_text(trimmed(raw.date)) is Some),
{
}

/// An event of a day is dated by the beginning of that day in the source's zone, and any other by the
/// instant at which it takes place; one without a time has no date.
pub proof fn law_event_is_dated_by_its_time(raw: RawEventModel, zone: Option<Seq<char>>)
    ensures
        raw.timing(zone) matches Some(EventTiming::Exact(t)) ==> raw.datetime(zone) == Some(t@),
        raw.timing(zone) matches Some(EventTiming::AllDay(d)) ==> raw.datetime(zone) == match day_start(
            d@,
            zone,
        ) {
            Some(t) => Some(MomentModel { at: t, lag: 0 }),
            None => None,
        },
        raw.timing(zone) matches Some(EventTiming::TentativeDate(d)) ==> raw.datetime(zone)
            == match day_start(d@, zone) {
            Some(t) => Some(MomentModel { at: t, lag: 0 }),
            None => None,
        },
        raw.timing(zone) is None ==> raw.datetime(zone) is None,
{
}

/// What was read off an event's texts decides in this order: that there is a date text, the marks of a
/// day with its date, an instant with its offset, a date without a time, and a wall-clock reading.
pub proof fn law_readings_decide_in_order(r: TimingReadings)
    ensures
        !r.has_date ==> timing_of(r) is None,
        r.has_date && r.all_day ==> (r.leading_date matches Some(d) ==> timing_of(r) == Some(
            EventTiming::AllDay(d),
        )),
        r.has_date && !r.all_day && r.tentative ==> (r.leading_date matches Some(d) ==> timing_of(r)
            == Some(EventTiming::TentativeDate(d))),
        r.has_date && (!r.all_day && !r.tentative || r.leading_date is None) ==> {
            &&& r.stamp matches Some(t) ==> timing_of(r) == Some(EventTiming::Exact(t))
            &&& r.stamp is None && !r.has_time ==> (r.whole_date matches Some(d) ==> timing_of(r)
                == Some(EventTiming::TentativeDate(d)))
            &&& r.stamp is None && (r.has_time || r.whole_date is None) ==> timing_of(r)
                == match r.local {
                Some(t) => Some(EventTiming::Exact(t)),
                None => None,
            }
        },
{
}

/// An event as it was read shows what its fields hold.
pub proof fn law_raw_event_by_field(e: RawCalendarEvent)
    ensures
        e@.title == e.title@ && e@.country == e.country@ && e@.impact == e.impact@,
        e@.date == e.date@ && e@.time == e.time@,
{
}

} // verus!
