//! Currencies, impacts, calendar events and blackout windows.

use crate::text::{all_ascii, ascii_lower, ascii_lowered, ascii_raised, ascii_upper, decimal, join};
use crate::text::{join3, lower_case, same_ignoring_case, same_text, trim_end, trim_start, trimmed};
use crate::text::{unsigned_text, upper_case, white_space};
use crate::time::{countable, in_calendar, utc_now, CalendarDate, Moment, MomentModel, UtcTime};
use crate::time::{MINUTE, SECOND};
use crate::views::{option_view, views};
use vstd::prelude::*;
use vstd::std_specs::cmp::PartialEqSpec;

verus! {

/// Currency code of a calendar event or of a filter.
#[derive(Debug, PartialEq, Eq, Hash)]
pub enum Currency {
    USD,
    EUR,
    GBP,
    JPY,
    AUD,
    CAD,
    CHF,
    NZD,
    CNY,
    /// Every currency.
    All,
    /// A code that none of the others stands for.
    Custom(String),
}

/// What a [`Currency`] is.
pub ghost enum CurrencyModel {
    USD,
    EUR,
    GBP,
    JPY,
    AUD,
    CAD,
    CHF,
    NZD,
    CNY,
    All,
    Custom(Seq<char>),
}

impl View for Currency {
    type V = CurrencyModel;

    open spec fn view(&self) -> CurrencyModel {
        match self {
            Currency::USD => CurrencyModel::USD,
            Currency::EUR => CurrencyModel::EUR,
            Currency::GBP => CurrencyModel::GBP,
            Currency::JPY => CurrencyModel::JPY,
            Currency::AUD => CurrencyModel::AUD,
            Currency::CAD => CurrencyModel::CAD,
            Currency::CHF => CurrencyModel::CHF,
            Currency::NZD => CurrencyModel::NZD,
            Currency::CNY => CurrencyModel::CNY,
            Currency::All => CurrencyModel::All,
            Currency::Custom(s) => CurrencyModel::Custom(s@),
        }
    }
}

impl CurrencyModel {
    /// The currency's code.
    pub open spec fn text(self) -> Seq<char> {
        match self {
            CurrencyModel::USD => "USD"@,
            CurrencyModel::EUR => "EUR"@,
            CurrencyModel::GBP => "GBP"@,
            CurrencyModel::JPY => "JPY"@,
            CurrencyModel::AUD => "AUD"@,
            CurrencyModel::CAD => "CAD"@,
            CurrencyModel::CHF => "CHF"@,
            CurrencyModel::NZD => "NZD"@,
            CurrencyModel::CNY => "CNY"@,
            CurrencyModel::All => "All"@,
            CurrencyModel::Custom(s) => s,
        }
    }

    /// The currency that a text denotes: by its code in any case, `ALL` or `GLOBAL` for every
    /// currency, and any other text, trimmed, for itself.
    pub open spec fn parse(s: Seq<char>) -> CurrencyModel {
        let code = upper_case(trimmed(s));
        if code == "USD"@ {
            CurrencyModel::USD
        } else if code == "EUR"@ {
            CurrencyModel::EUR
        } else if code == "GBP"@ {
            CurrencyModel::GBP
        } else if code == "JPY"@ {
            CurrencyModel::JPY
        } else if code == "AUD"@ {
            CurrencyModel::AUD
        } else if code == "CAD"@ {
            CurrencyModel::CAD
        } else if code == "CHF"@ {
            CurrencyModel::CHF
        } else if code == "NZD"@ {
            CurrencyModel::NZD
        } else if code == "CNY"@ {
            CurrencyModel::CNY
        } else if code == "ALL"@ || code == "GLOBAL"@ {
            CurrencyModel::All
        } else {
            CurrencyModel::Custom(trimmed(s))
        }
    }

    /// Whether the currency covers an event of the country code `country`: `All` covers every
    /// one, and `all` and `global` are covered by every currency.
    pub open spec fn covers(self, country: Seq<char>) -> bool {
        ||| self is All
        ||| same_ignoring_case(self.text(), country)
        ||| same_ignoring_case(country, "all"@)
        ||| same_ignoring_case(country, "global"@)
    }
}

impl Clone for Currency {
    fn clone(&self) -> (r: Self)
        ensures
            r@ == self@,
    {
        match self {
            Currency::USD => Currency::USD,
            Currency::EUR => Currency::EUR,
            Currency::GBP => Currency::GBP,
            Currency::JPY => Currency::JPY,
            Currency::AUD => Currency::AUD,
            Currency::CAD => Currency::CAD,
            Currency::CHF => Currency::CHF,
            Currency::NZD => Currency::NZD,
            Currency::CNY => Currency::CNY,
            Currency::All => Currency::All,
            Currency::Custom(s) => Currency::Custom(s.clone()),
        }
    }
}

impl Currency {
    /// The currency's code.
    #[must_use]
    pub fn as_str(&self) -> (r: &str)
        ensures
            r@ == self@.text(),
    {
        match self {
            Currency::USD => "USD",
            Currency::EUR => "EUR",
            Currency::GBP => "GBP",
            Currency::JPY => "JPY",
            Currency::AUD => "AUD",
            Currency::CAD => "CAD",
            Currency::CHF => "CHF",
            Currency::NZD => "NZD",
            Currency::CNY => "CNY",
            Currency::All => "All",
            Currency::Custom(s) => s.as_str(),
        }
    }

    /// Whether the currency covers an event of this country code.
    #[must_use]
    pub fn matches_str(&self, text: &str) -> (r: bool)
        ensures
            r == self@.covers(text@),
    {
        match self {
            Currency::All => true,
            _ => self.as_str().eq_ignore_ascii_case(text) || text.eq_ignore_ascii_case("all")
                || text.eq_ignore_ascii_case("global"),
        }
    }

    /// The currency that `s` denotes.
    pub(crate) fn from_text(s: &str) -> (r: Currency)
        ensures
            r@ == CurrencyModel::parse(s@),
    {
        let trimmed_text: &str = s.trim();
        let upper: String = trimmed_text.to_uppercase();
        let code: &str = upper.as_str();
        if same_text(code, "USD") {
            Currency::USD
        } else if same_text(code, "EUR") {
            Currency::EUR
        } else if same_text(code, "GBP") {
            Currency::GBP
        } else if same_text(code, "JPY") {
            Currency::JPY
        } else if same_text(code, "AUD") {
            Currency::AUD
        } else if same_text(code, "CAD") {
            Currency::CAD
        } else if same_text(code, "CHF") {
            Currency::CHF
        } else if same_text(code, "NZD") {
            Currency::NZD
        } else if same_text(code, "CNY") {
            Currency::CNY
        } else if same_text(code, "ALL") || same_text(code, "GLOBAL") {
            Currency::All
        } else {
            Currency::Custom(trimmed_text.to_string())
        }
    }

    /// The currency's code.
    #[must_use]
    pub fn to_string(&self) -> (r: String)
        ensures
            r@ == self@.text(),
    {
        self.as_str().to_string()
    }
}

impl std::str::FromStr for Currency {
    type Err = std::convert::Infallible;

    fn from_str(s: &str) -> (r: Result<Self, Self::Err>)
        ensures
            r is Ok,
            r->Ok_0@ == CurrencyModel::parse(s@),
    {
        Ok(Currency::from_text(s))
    }
}

impl vstd::std_specs::convert::FromSpecImpl<&str> for Currency {
    open spec fn obeys_from_spec() -> bool {
        false
    }

    open spec fn from_spec(s: &str) -> Currency {
        arbitrary()
    }
}

impl From<&str> for Currency {
    fn from(s: &str) -> (r: Currency)
        ensures
            r@ == CurrencyModel::parse(s@),
    {
        Currency::from_text(s)
    }
}

impl vstd::std_specs::convert::FromSpecImpl<String> for Currency {
    open spec fn obeys_from_spec() -> bool {
        false
    }

    open spec fn from_spec(s: String) -> Currency {
        arbitrary()
    }
}

impl From<String> for Currency {
    fn from(s: String) -> (r: Currency)
        ensures
            r@ == CurrencyModel::parse(s@),
    {
        Currency::from_text(s.as_str())
    }
}

impl vstd::std_specs::convert::FromSpecImpl<Currency> for String {
    open spec fn obeys_from_spec() -> bool {
        false
    }

    open spec fn from_spec(c: Currency) -> String {
        arbitrary()
    }
}

impl From<Currency> for String {
    fn from(c: Currency) -> (r: String)
        ensures
            r@ == c@.text(),
    {
        c.to_string()
    }
}

impl AsRef<str> for Currency {
    fn as_ref(&self) -> (r: &str)
        ensures
            r@ == self@.text(),
    {
        self.as_str()
    }
}

impl<'a> PartialEq<&'a str> for Currency {
    fn eq(&self, other: &&'a str) -> (r: bool) {
        self.as_str().eq_ignore_ascii_case(other)
    }
}

impl<'a> vstd::std_specs::cmp::PartialEqSpecImpl<&'a str> for Currency {
    open spec fn obeys_eq_spec() -> bool {
        true
    }

    open spec fn eq_spec(&self, other: &&'a str) -> bool {
        same_ignoring_case(self@.text(), other@)
    }
}

/// Impact level of a calendar event or of a filter.
#[derive(Debug, PartialEq, Eq, Hash, PartialOrd, Ord)]
pub enum Impact {
    NonEconomic,
    Low,
    Medium,
    High,
    /// A level that none of the others stands for.
    Custom(String),
}

/// What an [`Impact`] is.
pub ghost enum ImpactModel {
    NonEconomic,
    Low,
    Medium,
    High,
    Custom(Seq<char>),
}

impl View for Impact {
    type V = ImpactModel;

    open spec fn view(&self) -> ImpactModel {
        match self {
            Impact::NonEconomic => ImpactModel::NonEconomic,
            Impact::Low => ImpactModel::Low,
            Impact::Medium => ImpactModel::Medium,
            Impact::High => ImpactModel::High,
            Impact::Custom(s) => ImpactModel::Custom(s@),
        }
    }
}

impl ImpactModel {
    /// The level's name.
    pub open spec fn text(self) -> Seq<char> {
        match self {
            ImpactModel::High => "High"@,
            ImpactModel::Medium => "Medium"@,
            ImpactModel::Low => "Low"@,
            ImpactModel::NonEconomic => "Non-Economic"@,
            ImpactModel::Custom(s) => s,
        }
    }

    /// The level that a text denotes: by a name of it in any case, and any other text, trimmed and
    /// in lower case, for itself.
    pub open spec fn parse(s: Seq<char>) -> ImpactModel {
        let name = lower_case(trimmed(s));
        if name == "high"@ || name == "red"@ {
            ImpactModel::High
        } else if name == "medium"@ || name == "med"@ {
            ImpactModel::Medium
        } else if name == "low"@ {
            ImpactModel::Low
        } else if name == "non-economic"@ || name == "none"@ || name == "holiday"@ {
            ImpactModel::NonEconomic
        } else {
            ImpactModel::Custom(name)
        }
    }

    /// Whether `s` names the level, in any case.
    pub open spec fn named(self, s: Seq<char>) -> bool {
        match self {
            ImpactModel::High => same_ignoring_case(s, "High"@) || same_ignoring_case(s, "Red"@),
            ImpactModel::Medium => same_ignoring_case(s, "Medium"@) || same_ignoring_case(
                s,
                "Med"@,
            ),
            ImpactModel::Low => same_ignoring_case(s, "Low"@),
            ImpactModel::NonEconomic => same_ignoring_case(s, "Non-Economic"@)
                || same_ignoring_case(s, "None"@) || same_ignoring_case(s, "Holiday"@),
            ImpactModel::Custom(t) => same_ignoring_case(t, s),
        }
    }
}

impl Clone for Impact {
    fn clone(&self) -> (r: Self)
        ensures
            r@ == self@,
    {
        match self {
            Impact::NonEconomic => Impact::NonEconomic,
            Impact::Low => Impact::Low,
            Impact::Medium => Impact::Medium,
            Impact::High => Impact::High,
            Impact::Custom(s) => Impact::Custom(s.clone()),
        }
    }
}

impl Impact {
    /// Whether this is the highest level.
    #[must_use]
    pub fn is_high(&self) -> (r: bool)
        ensures
            r == (self@ is High),
    {
        matches!(self, Impact::High)
    }

    /// Whether this is the level of "red folder" releases, the highest.
    #[must_use]
    pub fn is_red_folder(&self) -> (r: bool)
        ensures
            r == (self@ is High),
    {
        self.is_high()
    }

    /// Whether `text` names this level, in any case.
    #[must_use]
    pub fn matches_str(&self, text: &str) -> (r: bool)
        ensures
            r == self@.named(text@),
    {
        match self {
            Impact::High => text.eq_ignore_ascii_case("High") || text.eq_ignore_ascii_case("Red"),
            Impact::Medium => text.eq_ignore_ascii_case("Medium") || text.eq_ignore_ascii_case(
                "Med",
            ),
            Impact::Low => text.eq_ignore_ascii_case("Low"),
            Impact::NonEconomic => text.eq_ignore_ascii_case("Non-Economic")
                || text.eq_ignore_ascii_case("None") || text.eq_ignore_ascii_case("Holiday"),
            Impact::Custom(s) => s.as_str().eq_ignore_ascii_case(text),
        }
    }

    /// The level that `s` denotes.
    pub(crate) fn from_text(s: &str) -> (r: Impact)
        ensures
            r@ == ImpactModel::parse(s@),
    {
        let lower: String = s.trim().to_lowercase();
        let name: &str = lower.as_str();
        if same_text(name, "high") || same_text(name, "red") {
            Impact::High
        } else if same_text(name, "medium") || same_text(name, "med") {
            Impact::Medium
        } else if same_text(name, "low") {
            Impact::Low
        } else if same_text(name, "non-economic") || same_text(name, "none") || same_text(
            name,
            "holiday",
        ) {
            Impact::NonEconomic
        } else {
            Impact::Custom(lower)
        }
    }

    /// Whether both are the same level.
    pub(crate) fn same_level(&self, other: &Impact) -> (r: bool)
        ensures
            r == (self@ == other@),
    {
        match (self, other) {
            (Impact::High, Impact::High) => true,
            (Impact::Medium, Impact::Medium) => true,
            (Impact::Low, Impact::Low) => true,
            (Impact::NonEconomic, Impact::NonEconomic) => true,
            (Impact::Custom(a), Impact::Custom(b)) => same_text(a.as_str(), b.as_str()),
            _ => false,
        }
    }

    /// The level's name.
    pub(crate) fn name(&self) -> (r: &str)
        ensures
            r@ == self@.text(),
    {
        match self {
            Impact::High => "High",
            Impact::Medium => "Medium",
            Impact::Low => "Low",
            Impact::NonEconomic => "Non-Economic",
            Impact::Custom(s) => s.as_str(),
        }
    }

    /// The level's name.
    #[must_use]
    pub fn to_string(&self) -> (r: String)
        ensures
            r@ == self@.text(),
    {
        self.name().to_string()
    }
}

impl std::str::FromStr for Impact {
    type Err = std::convert::Infallible;

    fn from_str(s: &str) -> (r: Result<Self, Self::Err>)
        ensures
            r is Ok,
            r->Ok_0@ == ImpactModel::parse(s@),
    {
        Ok(Impact::from_text(s))
    }
}

impl vstd::std_specs::convert::FromSpecImpl<&str> for Impact {
    open spec fn obeys_from_spec() -> bool {
        false
    }

    open spec fn from_spec(s: &str) -> Impact {
        arbitrary()
    }
}

impl From<&str> for Impact {
    fn from(s: &str) -> (r: Impact)
        ensures
            r@ == ImpactModel::parse(s@),
    {
        Impact::from_text(s)
    }
}

impl vstd::std_specs::convert::FromSpecImpl<Impact> for String {
    open spec fn obeys_from_spec() -> bool {
        false
    }

    open spec fn from_spec(i: Impact) -> String {
        arbitrary()
    }
}

impl From<Impact> for String {
    fn from(i: Impact) -> (r: String)
        ensures
            r@ == i@.text(),
    {
        i.to_string()
    }
}

impl<'a> PartialEq<&'a str> for Impact {
    fn eq(&self, other: &&'a str) -> (r: bool) {
        self.name().eq_ignore_ascii_case(other)
    }
}

impl<'a> vstd::std_specs::cmp::PartialEqSpecImpl<&'a str> for Impact {
    open spec fn obeys_eq_spec() -> bool {
        true
    }

    open spec fn eq_spec(&self, other: &&'a str) -> bool {
        same_ignoring_case(self@.text(), other@)
    }
}

/// What a worker does while calendar data is missing or stale.
#[derive(Debug, Clone, Copy, PartialEq, Eq, Hash, Structural)]
pub enum FailSafeMode {
    /// Trading goes on: no blackout is assumed.
    FailOpen,
    /// Trading halts: a blackout is assumed.
    FailClosed,
}

impl FailSafeMode {
    /// Whether trading halts while calendar data is missing or stale.
    #[must_use]
    pub fn is_fail_closed(self) -> (r: bool)
        ensures
            r == (self is FailClosed),
    {
        matches!(self, FailSafeMode::FailClosed)
    }
}

impl Default for FailSafeMode {
    fn default() -> (r: FailSafeMode)
        ensures
            r is FailOpen,
    {
        FailSafeMode::FailOpen
    }
}

/// Origin of an event that no calendar lists.
#[derive(Debug, Clone, Copy, PartialEq, Eq, Hash, Structural)]
pub enum CustomEventKind {
    /// The weekend market close.
    WeekendCurfew,
    /// The halt while calendar data is missing or stale.
    FailClosedSafety,
}

/// When a calendar event takes place.
#[derive(Debug, Clone, Copy, PartialEq, Eq, Hash, Structural)]
pub enum EventTiming {
    /// At an instant.
    Exact(Moment),
    /// Throughout a day.
    AllDay(CalendarDate),
    /// At a time of a day that is not known yet.
    TentativeDate(CalendarDate),
}

impl EventTiming {
    /// Whether the instant is known.
    #[must_use]
    pub fn is_exact(&self) -> (r: bool)
        ensures
            r == (self is Exact),
    {
        matches!(self, EventTiming::Exact(_))
    }

    /// Whether the event lasts all day.
    #[must_use]
    pub fn is_all_day(&self) -> (r: bool)
        ensures
            r == (self is AllDay),
    {
        matches!(self, EventTiming::AllDay(_))
    }

    /// Whether only the day is known.
    #[must_use]
    pub fn is_tentative(&self) -> (r: bool)
        ensures
            r == (self is TentativeDate),
    {
        matches!(self, EventTiming::TentativeDate(_))
    }

    /// The instant, if it is known.
    #[must_use]
    pub fn exact_time(&self) -> (r: Option<Moment>)
        ensures
            r == match *self {
                EventTiming::Exact(t) => Some(t),
                _ => None,
            },
    {
        match self {
            EventTiming::Exact(t) => Some(*t),
            _ => None,
        }
    }
}

/// A calendar event whose time has been worked out.
#[derive(Debug, PartialEq, Eq)]
pub struct EconomicEvent {
    pub title: String,
    pub country: String,
    pub impact: String,
    /// The instant, or the beginning of the day.
    pub datetime: Moment,
    pub timing: EventTiming,
}

/// Another name of [`EconomicEvent`].
pub type NewsEvent = EconomicEvent;

/// What an [`EconomicEvent`] is.
pub ghost struct EconomicEventModel {
    pub title: Seq<char>,
    pub country: Seq<char>,
    pub impact: Seq<char>,
    pub datetime: MomentModel,
    pub timing: EventTiming,
}

impl View for EconomicEvent {
    type V = EconomicEventModel;

    open spec fn view(&self) -> EconomicEventModel {
        EconomicEventModel {
            title: self.title@,
            country: self.country@,
            impact: self.impact@,
            datetime: self.datetime@,
            timing: self.timing,
        }
    }
}

impl Clone for EconomicEvent {
    fn clone(&self) -> (r: Self)
        ensures
            r@ == self@,
    {
        EconomicEvent {
            title: self.title.clone(),
            country: self.country.clone(),
            impact: self.impact.clone(),
            datetime: self.datetime,
            timing: self.timing,
        }
    }
}

/// An event that a blackout window stands for.
#[derive(Debug, PartialEq, Eq)]
pub struct WindowEvent {
    /// Whether the event comes from a rule rather than from a calendar.
    pub is_custom: bool,
    /// The rule that the event comes from.
    pub custom_kind: Option<CustomEventKind>,
    pub event_time: Moment,
    pub country: String,
    pub impact: String,
    pub title: String,
}

/// What a [`WindowEvent`] is.
pub ghost struct WindowEventModel {
    pub is_custom: bool,
    pub custom_kind: Option<CustomEventKind>,
    pub event_time: MomentModel,
    pub country: Seq<char>,
    pub impact: Seq<char>,
    pub title: Seq<char>,
}

impl View for WindowEvent {
    type V = WindowEventModel;

    open spec fn view(&self) -> WindowEventModel {
        WindowEventModel {
            is_custom: self.is_custom,
            custom_kind: self.custom_kind,
            event_time: self.event_time@,
            country: self.country@,
            impact: self.impact@,
            title: self.title@,
        }
    }
}

impl Clone for WindowEvent {
    fn clone(&self) -> (r: Self)
        ensures
            r@ == self@,
    {
        WindowEvent {
            is_custom: self.is_custom,
            custom_kind: self.custom_kind,
            event_time: self.event_time,
            country: self.country.clone(),
            impact: self.impact.clone(),
            title: self.title.clone(),
        }
    }
}

impl WindowEvent {
    /// Whether the event is the weekend market close.
    #[must_use]
    pub fn is_weekend_curfew(&self) -> (r: bool)
        ensures
            r == (self@.custom_kind == Some(CustomEventKind::WeekendCurfew)),
    {
        matches!(self.custom_kind, Some(CustomEventKind::WeekendCurfew))
    }

    /// Whether the event is the halt while calendar data is missing or stale.
    #[must_use]
    pub fn is_fail_closed_safety(&self) -> (r: bool)
        ensures
            r == (self@.custom_kind == Some(CustomEventKind::FailClosedSafety)),
    {
        matches!(self.custom_kind, Some(CustomEventKind::FailClosedSafety))
    }
}

/// A time during which trading is blocked, with the events that block it. The window holds its
/// start but not its end.
#[derive(Debug, PartialEq, Eq)]
pub struct BlackoutWindow {
    pub start: Moment,
    pub end: Moment,
    pub events: Vec<WindowEvent>,
}

/// What a [`BlackoutWindow`] is: the first instant at which it is active outside leap seconds, and
/// the first at which it no longer is, with how far before them, in a leap second, its start and its
/// end lie.
pub ghost struct WindowModel {
    pub start: int,
    pub start_lag: int,
    pub end: int,
    pub end_lag: int,
    pub events: Seq<WindowEventModel>,
}

impl View for BlackoutWindow {
    type V = WindowModel;

    open spec fn view(&self) -> WindowModel {
        WindowModel {
            start: self.start@.at,
            start_lag: self.start@.lag,
            end: self.end@.at,
            end_lag: self.end@.lag,
            events: views(self.events@),
        }
    }
}

impl Clone for BlackoutWindow {
    fn clone(&self) -> (r: Self)
        ensures
            r@ == self@,
    {
        let events: Vec<WindowEvent> = self.events.clone();
        assert(views(events@) =~= views(self.events@));
        BlackoutWindow { start: self.start, end: self.end, events }
    }
}

/// The quotient rounded towards zero, of a divisor above zero.
pub open spec fn div_towards_zero(a: int, b: int) -> int {
    if a >= 0 {
        a / b
    } else {
        -((-a) / b)
    }
}

/// The whole minutes from `b` to `a`, rounded towards zero.
pub(crate) fn whole_minutes(a: Moment, b: Moment) -> (r: i64)
    requires
        countable(a@.at) && a@.lag <= SECOND,
        countable(b@.at) && b@.lag <= SECOND,
    ensures
        r == div_towards_zero(a@.since(b@), MINUTE as int),
{
    let nanos: i128 = a.since(b);
    if nanos >= 0 {
        (nanos / MINUTE) as i64
    } else {
        -((-nanos / MINUTE) as i64)
    }
}

/// The title of a window with these events.
pub open spec fn summary_of(events: Seq<WindowEventModel>) -> Seq<char> {
    if events.len() == 0 {
        "Blackout Window"@
    } else if events.len() == 1 {
        events[0].title
    } else {
        events[0].title + " (+"@ + decimal(events.len() - 1) + " events)"@
    }
}

impl WindowModel {
    /// The window from `from` to `until` with these events.
    pub open spec fn lasting(
        from: MomentModel,
        until: MomentModel,
        events: Seq<WindowEventModel>,
    ) -> WindowModel {
        WindowModel {
            start: from.at,
            start_lag: from.lag,
            end: until.at,
            end_lag: until.lag,
            events,
        }
    }

    /// When the window starts.
    pub open spec fn from(self) -> MomentModel {
        MomentModel { at: self.start, lag: self.start_lag }
    }

    /// When the window ends.
    pub open spec fn until(self) -> MomentModel {
        MomentModel { at: self.end, lag: self.end_lag }
    }

    /// Whether the window neither starts nor ends in a leap second.
    pub open spec fn plain(self) -> bool {
        self.start_lag == 0 && self.end_lag == 0
    }

    /// Whether the window is active at `time`: from its start on, and no more at its end.
    pub open spec fn active_at(self, time: int) -> bool {
        self.start <= time < self.end
    }

    /// Whether the window has not ended before `time`.
    pub open spec fn lasts_until(self, time: int) -> bool {
        MomentModel::plain(time).not_after(self.until())
    }

    /// The whole minutes from `time` to the window's end, 0 once it has passed.
    pub open spec fn minutes_left(self, time: int) -> int {
        let left = self.until().since(MomentModel::plain(time));
        if left > 0 {
            left / (MINUTE as int)
        } else {
            0
        }
    }
}

impl BlackoutWindow {
    /// Whether the minutes between the window's ends and any other instant can be counted.
    pub open spec fn in_range(self) -> bool {
        &&& countable(self@.start)
        &&& countable(self@.end)
        &&& self@.start_lag <= SECOND
        &&& self@.end_lag <= SECOND
    }

    /// Whether the minutes between the window's ends and any other instant can be counted.
    #[must_use]
    pub fn is_in_range(&self) -> (r: bool)
        ensures
            r == self.in_range(),
    {
        let bound: i128 = 0x4000_0000_0000_0000_0000_0000;
        let (start, end): (i128, i128) = (self.start.time.nanos, self.end.time.nanos);
        -bound <= start && start <= bound && -bound <= end && end <= bound && self.start.lag
            <= 1_000_000_000 && self.end.lag <= 1_000_000_000
    }

    /// The whole minutes from `time` to the window's start, negative once it has passed.
    #[must_use]
    pub fn minutes_until_start(&self, time: UtcTime) -> (r: i64)
        requires
            self.in_range(),
            time.in_range(),
        ensures
            r == div_towards_zero(
                self@.from().since(MomentModel::plain(time@)),
                MINUTE as int,
            ),
    {
        whole_minutes(self.start, Moment::plain(time))
    }

    /// The whole minutes from `time` to the window's end, 0 once it has passed.
    #[must_use]
    pub fn remaining_minutes_at(&self, time: UtcTime) -> (r: i64)
        requires
            self.in_range(),
            time.in_range(),
        ensures
            r == self@.minutes_left(time@),
    {
        let left: i64 = whole_minutes(self.end, Moment::plain(time));
        if left > 0 {
            left
        } else {
            0
        }
    }

    /// The whole minutes from now to the window's end, 0 once it has passed.
    #[must_use]
    pub fn remaining_minutes(&self) -> (r: i64)
        requires
            self.in_range(),
        ensures
            exists|now: int| #[trigger] in_calendar(now) && r == self@.minutes_left(now),
    {
        let now: UtcTime = utc_now();
        self.remaining_minutes_at(now)
    }

    /// The whole minutes that the window lasts.
    #[must_use]
    pub fn duration_minutes(&self) -> (r: i64)
        requires
            self.in_range(),
        ensures
            r == div_towards_zero(self@.until().since(self@.from()), MINUTE as int),
    {
        whole_minutes(self.end, self.start)
    }

    /// Whether the window is active at `time`.
    #[must_use]
    pub fn is_active_at(&self, time: UtcTime) -> (r: bool)
        ensures
            r == self@.active_at(time@),
    {
        self.start.time.nanos <= time.nanos && time.nanos < self.end.time.nanos
    }

    /// Whether the window is active now.
    #[must_use]
    pub fn is_active(&self) -> (r: bool)
        ensures
            exists|now: int| #[trigger] in_calendar(now) && r == self@.active_at(now),
    {
        let now: UtcTime = utc_now();
        self.is_active_at(now)
    }

    /// The title of the window's only event, or of its first with the number of the others.
    #[must_use]
    pub fn summary_title(&self) -> (r: String)
        ensures
            r@ == summary_of(self@.events),
    {
        if self.events.len() == 0 {
            "Blackout Window".to_string()
        } else if self.events.len() == 1 {
            self.events[0].title.clone()
        } else {
            let others: String = unsigned_text(self.events.len() as u64 - 1);
            let head: String = join(self.events[0].title.as_str(), " (+");
            join3(head.as_str(), others.as_str(), " events)")
        }
    }
}

/// A change of a worker's blackout state.
#[derive(Debug, PartialEq, Eq)]
pub struct BlackoutNotification {
    pub active: bool,
    pub window: Option<BlackoutWindow>,
}

impl Clone for BlackoutNotification {
    fn clone(&self) -> (r: Self)
        ensures
            r@ == self@,
    {
        BlackoutNotification {
            active: self.active,
            window: match &self.window {
                Some(w) => Some(w.clone()),
                None => None,
            },
        }
    }
}

/// What a [`BlackoutNotification`] is.
pub ghost struct NotificationModel {
    pub active: bool,
    pub window: Option<WindowModel>,
}

impl View for BlackoutNotification {
    type V = NotificationModel;

    open spec fn view(&self) -> NotificationModel {
        NotificationModel { active: self.active, window: option_view(self.window) }
    }
}

/// What a text is that equals printable ASCII text up to the case of its letters.
proof fn lemma_same_in_any_case(s: Seq<char>, t: Seq<char>)
    requires
        same_ignoring_case(s, t),
        forall|i: int| 0 <= i < t.len() ==> 0x21 <= (#[trigger] t[i]) as u32 <= 0x7e,
    ensures
        trimmed(s) == s,
        upper_case(s) == ascii_raised(t),
        lower_case(s) == ascii_lowered(t),
{
    assert forall|i: int| 0 <= i < s.len() implies 0x21 <= (#[trigger] s[i]) as u32 <= 0x7e
        && ascii_lower(s[i]) == ascii_lower(t[i]) && ascii_upper(s[i]) == ascii_upper(t[i]) by {
        assert(0x21 <= t[i] as u32 <= 0x7e);
        assert(ascii_lower(s[i]) == ascii_lower(t[i]));
    }
    assert(all_ascii(s));
    if s.len() > 0 {
        assert(!white_space(s.first()) && !white_space(s.last()));
    }
    assert(trim_start(s) == s);
    assert(ascii_raised(s) =~= ascii_raised(t));
    assert(ascii_lowered(s) =~= ascii_lowered(t));
}

/// A currency's code denotes it, in any case.
pub proof fn law_currency_is_read_in_any_case(c: CurrencyModel, s: Seq<char>)
    requires
        !(c is Custom),
        same_ignoring_case(s, c.text()),
    ensures
        CurrencyModel::parse(s) == c,
{
    reveal_strlit("USD");
    reveal_strlit("EUR");
    reveal_strlit("GBP");
    reveal_strlit("JPY");
    reveal_strlit("AUD");
    reveal_strlit("CAD");
    reveal_strlit("CHF");
    reveal_strlit("NZD");
    reveal_strlit("CNY");
    reveal_strlit("All");
    reveal_strlit("ALL");
    reveal_strlit("GLOBAL");
    lemma_same_in_any_case(s, c.text());
    let code = upper_case(trimmed(s));
    match c {
        CurrencyModel::All => {
            assert(code =~= "ALL"@);
            assert(code[0] == 'A' && code[1] == 'L');
            assert("AUD"@[1] == 'U');
        },
        _ => {
            assert(code =~= c.text());
        },
    }
    assert("USD"@[0] == 'U' && "EUR"@[0] == 'E' && "GBP"@[0] == 'G' && "JPY"@[0] == 'J');
    assert("AUD"@[0] == 'A' && "NZD"@[0] == 'N' && "CAD"@[1] == 'A' && "CHF"@[1] == 'H');
    assert("CNY"@[1] == 'N' && "CAD"@[0] == 'C');
}

/// A name of an impact level denotes it, in any case.
pub proof fn law_impact_is_read_in_any_case(level: ImpactModel, s: Seq<char>)
    requires
        !(level is Custom),
        level.named(s),
    ensures
        ImpactModel::parse(s) == level,
{
    reveal_strlit("High");
    reveal_strlit("Red");
    reveal_strlit("Medium");
    reveal_strlit("Med");
    reveal_strlit("Low");
    reveal_strlit("Non-Economic");
    reveal_strlit("None");
    reveal_strlit("Holiday");
    reveal_strlit("high");
    reveal_strlit("red");
    reveal_strlit("medium");
    reveal_strlit("med");
    reveal_strlit("low");
    reveal_strlit("non-economic");
    reveal_strlit("none");
    reveal_strlit("holiday");
    let name = lower_case(trimmed(s));
    assert("high"@[0] == 'h' && "red"@[0] == 'r' && "med"@[0] == 'm' && "low"@[0] == 'l');
    assert("none"@[0] == 'n');
    match level {
        ImpactModel::High => {
            if same_ignoring_case(s, "High"@) {
                lemma_same_in_any_case(s, "High"@);
                assert(name =~= "high"@);
            } else {
                lemma_same_in_any_case(s, "Red"@);
                assert(name =~= "red"@);
            }
        },
        ImpactModel::Medium => {
            if same_ignoring_case(s, "Medium"@) {
                lemma_same_in_any_case(s, "Medium"@);
                assert(name =~= "medium"@);
            } else {
                lemma_same_in_any_case(s, "Med"@);
                assert(name =~= "med"@);
            }
        },
        ImpactModel::Low => {
            lemma_same_in_any_case(s, "Low"@);
            assert(name =~= "low"@);
        },
        _ => {
            if same_ignoring_case(s, "Non-Economic"@) {
                lemma_same_in_any_case(s, "Non-Economic"@);
                assert(name =~= "non-economic"@);
            } else if same_ignoring_case(s, "None"@) {
                lemma_same_in_any_case(s, "None"@);
                assert(name =~= "none"@);
            } else {
                lemma_same_in_any_case(s, "Holiday"@);
                assert(name =~= "holiday"@);
            }
        },
    }
}

proof fn lemma_trim_end(s: Seq<char>)
    ensures
        trim_end(s).len() == 0 || !white_space(trim_end(s).last()),
        trim_end(s).len() > 0 ==> trim_end(s).first() == s.first(),
    decreases s.len(),
{
    if s.len() > 0 && white_space(s.last()) {
        lemma_trim_end(s.drop_last());
    }
}

proof fn lemma_trim_start(s: Seq<char>)
    ensures
        trim_start(s).len() == 0 || !white_space(trim_start(s).first()),
    decreases s.len(),
{
    if s.len() > 0 && white_space(s.first()) {
        lemma_trim_start(s.drop_first());
    }
}

/// Whatever currency a text denotes, that currency's own text denotes it too.
pub proof fn law_currency_is_read_back(s: Seq<char>)
    ensures
        CurrencyModel::parse(CurrencyModel::parse(s).text()) == CurrencyModel::parse(s),
{
    let c = CurrencyModel::parse(s);
    if c is Custom {
        lemma_trim_start(s);
        lemma_trim_end(trim_start(s));
        assert(trimmed(trimmed(s)) == trimmed(s));
    } else {
        law_currency_is_read_in_any_case(c, c.text());
    }
}

/// A standard currency covers its own code, in any case, and `all` and `global`, which stand for
/// every currency; a currency of another name covers that name; `All` covers everything.
pub proof fn law_currency_covers_its_code(s: Seq<char>, country: Seq<char>)
    ensures
        ({
            let everywhere = same_ignoring_case(country, "all"@) || same_ignoring_case(
                country,
                "global"@,
            );
            &&& CurrencyModel::USD.covers(country) <==> same_ignoring_case(country, "USD"@)
                || everywhere
            &&& CurrencyModel::EUR.covers(country) <==> same_ignoring_case(country, "EUR"@)
                || everywhere
            &&& CurrencyModel::GBP.covers(country) <==> same_ignoring_case(country, "GBP"@)
                || everywhere
            &&& CurrencyModel::JPY.covers(country) <==> same_ignoring_case(country, "JPY"@)
                || everywhere
            &&& CurrencyModel::AUD.covers(country) <==> same_ignoring_case(country, "AUD"@)
                || everywhere
            &&& CurrencyModel::CAD.covers(country) <==> same_ignoring_case(country, "CAD"@)
                || everywhere
            &&& CurrencyModel::CHF.covers(country) <==> same_ignoring_case(country, "CHF"@)
                || everywhere
            &&& CurrencyModel::NZD.covers(country) <==> same_ignoring_case(country, "NZD"@)
                || everywhere
            &&& CurrencyModel::CNY.covers(country) <==> same_ignoring_case(country, "CNY"@)
                || everywhere
            &&& CurrencyModel::All.covers(country)
            &&& CurrencyModel::Custom(s).covers(country) <==> same_ignoring_case(country, s)
                || everywhere
        }),
{
}

/// A text denotes a standard currency exactly if it is that currency's code, in whatever case and
/// with whatever white space around it; `all` and `global` denote every currency, and any other text
/// stands for itself, without the white space.
pub proof fn law_currency_is_read_by_its_code(s: Seq<char>)
    ensures
        ({
            let code = upper_case(trimmed(s));
            let c = CurrencyModel::parse(s);
            &&& c is USD <==> code == "USD"@
            &&& c is EUR <==> code == "EUR"@
            &&& c is GBP <==> code == "GBP"@
            &&& c is JPY <==> code == "JPY"@
            &&& c is AUD <==> code == "AUD"@
            &&& c is CAD <==> code == "CAD"@
            &&& c is CHF <==> code == "CHF"@
            &&& c is NZD <==> code == "NZD"@
            &&& c is CNY <==> code == "CNY"@
            &&& c is All <==> code == "ALL"@ || code == "GLOBAL"@
            &&& c matches CurrencyModel::Custom(text) ==> text == trimmed(s)
        }),
{
    lemma_codes_differ();
}

proof fn lemma_codes_differ()
    ensures
        "USD"@.len() == 3 && "USD"@[0] == 'U',
        "EUR"@.len() == 3 && "EUR"@[0] == 'E',
        "GBP"@.len() == 3 && "GBP"@[0] == 'G',
        "JPY"@.len() == 3 && "JPY"@[0] == 'J',
        "AUD"@.len() == 3 && "AUD"@[0] == 'A' && "AUD"@[1] == 'U',
        "CAD"@.len() == 3 && "CAD"@[0] == 'C' && "CAD"@[1] == 'A',
        "CHF"@.len() == 3 && "CHF"@[0] == 'C' && "CHF"@[1] == 'H',
        "NZD"@.len() == 3 && "NZD"@[0] == 'N',
        "CNY"@.len() == 3 && "CNY"@[0] == 'C' && "CNY"@[1] == 'N',
        "ALL"@.len() == 3 && "ALL"@[0] == 'A' && "ALL"@[1] == 'L',
        "GLOBAL"@.len() == 6,
{
    reveal_strlit("USD");
    reveal_strlit("EUR");
    reveal_strlit("GBP");
    reveal_strlit("JPY");
    reveal_strlit("AUD");
    reveal_strlit("CAD");
    reveal_strlit("CHF");
    reveal_strlit("NZD");
    reveal_strlit("CNY");
    reveal_strlit("ALL");
    reveal_strlit("GLOBAL");
}

/// A standard currency is written as its three-letter code, and any other as it was given.
pub proof fn law_currency_is_written_as_its_code(c: CurrencyModel)
    ensures
        c is USD ==> c.text() == "USD"@,
        c is EUR ==> c.text() == "EUR"@,
        c is GBP ==> c.text() == "GBP"@,
        c is JPY ==> c.text() == "JPY"@,
        c is AUD ==> c.text() == "AUD"@,
        c is CAD ==> c.text() == "CAD"@,
        c is CHF ==> c.text() == "CHF"@,
        c is NZD ==> c.text() == "NZD"@,
        c is CNY ==> c.text() == "CNY"@,
        c is All ==> c.text() == "All"@,
        c matches CurrencyModel::Custom(s) ==> c.text() == s,
{
}

/// A text denotes an impact level exactly if it is one of that level's names, in whatever case and
/// with whatever white space around it; any other text stands for itself.
pub proof fn law_impact_is_read_by_its_names(s: Seq<char>)
    ensures
        ({
            let name = lower_case(trimmed(s));
            let level = ImpactModel::parse(s);
            &&& level is High <==> name == "high"@ || name == "red"@
            &&& level is Medium <==> name == "medium"@ || name == "med"@
            &&& level is Low <==> name == "low"@
            &&& level is NonEconomic <==> name == "non-economic"@ || name == "none"@ || name
                == "holiday"@
            &&& level matches ImpactModel::Custom(text) ==> text == name
        }),
{
    reveal_strlit("high");
    reveal_strlit("red");
    reveal_strlit("medium");
    reveal_strlit("med");
    reveal_strlit("low");
    reveal_strlit("non-economic");
    reveal_strlit("none");
    reveal_strlit("holiday");
    assert("high"@[0] == 'h' && "red"@[0] == 'r' && "med"@[0] == 'm' && "low"@[0] == 'l');
    assert("none"@[0] == 'n' && "medium"@[0] == 'm' && "holiday"@.len() == 7);
    assert("medium"@.len() == 6 && "non-economic"@.len() == 12);
}

/// An impact level has the names under which calendars list it, in any case, and no others.
pub proof fn law_impact_has_its_names(s: Seq<char>, t: Seq<char>)
    ensures
        ImpactModel::High.named(s) <==> same_ignoring_case(s, "High"@) || same_ignoring_case(
            s,
            "Red"@,
        ),
        ImpactModel::Medium.named(s) <==> same_ignoring_case(s, "Medium"@) || same_ignoring_case(
            s,
            "Med"@,
        ),
        ImpactModel::Low.named(s) <==> same_ignoring_case(s, "Low"@),
        ImpactModel::NonEconomic.named(s) <==> same_ignoring_case(s, "Non-Economic"@)
            || same_ignoring_case(s, "None"@) || same_ignoring_case(s, "Holiday"@),
        ImpactModel::Custom(t).named(s) <==> same_ignoring_case(s, t),
        ImpactModel::High.text() == "High"@,
        ImpactModel::Medium.text() == "Medium"@,
        ImpactModel::Low.text() == "Low"@,
        ImpactModel::NonEconomic.text() == "Non-Economic"@,
        ImpactModel::Custom(t).text() == t,
{
}

/// A window is active from its start on, and no longer at its end: at no time before or after.
pub proof fn law_window_is_half_open(w: WindowModel, time: int)
    ensures
        w.active_at(time) <==> w.start <= time && time < w.end,
        w.start < w.end ==> w.active_at(w.start),
        !w.active_at(w.end),
{
}

/// Minutes are counted whole: as many as fit, with the sign of the time that they count.
pub proof fn law_whole_minutes(nanos: int)
    ensures
        ({
            let minutes = div_towards_zero(nanos, 60_000_000_000);
            &&& nanos >= 0 ==> 60_000_000_000 * minutes <= nanos < 60_000_000_000 * (minutes + 1)
            &&& nanos <= 0 ==> 60_000_000_000 * (minutes - 1) < nanos <= 60_000_000_000 * minutes
        }),
{
}

/// What remains of a window is the whole minutes up to its end, and nothing once it has ended.
pub proof fn law_remaining_minutes(w: WindowModel, time: int)
    ensures
        ({
            let left = w.until().since(MomentModel { at: time, lag: 0 });
            &&& left <= 0 ==> w.minutes_left(time) == 0
            &&& left > 0 ==> 60_000_000_000 * w.minutes_left(time) <= left < 60_000_000_000 * (
            w.minutes_left(time) + 1)
            &&& w.end_lag == 0 ==> left == w.end - time
        }),
{
}

/// A window's title is that of its event; with several events it is the first's, with the number of
/// the others.
pub proof fn law_window_title(events: Seq<WindowEventModel>)
    ensures
        events.len() == 0 ==> summary_of(events) == "Blackout Window"@,
        events.len() == 1 ==> summary_of(events) == events[0].title,
        events.len() > 1 ==> summary_of(events) == events[0].title + " (+"@ + decimal(
            events.len() - 1,
        ) + " events)"@,
{
}

/// A currency and an impact level equal the texts of their codes and names in any case, and no others.
pub proof fn law_currency_and_impact_equal_their_texts(c: Currency, i: Impact, text: &str)
    ensures
        <Currency as PartialEqSpec<&str>>::obeys_eq_spec(),
        <Impact as PartialEqSpec<&str>>::obeys_eq_spec(),
        PartialEqSpec::eq_spec(&c, &text) <==> same_ignoring_case(c@.text(), text@),
        PartialEqSpec::eq_spec(&i, &text) <==> same_ignoring_case(i@.text(), text@),
{
}

/// Each currency and each impact level shows itself, and one that is none of the others its text.
pub proof fn law_currencies_and_impacts_by_name(text: String)
    ensures
        Currency::USD@ is USD,
        Currency::EUR@ is EUR,
        Currency::GBP@ is GBP,
        Currency::JPY@ is JPY,
        Currency::AUD@ is AUD,
        Currency::CAD@ is CAD,
        Currency::CHF@ is CHF,
        Currency::NZD@ is NZD,
        Currency::CNY@ is CNY,
        Currency::All@ is All,
        Currency::Custom(text)@ == CurrencyModel::Custom(text@),
        Impact::NonEconomic@ is NonEconomic,
        Impact::Low@ is Low,
        Impact::Medium@ is Medium,
        Impact::High@ is High,
        Impact::Custom(text)@ == ImpactModel::Custom(text@),
{
}

/// Events, windows and notifications show what their fields hold.
pub proof fn law_events_and_windows_by_field(
    e: EconomicEvent,
    w: WindowEvent,
    b: BlackoutWindow,
    n: BlackoutNotification,
    i: int,
)
    ensures
        e@.title == e.title@ && e@.country == e.country@ && e@.impact == e.impact@,
        e@.datetime == e.datetime@ && e@.timing == e.timing,
        w@.is_custom == w.is_custom && w@.custom_kind == w.custom_kind,
        w@.event_time == w.event_time@ && w@.title == w.title@,
        w@.country == w.country@ && w@.impact == w.impact@,
        b@.from() == b.start@ && b@.until() == b.end@,
        b@.events.len() == b.events@.len(),
        0 <= i < b.events@.len() ==> b@.events[i] == b.events@[i]@,
        n@.active == n.active && n@.window == option_view(n.window),
{
}

/// A window made of two instants and events starts, ends and holds them; it is plain where neither lies
/// in a leap second.
pub proof fn law_window_from_its_ends(
    from: MomentModel,
    until: MomentModel,
    events: Seq<WindowEventModel>,
)
    ensures
        ({
            let w = WindowModel::lasting(from, until, events);
            &&& w.from() == from && w.until() == until && w.events == events
            &&& w.start == from.at && w.end == until.at
            &&& w.plain() <==> from.lag == 0 && until.lag == 0
        }),
{
}

} // verus!
