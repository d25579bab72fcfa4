//! Instants, wall-clock readings, dates and spans of time, as whole numbers.

use vstd::prelude::*;

verus! {

/// Nanoseconds in a second.
pub const SECOND: i128 = 1_000_000_000;

/// Nanoseconds in a minute.
pub const MINUTE: i128 = 60_000_000_000;

/// Nanoseconds in an hour.
pub const HOUR: i128 = 3_600_000_000_000;

/// Nanoseconds in a day.
pub const DAY: i128 = 86_400_000_000_000;

/// Nanoseconds in a week.
pub const WEEK: i128 = 604_800_000_000_000;

/// The number of 1970-01-01 where 0001-01-01 is day 1.
pub const EPOCH_DAY: i128 = 719_163;

/// Bound of the calendar, in seconds before and after 1970: some 285,000 years.
pub const CALENDAR_SECS: i64 = 9_000_000_000_000;

/// An instant: nanoseconds since 1970-01-01T00:00:00 UTC.
///
/// Days have 86,400 seconds, as in Unix time; see [`Moment`] for leap seconds.
#[derive(Debug, Clone, Copy, PartialEq, Eq, PartialOrd, Ord, Hash, Structural)]
pub struct UtcTime {
    pub nanos: i128,
}

impl View for UtcTime {
    type V = int;

    open spec fn view(&self) -> int {
        self.nanos as int
    }
}

/// Whether an instant lies within the calendar's range, with two seconds to spare at its end.
pub open spec fn in_calendar(t: int) -> bool {
    -CALENDAR_SECS * SECOND <= t <= (CALENDAR_SECS + 2) * SECOND
}

/// Whether an instant lies within some six hundred thousand million years of the epoch. The whole
/// minutes between any two such instants are an `i64`.
pub open spec fn countable(t: int) -> bool {
    -0x4000_0000_0000_0000_0000_0000 <= t <= 0x4000_0000_0000_0000_0000_0000
}

/// The count of nanoseconds that whole seconds and a part of a second make up.
pub open spec fn joined_parts(secs: int, nanos: int) -> int {
    secs * SECOND + nanos
}

impl UtcTime {
    /// Whether this instant lies within the range of calendar dates.
    pub open spec fn in_range(self) -> bool {
        in_calendar(self@)
    }

    /// Whether this instant lies within the range of calendar dates.
    pub fn is_in_range(self) -> (r: bool)
        ensures
            r == self.in_range(),
    {
        let bound: i128 = CALENDAR_SECS as i128;
        -bound * SECOND <= self.nanos && self.nanos <= (bound + 2) * SECOND
    }

    /// The instant `secs` whole seconds and `nanos` nanoseconds after the epoch.
    pub fn from_unix(secs: i64, nanos: u32) -> (r: UtcTime)
        ensures
            r@ == joined_parts(secs as int, nanos as int),
    {
        UtcTime { nanos: secs as i128 * SECOND + nanos as i128 }
    }

    /// The number of the day this instant falls on, where 0001-01-01 is day 1.
    pub open spec fn day(self) -> int {
        self@ / (DAY as int) + EPOCH_DAY
    }

    /// The UTC date of this instant.
    pub fn date(self) -> (r: CalendarDate)
        requires
            self.in_range(),
        ensures
            r@ == self.day(),
    {
        CalendarDate { days_from_ce: (floor_div(self.nanos, DAY) + EPOCH_DAY) as i32 }
    }

    /// `minutes` after this instant; before it where `minutes` is negative.
    pub fn plus_minutes(self, minutes: i64) -> (r: UtcTime)
        requires
            self.in_range(),
        ensures
            r@ == self@ + minutes * MINUTE,
    {
        UtcTime { nanos: self.nanos + minutes as i128 * MINUTE }
    }

    /// `minutes` before this instant; after it where `minutes` is negative.
    pub fn minus_minutes(self, minutes: i64) -> (r: UtcTime)
        requires
            self.in_range(),
        ensures
            r@ == self@ - minutes * MINUTE,
    {
        UtcTime { nanos: self.nanos - minutes as i128 * MINUTE }
    }

    /// `hours` after this instant.
    pub fn plus_hours(self, hours: u32) -> (r: UtcTime)
        requires
            self.in_range(),
        ensures
            r@ == self@ + hours * HOUR,
    {
        UtcTime { nanos: self.nanos + hours as i128 * HOUR }
    }
}

/// The whole quotient rounded down.
pub(crate) fn floor_div(a: i128, b: i128) -> (r: i128)
    requires
        b > 0,
        -0x200_0000_0000_0000_0000_0000_0000_0000 <= a,
        a <= 0x200_0000_0000_0000_0000_0000_0000_0000,
        b <= 0x1_0000_0000_0000_0000,
    ensures
        r == a as int / b as int,
{
    if a >= 0 {
        a / b
    } else {
        let up: i128 = (-a + (b - 1)) / b;
        assert(-up == a as int / b as int) by (nonlinear_arith)
            requires
                b > 0,
                a < 0,
                up == (-a + (b - 1)) as int / b as int,
        ;
        -up
    }
}

/// An instant that may lie in a leap second: a second between two others, which no count of
/// nanoseconds since the epoch has room for.
#[derive(Debug, Clone, Copy, PartialEq, Eq, Hash, Structural)]
pub struct Moment {
    /// The instant, or the end of the leap second that it lies in.
    pub time: UtcTime,
    /// How many nanoseconds the instant comes before the end of the leap second that it lies in; 0
    /// outside leap seconds.
    pub lag: u32,
}

/// What a [`Moment`] is.
pub ghost struct MomentModel {
    pub at: int,
    pub lag: int,
}

impl View for Moment {
    type V = MomentModel;

    open spec fn view(&self) -> MomentModel {
        MomentModel { at: self.time@, lag: self.lag as int }
    }
}

/// The instant `secs` whole seconds and `nanos` nanoseconds after the epoch. A second or more of
/// nanoseconds reaches into a leap second that follows the second.
pub open spec fn moment_of(secs: int, nanos: int) -> MomentModel {
    if nanos < SECOND {
        MomentModel::plain(joined_parts(secs, nanos))
    } else {
        MomentModel { at: (secs + 1) * SECOND, lag: 2 * SECOND - nanos }
    }
}

impl MomentModel {
    /// The instant `t`, outside leap seconds.
    pub open spec fn plain(t: int) -> MomentModel {
        MomentModel { at: t, lag: 0 }
    }

    /// The instant by the seconds before it: a leap second is counted as the second before it.
    pub open spec fn counted_back(self) -> int {
        self.at - self.lag
    }

    /// The instant by the seconds after it: a leap second is counted as the second after it.
    pub open spec fn counted_on(self) -> int {
        if self.lag > 0 {
            self.at - self.lag + SECOND
        } else {
            self.at
        }
    }

    /// Whether this is `other`, or comes before it.
    pub open spec fn not_after(self, other: MomentModel) -> bool {
        self.at < other.at || self.at == other.at && self.lag >= other.lag
    }

    /// The second of the day, of which a leap second is a part of the second before it.
    pub open spec fn second_of_day(self) -> int {
        if self.lag > 0 {
            (self.at / (SECOND as int) - 1) % 86_400
        } else {
            (self.at / (SECOND as int)) % 86_400
        }
    }

    /// The instant `span` nanoseconds later, where `span` is 0 or a second at least: beyond a leap
    /// second none is counted.
    pub open spec fn moved(self, span: int) -> MomentModel {
        if span > 0 {
            MomentModel::plain(self.counted_back() + span)
        } else if span < 0 {
            MomentModel::plain(self.counted_on() + span)
        } else {
            self
        }
    }

    /// The nanoseconds from `other` to this instant. The leap second of the one that comes earlier
    /// in its day is counted where it lies between both, by their times of day.
    pub open spec fn since(self, other: MomentModel) -> int {
        if self.second_of_day() > other.second_of_day() {
            self.counted_on() - other.counted_back()
        } else if self.second_of_day() < other.second_of_day() {
            self.counted_back() - other.counted_on()
        } else {
            self.counted_on() - other.counted_on()
        }
    }
}

impl Moment {
    /// Whether this instant lies within the range of calendar dates.
    pub open spec fn in_range(self) -> bool {
        in_calendar(self@.at) && self@.lag <= SECOND
    }

    /// Whether this instant is far from the limits of the machine's integers.
    pub open spec fn measurable(self) -> bool {
        &&& -0x100_0000_0000_0000_0000_0000_0000_0000 <= self@.at
        &&& self@.at <= 0x100_0000_0000_0000_0000_0000_0000_0000
        &&& self@.lag <= SECOND
    }

    /// The instant `secs` whole seconds and `nanos` nanoseconds after the epoch, where a second or
    /// more of nanoseconds reaches into a leap second.
    pub fn from_unix(secs: i64, nanos: u32) -> (r: Moment)
        requires
            nanos < 2_000_000_000,
        ensures
            r@ == moment_of(secs as int, nanos as int),
    {
        if nanos < 1_000_000_000 {
            Moment::plain(UtcTime::from_unix(secs, nanos))
        } else {
            Moment {
                time: UtcTime { nanos: (secs as i128 + 1) * SECOND },
                lag: 2_000_000_000 - nanos,
            }
        }
    }

    /// The instant `time`, outside leap seconds.
    pub fn plain(time: UtcTime) -> (r: Moment)
        ensures
            r@ == MomentModel::plain(time@),
    {
        Moment { time, lag: 0 }
    }

    fn second_of_day(self) -> (r: i128)
        requires
            self.measurable(),
        ensures
            r == self@.second_of_day(),
    {
        let second: i128 = floor_div(self.time.nanos, SECOND);
        let own: i128 = if self.lag > 0 {
            second - 1
        } else {
            second
        };
        own - floor_div(own, 86_400) * 86_400
    }

    /// The instant by the seconds before it: a leap second is counted as the second before it.
    pub(crate) fn counted_back(self) -> (r: i128)
        requires
            self.measurable(),
        ensures
            r == self@.counted_back(),
    {
        self.time.nanos - self.lag as i128
    }

    fn counted_on(self) -> (r: i128)
        requires
            self.measurable(),
        ensures
            r == self@.counted_on(),
    {
        if self.lag > 0 {
            self.time.nanos - self.lag as i128 + SECOND
        } else {
            self.time.nanos
        }
    }

    /// Whether this is `other`, or comes before it.
    pub fn not_after(self, other: Moment) -> (r: bool)
        ensures
            r == self@.not_after(other@),
    {
        self.time.nanos < other.time.nanos || self.time.nanos == other.time.nanos && self.lag
            >= other.lag
    }

    /// `minutes` after this instant; before it where `minutes` is negative.
    pub fn plus_minutes(self, minutes: i64) -> (r: Moment)
        requires
            self.measurable(),
        ensures
            r@ == self@.moved(minutes * MINUTE),
            r.lag > 0 ==> r == self,
    {
        if minutes > 0 {
            Moment::plain(UtcTime { nanos: self.counted_back() + minutes as i128 * MINUTE })
        } else if minutes < 0 {
            Moment::plain(UtcTime { nanos: self.counted_on() + minutes as i128 * MINUTE })
        } else {
            self
        }
    }

    /// `minutes` before this instant; after it where `minutes` is negative.
    pub fn minus_minutes(self, minutes: i64) -> (r: Moment)
        requires
            self.measurable(),
        ensures
            r@ == self@.moved(-(minutes * MINUTE)),
            r.lag > 0 ==> r == self,
    {
        if minutes > 0 {
            Moment::plain(UtcTime { nanos: self.counted_on() - minutes as i128 * MINUTE })
        } else if minutes < 0 {
            Moment::plain(UtcTime { nanos: self.counted_back() - minutes as i128 * MINUTE })
        } else {
            self
        }
    }

    /// The nanoseconds from `other` to this instant.
    pub fn since(self, other: Moment) -> (r: i128)
        requires
            self.measurable(),
            other.measurable(),
        ensures
            r == self@.since(other@),
    {
        let own: i128 = self.second_of_day();
        let its: i128 = other.second_of_day();
        if own > its {
            self.counted_on() - other.counted_back()
        } else if own < its {
            self.counted_back() - other.counted_on()
        } else {
            self.counted_on() - other.counted_on()
        }
    }
}

/// Between instants outside leap seconds the time that passes is the difference of their counts.
pub proof fn law_plain_moments_are_counted(a: int, b: int, span: int)
    ensures
        MomentModel::plain(a).since(MomentModel::plain(b)) == a - b,
        MomentModel::plain(a).moved(span) == MomentModel::plain(a + span),
{
}

/// A calendar date, counted in days from 0001-01-01, which is day 1.
#[derive(Debug, Clone, Copy, PartialEq, Eq, PartialOrd, Ord, Hash, Structural)]
pub struct CalendarDate {
    pub days_from_ce: i32,
}

impl View for CalendarDate {
    type V = int;

    open spec fn view(&self) -> int {
        self.days_from_ce as int
    }
}

/// Midnight at the beginning of a day, read off a clock.
pub open spec fn midnight(day: int) -> int {
    (day - EPOCH_DAY) * DAY
}

/// Whether a point in time falls on a day whose number has at most 33 bits: every date's does.
pub open spec fn on_a_day(t: int) -> bool {
    midnight(-0x1_0000_0000) <= t <= midnight(0x1_0000_0000)
}

/// A reading of a wall clock: the instant at which a UTC clock shows it.
#[derive(Debug, Clone, Copy, PartialEq, Eq, PartialOrd, Ord, Hash, Structural)]
pub struct LocalTime {
    pub nanos: i128,
}

impl View for LocalTime {
    type V = int;

    open spec fn view(&self) -> int {
        self.nanos as int
    }
}

impl LocalTime {
    /// Whether the reading falls on a day of the calendar.
    pub open spec fn in_range(self) -> bool {
        on_a_day(self@)
    }
}

/// A length of time in nanoseconds.
#[derive(Debug, Clone, Copy, PartialEq, Eq, PartialOrd, Ord, Hash, Structural)]
pub struct TimeSpan {
    pub nanos: u128,
}

impl View for TimeSpan {
    type V = nat;

    open spec fn view(&self) -> nat {
        self.nanos as nat
    }
}

impl TimeSpan {
    /// `secs` seconds.
    pub fn from_secs(secs: u64) -> (r: TimeSpan)
        ensures
            r@ == secs * SECOND,
    {
        TimeSpan { nanos: secs as u128 * 1_000_000_000 }
    }

    /// `millis` thousandths of a second.
    pub fn from_millis(millis: u64) -> (r: TimeSpan)
        ensures
            r@ == millis * 1_000_000,
    {
        TimeSpan { nanos: millis as u128 * 1_000_000 }
    }
}

/// [`chrono::Utc::now`]: the time of the machine's clock, in whole seconds since the epoch and
/// nanoseconds of the second. Nothing is claimed of it but that it lies within the calendar, and not
/// in a leap second, which that clock does not know. A clock that is set before 1970 makes it panic.
#[verifier::external_body]
fn clock_reading() -> (r: (i64, u32))
    ensures
        -CALENDAR_SECS <= r.0 <= CALENDAR_SECS,
        r.1 < 1_000_000_000,
{
    let now = chrono::Utc::now();
    (now.timestamp(), now.timestamp_subsec_nanos())
}

/// The current time.
pub fn utc_now() -> (r: UtcTime)
    ensures
        r.in_range(),
{
    let (secs, nanos): (i64, u32) = clock_reading();
    UtcTime::from_unix(secs, nanos)
}

/// A minute has 60 seconds of a thousand million nanoseconds, an hour 60 minutes, a day 24 hours, and
/// a week seven days.
pub proof fn law_units_of_time()
    ensures
        SECOND == 1_000_000_000,
        MINUTE == 60 * SECOND,
        HOUR == 60 * MINUTE,
        DAY == 24 * HOUR,
        WEEK == 7 * DAY,
{
}

/// An instant outside leap seconds counts its nanoseconds since the epoch; one in a leap second lies
/// as far before the second that follows as the leap second has still to go. Of two instants, the one
/// with the smaller second comes first, and in one second that with fewer nanoseconds.
pub proof fn law_parts_make_an_instant(secs: int, nanos: int, other_secs: int, other_nanos: int)
    requires
        0 <= nanos < 2_000_000_000,
        0 <= other_nanos < 2_000_000_000,
    ensures
        joined_parts(secs, nanos) == secs * 1_000_000_000 + nanos,
        nanos < 1_000_000_000 ==> moment_of(secs, nanos).at == secs * 1_000_000_000 + nanos
            && moment_of(secs, nanos).lag == 0,
        nanos >= 1_000_000_000 ==> moment_of(secs, nanos).at == secs * 1_000_000_000
            + 1_000_000_000 && moment_of(secs, nanos).lag == 2_000_000_000 - nanos,
        moment_of(secs, nanos).not_after(moment_of(other_secs, other_nanos)) <==> (secs < other_secs
            || secs == other_secs && nanos <= other_nanos),
{
}

/// Time is added to an instant outside leap seconds as to its count of nanoseconds. An instant in a
/// leap second goes by the second before it where the sum lies later, and by the second after it
/// where it lies earlier.
pub proof fn law_moved_moment(t: MomentModel, span: int)
    requires
        0 <= t.lag <= 1_000_000_000,
    ensures
        t.lag == 0 ==> t.moved(span).at == t.at + span && t.moved(span).lag == 0,
        t.moved(0) == t,
        t.lag > 0 && span > 0 ==> t.moved(span).at == t.at - t.lag + span && t.moved(span).lag == 0,
        t.lag > 0 && span < 0 ==> t.moved(span).at == t.at - t.lag + 1_000_000_000 + span
            && t.moved(span).lag == 0,
{
}

/// The time from one instant to another is the opposite of the time back. Between instants outside
/// leap seconds it is the difference of their counts, and so it is within one leap second. From an
/// instant in a leap second to one outside, the rest of the leap second counts where the other comes
/// later in its day, and the leap second is left out where it does not.
pub proof fn law_time_between(a: MomentModel, b: MomentModel)
    requires
        0 <= a.lag <= 1_000_000_000,
        0 <= b.lag <= 1_000_000_000,
        a.lag > 0 ==> a.at % 1_000_000_000 == 0,
        b.lag > 0 ==> b.at % 1_000_000_000 == 0,
    ensures
        a.since(b) == -b.since(a),
        a.lag == 0 && b.lag == 0 ==> a.since(b) == a.at - b.at,
        a.lag > 0 && b.lag > 0 ==> a.since(b) == a.at - a.lag - (b.at - b.lag) + if (a.at
            / 1_000_000_000) % 86_400 == (b.at / 1_000_000_000) % 86_400 {
            0int
        } else if (a.at / 1_000_000_000 - 1) % 86_400 > (b.at / 1_000_000_000 - 1) % 86_400 {
            1_000_000_000
        } else {
            -1_000_000_000
        },
        a.lag == 0 && b.lag > 0 ==> a.since(b) == a.at - (b.at - b.lag) - if (a.at / 1_000_000_000)
            % 86_400 > (b.at / 1_000_000_000 - 1) % 86_400 {
            0int
        } else {
            1_000_000_000
        },
{
}

/// The date of an instant is the day whose midnight is the last that is not after it; days are 24
/// hours apart, and 1970-01-01 is day 719,163.
pub proof fn law_date_of_an_instant(t: UtcTime)
    ensures
        midnight(t.day()) <= t@ < midnight(t.day() + 1),
        midnight(t.day() + 1) - midnight(t.day()) == 86_400_000_000_000,
        midnight(719_163) == 0,
{
}

/// Instants, readings and spans are counted in nanoseconds, and dates in days. The calendar reaches
/// nine million million seconds before and after the epoch; minutes can be counted much farther.
pub proof fn law_counts_of_time(t: UtcTime, m: Moment, d: CalendarDate, l: LocalTime, s: TimeSpan)
    ensures
        t@ == t.nanos,
        m@.at == m.time.nanos && m@.lag == m.lag,
        d@ == d.days_from_ce,
        l@ == l.nanos,
        s@ == s.nanos,
        -9_000_000_000_000_000_000_000 <= t.nanos <= 9_000_000_000_002_000_000_000 <==> t.in_range(),
        in_calendar(t@) <==> t.in_range(),
        m.in_range() <==> in_calendar(m.time.nanos as int) && m.lag <= 1_000_000_000,
        countable(t@) <==> -0x4000_0000_0000_0000_0000_0000 <= t.nanos
            <= 0x4000_0000_0000_0000_0000_0000,
        m.measurable() <==> {
            &&& -0x100_0000_0000_0000_0000_0000_0000_0000 <= m.time.nanos
                <= 0x100_0000_0000_0000_0000_0000_0000_0000
            &&& m.lag <= 1_000_000_000
        },
        l.in_range() <==> {
            &&& (-0x1_0000_0000 - 719_163) * 86_400_000_000_000 <= l.nanos
            &&& l.nanos <= (0x1_0000_0000 - 719_163) * 86_400_000_000_000
        },
{
}

} // verus!
