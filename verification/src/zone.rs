//! Time zones of calendar sources: from wall-clock readings to instants.

use crate::time::{floor_div, joined_parts, midnight, moment_of, on_a_day, CalendarDate, LocalTime};
use crate::time::{Moment, MomentModel, UtcTime, CALENDAR_SECS, DAY, EPOCH_DAY, HOUR, SECOND};
use crate::views::{option_view, views};
use chrono::TimeZone;
use vstd::prelude::*;

verus! {

/// Whether the time zone database has a zone of this name.
pub uninterp spec fn known_zone(name: Seq<char>) -> bool;

/// The instants at which the clocks of the zone show a reading, as whole seconds since the epoch
/// and nanoseconds of the second: none, one, or the earlier and the later of two.
pub uninterp spec fn zone_readings(zone: Seq<char>, secs: int, nanos: int) -> Seq<(int, int)>;

/// Parsing a [`chrono_tz::Tz`] from its name: whether the database that the crate holds has it.
#[verifier::external_body]
fn zone_exists(name: &str) -> (r: bool)
    ensures
        r == known_zone(name@),
{
    name.parse::<chrono_tz::Tz>().is_ok()
}

/// [`chrono::TimeZone::from_local_datetime`] for the zone of that name: the instants at which its
/// clocks show the reading, at most two, the earlier first, with the nanoseconds of the reading, which
/// in a leap second count beyond a thousand million. There is none in a gap, for a reading outside the
/// calendar, and for a name that the database lacks.
#[verifier::external_body]
fn local_readings(zone: &str, secs: i64, nanos: u32) -> (r: Vec<(i64, u32)>)
    ensures
        zone_readings(zone@, secs as int, nanos as int) == Seq::new(
            r@.len(),
            |i: int| (r@[i].0 as int, r@[i].1 as int),
        ),
        r@.len() <= 2,
        r@.len() == 2 ==> r@[0].0 < r@[1].0,
        forall|i: int|
            0 <= i < r@.len() ==> -CALENDAR_SECS <= (#[trigger] r@[i]).0 <= CALENDAR_SECS && r@[i].1
                == nanos,
{
    let reading = chrono::DateTime::from_timestamp(secs, nanos).map(|t| t.naive_utc());
    match (zone.parse::<chrono_tz::Tz>(), reading) {
        (Ok(tz), Some(local)) => match tz.from_local_datetime(&local) {
            chrono::LocalResult::None => Vec::new(),
            chrono::LocalResult::Single(t) => vec![(t.timestamp(), t.timestamp_subsec_nanos())],
            chrono::LocalResult::Ambiguous(t, u) => vec![
                (t.timestamp(), t.timestamp_subsec_nanos()),
                (u.timestamp(), u.timestamp_subsec_nanos()),
            ],
        },
        _ => Vec::new(),
    }
}

/// A time zone of the database, by its name (such as `America/New_York`).
#[derive(Debug, PartialEq, Eq)]
pub struct SourceZone {
    name: String,
}

impl View for SourceZone {
    type V = Seq<char>;

    closed spec fn view(&self) -> Seq<char> {
        self.name@
    }
}

impl Clone for SourceZone {
    fn clone(&self) -> (r: Self)
        ensures
            r@ == self@,
    {
        SourceZone { name: self.name.clone() }
    }
}

impl SourceZone {
    /// The zone of that name, if the database has one.
    pub fn from_name(name: &str) -> (r: Option<SourceZone>)
        ensures
            r is Some <==> known_zone(name@),
            r matches Some(z) ==> z@ == name@,
    {
        if zone_exists(name) {
            Some(SourceZone { name: name.to_string() })
        } else {
            None
        }
    }

    /// The zone's name.
    pub fn name(&self) -> (r: &str)
        ensures
            r@ == self@,
    {
        self.name.as_str()
    }

    /// The instants at which the zone's clocks show `local`, the earlier first.
    pub(crate) fn instants(&self, local: LocalTime) -> (r: Vec<UtcTime>)
        requires
            midnight(-0x1_0000_0000) <= local@ <= midnight(0x1_0000_0000) + HOUR,
        ensures
            views(r@) == zone_instants(self@, local@),
            forall|i: int| 0 <= i < r@.len() ==> (#[trigger] r@[i]).in_range(),
            forall|i: int| 0 <= i < r@.len() ==> r@[0]@ <= (#[trigger] r@[i])@,
    {
        let secs: i128 = floor_div(local.nanos, SECOND);
        let nanos: i128 = local.nanos - secs * SECOND;
        let mut found: Vec<UtcTime> = Vec::new();
        if i64::MIN as i128 <= secs && secs <= i64::MAX as i128 {
            let readings: Vec<(i64, u32)> = local_readings(
                self.name.as_str(),
                secs as i64,
                nanos as u32,
            );
            let mut i: usize = 0;
            while i < readings.len()
                invariant
                    i <= readings.len(),
                    found@.len() == i,
                    forall|k: int|
                        0 <= k < i ==> (#[trigger] found@[k])@ == joined_parts(
                            readings@[k].0 as int,
                            readings@[k].1 as int,
                        ),
                    forall|k: int| 0 <= k < found@.len() ==> (#[trigger] found@[k]).in_range(),
                    forall|k: int|
                        0 <= k < readings@.len() ==> -CALENDAR_SECS <= (
                        #[trigger] readings@[k]).0 <= CALENDAR_SECS && readings@[k].1 == nanos,
                    nanos < SECOND,
                decreases readings.len() - i,
            {
                let (s, n): (i64, u32) = readings[i];
                found.push(UtcTime::from_unix(s, n));
                i = i + 1;
            }
            assert(views(found@) =~= zone_instants(self@, local@));
        }
        found
    }
}

/// The instants at which the clocks of `zone` show `local`, the earlier first. A reading whose
/// seconds no `i64` holds is never shown.
pub open spec fn zone_instants(zone: Seq<char>, local: int) -> Seq<int> {
    let secs = local / (SECOND as int);
    if i64::MIN <= secs <= i64::MAX {
        let readings = zone_readings(zone, secs, local % (SECOND as int));
        Seq::new(readings.len(), |i: int| joined_parts(readings[i].0, readings[i].1))
    } else {
        Seq::empty()
    }
}

/// The instant meant by a reading that the clocks show at the instants `shown`, and that an hour
/// later show at `shown_later`: the earliest of the former, else the earliest of the latter.
pub open spec fn earliest_shown(shown: Seq<int>, shown_later: Seq<int>) -> Option<int> {
    if shown.len() > 0 {
        Some(shown[0])
    } else if shown_later.len() > 0 {
        Some(shown_later[0])
    } else {
        None
    }
}

/// The instant that the reading `local` means: a UTC reading where no zone is given, else the
/// earliest instant at which the zone's clocks show it, or, in the gap that clocks skip when they
/// spring forward, the reading one hour later.
pub open spec fn resolved(zone: Option<Seq<char>>, local: int) -> Option<int> {
    match zone {
        None => Some(local),
        Some(z) => earliest_shown(zone_instants(z, local), zone_instants(z, local + HOUR)),
    }
}

/// The first of `shown`, else the first of `shown_later`.
pub fn pick_instant(shown: &Vec<UtcTime>, shown_later: &Vec<UtcTime>) -> (r: Option<UtcTime>)
    ensures
        option_view(r) == earliest_shown(
            views(shown@),
            views(shown_later@),
        ),
        r matches Some(t) ==> shown@.contains(t) || shown_later@.contains(t),
{
    if shown.len() > 0 {
        assert(shown@[0] == shown@[0]);
        Some(shown[0])
    } else if shown_later.len() > 0 {
        assert(shown_later@[0] == shown_later@[0]);
        Some(shown_later[0])
    } else {
        None
    }
}

/// The same zone once more.
pub(crate) fn clone_zone(zone: &Option<SourceZone>) -> (r: Option<SourceZone>)
    ensures
        zone_view(r) == zone_view(*zone),
{
    match zone {
        Some(z) => Some(z.clone()),
        None => None,
    }
}

/// The zone of `zone` by its name.
pub open spec fn zone_view(zone: Option<SourceZone>) -> Option<Seq<char>> {
    option_view(zone)
}

/// The instant that a wall-clock reading means in `zone`, or in UTC where there is none.
pub fn resolve_local(local: LocalTime, zone: &Option<SourceZone>) -> (r: Option<UtcTime>)
    requires
        local.in_range(),
    ensures
        option_view(r) == resolved(zone_view(*zone), local@),
        *zone is Some ==> (r matches Some(t) ==> t.in_range()),
        r matches Some(t) ==> on_a_day(t@),
        // Of two instants at which the clocks show the reading, the earlier.
        r matches Some(t) ==> (zone_view(*zone) matches Some(z) ==> forall|i: int|
            0 <= i < zone_instants(z, local@).len() ==> t@ <= #[trigger] zone_instants(
                z,
                local@,
            )[i]),
{
    match zone {
        None => Some(UtcTime { nanos: local.nanos }),
        Some(z) => {
            let shown: Vec<UtcTime> = z.instants(local);
            let shown_later: Vec<UtcTime> = z.instants(LocalTime { nanos: local.nanos + HOUR });
            pick_instant(&shown, &shown_later)
        },
    }
}

/// The instant that a wall-clock reading means, given by its parts, as [`resolved`] has it of a
/// reading outside leap seconds: a reading in a leap second means one too, but in a gap.
pub open spec fn meant(zone: Option<Seq<char>>, secs: int, nanos: int) -> Option<MomentModel> {
    match zone {
        None => Some(moment_of(secs, nanos)),
        Some(z) => {
            let shown = zone_readings(z, secs, nanos);
            let later = zone_instants(z, moment_of(secs, nanos).counted_back() + HOUR);
            if shown.len() > 0 {
                Some(moment_of(shown[0].0, shown[0].1))
            } else if later.len() > 0 {
                Some(MomentModel::plain(later[0]))
            } else {
                None
            }
        },
    }
}

/// The instant that a wall-clock reading means in `zone`, or in UTC where there is none. The reading
/// is given by its whole seconds and its nanoseconds.
pub fn resolve_reading(secs: i64, nanos: u32, zone: &Option<SourceZone>) -> (r: Option<Moment>)
    requires
        -CALENDAR_SECS <= secs <= CALENDAR_SECS,
        nanos < 2_000_000_000,
    ensures
        option_view(r) == meant(zone_view(*zone), secs as int, nanos as int),
        r matches Some(t) ==> t.in_range(),
        // One of the instants at which the clocks show the reading, and the earliest of them.
        zone_view(*zone) matches Some(z) ==> zone_readings(z, secs as int, nanos as int).len() > 0
            ==> r is Some && (exists|i: int|
            0 <= i < zone_readings(z, secs as int, nanos as int).len() && r->Some_0@ == moment_of(
                (#[trigger] zone_readings(z, secs as int, nanos as int)[i]).0,
                nanos as int,
            )) && forall|i: int|
            0 <= i < zone_readings(z, secs as int, nanos as int).len() ==> r->Some_0@.not_after(
                moment_of(
                    (#[trigger] zone_readings(z, secs as int, nanos as int)[i]).0,
                    nanos as int,
                ),
            ),
{
    let reading: Moment = Moment::from_unix(secs, nanos);
    match zone {
        None => Some(reading),
        Some(z) => {
            let shown: Vec<(i64, u32)> = local_readings(z.name.as_str(), secs, nanos);
            if shown.len() > 0 {
                let (s, n): (i64, u32) = shown[0];
                proof {
                    let named = zone_readings(z@, secs as int, nanos as int);
                    assert(named.len() == shown@.len());
                    assert forall|i: int| 0 <= i < named.len() implies (#[trigger] named[i]).0
                        == shown@[i].0 && s <= named[i].0 by {}
                    assert(named[0].0 == s && n == nanos);
                }
                return Some(Moment::from_unix(s, n));
            }
            let shown_later: Vec<UtcTime> = z.instants(
                LocalTime { nanos: reading.counted_back() + HOUR },
            );
            if shown_later.len() > 0 {
                Some(Moment::plain(shown_later[0]))
            } else {
                None
            }
        },
    }
}

/// The instant at which a day begins in `zone`, or in UTC where there is none: midnight, or one
/// o'clock where clocks skip midnight.
pub open spec fn day_start(day: int, zone: Option<Seq<char>>) -> Option<int> {
    resolved(zone, midnight(day))
}

/// The instant at which the date begins in `default_tz`, or in UTC where there is none.
pub fn date_to_utc_start(date: CalendarDate, default_tz: &Option<SourceZone>) -> (r: Option<UtcTime>)
    ensures
        option_view(r) == day_start(date@, zone_view(*default_tz)),
        r matches Some(t) ==> on_a_day(t@),
{
    day_to_utc_start(date.days_from_ce as i64, default_tz)
}

/// As [`date_to_utc_start`], for the number of any day.
pub(crate) fn day_to_utc_start(day: i64, default_tz: &Option<SourceZone>) -> (r: Option<UtcTime>)
    requires
        -0x1_0000_0000 <= day <= 0x1_0000_0000,
    ensures
        option_view(r) == day_start(day as int, zone_view(*default_tz)),
        r matches Some(t) ==> on_a_day(t@),
{
    resolve_local(LocalTime { nanos: (day as i128 - EPOCH_DAY) * DAY }, default_tz)
}

/// Whether the instants at which the clocks of a zone show a reading are given by their time, with
/// the nanoseconds of the reading.
pub open spec fn readings_in_order(readings: Seq<(int, int)>, nanos: int) -> bool {
    &&& forall|i: int, j: int|
        0 <= i < j < readings.len() ==> (#[trigger] readings[i]).0 < (#[trigger] readings[j]).0
    &&& forall|i: int| 0 <= i < readings.len() ==> (#[trigger] readings[i]).1 == nanos
}

/// Where a zone's clocks show a reading, the instant that the reading means is one of those at which
/// they show it, and the earliest of them.
pub proof fn law_reading_means_when_it_is_shown(zone: Seq<char>, secs: int, nanos: int)
    requires
        0 <= nanos < 2_000_000_000,
        zone_readings(zone, secs, nanos).len() > 0,
        readings_in_order(zone_readings(zone, secs, nanos), nanos),
    ensures
        ({
            let shown = zone_readings(zone, secs, nanos);
            &&& meant(Some(zone), secs, nanos) matches Some(t)
            &&& exists|i: int|
                0 <= i < shown.len() && t == moment_of((#[trigger] shown[i]).0, shown[i].1)
            &&& forall|i: int|
                0 <= i < shown.len() ==> t.not_after(moment_of((#[trigger] shown[i]).0, shown[i].1))
        }),
{
    let shown = zone_readings(zone, secs, nanos);
    assert(meant(Some(zone), secs, nanos) == Some(moment_of(shown[0].0, shown[0].1)));
    assert forall|i: int| 0 <= i < shown.len() implies moment_of(shown[0].0, shown[0].1).not_after(
        moment_of((#[trigger] shown[i]).0, shown[i].1),
    ) by {
        assert(shown[0].1 == nanos && shown[i].1 == nanos);
        if i > 0 {
            assert(shown[0].0 < shown[i].0);
        }
    }
}

/// A reading that a zone's clocks skip means the first instant at which they show the reading one
/// hour later, which is never taken for a leap second, and none if they skip that too.
pub proof fn law_skipped_reading_means_an_hour_later(zone: Seq<char>, secs: int, nanos: int)
    requires
        i64::MIN <= secs <= i64::MAX - 3600,
        0 <= nanos < 2_000_000_000,
        zone_readings(zone, secs, nanos).len() == 0,
    ensures
        ({
            let part = if nanos < 1_000_000_000 {
                nanos
            } else {
                nanos - 1_000_000_000
            };
            let later = zone_readings(zone, secs + 3600, part);
            &&& later.len() == 0 ==> meant(Some(zone), secs, nanos) is None
            &&& later.len() > 0 ==> meant(Some(zone), secs, nanos) == Some(
                MomentModel { at: later[0].0 * 1_000_000_000 + later[0].1, lag: 0 },
            )
        }),
{
    let part = if nanos < 1_000_000_000 {
        nanos
    } else {
        nanos - 1_000_000_000
    };
    let local = moment_of(secs, nanos).counted_back() + HOUR;
    assert(local == (secs + 3600) * 1_000_000_000 + part);
    assert(local / (SECOND as int) == secs + 3600 && local % (SECOND as int) == part);
}

/// Without a zone a reading is one of UTC, leap seconds included.
pub proof fn law_reading_without_a_zone_is_utc(secs: int, nanos: int, local: int, day: int)
    ensures
        meant(None, secs, nanos) == Some(moment_of(secs, nanos)),
        resolved(None, local) == Some(local),
        day_start(day, None) == Some((day - 719_163) * 86_400_000_000_000),
{
}

/// Outside leap seconds, a count of nanoseconds means what the reading means that it counts.
pub proof fn law_count_means_what_its_reading_means(
    zone: Option<Seq<char>>,
    secs: int,
    nanos: int,
)
    requires
        i64::MIN <= secs <= i64::MAX - 3600,
        0 <= nanos < 1_000_000_000,
        zone matches Some(z) ==> readings_in_order(zone_readings(z, secs, nanos), nanos),
    ensures
        ({
            let t = resolved(zone, secs * 1_000_000_000 + nanos);
            match meant(zone, secs, nanos) {
                Some(m) => m.lag == 0 && t == Some(m.at),
                None => t is None,
            }
        }),
{
    let local = secs * 1_000_000_000 + nanos;
    assert(local / (SECOND as int) == secs && local % (SECOND as int) == nanos);
    if let Some(z) = zone {
        let shown = zone_readings(z, secs, nanos);
        if shown.len() > 0 {
            assert(shown[0].1 == nanos);
            assert(zone_instants(z, local)[0] == joined_parts(shown[0].0, shown[0].1));
        }
    }
}

/// A day begins, in a zone, at the instant that its midnight means: the earliest at which the zone's
/// clocks show it, or one o'clock where they skip it.
pub proof fn law_day_begins_at_midnight(zone: Seq<char>, day: int)
    requires
        -0x1_0000_0000 <= day <= 0x1_0000_0000,
    ensures
        ({
            let secs = (day - 719_163) * 86_400;
            let shown = zone_readings(zone, secs, 0);
            let later = zone_readings(zone, secs + 3600, 0);
            &&& shown.len() > 0 ==> day_start(day, Some(zone)) == Some(
                shown[0].0 * 1_000_000_000 + shown[0].1,
            )
            &&& shown.len() == 0 && later.len() > 0 ==> day_start(day, Some(zone)) == Some(
                later[0].0 * 1_000_000_000 + later[0].1,
            )
            &&& shown.len() == 0 && later.len() == 0 ==> day_start(day, Some(zone)) is None
        }),
{
    let secs = (day - 719_163) * 86_400;
    let local = midnight(day);
    assert(local == secs * 1_000_000_000);
    assert(local / (SECOND as int) == secs && local % (SECOND as int) == 0);
    assert((local + HOUR) / (SECOND as int) == secs + 3600 && (local + HOUR) % (SECOND as int) == 0);
}

/// Of the instants at which a reading is shown the first is taken, and of those an hour later only
/// where there is none.
pub proof fn law_first_shown_is_taken(shown: Seq<int>, shown_later: Seq<int>)
    ensures
        shown.len() > 0 ==> earliest_shown(shown, shown_later) == Some(shown[0]),
        shown.len() == 0 && shown_later.len() > 0 ==> earliest_shown(shown, shown_later) == Some(
            shown_later[0],
        ),
        shown.len() == 0 && shown_later.len() == 0 ==> earliest_shown(shown, shown_later) is None,
{
}

/// A zone shows its name.
pub proof fn law_zone_by_name(zone: SourceZone)
    ensures
        zone_view(Some(zone)) == Some(zone@),
        zone_view(None) is None,
{
}

/// The instants at which clocks show a count of nanoseconds are those at which they show the reading
/// that it counts, in the same order, and there are none where no `i64` holds its seconds.
pub proof fn law_counts_are_shown_as_readings(zone: Seq<char>, secs: int, nanos: int, i: int)
    requires
        0 <= nanos < 1_000_000_000,
    ensures
        ({
            let shown = zone_readings(zone, secs, nanos);
            let instants = zone_instants(zone, secs * 1_000_000_000 + nanos);
            &&& i64::MIN <= secs <= i64::MAX ==> instants.len() == shown.len()
            &&& i64::MIN <= secs <= i64::MAX && 0 <= i < shown.len() ==> instants[i] == shown[i].0
                * 1_000_000_000 + shown[i].1
            &&& secs < i64::MIN || secs > i64::MAX ==> instants.len() == 0
        }),
{
    let local = secs * 1_000_000_000 + nanos;
    assert(local / (SECOND as int) == secs && local % (SECOND as int) == nanos);
}

} // verus!
