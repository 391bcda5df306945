//! The calendar and the clock, as `jiff` keeps them: the dates it accepts,
//! the days it adds, the zones it loads and the local time it gives an
//! instant in a zone. Everything here calls `jiff`; what its documentation
//! promises is stated, and what rests on the system tz database or the
//! clock is left unsaid.

use vstd::prelude::*;
use vstd::utf8::valid_utf8;

verus! {

#[verifier::external_type_specification]
#[verifier::external_body]
pub struct ExTimeZone(jiff::tz::TimeZone);

pub open spec fn is_leap(y: int) -> bool {
    y % 4 == 0 && (y % 100 != 0 || y % 400 == 0)
}

pub open spec fn month_days(y: int, m: int) -> int {
    if m == 2 {
        if is_leap(y) {
            29
        } else {
            28
        }
    } else if m == 4 || m == 6 || m == 9 || m == 11 {
        30
    } else {
        31
    }
}

/// A date `jiff` accepts: year `-9999..=9999`, month `1..=12`, and a day
/// the month has.
pub open spec fn valid_date(y: int, m: int, d: int) -> bool {
    -9999 <= y <= 9999 && 1 <= m <= 12 && 1 <= d <= month_days(y, m)
}

/// Days from 1970-01-01 to a date of the proleptic Gregorian calendar.
pub open spec fn days_from_civil(y: int, m: int, d: int) -> int {
    let y2 = if m <= 2 {
        y - 1
    } else {
        y
    };
    let era = y2 / 400;
    let yoe = y2 - era * 400;
    let mp = if m > 2 {
        m - 3
    } else {
        m + 9
    };
    let doy = (153 * mp + 2) / 5 + d - 1;
    let doe = yoe * 365 + yoe / 4 - yoe / 100 + doy;
    era * 146097 + doe - 719468
}

/// The date `n` days after a date: the date the calendar has whose day
/// count is `n` more, when the first is one it has and there is such a
/// date; none otherwise.
#[verifier::opaque]
pub open spec fn date_plus_days(y: int, m: int, d: int, n: int) -> Option<(int, int, int)> {
    if valid_date(y, m, d) && exists|t: (int, int, int)|
        valid_date(t.0, t.1, t.2) && #[trigger] days_from_civil(t.0, t.1, t.2) == days_from_civil(y, m, d) + n {
        Some(
            choose|t: (int, int, int)|
                valid_date(t.0, t.1, t.2) && #[trigger] days_from_civil(t.0, t.1, t.2) == days_from_civil(y, m, d) + n,
        )
    } else {
        None
    }
}

pub open spec fn date_view(r: Option<(i16, i8, i8)>) -> Option<(int, int, int)> {
    match r {
        Some((y, m, d)) => Some((y as int, m as int, d as int)),
        None => None,
    }
}

/// The date `n` days after `y-m-d`: `jiff::civil::Date::new`, then
/// `Date::checked_add` with a span of `n` days made by `Span::try_days`.
/// None when the date is not one the calendar has, when `n` is beyond what a
/// span holds, or when the result would leave the years `-9999..=9999`.
/// Claimed: the result is the date whose day count is `n` more (a span of
/// days holds the whole calendar, so only the calendar's ends refuse one),
/// and a valid date with `n == 0` comes back as it went in.
#[verifier::external_body]
pub(crate) fn add_days(y: i16, m: i8, d: i8, n: i64) -> (r: Option<(i16, i8, i8)>)
    ensures
        date_view(r) == date_plus_days(y as int, m as int, d as int, n as int),
        !valid_date(y as int, m as int, d as int) ==> r is None,
        r matches Some((y2, m2, d2)) ==> valid_date(y2 as int, m2 as int, d2 as int) && days_from_civil(
            y2 as int,
            m2 as int,
            d2 as int,
        ) == days_from_civil(y as int, m as int, d as int) + n,
        valid_date(y as int, m as int, d as int) && n == 0 ==> r == Some((y, m, d)),
{
    let date = jiff::civil::Date::new(y, m, d).ok()?;
    let span = jiff::Span::new().try_days(n).ok()?;
    let r = date.checked_add(span).ok()?;
    Some((r.year(), r.month(), r.day()))
}

/// Seconds from 1970-01-01T00:00:00 to a wall clock, its hours, minutes
/// and seconds counted on from midnight: `24:00` is the next midnight and a
/// `:60` second the next minute.
pub open spec fn wall_seconds(y: int, m: int, d: int, h: int, mi: int, s: int) -> int {
    days_from_civil(y, m, d) * 86400 + h * 3600 + mi * 60 + s
}

/// The last second of the last day `jiff` has: 9999-12-31T23:59:59.
pub open spec fn last_wall_second() -> int {
    253402300799
}

/// The instants `jiff` holds, in nanoseconds since the Unix epoch: from
/// `Timestamp::MIN` to `Timestamp::MAX`.
pub open spec fn instant_in_range(i: int) -> bool {
    -377705023201 * 1_000_000_000 <= i <= 253402207200 * 1_000_000_000 + 999_999_999
}

/// The instant a wall clock names at a fixed offset from UTC, in
/// nanoseconds since the Unix epoch.
pub open spec fn offset_instant(y: int, m: int, d: int, h: int, mi: int, s: int, ns: int, off: int) -> int {
    (wall_seconds(y, m, d, h, mi, s) - off) * 1_000_000_000 + ns
}

/// `jiff` holds the wall clock and the instant it names at a fixed offset:
/// a date the calendar has, a clock that does not run past
/// 9999-12-31T23:59:59, and an instant within range.
pub open spec fn offset_instant_ok(y: int, m: int, d: int, h: int, mi: int, s: int, ns: int, off: int) -> bool {
    &&& valid_date(y, m, d)
    &&& wall_seconds(y, m, d, h, mi, s) <= last_wall_second()
    &&& instant_in_range(offset_instant(y, m, d, h, mi, s, ns, off))
}

/// A zone `jiff` loaded, with where it came from: the name it was loaded
/// under, or the fixed offset it was made at.
pub struct Zone {
    tz: jiff::tz::TimeZone,
    name: Ghost<Option<Seq<char>>>,
    fixed: Ghost<Option<int>>,
}

/// The name a zone was loaded under, if it was loaded by name.
pub closed spec fn zone_name(z: Zone) -> Option<Seq<char>> {
    z.name@
}

/// The offset a zone was made at, if it was made at a fixed one.
pub closed spec fn zone_fixed_at(z: Zone) -> Option<int> {
    z.fixed@
}

/// `UTC`, in any case.
pub open spec fn names_utc(n: Seq<char>) -> bool {
    n.len() == 3 && (n[0] == 'u' || n[0] == 'U') && (n[1] == 't' || n[1] == 'T') && (n[2] == 'c' || n[2]
        == 'C')
}

/// The zone is UTC: made at offset zero, or loaded under the name `UTC`,
/// which `jiff`'s database always gives as `TimeZone::UTC`.
pub open spec fn zone_is_utc(z: Zone) -> bool {
    zone_fixed_at(z) == Some(0int) || (zone_name(z) matches Some(n) && names_utc(n))
}

/// The one offset a zone is always at, when it is known to be fixed.
pub open spec fn zone_known_offset(z: Zone) -> Option<int> {
    if zone_is_utc(z) {
        Some(0)
    } else {
        zone_fixed_at(z)
    }
}

/// An instant `jiff` gave, in nanoseconds since the Unix epoch, with the
/// zone its wall clock was read in, if it was read in one rather than at a
/// fixed offset.
pub struct Instant {
    nanos: i128,
    read_in: Ghost<Option<Zone>>,
}

/// The instant, in nanoseconds since the Unix epoch.
pub closed spec fn instant_nanos(i: Instant) -> int {
    i.nanos as int
}

/// The zone the instant's wall clock was read in.
pub closed spec fn instant_zone(i: Instant) -> Option<Zone> {
    i.read_in@
}

/// The instant a wall clock names at a fixed offset: `Date::new`, `Date::at`
/// midnight with the nanoseconds, `DateTime::checked_add` of the hours,
/// minutes and seconds, then `Offset::from_seconds` and
/// `Offset::to_timestamp`, as nanoseconds (`Timestamp::as_nanosecond`).
/// Claimed: there is one exactly when the date is one the calendar has, the
/// clock does not run past 9999-12-31T23:59:59, and the instant is within
/// `jiff`'s range; and it is the wall clock less the offset, read in no
/// zone.
#[verifier::external_body]
pub(crate) fn instant_at_offset(
    y: i16,
    m: i8,
    d: i8,
    hour: i8,
    minute: i8,
    second: i8,
    nanos: i32,
    off: i32,
) -> (r: Option<Instant>)
    requires
        0 <= hour <= 24,
        0 <= minute <= 59,
        0 <= second <= 60,
        0 <= nanos <= 999_999_999,
        -93599 <= off <= 93599,
    ensures
        r is Some <==> offset_instant_ok(y as int, m as int, d as int, hour as int, minute as int, second as int, nanos as int, off as int),
        r matches Some(i) ==> instant_nanos(i) == offset_instant(y as int, m as int, d as int, hour as int, minute as int, second as int, nanos as int, off as int) && instant_zone(i) is None,
{
    let date = jiff::civil::Date::new(y, m, d).ok()?;
    let span = jiff::Span::new().hours(hour).minutes(minute).seconds(second);
    let dt = date.at(0, 0, 0, nanos).checked_add(span).ok()?;
    let offset = jiff::tz::Offset::from_seconds(off).ok()?;
    Some(Instant { nanos: offset.to_timestamp(dt).ok()?.as_nanosecond(), read_in: Ghost(None) })
}

/// A wall clock `jiff` holds, far enough inside its range that the instant
/// it names at any offset `jiff` allows is in range too.
pub open spec fn wall_in_margin(y: int, m: int, d: int, h: int, mi: int, s: int, ns: int) -> bool {
    &&& valid_date(y, m, d)
    &&& wall_seconds(y, m, d, h, mi, s) <= last_wall_second()
    &&& instant_in_range(offset_instant(y, m, d, h, mi, s, ns, 93599))
    &&& instant_in_range(offset_instant(y, m, d, h, mi, s, ns, -93599))
}

/// The instant a wall clock names in a zone: the same wall clock as
/// [`instant_at_offset`], then `DateTime::to_zoned`, which takes the earlier
/// instant of a repeated hour and reads a skipped one at the offset before
/// the gap; as nanoseconds. Which offset applies rests on the zone's rules
/// in the system tz database. Claimed: the instant is in range, is the wall
/// clock less an offset `jiff` allows (the zone's one offset, for a fixed
/// zone or UTC), and was read in `tz`; and there is one for a wall clock
/// inside the margin, as `to_zoned` fails only beyond `jiff`'s range and
/// every offset is within `-25:59:59..=25:59:59`.
#[verifier::external_body]
pub(crate) fn instant_in(
    y: i16,
    m: i8,
    d: i8,
    hour: i8,
    minute: i8,
    second: i8,
    nanos: i32,
    tz: &Zone,
) -> (r: Option<Instant>)
    requires
        0 <= hour <= 24,
        0 <= minute <= 59,
        0 <= second <= 60,
        0 <= nanos <= 999_999_999,
    ensures
        wall_in_margin(y as int, m as int, d as int, hour as int, minute as int, second as int, nanos as int) ==> r is Some,
        r matches Some(i) ==> instant_in_range(instant_nanos(i)) && instant_zone(i) == Some(*tz),
        r matches Some(i) ==> exists|o: int| -93599 <= o <= 93599 && instant_nanos(i) == #[trigger] offset_instant(y as int, m as int, d as int, hour as int, minute as int, second as int, nanos as int, o),
        r matches Some(i) ==> (zone_known_offset(*tz) matches Some(k) ==> instant_nanos(i) == offset_instant(y as int, m as int, d as int, hour as int, minute as int, second as int, nanos as int, k)),
{
    let date = jiff::civil::Date::new(y, m, d).ok()?;
    let span = jiff::Span::new().hours(hour).minutes(minute).seconds(second);
    let dt = date.at(0, 0, 0, nanos).checked_add(span).ok()?;
    let i = dt.to_zoned(tz.tz.clone()).ok()?.timestamp().as_nanosecond();
    Some(Instant { nanos: i, read_in: Ghost(Some(*tz)) })
}

/// A local time as plain values: the civil date and clock, the UTC offset
/// in seconds, the weekday (Monday is 1) and the zone's abbreviation.
pub struct LocalTime {
    pub year: i16,
    pub month: i8,
    pub day: i8,
    pub hour: i8,
    pub minute: i8,
    pub second: i8,
    pub nanos: i32,
    pub offset: i32,
    pub weekday: i8,
    pub abbrev: Vec<u8>,
}

/// A local time `jiff` gave, with the zone it is expressed in and the zone
/// its instant was read in.
pub struct ZonedTime {
    time: LocalTime,
    zone: Ghost<Zone>,
    read_in: Ghost<Option<Zone>>,
}

/// The local time.
pub closed spec fn zoned_time(t: ZonedTime) -> LocalTime {
    t.time
}

/// The zone a local time is expressed in.
pub closed spec fn local_zone(t: ZonedTime) -> Zone {
    t.zone@
}

/// The zone a local time's instant was read in, if any.
pub closed spec fn local_read_in(t: ZonedTime) -> Option<Zone> {
    t.read_in@
}

impl ZonedTime {
    /// The local time.
    pub fn time(&self) -> (r: &LocalTime)
        ensures
            *r == zoned_time(*self),
    {
        &self.time
    }
}

/// The weekday of a date, Monday being 1: 1970-01-01 was a Thursday.
pub open spec fn weekday_of(y: int, m: int, d: int) -> int {
    (days_from_civil(y, m, d) % 7 + 3) % 7 + 1
}

/// Every field in the range `jiff` documents for it, the weekday the
/// date's.
pub open spec fn local_ok(t: LocalTime) -> bool {
    &&& valid_date(t.year as int, t.month as int, t.day as int)
    &&& 0 <= t.hour <= 23
    &&& 0 <= t.minute <= 59
    &&& 0 <= t.second <= 59
    &&& 0 <= t.nanos <= 999_999_999
    &&& -93599 <= t.offset <= 93599
    &&& 1 <= t.weekday <= 7
    &&& t.weekday == weekday_of(t.year as int, t.month as int, t.day as int)
    &&& valid_utf8(t.abbrev@)
}

/// The instant a local time names, in nanoseconds since the Unix epoch:
/// its wall clock less its offset.
pub open spec fn instant_of(t: LocalTime) -> int {
    offset_instant(
        t.year as int,
        t.month as int,
        t.day as int,
        t.hour as int,
        t.minute as int,
        t.second as int,
        t.nanos as int,
        t.offset as int,
    )
}

/// `UTC` as bytes.
pub open spec fn utc_bytes() -> Seq<u8> {
    seq!['U' as u8, 'T' as u8, 'C' as u8]
}

/// An instant in a zone: `Timestamp::from_nanosecond`, `Timestamp::to_zoned`,
/// then the fields of the result: its year, month, day, hour, minute,
/// second and nanoseconds, `offset().seconds()`,
/// `weekday().to_monday_one_offset()`, and `strftime("%Z")`. Claimed: there
/// is one exactly when the instant is in `jiff`'s range; each field is in
/// the range `jiff` documents; the abbreviation is UTF-8, as every `String`
/// is; the weekday is the date's; the wall clock less the offset is the
/// instant, as `jiff` derives a zoned time's clock from its instant and
/// offset; the offset is the zone's one offset for a fixed zone or UTC, and
/// UTC is abbreviated `UTC`; and it is expressed in `tz`, its instant read
/// where the instant was. Which offset applies otherwise rests on the
/// zone's rules.
#[verifier::external_body]
pub(crate) fn local_in(instant: &Instant, tz: &Zone) -> (r: Option<ZonedTime>)
    ensures
        r is Some <==> instant_in_range(instant_nanos(*instant)),
        r matches Some(l) ==> local_ok(zoned_time(l)) && instant_of(zoned_time(l)) == instant_nanos(*instant),
        r matches Some(l) ==> local_zone(l) == *tz && local_read_in(l) == instant_zone(*instant),
        r matches Some(l) ==> (zone_known_offset(*tz) matches Some(k) ==> zoned_time(l).offset == k),
        r matches Some(l) ==> (zone_is_utc(*tz) ==> zoned_time(l).abbrev@ == utc_bytes()),
{
    let l = jiff::Timestamp::from_nanosecond(instant.nanos).ok()?.to_zoned(tz.tz.clone());
    let time = LocalTime {
        year: l.year(),
        month: l.month(),
        day: l.day(),
        hour: l.hour(),
        minute: l.minute(),
        second: l.second(),
        nanos: l.subsec_nanosecond(),
        offset: l.offset().seconds(),
        weekday: l.weekday().to_monday_one_offset(),
        abbrev: l.strftime("%Z").to_string().into_bytes(),
    };
    Some(ZonedTime { time, zone: Ghost(*tz), read_in: Ghost(instant.read_in@) })
}

/// A date the clock gave, with the zone it was drawn in.
pub struct Today {
    year: i16,
    month: i8,
    day: i8,
    zone: Ghost<Zone>,
}

/// The date.
pub closed spec fn today_date(t: Today) -> (int, int, int) {
    (t.year as int, t.month as int, t.day as int)
}

/// The zone the date was drawn in.
pub closed spec fn today_zone(t: Today) -> Zone {
    t.zone@
}

impl Today {
    /// The date, as year, month and day.
    pub fn date(&self) -> (r: (i16, i8, i8))
        ensures
            (r.0 as int, r.1 as int, r.2 as int) == today_date(*self),
    {
        (self.year, self.month, self.day)
    }
}

/// Today's date in a zone: `Zoned::now().with_time_zone(tz).date()`. Which
/// date rests on the clock; claimed: it is a date the calendar has, drawn
/// in `tz`.
#[verifier::external_body]
pub(crate) fn today_in(tz: &Zone) -> (r: Today)
    ensures
        valid_date(today_date(r).0, today_date(r).1, today_date(r).2),
        today_zone(r) == *tz,
{
    let d = jiff::Zoned::now().with_time_zone(tz.tz.clone()).date();
    Today { year: d.year(), month: d.month(), day: d.day(), zone: Ghost(*tz) }
}

/// `TimeZone::get`: the zone the system tz database has under a name, if
/// it has one. Whether it has one rests on what is on disk. Claimed: the
/// zone is the one loaded under `name`.
#[verifier::external_body]
pub(crate) fn zone_named(name: &str) -> (r: Option<Zone>)
    ensures
        r matches Some(z) ==> zone_name(z) == Some(name@) && zone_fixed_at(z) is None,
{
    match jiff::tz::TimeZone::get(name) {
        Ok(tz) => Some(Zone { tz, name: Ghost(Some(name@)), fixed: Ghost(None) }),
        Err(_) => None,
    }
}

/// `Offset::from_seconds`, then `TimeZone::fixed`: a zone always at one
/// offset. Claimed: there is one exactly when the offset is within
/// `-25:59:59..=25:59:59`, made at that offset.
#[verifier::external_body]
pub(crate) fn zone_fixed(seconds: i32) -> (r: Option<Zone>)
    ensures
        r is Some <==> -93599 <= seconds <= 93599,
        r matches Some(z) ==> zone_fixed_at(z) == Some(seconds as int) && zone_name(z) is None,
{
    match jiff::tz::Offset::from_seconds(seconds) {
        Ok(o) => Some(Zone { tz: jiff::tz::TimeZone::fixed(o), name: Ghost(None), fixed: Ghost(Some(seconds as int)) }),
        Err(_) => None,
    }
}

/// `TimeZone::UTC`. Claimed: it is the zone at offset zero, which is what
/// `TimeZone::fixed` makes of a zero offset.
#[verifier::external_body]
pub(crate) fn zone_utc() -> (r: Zone)
    ensures
        zone_fixed_at(r) == Some(0int) && zone_name(r) is None,
{
    Zone { tz: jiff::tz::TimeZone::UTC, name: Ghost(None), fixed: Ghost(Some(0int)) }
}

/// `Clone::clone` of a zone. Claimed: the clone is the same zone.
#[verifier::external_body]
pub(crate) fn zone_clone(z: &Zone) -> (r: Zone)
    ensures
        r == *z,
{
    Zone { tz: z.tz.clone(), name: Ghost(z.name@), fixed: Ghost(z.fixed@) }
}

} // verus!
