//! A reading parsed into an instant and written out in the output zone: an
//! embedded zone wins, a naive timestamp is read in the source zone if there
//! is one, and otherwise as already being in the output zone.

use vstd::prelude::*;
use crate::civil::{
    date_plus_days, add_days, instant_at_offset, instant_in, instant_in_range, instant_of, instant_nanos, instant_zone,
    last_wall_second, local_in, local_ok, local_read_in, local_zone, offset_instant, offset_instant_ok, today_date, today_in,
    today_zone, valid_date, wall_in_margin,
    wall_seconds, zone_clone, zone_fixed, zone_fixed_at, zone_known_offset, zone_name, zone_named, zoned_time, LocalTime, Today, Zone, ZonedTime,
};
use crate::comps::{comp_ok, comp_start, components, components_of, Comp, CompAt};
use crate::format::{format_time, format_time_of, Format};
use crate::parts::{time_only, time_only_at};
use crate::strs::utf8_string;
use vstd::utf8::encode_utf8;
use crate::text::{byte, digits_num, digits_value, push_range};
use crate::zones::{alias_lookup, alias_table, find_alias, lower_copy, lower_seq, zone_offset, zone_offset_seconds};

verus! {

pub open spec fn opt_bytes(d: Option<&[u8]>) -> Option<Seq<u8>> {
    match d {
        Some(b) => Some(b@),
        None => None,
    }
}

/// A reading with the reference date before it, when it has no date of its
/// own.
pub open spec fn dated_reading(s: Seq<u8>, date: Option<Seq<u8>>) -> Seq<u8> {
    match date {
        Some(d) => if time_only(s) {
            d + seq![' ' as u8] + s
        } else {
            s
        },
        None => s,
    }
}

pub open spec fn pow10(k: nat) -> int
    decreases k,
{
    if k == 0 {
        1
    } else {
        10 * pow10((k - 1) as nat)
    }
}

/// The first `k` of a fraction's nine digits, the fraction's first `n`
/// digits from `a` padded with zeros.
pub open spec fn padded_digits(t: Seq<u8>, a: int, n: int, k: int) -> int
    decreases k,
{
    if k <= 0 {
        0
    } else {
        padded_digits(t, a, n, k - 1) * 10 + if k - 1 < n {
            byte(t, a + k - 1) - '0' as u8
        } else {
            0int
        }
    }
}

/// A fraction of a second in nanoseconds: its first nine digits, padded.
pub open spec fn frac_nanos(t: Seq<u8>, a: int, b: int) -> int {
    padded_digits(
        t,
        a,
        if b - a < 9 {
            b - a
        } else {
            9
        },
        9,
    )
}

proof fn lemma_pow10_small(k: nat)
    requires
        k <= 9,
    ensures
        1 <= pow10(k) <= 1_000_000_000,
        k <= 8 ==> pow10(k) <= 100_000_000,
{
    reveal_with_fuel(pow10, 10);
}

pub open spec fn comp_hour(t: Seq<u8>, c: Comp) -> int {
    digits_value(t, comp_start(c), (c.h_e - comp_start(c)) as nat)
}

pub open spec fn comp_minute(t: Seq<u8>, c: Comp) -> int {
    digits_value(t, c.h_e + 1, 2)
}

pub open spec fn comp_second(t: Seq<u8>, c: Comp) -> int {
    if c.secs {
        digits_value(t, c.h_e + 4, 2)
    } else {
        0
    }
}

/// A 12-hour reading folded onto the 24-hour clock. Out-of-range readings
/// (`15:30 PM`) are left alone: the calendar check decides.
pub open spec fn meridiem_hour(h: int, m: Option<u8>) -> int {
    match m {
        Some(b) => if (b == 'p' as u8 || b == 'P' as u8) && h < 12 {
            h + 12
        } else if (b == 'a' as u8 || b == 'A' as u8) && h == 12 {
            0
        } else {
            h
        },
        None => h,
    }
}

/// The hour a reading's clock stands for.
pub open spec fn clock_hour(t: Seq<u8>, c: Comp) -> int {
    meridiem_hour(
        comp_hour(t, c),
        match c.mer {
            Some(q) => Some(t[q]),
            None => None,
        },
    )
}

/// A wall clock that is one: `24:00` is the midnight that ends a day and
/// `:60` a leap second; anything further out (`25:00`, `12:60`) is not.
pub open spec fn civil_ok(h: int, mi: int, s: int) -> bool {
    0 <= mi <= 59 && 0 <= s <= 60 && ((0 <= h <= 23) || (h == 24 && mi == 0 && s == 0))
}

fn frac_nanos_of(t: &[u8], a: usize, b: usize) -> (r: i32)
    requires
        a < b <= t.len(),
        crate::text::digits_at(t@, a as int, (b - a) as int),
    ensures
        r as int == frac_nanos(t@, a as int, b as int),
        0 <= r <= 999_999_999,
{
    let n: usize = if b - a < 9 {
        b - a
    } else {
        9
    };
    let mut v: u64 = 0;
    let mut k: usize = 0;
    while k < 9
        invariant
            k <= 9,
            n <= 9,
            n <= b - a,
            b <= t.len(),
            crate::text::digits_at(t@, a as int, (b - a) as int),
            v as int == padded_digits(t@, a as int, n as int, k as int),
            v < pow10(k as nat),
        decreases 9 - k,
    {
        proof {
            lemma_pow10_small(k as nat);
        }
        let d: u64 = if k < n {
            assert(crate::text::is_digit(crate::text::byte(t@, a + k)));
            (t[a + k] - '0' as u8) as u64
        } else {
            0
        };
        v = v * 10 + d;
        k += 1;
    }
    proof {
        lemma_pow10_small(9);
    }
    v as i32
}

/// `apply_meridiem`: the hour on the 24-hour clock.
fn meridiem_hour_of(h: u32, m: Option<u8>) -> (r: u32)
    requires
        h < 100,
    ensures
        r as int == meridiem_hour(h as int, m),
        r < 100,
{
    match m {
        Some(b) => if (b == 'p' as u8 || b == 'P' as u8) && h < 12 {
            h + 12
        } else if (b == 'a' as u8 || b == 'A' as u8) && h == 12 {
            0
        } else {
            h
        },
        None => h,
    }
}

/// The nanoseconds of a reading's fraction of a second, if it has one.
pub open spec fn comp_nanos(t: Seq<u8>, c: Comp) -> int {
    match c.frac {
        Some((a, b)) => frac_nanos(t, a, b),
        None => 0,
    }
}

/// The hour (on the 24-hour clock), minute, second and nanoseconds of a
/// reading's components.
fn clock_values(t: &[u8], c: &CompAt) -> (r: (u32, u32, u32, i32))
    requires
        comp_ok(t@, c@),
    ensures
        r.0 as int == clock_hour(t@, c@),
        r.1 as int == comp_minute(t@, c@),
        r.2 as int == comp_second(t@, c@),
        r.3 as int == comp_nanos(t@, c@),
        r.0 < 100 && r.1 < 100 && r.2 < 100,
        0 <= r.3 <= 999_999_999,
{
    let st: usize = if c.dated {
        11
    } else {
        0
    };
    assert(crate::text::digits_at(t@, st as int, (c.h_e - st) as int)) by {
        assert(crate::scan::hm(t@, st as int) == Some((c.h_e + 3) as int));
    }
    let hour = digits_num(t, st, c.h_e - st);
    assert(crate::text::digits_at(t@, c.h_e + 1, 2));
    let minute = digits_num(t, c.h_e + 1, 2);
    let second = if c.secs {
        assert(crate::text::digits_at(t@, c.h_e + 4, 2));
        digits_num(t, c.h_e + 4, 2)
    } else {
        0
    };
    let nanos = match c.frac {
        Some((a, b)) => {
            assert(crate::text::digits_at(t@, a as int, (b - a) as int)) by {
                assert forall|k: int| 0 <= k < b - a implies #[trigger] crate::text::is_digit(
                    crate::text::byte(t@, a + k),
                ) by {
                    crate::scan::lemma_run_digits(t@, a as int, b as int, a + k);
                }
            }
            frac_nanos_of(t, a, b)
        },
        None => 0,
    };
    let m = match c.mer {
        Some(q) => Some(t[q]),
        None => None,
    };
    let h = meridiem_hour_of(hour, m);
    (h, minute, second, nanos)
}

/// The zone a timestamp's wall clock is read in.
pub enum Anchor {
    /// A fixed offset from UTC, in seconds.
    Fixed(i32),
    /// A zone with rules of its own.
    Zone(Zone),
}

/// The zone of an anchor: the fixed one for an offset. None for an offset
/// beyond what `jiff` allows.
pub fn anchor_zone(a: &Anchor) -> (r: Option<Zone>)
    ensures
        *a matches Anchor::Fixed(o) ==> (r is Some <==> -93599 <= o <= 93599),
        *a matches Anchor::Fixed(o) ==> (r matches Some(z) ==> zone_fixed_at(z) == Some(o as int) && zone_name(z)
            is None),
        *a matches Anchor::Zone(z) ==> r == Some(z),
{
    match a {
        Anchor::Fixed(o) => zone_fixed(*o),
        Anchor::Zone(z) => Some(zone_clone(z)),
    }
}

/// `z` is the zone an abbreviation is an alias of: the one loaded under
/// the name the alias table gives it.
pub open spec fn alias_zone(token: Seq<u8>, z: Zone) -> bool {
    &&& alias_lookup(alias_table(), lower_seq(token)) matches Some(nm)
    &&& zone_name(z) matches Some(n)
    &&& encode_utf8(n) == nm
}

/// A source zone, if there is one, as a value.
pub open spec fn opt_zone(z: Option<&Zone>) -> Option<Zone> {
    match z {
        Some(x) => Some(*x),
        None => None,
    }
}

/// The source zone, else the output zone.
pub open spec fn naive_zone(from: Option<Zone>, to: Zone) -> Zone {
    match from {
        Some(f) => f,
        None => to,
    }
}

/// The zone a timestamp's wall clock is read in: the zone it names, else
/// the source zone, else the output zone. A named zone is a fixed offset if
/// it is one of those, and otherwise the zone its abbreviation is an alias
/// of (`ET`, `CT`, `MT`, `PT` follow DST).
pub fn anchor_of(token: &[u8], from: Option<&Zone>, to: &Zone) -> (r: Option<Anchor>)
    ensures
        token@.len() == 0 ==> r == Some(Anchor::Zone(naive_zone(opt_zone(from), *to))),
        token@.len() > 0 ==> match zone_offset_seconds(token@) {
            Some(o) => if -93599 <= o <= 93599 {
                r == Some(Anchor::Fixed(o as i32))
            } else {
                r is None
            },
            None => match r {
                Some(Anchor::Zone(z)) => alias_zone(token@, z),
                Some(Anchor::Fixed(_)) => false,
                None => true,
            },
        },
{
    if token.len() == 0 {
        return match from {
            Some(f) => Some(Anchor::Zone(zone_clone(f))),
            None => Some(Anchor::Zone(zone_clone(to))),
        };
    }
    match zone_offset(token) {
        Some(off) => if -93599 <= off && off <= 93599 {
            Some(Anchor::Fixed(off))
        } else {
            None
        },
        None => {
            let key = lower_copy(token, 0, token.len());
            assert(token@.subrange(0, token@.len() as int) =~= token@);
            match find_alias(key.as_slice()) {
                Some(name) => match utf8_string(name) {
                    Some(n) => match zone_named(n.as_str()) {
                        Some(z) => Some(Anchor::Zone(z)),
                        None => None,
                    },
                    None => None,
                },
                None => None,
            }
        },
    }
}

/// A wall clock on a date.
pub struct Wall {
    pub year: int,
    pub month: int,
    pub day: int,
    pub hour: int,
    pub minute: int,
    pub second: int,
    pub nanos: int,
}

pub struct WallAt {
    pub year: i16,
    pub month: i8,
    pub day: i8,
    pub hour: i8,
    pub minute: i8,
    pub second: i8,
    pub nanos: i32,
}

pub open spec fn wall_view(w: Option<WallAt>) -> Option<Wall> {
    match w {
        Some(x) => Some(
            Wall {
                year: x.year as int,
                month: x.month as int,
                day: x.day as int,
                hour: x.hour as int,
                minute: x.minute as int,
                second: x.second as int,
                nanos: x.nanos as int,
            },
        ),
        None => None,
    }
}

/// The wall clock a reading names, `days` days on: its date, or `today`
/// for one without a date, moved on as the calendar moves it, and its clock
/// on the 24-hour dial. None when it names no instant or the calendar cannot
/// move it that far.
pub open spec fn wall_of(t: Seq<u8>, today: (int, int, int), days: int) -> Option<Wall> {
    match components(t) {
        None => None,
        Some(c) => {
            let h = clock_hour(t, c);
            let mi = comp_minute(t, c);
            let s = comp_second(t, c);
            if !civil_ok(h, mi, s) {
                None
            } else {
                let ymd = if c.dated {
                    (digits_value(t, 0, 4), digits_value(t, 5, 2), digits_value(t, 8, 2))
                } else {
                    today
                };
                match date_plus_days(ymd.0, ymd.1, ymd.2, days) {
                    None => None,
                    Some((y, m, d)) => Some(
                        Wall { year: y, month: m, day: d, hour: h, minute: mi, second: s, nanos: comp_nanos(t, c) },
                    ),
                }
            }
        },
    }
}

/// Days on, as far as a span holds them.
pub open spec fn days_on(days: int) -> int {
    if days <= 9_000_000_000_000_000_000 {
        days
    } else {
        9_000_000_000_000_000_000
    }
}

/// The wall clock a reading names, `days` days on, given today's date for
/// a reading without one.
pub fn wall_clock(t: &[u8], today: (i16, i8, i8), days: u64) -> (r: Option<WallAt>)
    ensures
        wall_view(r) == wall_of(t@, (today.0 as int, today.1 as int, today.2 as int), days_on(days as int)),
        unreadable(t@) ==> r is None,
        r matches Some(w) ==> valid_date(w.year as int, w.month as int, w.day as int) && 0 <= w.hour <= 24
            && 0 <= w.minute <= 59 && 0 <= w.second <= 60 && 0 <= w.nanos <= 999_999_999,
{
    let c = match components_of(t) {
        None => return None,
        Some(c) => c,
    };
    let (h, minute, second, nanos) = clock_values(t, &c);
    if !(minute <= 59 && second <= 60 && (h <= 23 || (h == 24 && minute == 0 && second == 0))) {
        return None;
    }
    let (y, mo, d) = if c.dated {
        assert(crate::scan::isodate(t@, 0));
        assert(crate::text::digits_at(t@, 0, 4));
        assert(crate::text::digits_at(t@, 5, 2));
        assert(crate::text::digits_at(t@, 8, 2));
        let y = digits_num(t, 0, 4);
        let mo = digits_num(t, 5, 2);
        let d = digits_num(t, 8, 2);
        (y as i16, mo as i8, d as i8)
    } else {
        today
    };
    let n: i64 = if days <= 9_000_000_000_000_000_000 {
        days as i64
    } else {
        9_000_000_000_000_000_000
    };
    match add_days(y, mo, d, n) {
        Some((y2, mo2, d2)) => Some(
            WallAt { year: y2, month: mo2, day: d2, hour: h as i8, minute: minute as i8, second: second as i8, nanos },
        ),
        None => None,
    }
}

/// A reading that names no instant: not a reading at all, a clock that is
/// not one (`25:00`, `12:60`), or a date the calendar does not have
/// (`2026-02-30`). Such a timestamp is left exactly as it was written.
pub open spec fn unreadable(t: Seq<u8>) -> bool {
    match components(t) {
        None => true,
        Some(c) => !civil_ok(clock_hour(t, c), comp_minute(t, c), comp_second(t, c)) || (c.dated
            && !valid_date(
            crate::text::digits_value(t, 0, 4),
            crate::text::digits_value(t, 5, 2),
            crate::text::digits_value(t, 8, 2),
        )),
    }
}

/// A reading whose own zone cannot anchor it: a numeric offset beyond
/// `±25:59:59`, or an abbreviation with neither a fixed offset nor an alias.
pub open spec fn zone_unanchored(t: Seq<u8>) -> bool {
    match components(t) {
        Some(c) => match c.zone {
            Some((a, b)) => {
                let z = t.subrange(a, b);
                z.len() > 0 && match zone_offset_seconds(z) {
                    Some(o) => !(-93599 <= o <= 93599),
                    None => alias_lookup(alias_table(), lower_seq(z)) is None,
                }
            },
            None => false,
        },
        None => false,
    }
}

/// The offset a reading's own zone names, when that zone is a fixed offset
/// `jiff` allows: the reading's wall clock is then read at it.
pub open spec fn own_offset(t: Seq<u8>) -> Option<int> {
    match components(t) {
        Some(c) => match c.zone {
            Some((a, b)) => {
                let z = t.subrange(a, b);
                if z.len() > 0 {
                    match zone_offset_seconds(z) {
                        Some(o) => if -93599 <= o <= 93599 {
                            Some(o)
                        } else {
                            None
                        },
                        None => None,
                    }
                } else {
                    None
                }
            },
            None => None,
        },
        None => None,
    }
}

/// The reading names no zone of its own.
pub open spec fn names_no_zone(t: Seq<u8>) -> bool {
    match components(t) {
        Some(c) => match c.zone {
            Some((a, b)) => t.subrange(a, b).len() == 0,
            None => true,
        },
        None => true,
    }
}

/// The offset a dated reading's own zone names, when that zone is a fixed
/// offset `jiff` allows: nothing outside decides what instant it names.
pub open spec fn fixed_anchor(t: Seq<u8>) -> Option<int> {
    match components(t) {
        Some(c) => if c.dated {
            own_offset(t)
        } else {
            None
        },
        None => None,
    }
}

/// The instant, in nanoseconds since the Unix epoch, that a dated reading
/// at a fixed offset of its own names `days` days on, when `jiff` holds it:
/// its wall clock less the offset.
#[verifier::opaque]
pub open spec fn fixed_instant(t: Seq<u8>, days: int) -> Option<int> {
    match fixed_anchor(t) {
        Some(o) => match wall_of(t, (1970, 1, 1), days) {
            Some(w) => if wall_seconds(w.year, w.month, w.day, w.hour, w.minute, w.second)
                <= last_wall_second() && instant_in_range(
                offset_instant(w.year, w.month, w.day, w.hour, w.minute, w.second, w.nanos, o),
            ) {
                Some(offset_instant(w.year, w.month, w.day, w.hour, w.minute, w.second, w.nanos, o))
            } else {
                None
            },
            None => None,
        },
        None => None,
    }
}

/// A dated reading with no zone of its own whose wall clock lies well
/// inside `jiff`'s range: read in the source or output zone, it always
/// names an instant.
#[verifier::opaque]
pub open spec fn naive_in_range(t: Seq<u8>, days: int) -> bool {
    &&& components(t) matches Some(c)
    &&& c.dated
    &&& names_no_zone(t)
    &&& wall_of(t, (1970, 1, 1), days) matches Some(w)
    &&& wall_in_margin(w.year, w.month, w.day, w.hour, w.minute, w.second, w.nanos)
}

/// A reading is owed a conversion: dated, and at a fixed offset of its own
/// or in the source or output zone, with `jiff` holding the instant.
pub open spec fn converts_owed(t: Seq<u8>, days: int) -> bool {
    fixed_instant(t, days) is Some || naive_in_range(t, days)
}

/// The zone a reading's instant was read in: none at a fixed offset of
/// its own, the source zone or else the output zone when it names none,
/// and the zone its abbreviation is an alias of otherwise.
pub open spec fn reading_zone(t: Seq<u8>, from: Option<Zone>, to: Zone, rz: Option<Zone>) -> bool {
    if names_no_zone(t) {
        rz == Some(naive_zone(from, to))
    } else if own_offset(t) is Some {
        rz is None
    } else {
        match components(t) {
            Some(c) => match c.zone {
                Some((a, b)) => rz matches Some(z) && alias_zone(t.subrange(a, b), z),
                None => true,
            },
            None => true,
        }
    }
}

/// `l` names the instant the reading's wall clock names, `days` days on,
/// at an offset `jiff` allows: its own fixed offset if it has one, and the
/// one offset of the zone it was read in, when that is fixed or UTC.
pub open spec fn read_at(t: Seq<u8>, days: int, today: (int, int, int), o: int, l: ZonedTime) -> bool {
    &&& -93599 <= o <= 93599
    &&& wall_of(t, today, days) matches Some(w)
    &&& instant_of(zoned_time(l)) == offset_instant(w.year, w.month, w.day, w.hour, w.minute, w.second, w.nanos, o)
    &&& own_offset(t) matches Some(f) ==> o == f
    &&& local_read_in(l) matches Some(z) ==> (zone_known_offset(z) matches Some(k) ==> o == k)
}

/// A reading converted: its local time, and the date the clock gave for a
/// reading without one of its own.
pub struct Reading {
    pub time: ZonedTime,
    pub today: Option<Today>,
}

/// The date a reading was read on, when it was given one: the clock's;
/// otherwise any, as a dated reading ignores it.
pub open spec fn reading_today(r: Reading) -> (int, int, int) {
    match r.today {
        Some(td) => today_date(td),
        None => (1970, 1, 1),
    }
}

/// The zone today's date is drawn in for a reading without a date: the
/// zone it is anchored in. Its own fixed offset, the source zone or else
/// the output zone when it names none, or the zone its abbreviation is an
/// alias of.
pub open spec fn drawn_in(t: Seq<u8>, from: Option<Zone>, to: Zone, z: Zone) -> bool {
    if names_no_zone(t) {
        z == naive_zone(from, to)
    } else {
        match own_offset(t) {
            Some(o) => zone_fixed_at(z) == Some(o) && zone_name(z) is None,
            None => match components(t) {
                Some(c) => match c.zone {
                    Some((a, b)) => alias_zone(t.subrange(a, b), z),
                    None => true,
                },
                None => true,
            },
        }
    }
}

/// `l` is what a reading converts to, written in `to`: the instant its
/// wall clock names, in the zone `reading_zone` gives, on its own date or,
/// for a reading without one, on today's date drawn in the zone it is
/// anchored in; at a fixed offset of its own on a date of its own, exactly
/// the instant that names.
#[verifier::opaque]
pub open spec fn reads_as(t: Seq<u8>, days: int, l: Reading, from: Option<Zone>, to: Zone) -> bool {
    &&& exists|o: int| #[trigger] read_at(t, days, reading_today(l), o, l.time)
    &&& fixed_instant(t, days) matches Some(i) ==> instant_of(zoned_time(l.time)) == i
    &&& reading_zone(t, from, to, local_read_in(l.time))
    &&& local_zone(l.time) == to
    &&& (components(t) matches Some(c) && !c.dated) ==> (l.today matches Some(td) && drawn_in(
        t,
        from,
        to,
        today_zone(td),
    ))
}

/// An embedded zone wins over the source zone: for a reading that names
/// a zone of its own, what it may convert to is the same whatever the
/// source zone is.
pub proof fn law_embedded_zone_bypasses_from(t: Seq<u8>, days: int, l: Reading, f1: Option<Zone>, f2: Option<Zone>, to: Zone)
    requires
        !names_no_zone(t),
    ensures
        reads_as(t, days, l, f1, to) == reads_as(t, days, l, f2, to),
{
    reveal(reads_as);
}

/// A reference date is joined to a clock-only reading before it is read:
/// reading `15:30` with `-d 2026-04-03` is reading `2026-04-03 15:30`.
pub proof fn law_reference_date_joins(s: Seq<u8>, d: Seq<u8>)
    requires
        time_only(s),
    ensures
        dated_reading(s, Some(d)) == dated_reading(d + seq![' ' as u8] + s, None),
{
}

/// `l` names the instant a wall clock names at offset `o`, read at the
/// anchor's fixed offset, or in its zone at that zone's one offset when it
/// has one.
pub open spec fn anchored_at(w: Wall, a: Anchor, o: int, l: ZonedTime) -> bool {
    &&& -93599 <= o <= 93599
    &&& instant_of(zoned_time(l)) == offset_instant(w.year, w.month, w.day, w.hour, w.minute, w.second, w.nanos, o)
    &&& match a {
        Anchor::Fixed(f) => o == f && local_read_in(l) is None,
        Anchor::Zone(z) => local_read_in(l) == Some(z) && (zone_known_offset(z) matches Some(k) ==> o == k),
    }
}

/// A wall clock read at an anchor, expressed in `to`.
fn read_wall(w: &WallAt, anchor: &Anchor, to: &Zone) -> (r: Option<ZonedTime>)
    requires
        0 <= w.hour <= 24,
        0 <= w.minute <= 59,
        0 <= w.second <= 60,
        0 <= w.nanos <= 999_999_999,
        *anchor matches Anchor::Fixed(f) ==> -93599 <= f <= 93599,
    ensures
        r matches Some(l) ==> local_ok(zoned_time(l)) && local_zone(l) == *to && exists|o: int|
            #[trigger] anchored_at(wall_view(Some(*w))->0, *anchor, o, l),
        (*anchor matches Anchor::Fixed(f) && offset_instant_ok(
            w.year as int,
            w.month as int,
            w.day as int,
            w.hour as int,
            w.minute as int,
            w.second as int,
            w.nanos as int,
            f as int,
        )) ==> r is Some,
        (*anchor is Zone && wall_in_margin(
            w.year as int,
            w.month as int,
            w.day as int,
            w.hour as int,
            w.minute as int,
            w.second as int,
            w.nanos as int,
        )) ==> r is Some,
{
    let instant = match anchor {
        Anchor::Fixed(o) => instant_at_offset(w.year, w.month, w.day, w.hour, w.minute, w.second, w.nanos, *o),
        Anchor::Zone(z) => instant_in(w.year, w.month, w.day, w.hour, w.minute, w.second, w.nanos, z),
    };
    let i = match instant {
        Some(i) => i,
        None => return None,
    };
    let r = local_in(&i, to);
    proof {
        if r is Some {
            let l = r->0;
            let wv = wall_view(Some(*w))->0;
            match anchor {
                Anchor::Fixed(f) => {
                    assert(anchored_at(wv, *anchor, *f as int, l));
                },
                Anchor::Zone(z) => {
                    let o = choose|o: int|
                        -93599 <= o <= 93599 && instant_nanos(i) == #[trigger] offset_instant(
                            w.year as int,
                            w.month as int,
                            w.day as int,
                            w.hour as int,
                            w.minute as int,
                            w.second as int,
                            w.nanos as int,
                            o,
                        );
                    if let Some(k) = zone_known_offset(*z) {
                        assert(anchored_at(wv, *anchor, k, l));
                    } else {
                        assert(anchored_at(wv, *anchor, o, l));
                    }
                },
            }
        }
    }
    r
}

/// A reading parsed into an instant, expressed in the output zone. `None`
/// when it is not a reading, when its clock is not one, or when the date or
/// zone it names is not one `jiff` has. A dated reading at a fixed offset
/// of its own, or naming no zone, always gives the instant it names, when
/// `jiff` holds it.
#[verifier::rlimit(80)]
#[verifier::spinoff_prover]
pub fn parse_reading(
    s: &[u8],
    from: Option<&Zone>,
    to: &Zone,
    date: Option<&[u8]>,
    days: u64,
) -> (r: Option<Reading>)
    ensures
        unreadable(dated_reading(s@, opt_bytes(date))) ==> r is None,
        zone_unanchored(dated_reading(s@, opt_bytes(date))) ==> r is None,
        r matches Some(l) ==> local_ok(zoned_time(l.time)) && reads_as(
            dated_reading(s@, opt_bytes(date)),
            days_on(days as int),
            l,
            opt_zone(from),
            *to,
        ),
        converts_owed(dated_reading(s@, opt_bytes(date)), days_on(days as int)) ==> r is Some,
{
    let mut t: Vec<u8> = Vec::new();
    match date {
        Some(d) => if time_only_at(s) {
            push_range(&mut t, d, 0, d.len());
            t.push(' ' as u8);
            push_range(&mut t, s, 0, s.len());
            assert(t@ =~= d@ + seq![' ' as u8] + s@);
        } else {
            push_range(&mut t, s, 0, s.len());
            assert(t@ =~= s@);
        },
        None => {
            push_range(&mut t, s, 0, s.len());
            assert(t@ =~= s@);
        },
    }
    let ghost tv = t@;
    let ghost dn = days_on(days as int);
    reveal(fixed_instant);
    reveal(naive_in_range);
    reveal(reads_as);
    assert(tv == dated_reading(s@, opt_bytes(date)));
    let t = t.as_slice();
    let c = match components_of(t) {
        None => return None,
        Some(c) => c,
    };
    let (h, minute, second, _) = clock_values(t, &c);
    if !(minute <= 59 && second <= 60 && (h <= 23 || (h == 24 && minute == 0 && second == 0))) {
        return None;
    }
    let token: Vec<u8> = match c.zone {
        Some((a, b)) => {
            let mut z: Vec<u8> = Vec::new();
            push_range(&mut z, t, a, b);
            z
        },
        None => Vec::new(),
    };
    assert(c@.zone matches Some((a, b)) ==> token@ == tv.subrange(a, b));
    assert(c@.zone is None ==> token@.len() == 0);
    assert(names_no_zone(tv) <==> token@.len() == 0);
    let anchor = match anchor_of(token.as_slice(), from, to) {
        Some(a) => a,
        None => return None,
    };
    assert(!zone_unanchored(tv));
    proof {
        if own_offset(tv) is Some {
            assert(anchor == Anchor::Fixed(own_offset(tv)->0 as i32));
        }
    }
    let today: Option<Today> = if c.dated {
        None
    } else {
        match anchor_zone(&anchor) {
            Some(z) => Some(today_in(&z)),
            None => return None,
        }
    };
    let tdate = match &today {
        Some(td) => td.date(),
        None => (1970, 1, 1),
    };
    let w = match wall_clock(t, tdate, days) {
        Some(w) => w,
        None => return None,
    };
    let ghost tdy = (tdate.0 as int, tdate.1 as int, tdate.2 as int);
    assert(wall_of(tv, tdy, dn) == wall_view(Some(w)));
    proof {
        if c@.dated {
            assert(wall_of(tv, (1970, 1, 1), dn) == wall_of(tv, tdy, dn));
        }
        if !c@.dated {
            let td = today->0;
            let zt = today_zone(td);
            assert(drawn_in(tv, opt_zone(from), *to, zt));
        }
    }
    let time = match read_wall(&w, &anchor, to) {
        Some(x) => x,
        None => return None,
    };
    let r = Reading { time, today };
    proof {
        let l = r.time;
        let o = choose|o: int| #[trigger] anchored_at(wall_view(Some(w))->0, anchor, o, l);
        assert(anchored_at(wall_view(Some(w))->0, anchor, o, l));
        assert(reading_today(r) == tdy);
        assert(read_at(tv, dn, tdy, o, l));
        assert(reading_zone(tv, opt_zone(from), *to, local_read_in(l)));
    }
    Some(r)
}

/// A stamp converted and written to mirror its text, or in the format asked.
pub fn convert(
    effective: &[u8],
    text: &[u8],
    days: u64,
    from: Option<&Zone>,
    to: &Zone,
    format: Option<Format>,
    date: Option<&[u8]>,
) -> (r: Option<Vec<u8>>)
    ensures
        unreadable(dated_reading(effective@, opt_bytes(date))) ==> r is None,
        zone_unanchored(dated_reading(effective@, opt_bytes(date))) ==> r is None,
        r matches Some(v) ==> exists|l: Reading|
            local_ok(zoned_time(l.time)) && reads_as(dated_reading(effective@, opt_bytes(date)), days_on(days as int), l, opt_zone(from), *to)
                && v@ == #[trigger] format_time(zoned_time(l.time), format, text@),
        converts_owed(dated_reading(effective@, opt_bytes(date)), days_on(days as int)) ==> r is Some,
{
    match parse_reading(effective, from, to, date, days) {
        Some(l) => {
            let v = format_time_of(l.time.time(), format, text);
            Some(v)
        },
        None => None,
    }
}

} // verus!
