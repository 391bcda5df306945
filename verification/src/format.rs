//! A converted timestamp written out: in the explicit format asked for, or
//! in the shape it was written in, to the precision it was
//! written with.

use vstd::prelude::*;
use crate::civil::{local_ok, weekday_of, LocalTime};
use crate::reading::{clf_fields, clf_fields_at, colons, locale_fields, locale_fields_at, rfc_fields,
    rfc_fields_at, unix_fields, unix_fields_at, Named, NamedAt, named_ok};
use crate::scan::{dig, dig2, eqb, hm, hm_at, is_ap, isodate, isodate_at, run_end, run_end_at, ap, dg2};
use crate::text::{bat, byte, dg, is_sign, pad2, pad4, push_pad2, push_pad4, push_range};

verus! {

/// An explicit output format: `iso`, `short` or `time`.
#[derive(Clone, Copy, Debug, PartialEq, Eq, Structural)]
pub enum Format {
    Iso,
    Short,
    Time,
}

/// One decimal digit.
pub open spec fn digit_char(v: int) -> u8 {
    ('0' as u8 + v) as u8
}

/// Three decimal digits, zero-padded.
pub open spec fn pad3(v: int) -> Seq<u8> {
    seq![digit_char(v / 100)] + pad2(v % 100)
}

/// `%Y`: four digits, zero-padded, a sign counting toward them.
pub open spec fn year_text(y: int) -> Seq<u8> {
    if y >= 0 {
        pad4(y)
    } else if y > -1000 {
        seq!['-' as u8] + pad3(-y)
    } else {
        seq!['-' as u8] + pad4(-y)
    }
}

/// `%H:%M`
pub open spec fn hm_text(t: LocalTime) -> Seq<u8> {
    pad2(t.hour as int) + seq![':' as u8] + pad2(t.minute as int)
}

/// `%H:%M:%S`
pub open spec fn hms_text(t: LocalTime) -> Seq<u8> {
    hm_text(t) + seq![':' as u8] + pad2(t.second as int)
}

/// `%Y-%m-%d`, with `sep` for the dash.
pub open spec fn ymd_text(t: LocalTime, sep: u8) -> Seq<u8> {
    year_text(t.year as int) + seq![sep] + pad2(t.month as int) + seq![sep] + pad2(t.day as int)
}

/// An offset as `+HH:MM`.
pub open spec fn offset_colon(secs: int) -> Seq<u8> {
    let a = if secs < 0 {
        -secs
    } else {
        secs
    };
    seq![
        if secs < 0 {
            '-' as u8
        } else {
            '+' as u8
        },
    ] + pad2(a / 3600) + seq![':' as u8] + pad2((a % 3600) / 60)
}

/// The zone of an ISO timestamp: `Z` at UTC, else `+HH:MM`.
pub open spec fn iso_zone(t: LocalTime) -> Seq<u8> {
    if t.offset == 0 {
        seq!['Z' as u8]
    } else {
        offset_colon(t.offset as int)
    }
}

/// `%z`: `+HHMM`, with seconds when the offset has any.
pub open spec fn z_text(t: LocalTime) -> Seq<u8> {
    let a = if t.offset < 0 {
        -t.offset
    } else {
        t.offset as int
    };
    seq![
        if t.offset < 0 {
            '-' as u8
        } else {
            '+' as u8
        },
    ] + pad2(a / 3600) + pad2((a / 60) % 60) + if a % 60 != 0 {
        pad2(a % 60)
    } else {
        seq![]
    }
}

pub open spec fn name3(a: char, b: char, c: char) -> Seq<u8> {
    seq![a as u8, b as u8, c as u8]
}

/// `%b`
pub open spec fn month_abbrev(m: int) -> Seq<u8> {
    if m == 1 {
        name3('J', 'a', 'n')
    } else if m == 2 {
        name3('F', 'e', 'b')
    } else if m == 3 {
        name3('M', 'a', 'r')
    } else if m == 4 {
        name3('A', 'p', 'r')
    } else if m == 5 {
        name3('M', 'a', 'y')
    } else if m == 6 {
        name3('J', 'u', 'n')
    } else if m == 7 {
        name3('J', 'u', 'l')
    } else if m == 8 {
        name3('A', 'u', 'g')
    } else if m == 9 {
        name3('S', 'e', 'p')
    } else if m == 10 {
        name3('O', 'c', 't')
    } else if m == 11 {
        name3('N', 'o', 'v')
    } else {
        name3('D', 'e', 'c')
    }
}

/// `%a`, Monday being 1.
pub open spec fn weekday_abbrev(w: int) -> Seq<u8> {
    if w == 1 {
        name3('M', 'o', 'n')
    } else if w == 2 {
        name3('T', 'u', 'e')
    } else if w == 3 {
        name3('W', 'e', 'd')
    } else if w == 4 {
        name3('T', 'h', 'u')
    } else if w == 5 {
        name3('F', 'r', 'i')
    } else if w == 6 {
        name3('S', 'a', 't')
    } else {
        name3('S', 'u', 'n')
    }
}

/// `%e`: the day, space-padded.
pub open spec fn day_space(d: int) -> Seq<u8> {
    if d < 10 {
        seq![' ' as u8, digit_char(d)]
    } else {
        pad2(d)
    }
}

/// `%-d`: the day, unpadded.
pub open spec fn day_bare(d: int) -> Seq<u8> {
    if d < 10 {
        seq![digit_char(d)]
    } else {
        pad2(d)
    }
}

/// `%I:%M:%S %p`
pub open spec fn clock12_text(t: LocalTime) -> Seq<u8> {
    let h = if t.hour == 0 {
        12
    } else if t.hour > 12 {
        t.hour - 12
    } else {
        t.hour as int
    };
    pad2(h) + seq![':' as u8] + pad2(t.minute as int) + seq![':' as u8] + pad2(t.second as int) + seq![
        ' ' as u8,
        if t.hour < 12 {
            'A' as u8
        } else {
            'P' as u8
        },
        'M' as u8,
    ]
}

/// The leftmost clock `[0-9]{1,2}:[0-9]{2}` at or after `p`.
pub open spec fn first_clock(u: Seq<u8>, p: int) -> Option<int>
    decreases u.len() - p,
{
    if p < 0 || p >= u.len() {
        None
    } else if hm(u, p) is Some {
        Some(p)
    } else {
        first_clock(u, p + 1)
    }
}

/// Nine digits of nanoseconds, zero-padded.
pub open spec fn nanos9(n: int) -> Seq<u8> {
    pad3(n / 1000000) + pad3((n / 1000) % 1000) + pad3(n % 1000)
}

/// A clock to the precision it was written with, fraction and its separator
/// included: `22:14:42,123` stays three digits after a comma.
pub open spec fn written_clock(t: LocalTime, u: Seq<u8>) -> Seq<u8> {
    match first_clock(u, 0) {
        None => hm_text(t),
        Some(p) => {
            let k = hm(u, p)->0;
            if !(eqb(u, k, ':' as u8) && dig2(u, k + 1)) {
                hm_text(t)
            } else if (eqb(u, k + 3, '.' as u8) || eqb(u, k + 3, ',' as u8)) && dig(u, k + 4) {
                let n = run_end(u, k + 4) - (k + 4);
                let take = if n < 9 {
                    n
                } else {
                    9
                };
                hms_text(t) + seq![u[k + 3]] + nanos9(t.nanos as int).subrange(0, take)
            } else {
                hms_text(t)
            }
        },
    }
}

/// A zone written back the way the input wrote it: numeric if it was.
pub open spec fn written_zone(t: LocalTime, u: Seq<u8>, zone: Option<(int, int)>) -> Seq<u8> {
    match zone {
        Some((a, b)) => if is_sign(u[a]) {
            z_text(t)
        } else {
            t.abbrev@
        },
        None => t.abbrev@,
    }
}

/// `^[0-9]{4}([-/])[0-9]{2}[-/][0-9]{2} `
pub open spec fn any_date_space(u: Seq<u8>) -> bool {
    dig2(u, 0) && dig2(u, 2) && (eqb(u, 4, '-' as u8) || eqb(u, 4, '/' as u8)) && dig2(u, 5) && (
    eqb(u, 7, '-' as u8) || eqb(u, 7, '/' as u8)) && dig2(u, 8) && eqb(u, 10, ' ' as u8)
}

/// `^[0-9]{1,2}(?:$| ?[AaPp])`
pub open spec fn hour_alone(u: Seq<u8>) -> bool {
    let n: int = if dig(u, 1) {
        2
    } else {
        1
    };
    dig(u, 0) && (n == u.len() || (eqb(u, n, ' ' as u8) && is_ap(byte(u, n + 1))) || is_ap(byte(u, n)))
}

/// The output of a date(1) line: `%a %b %e %H:%M:%S ZONE %Y`.
pub open spec fn unix_text(t: LocalTime, u: Seq<u8>, n: Named) -> Seq<u8> {
    (if n.weekday {
        weekday_abbrev(t.weekday as int) + seq![' ' as u8]
    } else {
        seq![]
    }) + month_abbrev(t.month as int) + seq![' ' as u8] + day_space(t.day as int) + seq![' ' as u8]
        + hms_text(t) + seq![' ' as u8] + written_zone(t, u, n.zone) + seq![' ' as u8] + year_text(
        t.year as int,
    )
}

/// The day of a date as written: two digits if it had two.
pub open spec fn day_as_written(t: LocalTime, n: Named) -> Seq<u8> {
    if n.day_e - n.day_s == 2 {
        pad2(t.day as int)
    } else {
        day_bare(t.day as int)
    }
}

/// The output of glibc's locale date: `%a %d %b %Y %H:%M:%S ZONE`, or with
/// the 12-hour clock it was written with.
pub open spec fn locale_text(t: LocalTime, u: Seq<u8>, n: Named) -> Seq<u8> {
    weekday_abbrev(t.weekday as int) + seq![' ' as u8] + day_as_written(t, n) + seq![' ' as u8]
        + month_abbrev(t.month as int) + seq![' ' as u8] + year_text(t.year as int) + seq![' ' as u8] + (
    if n.mer {
        clock12_text(t)
    } else {
        hms_text(t)
    }) + seq![' ' as u8] + written_zone(t, u, n.zone)
}

/// The output of an RFC 2822 date: `%a, %d %b %Y %H:%M:%S ZONE`, seconds
/// only if it had them.
pub open spec fn rfc_text(t: LocalTime, u: Seq<u8>, n: Named) -> Seq<u8> {
    (if n.weekday {
        weekday_abbrev(t.weekday as int) + seq![',' as u8, ' ' as u8]
    } else {
        seq![]
    }) + day_as_written(t, n) + seq![' ' as u8] + month_abbrev(t.month as int) + seq![' ' as u8]
        + year_text(t.year as int) + seq![' ' as u8] + hm_text(t) + (if colons(u, n.time_s, n.time_e)
        == 2 {
        seq![':' as u8] + pad2(t.second as int)
    } else {
        seq![]
    }) + seq![' ' as u8] + written_zone(t, u, n.zone)
}

/// The output of an access-log date: `%d/%b/%Y:%H:%M:%S %z`.
pub open spec fn clf_text(t: LocalTime) -> Seq<u8> {
    pad2(t.day as int) + seq!['/' as u8] + month_abbrev(t.month as int) + seq!['/' as u8] + year_text(
        t.year as int,
    ) + seq![':' as u8] + hms_text(t) + seq![' ' as u8] + z_text(t)
}

/// A converted time written in the shape of the text it was read from, or
/// in the format asked.
pub open spec fn format_time(t: LocalTime, fmt: Option<Format>, u: Seq<u8>) -> Seq<u8> {
    match fmt {
        Some(Format::Time) => hms_text(t),
        Some(Format::Iso) => ymd_text(t, '-' as u8) + seq![' ' as u8] + hms_text(t) + iso_zone(t),
        Some(Format::Short) => ymd_text(t, '-' as u8) + seq![' ' as u8] + hm_text(t) + seq![' ' as u8]
            + t.abbrev@,
        None => if isodate(u, 0) && eqb(u, 10, 'T' as u8) {
            ymd_text(t, '-' as u8) + seq!['T' as u8] + written_clock(t, u) + iso_zone(t)
        } else if any_date_space(u) {
            ymd_text(t, u[4]) + seq![' ' as u8] + written_clock(t, u) + seq![' ' as u8] + t.abbrev@
        } else if clf_fields(u) is Some {
            clf_text(t)
        } else if unix_fields(u) is Some {
            unix_text(t, u, unix_fields(u)->0)
        } else if locale_fields(u) is Some {
            locale_text(t, u, locale_fields(u)->0)
        } else if rfc_fields(u) is Some {
            rfc_text(t, u, rfc_fields(u)->0)
        } else if hm(u, 0) is Some {
            written_clock(t, u) + seq![' ' as u8] + t.abbrev@
        } else if hour_alone(u) {
            hm_text(t) + seq![' ' as u8] + t.abbrev@
        } else {
            ymd_text(t, '-' as u8) + seq![' ' as u8] + hms_text(t) + seq![' ' as u8] + t.abbrev@
        },
    }
}

/// `%H:%M` of a local time's clock: `civil::date`, `Date::at` and
/// `DateTime::strftime`. Claimed: hour and minute, two digits each.
#[verifier::external_body]
fn strf_hm(t: &LocalTime) -> (r: Vec<u8>)
    requires
        local_ok(*t),
    ensures
        r@ == hm_text(*t),
{
    jiff::civil::date(t.year, t.month, t.day).at(t.hour, t.minute, t.second, t.nanos).strftime("%H:%M").to_string().into_bytes()
}

/// `%H:%M:%S`, as [`strf_hm`] calls it. Claimed: hour, minute and second,
/// two digits each.
#[verifier::external_body]
fn strf_hms(t: &LocalTime) -> (r: Vec<u8>)
    requires
        local_ok(*t),
    ensures
        r@ == hms_text(*t),
{
    jiff::civil::date(t.year, t.month, t.day).at(t.hour, t.minute, t.second, t.nanos).strftime("%H:%M:%S").to_string().into_bytes()
}

/// `%S`, as [`strf_hm`] calls it. Claimed: the second, two digits.
#[verifier::external_body]
fn strf_second(t: &LocalTime) -> (r: Vec<u8>)
    requires
        local_ok(*t),
    ensures
        r@ == pad2(t.second as int),
{
    jiff::civil::date(t.year, t.month, t.day).at(t.hour, t.minute, t.second, t.nanos).strftime("%S").to_string().into_bytes()
}

/// `%I:%M:%S %p`, as [`strf_hm`] calls it. Claimed: the hour on the 12-hour
/// dial (12 for 0), minute and second, two digits each, then `AM` or `PM`.
#[verifier::external_body]
fn strf_clock12(t: &LocalTime) -> (r: Vec<u8>)
    requires
        local_ok(*t),
    ensures
        r@ == clock12_text(*t),
{
    jiff::civil::date(t.year, t.month, t.day).at(t.hour, t.minute, t.second, t.nanos).strftime("%I:%M:%S %p").to_string().into_bytes()
}

/// `%Y-%m-%d` of a local time's date: `civil::date` and `Date::strftime`.
/// Claimed: the year zero-padded to four places, its sign counting, then
/// month and day, two digits each, joined by `-`.
#[verifier::external_body]
fn strf_ymd_dash(t: &LocalTime) -> (r: Vec<u8>)
    requires
        local_ok(*t),
    ensures
        r@ == ymd_text(*t, '-' as u8),
{
    jiff::civil::date(t.year, t.month, t.day).strftime("%Y-%m-%d").to_string().into_bytes()
}

/// `%Y/%m/%d`, as [`strf_ymd_dash`] calls it. Claimed: the same, joined by
/// `/`.
#[verifier::external_body]
fn strf_ymd_slash(t: &LocalTime) -> (r: Vec<u8>)
    requires
        local_ok(*t),
    ensures
        r@ == ymd_text(*t, '/' as u8),
{
    jiff::civil::date(t.year, t.month, t.day).strftime("%Y/%m/%d").to_string().into_bytes()
}

/// `%Y`, as [`strf_ymd_dash`] calls it. Claimed: the year zero-padded to four
/// places, its sign counting.
#[verifier::external_body]
fn strf_year(t: &LocalTime) -> (r: Vec<u8>)
    requires
        local_ok(*t),
    ensures
        r@ == year_text(t.year as int),
{
    jiff::civil::date(t.year, t.month, t.day).strftime("%Y").to_string().into_bytes()
}

/// `%b`, as [`strf_ymd_dash`] calls it. Claimed: the month's English name in
/// three letters.
#[verifier::external_body]
fn strf_month(t: &LocalTime) -> (r: Vec<u8>)
    requires
        local_ok(*t),
    ensures
        r@ == month_abbrev(t.month as int),
{
    jiff::civil::date(t.year, t.month, t.day).strftime("%b").to_string().into_bytes()
}

/// `%a`, as [`strf_ymd_dash`] calls it. Claimed: the English name, in three
/// letters, of the date's weekday.
#[verifier::external_body]
fn strf_weekday(t: &LocalTime) -> (r: Vec<u8>)
    requires
        local_ok(*t),
    ensures
        r@ == weekday_abbrev(weekday_of(t.year as int, t.month as int, t.day as int)),
{
    jiff::civil::date(t.year, t.month, t.day).strftime("%a").to_string().into_bytes()
}

/// `%d`, as [`strf_ymd_dash`] calls it. Claimed: the day, two digits.
#[verifier::external_body]
fn strf_day2(t: &LocalTime) -> (r: Vec<u8>)
    requires
        local_ok(*t),
    ensures
        r@ == pad2(t.day as int),
{
    jiff::civil::date(t.year, t.month, t.day).strftime("%d").to_string().into_bytes()
}

/// `%e`, as [`strf_ymd_dash`] calls it. Claimed: the day, space-padded to
/// two places.
#[verifier::external_body]
fn strf_day_space(t: &LocalTime) -> (r: Vec<u8>)
    requires
        local_ok(*t),
    ensures
        r@ == day_space(t.day as int),
{
    jiff::civil::date(t.year, t.month, t.day).strftime("%e").to_string().into_bytes()
}

/// `%-d`, as [`strf_ymd_dash`] calls it. Claimed: the day, unpadded.
#[verifier::external_body]
fn strf_day_bare(t: &LocalTime) -> (r: Vec<u8>)
    requires
        local_ok(*t),
    ensures
        r@ == day_bare(t.day as int),
{
    jiff::civil::date(t.year, t.month, t.day).strftime("%-d").to_string().into_bytes()
}

/// `%z` of a local time's clock at its offset: a `BrokenDownTime` of the
/// clock with the offset set (`Offset::from_seconds`), then
/// `BrokenDownTime::to_string`. Claimed: it writes `+HHMM`, with two more
/// digits when the offset has seconds.
#[verifier::external_body]
fn strf_z(t: &LocalTime) -> (r: Option<Vec<u8>>)
    requires
        local_ok(*t),
    ensures
        r is Some,
        r matches Some(v) ==> v@ == z_text(*t),
{
    let dt = jiff::civil::date(t.year, t.month, t.day).at(t.hour, t.minute, t.second, t.nanos);
    let mut tm = jiff::fmt::strtime::BrokenDownTime::from(dt);
    tm.set_offset(jiff::tz::Offset::from_seconds(t.offset).ok());
    tm.to_string("%z").ok().map(String::into_bytes)
}

fn push_pad3(out: &mut Vec<u8>, v: u32)
    requires
        v < 1000,
    ensures
        final(out)@ == old(out)@ + pad3(v as int),
{
    out.push(('0' as u8 + (v / 100) as u8) as u8);
    push_pad2(out, v % 100);
    assert(out@ =~= old(out)@ + pad3(v as int));
}

pub fn push_year(out: &mut Vec<u8>, y: i16)
    requires
        -9999 <= y <= 9999,
    ensures
        final(out)@ == old(out)@ + year_text(y as int),
{
    if y >= 0 {
        push_pad4(out, y as u32);
    } else if y > -1000 {
        out.push('-' as u8);
        push_pad3(out, (-y) as u32);
        assert(out@ =~= old(out)@ + year_text(y as int));
    } else {
        out.push('-' as u8);
        push_pad4(out, (-y) as u32);
        assert(out@ =~= old(out)@ + year_text(y as int));
    }
}

fn push_hm(out: &mut Vec<u8>, t: &LocalTime)
    requires
        local_ok(*t),
    ensures
        final(out)@ == old(out)@ + hm_text(*t),
{
    let mut v = strf_hm(t);
    out.append(&mut v);
}

fn push_hms(out: &mut Vec<u8>, t: &LocalTime)
    requires
        local_ok(*t),
    ensures
        final(out)@ == old(out)@ + hms_text(*t),
{
    let mut v = strf_hms(t);
    out.append(&mut v);
}

fn push_ymd(out: &mut Vec<u8>, t: &LocalTime, sep: u8)
    requires
        local_ok(*t),
        sep == '-' as u8 || sep == '/' as u8,
    ensures
        final(out)@ == old(out)@ + ymd_text(*t, sep),
{
    let mut v = if sep == '-' as u8 {
        strf_ymd_dash(t)
    } else {
        strf_ymd_slash(t)
    };
    out.append(&mut v);
}

pub fn push_offset_colon(out: &mut Vec<u8>, secs: i32)
    requires
        -93599 <= secs <= 93599,
    ensures
        final(out)@ == old(out)@ + offset_colon(secs as int),
{
    let a: u32 = if secs < 0 {
        (-secs) as u32
    } else {
        secs as u32
    };
    out.push(if secs < 0 {
        '-' as u8
    } else {
        '+' as u8
    });
    push_pad2(out, a / 3600);
    out.push(':' as u8);
    push_pad2(out, (a % 3600) / 60);
    assert(out@ =~= old(out)@ + offset_colon(secs as int));
}

fn push_iso_zone(out: &mut Vec<u8>, t: &LocalTime)
    requires
        local_ok(*t),
    ensures
        final(out)@ == old(out)@ + iso_zone(*t),
{
    if t.offset == 0 {
        out.push('Z' as u8);
        assert(out@ =~= old(out)@ + iso_zone(*t));
    } else {
        push_offset_colon(out, t.offset);
    }
}

fn push_z(out: &mut Vec<u8>, t: &LocalTime)
    requires
        local_ok(*t),
    ensures
        final(out)@ == old(out)@ + z_text(*t),
{
    match strf_z(t) {
        Some(v) => {
            let mut v = v;
            out.append(&mut v);
        },
        None => {},
    }
}


fn push_month(out: &mut Vec<u8>, t: &LocalTime)
    requires
        local_ok(*t),
    ensures
        final(out)@ == old(out)@ + month_abbrev(t.month as int),
{
    let mut v = strf_month(t);
    out.append(&mut v);
}

fn push_weekday(out: &mut Vec<u8>, t: &LocalTime)
    requires
        local_ok(*t),
    ensures
        final(out)@ == old(out)@ + weekday_abbrev(t.weekday as int),
{
    let mut v = strf_weekday(t);
    out.append(&mut v);
}

fn push_day(out: &mut Vec<u8>, t: &LocalTime, space: bool, two: bool)
    requires
        local_ok(*t),
    ensures
        final(out)@ == old(out)@ + if two {
            pad2(t.day as int)
        } else if space {
            day_space(t.day as int)
        } else {
            day_bare(t.day as int)
        },
{
    let mut v = if two {
        strf_day2(t)
    } else if space {
        strf_day_space(t)
    } else {
        strf_day_bare(t)
    };
    out.append(&mut v);
}

fn push_clock12(out: &mut Vec<u8>, t: &LocalTime)
    requires
        local_ok(*t),
    ensures
        final(out)@ == old(out)@ + clock12_text(*t),
{
    let mut v = strf_clock12(t);
    out.append(&mut v);
}

fn first_clock_at(u: &[u8]) -> (r: Option<usize>)
    ensures
        as_int_opt(r) == first_clock(u@, 0),
        r matches Some(p) ==> p < u.len(),
{
    let mut p: usize = 0;
    while p < u.len()
        invariant
            p <= u@.len(),
            first_clock(u@, 0) == first_clock(u@, p as int),
        decreases u.len() - p,
    {
        if hm_at(u, p).is_some() {
            return Some(p);
        }
        p += 1;
    }
    None
}

proof fn lemma_first_clock(u: Seq<u8>, q: int)
    ensures
        first_clock(u, q) matches Some(p) ==> hm(u, p) is Some && 0 <= p < u.len(),
    decreases u.len() - q,
{
    if 0 <= q < u.len() && hm(u, q) is None {
        lemma_first_clock(u, q + 1);
    }
}

pub open spec fn as_int_opt(r: Option<usize>) -> Option<int> {
    match r {
        Some(e) => Some(e as int),
        None => None,
    }
}

fn push_nanos(out: &mut Vec<u8>, n: i32, take: usize)
    requires
        0 <= n <= 999_999_999,
        take <= 9,
    ensures
        final(out)@ == old(out)@ + nanos9(n as int).subrange(0, take as int),
{
    let mut all: Vec<u8> = Vec::new();
    let v = n as u32;
    push_pad3(&mut all, v / 1000000);
    push_pad3(&mut all, (v / 1000) % 1000);
    push_pad3(&mut all, v % 1000);
    assert(all@ =~= nanos9(n as int));
    push_range(out, all.as_slice(), 0, take);
}

fn push_written_clock(out: &mut Vec<u8>, t: &LocalTime, u: &[u8])
    requires
        local_ok(*t),
    ensures
        final(out)@ == old(out)@ + written_clock(*t, u@),
{
    let p = match first_clock_at(u) {
        None => {
            push_hm(out, t);
            return;
        },
        Some(p) => p,
    };
    proof {
        lemma_first_clock(u@, 0);
    }
    let k = match hm_at(u, p) {
        Some(k) => k,
        None => {
            push_hm(out, t);
            return;
        },
    };
    if !(bat(u, k, 0) == ':' as u8 && dg2(u, k, 1)) {
        push_hm(out, t);
        return;
    }
    let b = bat(u, k, 3);
    if (b == '.' as u8 || b == ',' as u8) && dg(u, k, 4) {
        let e = run_end_at(u, k + 4);
        let n = e - (k + 4);
        let take = if n < 9 {
            n
        } else {
            9
        };
        push_hms(out, t);
        out.push(b);
        push_nanos(out, t.nanos, take);
        assert(out@ =~= old(out)@ + written_clock(*t, u@));
    } else {
        push_hms(out, t);
    }
}

fn push_written_zone(out: &mut Vec<u8>, t: &LocalTime, u: &[u8], zone: Option<(usize, usize)>)
    requires
        local_ok(*t),
        zone matches Some((a, b)) ==> a < b <= u.len(),
    ensures
        final(out)@ == old(out)@ + written_zone(*t, u@, crate::parts::span_view(zone)),
{
    match zone {
        Some((a, _)) => if u[a] == '+' as u8 || u[a] == '-' as u8 {
            push_z(out, t);
        } else {
            push_range(out, t.abbrev.as_slice(), 0, t.abbrev.len());
            assert(t.abbrev@.subrange(0, t.abbrev@.len() as int) =~= t.abbrev@);
        },
        None => {
            push_range(out, t.abbrev.as_slice(), 0, t.abbrev.len());
            assert(t.abbrev@.subrange(0, t.abbrev@.len() as int) =~= t.abbrev@);
        },
    }
}

fn push_abbrev(out: &mut Vec<u8>, t: &LocalTime)
    ensures
        final(out)@ == old(out)@ + t.abbrev@,
{
    push_range(out, t.abbrev.as_slice(), 0, t.abbrev.len());
    assert(t.abbrev@.subrange(0, t.abbrev@.len() as int) =~= t.abbrev@);
}

fn any_date_space_at(u: &[u8]) -> (r: bool)
    ensures
        r == any_date_space(u@),
{
    let b4 = bat(u, 4, 0);
    let b7 = bat(u, 7, 0);
    dg2(u, 0, 0) && dg2(u, 2, 0) && (b4 == '-' as u8 || b4 == '/' as u8) && dg2(u, 5, 0) && (b7
        == '-' as u8 || b7 == '/' as u8) && dg2(u, 8, 0) && bat(u, 10, 0) == ' ' as u8
}

fn hour_alone_at(u: &[u8]) -> (r: bool)
    ensures
        r == hour_alone(u@),
{
    let n: usize = if dg(u, 1, 0) {
        2
    } else {
        1
    };
    dg(u, 0, 0) && (n == u.len() || (bat(u, n, 0) == ' ' as u8 && ap(bat(u, n, 1))) || ap(bat(u, n, 0)))
}

#[verifier::rlimit(100)]
#[verifier::spinoff_prover]
fn push_unix(out: &mut Vec<u8>, t: &LocalTime, u: &[u8], n: &NamedAt)
    requires
        local_ok(*t),
        named_ok(u@, n@),
    ensures
        final(out)@ == old(out)@ + unix_text(*t, u@, n@),
{
    if n.weekday {
        push_weekday(out, t);
        out.push(' ' as u8);
    }
    let ghost a = out@;
    push_month(out, t);
    out.push(' ' as u8);
    push_day(out, t, true, false);
    out.push(' ' as u8);
    push_hms(out, t);
    out.push(' ' as u8);
    push_written_zone(out, t, u, n.zone);
    out.push(' ' as u8);
    let mut yv = strf_year(t);
    out.append(&mut yv);
    assert(out@ =~= old(out)@ + unix_text(*t, u@, n@));
}

#[verifier::rlimit(100)]
#[verifier::spinoff_prover]
fn push_locale(out: &mut Vec<u8>, t: &LocalTime, u: &[u8], n: &NamedAt)
    requires
        local_ok(*t),
        named_ok(u@, n@),
    ensures
        final(out)@ == old(out)@ + locale_text(*t, u@, n@),
{
    push_weekday(out, t);
    out.push(' ' as u8);
    push_day(out, t, false, n.day_e - n.day_s == 2);
    out.push(' ' as u8);
    push_month(out, t);
    out.push(' ' as u8);
    let mut yv = strf_year(t);
    out.append(&mut yv);
    out.push(' ' as u8);
    if n.mer {
        push_clock12(out, t);
    } else {
        push_hms(out, t);
    }
    out.push(' ' as u8);
    push_written_zone(out, t, u, n.zone);
    assert(out@ =~= old(out)@ + locale_text(*t, u@, n@));
}

#[verifier::rlimit(100)]
#[verifier::spinoff_prover]
fn push_rfc(out: &mut Vec<u8>, t: &LocalTime, u: &[u8], n: &NamedAt)
    requires
        local_ok(*t),
        named_ok(u@, n@),
    ensures
        final(out)@ == old(out)@ + rfc_text(*t, u@, n@),
{
    if n.weekday {
        push_weekday(out, t);
        out.push(',' as u8);
        out.push(' ' as u8);
    }
    push_day(out, t, false, n.day_e - n.day_s == 2);
    out.push(' ' as u8);
    push_month(out, t);
    out.push(' ' as u8);
    let mut yv = strf_year(t);
    out.append(&mut yv);
    out.push(' ' as u8);
    push_hm(out, t);
    if crate::reading::colons_at(u, n.time_s, n.time_e) == 2 {
        out.push(':' as u8);
        let mut sv = strf_second(t);
        out.append(&mut sv);
    }
    out.push(' ' as u8);
    push_written_zone(out, t, u, n.zone);
    assert(out@ =~= old(out)@ + rfc_text(*t, u@, n@));
}

fn push_clf(out: &mut Vec<u8>, t: &LocalTime)
    requires
        local_ok(*t),
    ensures
        final(out)@ == old(out)@ + clf_text(*t),
{
    push_day(out, t, false, true);
    out.push('/' as u8);
    push_month(out, t);
    out.push('/' as u8);
    let mut yv = strf_year(t);
    out.append(&mut yv);
    out.push(':' as u8);
    push_hms(out, t);
    out.push(' ' as u8);
    push_z(out, t);
    assert(out@ =~= old(out)@ + clf_text(*t));
}

/// A converted time written in the shape of the text it was read from, or
/// in the format asked.
#[verifier::rlimit(100)]
#[verifier::spinoff_prover]
pub fn format_time_of(t: &LocalTime, fmt: Option<Format>, u: &[u8]) -> (r: Vec<u8>)
    requires
        local_ok(*t),
    ensures
        r@ == format_time(*t, fmt, u@),
{
    let mut out: Vec<u8> = Vec::new();
    match fmt {
        Some(Format::Time) => {
            push_hms(&mut out, t);
        },
        Some(Format::Iso) => {
            push_ymd(&mut out, t, '-' as u8);
            out.push(' ' as u8);
            push_hms(&mut out, t);
            push_iso_zone(&mut out, t);
        },
        Some(Format::Short) => {
            push_ymd(&mut out, t, '-' as u8);
            out.push(' ' as u8);
            push_hm(&mut out, t);
            out.push(' ' as u8);
            push_abbrev(&mut out, t);
        },
        None => {
            if isodate_at(u, 0) && bat(u, 10, 0) == 'T' as u8 {
                push_ymd(&mut out, t, '-' as u8);
                out.push('T' as u8);
                push_written_clock(&mut out, t, u);
                push_iso_zone(&mut out, t);
            } else if any_date_space_at(u) {
                push_ymd(&mut out, t, u[4]);
                out.push(' ' as u8);
                push_written_clock(&mut out, t, u);
                out.push(' ' as u8);
                push_abbrev(&mut out, t);
            } else if clf_fields_at(u).is_some() {
                push_clf(&mut out, t);
            } else if let Some(n) = unix_fields_at(u) {
                push_unix(&mut out, t, u, &n);
            } else if let Some(n) = locale_fields_at(u) {
                push_locale(&mut out, t, u, &n);
            } else if let Some(n) = rfc_fields_at(u) {
                push_rfc(&mut out, t, u, &n);
            } else if hm_at(u, 0).is_some() {
                push_written_clock(&mut out, t, u);
                out.push(' ' as u8);
                push_abbrev(&mut out, t);
            } else if hour_alone_at(u) {
                push_hm(&mut out, t);
                out.push(' ' as u8);
                push_abbrev(&mut out, t);
            } else {
                push_ymd(&mut out, t, '-' as u8);
                out.push(' ' as u8);
                push_hms(&mut out, t);
                out.push(' ' as u8);
                push_abbrev(&mut out, t);
            }
        },
    }
    assert(out@ =~= format_time(*t, fmt, u@));
    out
}

} // verus!
