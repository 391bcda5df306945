//! A time-only reading in pieces: its clock, hour, meridiem and zone, for a
//! range or list to share the zone and meridiem written at its end; and the
//! other questions asked of a reading: its date, its zone, its format.

use vstd::prelude::*;
use crate::scan::{
    ap, as_int, dg2, dig, dig2, eqb, hm, hm_at, is_ap, is_m, isodate, isodate_at, mer_letter,
    secs_end, secs_end_at, tzone, tzone_at,
};
use crate::text::{bat, bnd, bnd_at, byte, dg, digits_num, digits_value, is_digit, is_sign, push_range};
use crate::zones::{zone_token, zone_token_at};

verus! {

/// Where the pieces of a time-only reading end or lie.
pub struct Parts {
    pub hour_e: int,
    pub clock_e: int,
    pub mer: Option<(int, int)>,
    pub zone: Option<(int, int)>,
}

pub struct PartsAt {
    pub hour_e: usize,
    pub clock_e: usize,
    pub mer: Option<(usize, usize)>,
    pub zone: Option<(usize, usize)>,
}

pub open spec fn span_view(x: Option<(usize, usize)>) -> Option<(int, int)> {
    match x {
        Some((a, b)) => Some((a as int, b as int)),
        None => None,
    }
}

impl View for PartsAt {
    type V = Parts;

    open spec fn view(&self) -> Parts {
        Parts {
            hour_e: self.hour_e as int,
            clock_e: self.clock_e as int,
            mer: span_view(self.mer),
            zone: span_view(self.zone),
        }
    }
}

pub open spec fn parts_view(r: Option<PartsAt>) -> Option<Parts> {
    match r {
        Some(p) => Some(p@),
        None => None,
    }
}

/// The pieces lie inside the reading, the hour being one or two digits
/// followed by a colon and two digits of minutes.
pub open spec fn parts_ok(t: Seq<u8>, p: Parts) -> bool {
    &&& (p.hour_e == 1 || p.hour_e == 2)
    &&& hm(t, 0) == Some(p.hour_e + 3)
    &&& p.hour_e + 3 <= p.clock_e <= t.len()
    &&& (p.mer matches Some((a, b)) ==> 0 <= a < b <= t.len() && is_ap(t[a]))
    &&& (p.zone matches Some((a, b)) ==> 0 <= a < b <= t.len())
}

/// The trailing zone and the end: `(?: ?(?<zone>(?:ZONE)\b|NUM))?$`.
pub open spec fn tp_zone(t: Seq<u8>, p: int) -> Option<Option<(int, int)>> {
    if eqb(t, p, ' ' as u8) && tzone(t, p + 1) == Some(t.len() as int) {
        Some(Some((p + 1, t.len() as int)))
    } else if tzone(t, p) == Some(t.len() as int) {
        Some(Some((p, t.len() as int)))
    } else if p == t.len() {
        Some(None)
    } else {
        None
    }
}

/// A time-only timestamp in pieces: `^(?<clock>(?<hour>[0-9]{1,2}):[0-9]{2}(?::[0-9]{2}(?:\.[0-9]+)?)?)`
/// then `(?: ?(?<meridiem>[AaPp](?:\.[Mm]\.|\.?[Mm]\b)))?` then the zone and the end.
pub open spec fn time_parts(t: Seq<u8>) -> Option<Parts> {
    match hm(t, 0) {
        None => None,
        Some(k) => {
            let c = secs_end(t, k);
            let q = mer_letter(t, c);
            let base = Parts { hour_e: k - 3, clock_e: c, mer: None, zone: None };
            let a1 = is_ap(byte(t, q)) && eqb(t, q + 1, '.' as u8) && is_m(byte(t, q + 2)) && eqb(
                t,
                q + 3,
                '.' as u8,
            ) && tp_zone(t, q + 4) is Some;
            let a2 = is_ap(byte(t, q)) && eqb(t, q + 1, '.' as u8) && is_m(byte(t, q + 2)) && bnd(
                t,
                q + 3,
            ) && tp_zone(t, q + 3) is Some;
            let a3 = is_ap(byte(t, q)) && is_m(byte(t, q + 1)) && bnd(t, q + 2) && tp_zone(t, q + 2) is Some;
            if a1 {
                Some(Parts { mer: Some((q, q + 4)), zone: tp_zone(t, q + 4)->0, ..base })
            } else if a2 {
                Some(Parts { mer: Some((q, q + 3)), zone: tp_zone(t, q + 3)->0, ..base })
            } else if a3 {
                Some(Parts { mer: Some((q, q + 2)), zone: tp_zone(t, q + 2)->0, ..base })
            } else {
                match tp_zone(t, c) {
                    Some(z) => Some(Parts { zone: z, ..base }),
                    None => None,
                }
            }
        },
    }
}

fn tp_zone_at(t: &[u8], p: usize) -> (r: Option<Option<(usize, usize)>>)
    requires
        p <= t.len(),
    ensures
        match tp_zone(t@, p as int) {
            Some(z) => r matches Some(x) && span_view(x) == z,
            None => r is None,
        },
        r matches Some(Some((a, b))) ==> p <= a < b <= t.len(),
{
    if bat(t, p, 0) == ' ' as u8 {
        match tzone_at(t, p + 1) {
            Some(e) => if e == t.len() {
                return Some(Some((p + 1, e)));
            },
            None => {},
        }
    }
    match tzone_at(t, p) {
        Some(e) => if e == t.len() {
            return Some(Some((p, e)));
        },
        None => {},
    }
    if p == t.len() {
        Some(None)
    } else {
        None
    }
}

pub fn time_parts_at(t: &[u8]) -> (r: Option<PartsAt>)
    ensures
        parts_view(r) == time_parts(t@),
        r matches Some(p) ==> parts_ok(t@, p@),
{
    let k = match hm_at(t, 0) {
        None => return None,
        Some(k) => k,
    };
    let c = secs_end_at(t, k);
    let q = if bat(t, c, 0) == ' ' as u8 {
        c + 1
    } else {
        c
    };
    let base = PartsAt { hour_e: k - 3, clock_e: c, mer: None, zone: None };
    if q < t.len() && ap(t[q]) {
        if bat(t, q, 1) == '.' as u8 && em_at(t, q, 2) && bat(t, q, 3) == '.' as u8 {
            if let Some(z) = tp_zone_at(t, q + 4) {
                return Some(PartsAt { mer: Some((q, q + 4)), zone: z, ..base });
            }
        }
        if bat(t, q, 1) == '.' as u8 && em_at(t, q, 2) && bnd_at(t, q, 3) {
            if let Some(z) = tp_zone_at(t, q + 3) {
                return Some(PartsAt { mer: Some((q, q + 3)), zone: z, ..base });
            }
        }
        if em_at(t, q, 1) && bnd_at(t, q, 2) {
            if let Some(z) = tp_zone_at(t, q + 2) {
                return Some(PartsAt { mer: Some((q, q + 2)), zone: z, ..base });
            }
        }
    }
    match tp_zone_at(t, c) {
        Some(z) => Some(PartsAt { zone: z, ..base }),
        None => None,
    }
}

fn em_at(t: &[u8], q: usize, k: usize) -> (r: bool)
    ensures
        r == is_m(byte(t@, q + k)),
{
    let b = bat(t, q, k);
    b == 'M' as u8 || b == 'm' as u8
}

/// The hour a reading's parts give, as written.
pub open spec fn hour_of(t: Seq<u8>, p: Parts) -> int {
    digits_value(t, 0, p.hour_e as nat)
}

/// The meridiem names the afternoon: it starts with `P` or `p`.
pub open spec fn is_pm(b: u8) -> bool {
    b == 'P' as u8 || b == 'p' as u8
}

/// The minute of the day a time-only reading names, its meridiem folded in;
/// `0` when it is not one.
pub open spec fn minute_of_day(t: Seq<u8>) -> int {
    match time_parts(t) {
        None => 0,
        Some(p) => {
            let hour = hour_of(t, p);
            let h = match p.mer {
                Some((a, _)) => hour % 12 + if is_pm(t[a]) {
                    12int
                } else {
                    0
                },
                None => hour,
            };
            h * 60 + digits_value(t, p.hour_e + 1, 2)
        },
    }
}

pub fn minute_of_day_at(t: &[u8]) -> (r: u32)
    ensures
        r == minute_of_day(t@),
{
    match time_parts_at(t) {
        None => 0,
        Some(p) => {
            let hour = digits_num(t, 0, p.hour_e);
            let h = match p.mer {
                Some((a, _)) => hour % 12 + if t[a] == 'P' as u8 || t[a] == 'p' as u8 {
                    12
                } else {
                    0
                },
                None => hour,
            };
            let minute = digits_num(t, p.hour_e + 1, 2);
            h * 60 + minute
        },
    }
}

/// `"PM"` or `"AM"`.
pub open spec fn meridiem_word(pm: bool) -> Seq<u8> {
    if pm {
        seq!['P' as u8, 'M' as u8]
    } else {
        seq!['A' as u8, 'M' as u8]
    }
}

/// The end's meridiem for the start of a range, unless that would run the
/// range backwards: 11:30 to 1:00 PM starts in the morning. A 24-hour start
/// takes none.
pub open spec fn shared_meridiem(hour: int, tail: Seq<u8>, tp: Parts) -> Option<Seq<u8>> {
    match tp.mer {
        None => None,
        Some((a, _)) => if !(1 <= hour <= 12) {
            None
        } else {
            let tail_hour = hour_of(tail, tp);
            Some(meridiem_word(is_pm(tail[a]) != (hour % 12 > tail_hour % 12)))
        },
    }
}

/// A space and `x`, if there is an `x`.
pub open spec fn spaced(x: Option<Seq<u8>>) -> Seq<u8> {
    match x {
        Some(m) => seq![' ' as u8] + m,
        None => seq![],
    }
}

/// The meridiem the start of a range is read with: its own, or the one it
/// shares with the end.
pub open spec fn start_meridiem(head: Seq<u8>, h: Parts, tail: Seq<u8>, tp: Parts) -> Option<Seq<u8>> {
    match h.mer {
        Some((a, b)) => Some(head.subrange(a, b)),
        None => shared_meridiem(hour_of(head, h), tail, tp),
    }
}

/// The zone written at the end of a range.
pub open spec fn end_zone(tail: Seq<u8>, tp: Parts) -> Option<Seq<u8>> {
    match tp.zone {
        Some((a, b)) => Some(tail.subrange(a, b)),
        None => None,
    }
}

/// The start of a range or list as it is read: its clock, its meridiem or
/// the one it shares, and the zone written at the end. A start with a zone
/// of its own keeps it, and everything else as written.
pub open spec fn range_start(head: Seq<u8>, tail: Seq<u8>) -> Seq<u8> {
    match (time_parts(head), time_parts(tail)) {
        (Some(h), Some(tp)) => if h.zone is Some {
            head
        } else {
            head.subrange(0, h.clock_e) + spaced(start_meridiem(head, h, tail, tp)) + spaced(
                end_zone(tail, tp),
            )
        },
        _ => head,
    }
}

fn push_meridiem(out: &mut Vec<u8>, head: &[u8], h: &PartsAt, tail: &[u8], tp: &PartsAt)
    requires
        parts_ok(head@, h@),
        parts_ok(tail@, tp@),
    ensures
        final(out)@ == old(out)@ + spaced(start_meridiem(head@, h@, tail@, tp@)),
{
    match h.mer {
        Some((a, b)) => {
            out.push(' ' as u8);
            push_range(out, head, a, b);
            assert(out@ =~= old(out)@ + spaced(start_meridiem(head@, h@, tail@, tp@)));
        },
        None => {
            let hour = digits_num(head, 0, h.hour_e);
            match tp.mer {
                Some((a, _)) => if 1 <= hour && hour <= 12 {
                    let tail_hour = digits_num(tail, 0, tp.hour_e);
                    let pm = (tail[a] == 'P' as u8 || tail[a] == 'p' as u8) != (hour % 12 > tail_hour
                        % 12);
                    out.push(' ' as u8);
                    if pm {
                        out.push('P' as u8);
                    } else {
                        out.push('A' as u8);
                    }
                    out.push('M' as u8);
                    assert(out@ =~= old(out)@ + spaced(start_meridiem(head@, h@, tail@, tp@)));
                } else {
                    assert(out@ =~= old(out)@ + spaced(start_meridiem(head@, h@, tail@, tp@)));
                },
                None => {
                    assert(out@ =~= old(out)@ + spaced(start_meridiem(head@, h@, tail@, tp@)));
                },
            }
        },
    }
}

fn push_end_zone(out: &mut Vec<u8>, tail: &[u8], tp: &PartsAt)
    requires
        parts_ok(tail@, tp@),
    ensures
        final(out)@ == old(out)@ + spaced(end_zone(tail@, tp@)),
{
    match tp.zone {
        Some((a, b)) => {
            out.push(' ' as u8);
            push_range(out, tail, a, b);
        },
        None => {},
    }
    assert(out@ =~= old(out)@ + spaced(end_zone(tail@, tp@)));
}

pub fn range_start_at(head: &[u8], tail: &[u8]) -> (r: Vec<u8>)
    ensures
        r@ == range_start(head@, tail@),
{
    let mut out: Vec<u8> = Vec::new();
    let (h, tp) = match (time_parts_at(head), time_parts_at(tail)) {
        (Some(h), Some(tp)) => (h, tp),
        _ => {
            push_range(&mut out, head, 0, head.len());
            assert(out@ =~= head@);
            return out;
        },
    };
    if h.zone.is_some() {
        push_range(&mut out, head, 0, head.len());
        assert(out@ =~= head@);
        return out;
    }
    push_range(&mut out, head, 0, h.clock_e);
    push_meridiem(&mut out, head, &h, tail, &tp);
    push_end_zone(&mut out, tail, &tp);
    out
}

/// A reading split into its date with its separator, if any, and its clock:
/// `^[0-9]{4}-[0-9]{2}-[0-9]{2}[T ]`.
pub open spec fn date_prefix(t: Seq<u8>) -> int {
    if isodate(t, 0) && (eqb(t, 10, 'T' as u8) || eqb(t, 10, ' ' as u8)) {
        11
    } else {
        0
    }
}

pub fn date_prefix_at(t: &[u8]) -> (r: usize)
    ensures
        r == date_prefix(t@),
        r <= t.len(),
{
    let b = bat(t, 10, 0);
    if isodate_at(t, 0) && (b == 'T' as u8 || b == ' ' as u8) {
        11
    } else {
        0
    }
}

/// A reading with no date: `^[0-9]{1,2}:`.
pub open spec fn time_only(t: Seq<u8>) -> bool {
    dig(t, 0) && (eqb(t, 1, ':' as u8) || (dig(t, 1) && eqb(t, 2, ':' as u8)))
}

pub fn time_only_at(t: &[u8]) -> (r: bool)
    ensures
        r == time_only(t@),
{
    dg(t, 0, 0) && (bat(t, 1, 0) == ':' as u8 || (dg(t, 1, 0) && bat(t, 2, 0) == ':' as u8))
}

/// A zone token ends `s`, `len` long.
pub open spec fn zone_suffix(s: Seq<u8>, len: int) -> bool {
    len <= s.len() && zone_token_at(s, s.len() - len, len)
}

/// A numeric zone `[+-][0-9]{2}:?[0-9]{2}` ends `s`, `len` long.
pub open spec fn numeric_suffix(s: Seq<u8>, len: int) -> bool {
    let a = s.len() - len;
    len <= s.len() && is_sign(byte(s, a)) && dig2(s, a + 1) && if len == 6 {
        eqb(s, a + 3, ':' as u8) && dig2(s, a + 4)
    } else {
        dig2(s, a + 3)
    }
}

/// The literal zone a reading ends with, if any: ` ?(ZONE|[+-][0-9]{2}:?[0-9]{2})$`.
/// The leftmost match wins, so the longest abbreviation that ends the text.
pub open spec fn zone_span(s: Seq<u8>) -> Option<int> {
    if zone_suffix(s, 4) {
        Some(4)
    } else if zone_suffix(s, 3) {
        Some(3)
    } else if zone_suffix(s, 2) {
        Some(2)
    } else if zone_suffix(s, 1) {
        Some(1)
    } else if numeric_suffix(s, 6) {
        Some(6)
    } else if numeric_suffix(s, 5) {
        Some(5)
    } else {
        None
    }
}

/// The zone token a reading ends with.
pub open spec fn detected_zone(s: Seq<u8>) -> Option<Seq<u8>> {
    match zone_span(s) {
        Some(n) => Some(s.subrange(s.len() - n, s.len() as int)),
        None => None,
    }
}

fn zone_suffix_at(s: &[u8], len: usize) -> (r: bool)
    ensures
        r == zone_suffix(s@, len as int),
{
    len <= s.len() && zone_token(s, s.len() - len, len)
}

fn numeric_suffix_at(s: &[u8], len: usize) -> (r: bool)
    requires
        len == 5 || len == 6,
    ensures
        r == numeric_suffix(s@, len as int),
{
    if len > s.len() {
        return false;
    }
    let a = s.len() - len;
    let b = s[a];
    (b == '+' as u8 || b == '-' as u8) && dg2(s, a, 1) && if len == 6 {
        bat(s, a, 3) == ':' as u8 && dg2(s, a, 4)
    } else {
        dg2(s, a, 3)
    }
}

pub fn zone_span_at(s: &[u8]) -> (r: Option<usize>)
    ensures
        as_int(r) == zone_span(s@),
        r matches Some(n) ==> n <= s.len(),
{
    if zone_suffix_at(s, 4) {
        Some(4)
    } else if zone_suffix_at(s, 3) {
        Some(3)
    } else if zone_suffix_at(s, 2) {
        Some(2)
    } else if zone_suffix_at(s, 1) {
        Some(1)
    } else if numeric_suffix_at(s, 6) {
        Some(6)
    } else if numeric_suffix_at(s, 5) {
        Some(5)
    } else {
        None
    }
}

/// The zone a reading names, if any.
pub fn detected_zone_of(s: &[u8]) -> (r: Option<Vec<u8>>)
    ensures
        match detected_zone(s@) {
            Some(z) => r matches Some(v) && v@ == z,
            None => r is None,
        },
{
    match zone_span_at(s) {
        Some(n) => {
            let mut v: Vec<u8> = Vec::new();
            push_range(&mut v, s, s.len() - n, s.len());
            assert(v@ =~= s@.subrange(s@.len() - n, s@.len() as int));
            Some(v)
        },
        None => None,
    }
}

/// What format a reading is: `iso` with a `T`, `datetime` with a date and
/// a space, else `time`.
pub open spec fn format_kind(s: Seq<u8>) -> int {
    if isodate(s, 0) && eqb(s, 10, 'T' as u8) {
        0
    } else if isodate(s, 0) && eqb(s, 10, ' ' as u8) {
        1
    } else {
        2
    }
}

pub fn format_kind_of(s: &[u8]) -> (r: u8)
    ensures
        r == format_kind(s@),
{
    let b = bat(s, 10, 0);
    if isodate_at(s, 0) && b == 'T' as u8 {
        0
    } else if isodate_at(s, 0) && b == ' ' as u8 {
        1
    } else {
        2
    }
}


/// The zone detected is the longest zone that ends the reading: it is the
/// reading's own tail, a listed zone token or a numeric offset, and no listed
/// token that ends the reading is longer, so a letter before it is never
/// left behind (`15:30 AEST` gives `AEST`, not `EST`). A reading ending in
/// neither has none.
pub proof fn law_detected_zone_longest(s: Seq<u8>)
    ensures
        detected_zone(s) matches Some(z) ==> 0 < z.len() <= s.len() && z == s.subrange(
            s.len() - z.len(),
            s.len() as int,
        ) && (zone_suffix(s, z.len() as int) || numeric_suffix(s, z.len() as int)),
        forall|n: int|
            1 <= n <= 4 && #[trigger] zone_suffix(s, n) ==> (detected_zone(s) matches Some(z) && z.len()
                >= n),
        numeric_suffix(s, 5) || numeric_suffix(s, 6) ==> detected_zone(s) is Some,
        detected_zone(s) is None <==> (forall|n: int| 1 <= n <= 4 ==> !#[trigger] zone_suffix(s, n))
            && !numeric_suffix(s, 5) && !numeric_suffix(s, 6),
{
    assert forall|n: int| 1 <= n <= 4 && #[trigger] zone_suffix(s, n) implies (detected_zone(
        s,
    ) matches Some(z) && z.len() >= n) by {
        if n == 1 || n == 2 || n == 3 || n == 4 {
        }
    }
    if detected_zone(s) is None {
        assert forall|n: int| 1 <= n <= 4 implies !#[trigger] zone_suffix(s, n) by {
            if n == 1 || n == 2 || n == 3 || n == 4 {
            }
        }
    }
}

/// A reading's format is settled by its first eleven bytes: what follows,
/// a zone, an offset or anything else, never changes it.
pub proof fn law_format_by_prefix(p: Seq<u8>, t: Seq<u8>)
    requires
        p.len() >= 11,
    ensures
        format_kind(p + t) == format_kind(p),
{
    let s = p + t;
    assert forall|i: int| 0 <= i < 11 implies byte(s, i) == byte(p, i) by {
    }
}

/// Text that starts `YYYY-MM-DDT` is `iso` and text that starts
/// `YYYY-MM-DD ` is `datetime`, whatever follows; any other text is `time`.
pub proof fn law_format_kinds(s: Seq<u8>)
    ensures
        ({
            let date = s.len() >= 11 && is_digit(s[0]) && is_digit(s[1]) && is_digit(s[2])
                && is_digit(s[3]) && s[4] == '-' as u8 && is_digit(s[5]) && is_digit(s[6])
                && s[7] == '-' as u8 && is_digit(s[8]) && is_digit(s[9]);
            &&& (date && s[10] == 'T' as u8 <==> format_kind(s) == 0)
            &&& (date && s[10] == ' ' as u8 <==> format_kind(s) == 1)
            &&& (!(date && (s[10] == 'T' as u8 || s[10] == ' ' as u8)) <==> format_kind(s) == 2)
        }),
{
}

} // verus!
