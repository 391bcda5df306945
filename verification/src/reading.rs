//! What a matched timestamp is read as: a named-month date as `YYYY-MM-DD`,
//! so the weekday and day roll over with the clock; an hour alone as its
//! o'clock (`9am` is `9:00am`); anything else as written, with a slashed date
//! dashed and a comma before a fraction made a dot.
//!
//! The named-date shapes are read anchored at both ends, with `\S+` for the
//! clock and the zone. Every timestamp is ASCII, so `\S` is read on ASCII:
//! any byte that is not an ASCII space.

use vstd::prelude::*;
use crate::scan::{
    ap, as_int, dg2, dg4, dig, dig2, dig4, dom_sp, dom_sp_at, eqb, is_ap, mon, mon_at, wday,
    wday_at,
};
use crate::text::{
    bat, byte, dg, digits_num, digits_value, is_ascii_space, is_sign, pad2, push_pad2, push_range,
};

verus! {

/// The end of the run of bytes that are not ASCII spaces, from `p`: `\S*`.
pub open spec fn word_end(t: Seq<u8>, p: int) -> int
    decreases t.len() - p,
{
    if 0 <= p < t.len() && !is_ascii_space(t[p]) {
        word_end(t, p + 1)
    } else {
        p
    }
}

pub fn word_end_at(t: &[u8], p: usize) -> (r: usize)
    requires
        p <= t.len(),
    ensures
        r == word_end(t@, p as int),
        p <= r <= t.len(),
{
    let mut q = p;
    while q < t.len() && !(t[q] == ' ' as u8 || (9 <= t[q] && t[q] <= 13))
        invariant
            p <= q <= t.len(),
            word_end(t@, q as int) == word_end(t@, p as int),
        decreases t.len() - q,
    {
        q += 1;
    }
    q
}

/// How many colons `t[a..b]` holds.
pub open spec fn colons(t: Seq<u8>, a: int, b: int) -> int
    decreases b - a,
{
    if a >= b {
        0
    } else {
        colons(t, a, b - 1) + if byte(t, b - 1) == ':' as u8 {
            1int
        } else {
            0
        }
    }
}

pub fn colons_at(t: &[u8], a: usize, b: usize) -> (r: usize)
    requires
        a <= b <= t.len(),
    ensures
        r == colons(t@, a as int, b as int),
{
    let mut k = a;
    let mut n: usize = 0;
    while k < b
        invariant
            a <= k <= b <= t.len(),
            n == colons(t@, a as int, k as int),
            n <= k - a,
        decreases b - k,
    {
        if t[k] == ':' as u8 {
            n += 1;
        }
        k += 1;
    }
    n
}

/// The fields of a named-month date: where its day, clock, zone and year
/// are, and whether it has a weekday or a meridiem.
pub struct Named {
    pub weekday: bool,
    pub mon: int,
    pub day_s: int,
    pub day_e: int,
    pub time_s: int,
    pub time_e: int,
    pub mer: bool,
    pub zone: Option<(int, int)>,
    pub year_s: int,
}

pub struct NamedAt {
    pub weekday: bool,
    pub mon: u8,
    pub day_s: usize,
    pub day_e: usize,
    pub time_s: usize,
    pub time_e: usize,
    pub mer: bool,
    pub zone: Option<(usize, usize)>,
    pub year_s: usize,
}

impl View for NamedAt {
    type V = Named;

    open spec fn view(&self) -> Named {
        Named {
            weekday: self.weekday,
            mon: self.mon as int,
            day_s: self.day_s as int,
            day_e: self.day_e as int,
            time_s: self.time_s as int,
            time_e: self.time_e as int,
            mer: self.mer,
            zone: match self.zone {
                Some((a, b)) => Some((a as int, b as int)),
                None => None,
            },
            year_s: self.year_s as int,
        }
    }
}

pub open spec fn named_view(r: Option<NamedAt>) -> Option<Named> {
    match r {
        Some(n) => Some(n@),
        None => None,
    }
}

/// The fields are where a reading can take them from.
pub open spec fn named_ok(t: Seq<u8>, n: Named) -> bool {
    &&& 1 <= n.mon <= 12
    &&& 0 <= n.day_s < n.day_e <= n.day_s + 2
    &&& n.day_e <= t.len()
    &&& dig(t, n.day_s) && (n.day_e == n.day_s + 2 ==> dig(t, n.day_s + 1))
    &&& 0 <= n.time_s <= n.time_e <= t.len()
    &&& (n.mer ==> n.time_e + 3 <= t.len())
    &&& 0 <= n.year_s && n.year_s + 4 <= t.len()
    &&& (n.zone matches Some((a, b)) ==> 0 <= a < b <= t.len())
}

/// date(1)/ctime: `^(?:DAY )?MON  ?[0-9]{1,2} \S+ (?:\S+ )?[0-9]{4}$`.
pub open spec fn unix_fields(t: Seq<u8>) -> Option<Named> {
    let weekday = wday(t, 0) && eqb(t, 3, ' ' as u8) && mon(t, 4) > 0;
    let m0: int = if weekday {
        4
    } else {
        0
    };
    let j = m0 + 3;
    if mon(t, m0) == 0 || !eqb(t, j, ' ' as u8) {
        None
    } else {
        let k = if eqb(t, j + 1, ' ' as u8) {
            j + 2
        } else {
            j + 1
        };
        match dom_sp(t, k) {
            None => None,
            Some(ts) => {
                let te = word_end(t, ts);
                if te == ts || !eqb(t, te, ' ' as u8) {
                    None
                } else {
                    let z = word_end(t, te + 1);
                    let n = Named {
                        weekday,
                        mon: mon(t, m0),
                        day_s: k,
                        day_e: ts - 1,
                        time_s: ts,
                        time_e: te,
                        mer: false,
                        zone: None,
                        year_s: te + 1,
                    };
                    if z > te + 1 && eqb(t, z, ' ' as u8) && dig4(t, z + 1) && z + 5 == t.len() {
                        Some(Named { zone: Some((te + 1, z)), year_s: z + 1, ..n })
                    } else if dig4(t, te + 1) && te + 5 == t.len() {
                        Some(n)
                    } else {
                        None
                    }
                }
            },
        }
    }
}

/// RFC 2822: `^(?:DAY, )?[0-9]{1,2} MON [0-9]{4} \S+ \S+$`.
pub open spec fn rfc_fields(t: Seq<u8>) -> Option<Named> {
    let weekday = wday(t, 0) && eqb(t, 3, ',' as u8) && eqb(t, 4, ' ' as u8);
    let j: int = if weekday {
        5
    } else {
        0
    };
    match dom_sp(t, j) {
        None => None,
        Some(k) => if !(mon(t, k) > 0 && eqb(t, k + 3, ' ' as u8) && dig4(t, k + 4) && eqb(
            t,
            k + 8,
            ' ' as u8,
        )) {
            None
        } else {
            let te = word_end(t, k + 9);
            let z = word_end(t, te + 1);
            if te > k + 9 && eqb(t, te, ' ' as u8) && z > te + 1 && z == t.len() {
                Some(
                    Named {
                        weekday,
                        mon: mon(t, k),
                        day_s: j,
                        day_e: k - 1,
                        time_s: k + 9,
                        time_e: te,
                        mer: false,
                        zone: Some((te + 1, z)),
                        year_s: k + 4,
                    },
                )
            } else {
                None
            }
        },
    }
}

/// glibc's locale date: `^DAY [0-9]{1,2} MON [0-9]{4} \S+(?: [AP]M)? \S+$`.
pub open spec fn locale_fields(t: Seq<u8>) -> Option<Named> {
    if !(wday(t, 0) && eqb(t, 3, ' ' as u8)) {
        None
    } else {
        match dom_sp(t, 4) {
            None => None,
            Some(j) => if !(mon(t, j) > 0 && eqb(t, j + 3, ' ' as u8) && dig4(t, j + 4) && eqb(
                t,
                j + 8,
                ' ' as u8,
            )) {
                None
            } else {
                let ts = j + 9;
                let te = word_end(t, ts);
                let n = Named {
                    weekday: true,
                    mon: mon(t, j),
                    day_s: 4,
                    day_e: j - 1,
                    time_s: ts,
                    time_e: te,
                    mer: false,
                    zone: None,
                    year_s: j + 4,
                };
                if te == ts {
                    None
                } else if eqb(t, te, ' ' as u8) && (eqb(t, te + 1, 'A' as u8) || eqb(
                    t,
                    te + 1,
                    'P' as u8,
                )) && eqb(t, te + 2, 'M' as u8) && eqb(t, te + 3, ' ' as u8) && word_end(t, te + 4)
                    > te + 4 && word_end(t, te + 4) == t.len() {
                    Some(Named { mer: true, zone: Some((te + 4, t.len() as int)), ..n })
                } else if eqb(t, te, ' ' as u8) && word_end(t, te + 1) > te + 1 && word_end(t, te + 1)
                    == t.len() {
                    Some(Named { zone: Some((te + 1, t.len() as int)), ..n })
                } else {
                    None
                }
            },
        }
    }
}

/// The access-log date: `^[0-9]{2}/MON/[0-9]{4}:\S+ \S+$`.
pub open spec fn clf_fields(t: Seq<u8>) -> Option<Named> {
    if !(dig2(t, 0) && eqb(t, 2, '/' as u8) && mon(t, 3) > 0 && eqb(t, 6, '/' as u8) && dig4(t, 7)
        && eqb(t, 11, ':' as u8)) {
        None
    } else {
        let te = word_end(t, 12);
        let z = word_end(t, te + 1);
        if te > 12 && eqb(t, te, ' ' as u8) && z > te + 1 && z == t.len() {
            Some(
                Named {
                    weekday: false,
                    mon: mon(t, 3),
                    day_s: 0,
                    day_e: 2,
                    time_s: 12,
                    time_e: te,
                    mer: false,
                    zone: Some((te + 1, z)),
                    year_s: 7,
                },
            )
        } else {
            None
        }
    }
}

/// The named-month date a timestamp is, tried in the order the shapes are
/// read: date(1), RFC 2822, glibc's locale date, the access log.
pub open spec fn named_fields(t: Seq<u8>) -> Option<Named> {
    if unix_fields(t) is Some {
        unix_fields(t)
    } else if rfc_fields(t) is Some {
        rfc_fields(t)
    } else if locale_fields(t) is Some {
        locale_fields(t)
    } else {
        clf_fields(t)
    }
}

pub fn unix_fields_at(t: &[u8]) -> (r: Option<NamedAt>)
    ensures
        named_view(r) == unix_fields(t@),
        r matches Some(n) ==> named_ok(t@, n@),
{
    let weekday = wday_at(t, 0, 0) && bat(t, 3, 0) == ' ' as u8 && mon_at(t, 4, 0) > 0;
    let m0: usize = if weekday {
        4
    } else {
        0
    };
    let m = mon_at(t, m0, 0);
    let j = m0 + 3;
    if m == 0 || bat(t, j, 0) != ' ' as u8 {
        return None;
    }
    let k = if bat(t, j, 1) == ' ' as u8 {
        j + 2
    } else {
        j + 1
    };
    let ts = match dom_sp_at(t, k) {
        None => return None,
        Some(ts) => ts,
    };
    let te = word_end_at(t, ts);
    if te == ts || bat(t, te, 0) != ' ' as u8 {
        return None;
    }
    let z = word_end_at(t, te + 1);
    let n = NamedAt {
        weekday,
        mon: m,
        day_s: k,
        day_e: ts - 1,
        time_s: ts,
        time_e: te,
        mer: false,
        zone: None,
        year_s: te + 1,
    };
    if z > te + 1 && bat(t, z, 0) == ' ' as u8 && dg4(t, z, 1) && z + 5 == t.len() {
        Some(NamedAt { zone: Some((te + 1, z)), year_s: z + 1, ..n })
    } else if dg4(t, te, 1) && te + 5 == t.len() {
        Some(n)
    } else {
        None
    }
}

pub fn rfc_fields_at(t: &[u8]) -> (r: Option<NamedAt>)
    ensures
        named_view(r) == rfc_fields(t@),
        r matches Some(n) ==> named_ok(t@, n@),
{
    let weekday = wday_at(t, 0, 0) && bat(t, 3, 0) == ',' as u8 && bat(t, 4, 0) == ' ' as u8;
    let j: usize = if weekday {
        5
    } else {
        0
    };
    let k = match dom_sp_at(t, j) {
        None => return None,
        Some(k) => k,
    };
    let m = mon_at(t, k, 0);
    if !(m > 0 && bat(t, k, 3) == ' ' as u8 && dg4(t, k, 4) && bat(t, k, 8) == ' ' as u8) {
        return None;
    }
    let te = word_end_at(t, k + 9);
    if te > k + 9 && bat(t, te, 0) == ' ' as u8 {
        let z = word_end_at(t, te + 1);
        if z > te + 1 && z == t.len() {
            return Some(
                NamedAt {
                    weekday,
                    mon: m,
                    day_s: j,
                    day_e: k - 1,
                    time_s: k + 9,
                    time_e: te,
                    mer: false,
                    zone: Some((te + 1, z)),
                    year_s: k + 4,
                },
            );
        }
    }
    None
}

pub fn locale_fields_at(t: &[u8]) -> (r: Option<NamedAt>)
    ensures
        named_view(r) == locale_fields(t@),
        r matches Some(n) ==> named_ok(t@, n@),
{
    if !(wday_at(t, 0, 0) && bat(t, 3, 0) == ' ' as u8) {
        return None;
    }
    let j = match dom_sp_at(t, 4) {
        None => return None,
        Some(j) => j,
    };
    let m = mon_at(t, j, 0);
    if !(m > 0 && bat(t, j, 3) == ' ' as u8 && dg4(t, j, 4) && bat(t, j, 8) == ' ' as u8) {
        return None;
    }
    let ts = j + 9;
    let te = word_end_at(t, ts);
    let n = NamedAt {
        weekday: true,
        mon: m,
        day_s: 4,
        day_e: j - 1,
        time_s: ts,
        time_e: te,
        mer: false,
        zone: None,
        year_s: j + 4,
    };
    if te == ts {
        return None;
    }
    let b1 = bat(t, te, 1);
    if bat(t, te, 0) == ' ' as u8 && (b1 == 'A' as u8 || b1 == 'P' as u8) && bat(t, te, 2) == 'M' as u8
        && bat(t, te, 3) == ' ' as u8 {
        let w = word_end_at(t, te + 4);
        if w > te + 4 && w == t.len() {
            return Some(NamedAt { mer: true, zone: Some((te + 4, t.len())), ..n });
        }
    }
    if bat(t, te, 0) == ' ' as u8 {
        let w = word_end_at(t, te + 1);
        if w > te + 1 && w == t.len() {
            return Some(NamedAt { zone: Some((te + 1, t.len())), ..n });
        }
    }
    None
}

pub fn clf_fields_at(t: &[u8]) -> (r: Option<NamedAt>)
    ensures
        named_view(r) == clf_fields(t@),
        r matches Some(n) ==> named_ok(t@, n@),
{
    let m = mon_at(t, 3, 0);
    if !(dg2(t, 0, 0) && bat(t, 2, 0) == '/' as u8 && m > 0 && bat(t, 6, 0) == '/' as u8 && dg4(t, 7, 0)
        && bat(t, 11, 0) == ':' as u8) {
        return None;
    }
    let te = word_end_at(t, 12);
    if te > 12 && bat(t, te, 0) == ' ' as u8 {
        let z = word_end_at(t, te + 1);
        if z > te + 1 && z == t.len() {
            return Some(
                NamedAt {
                    weekday: false,
                    mon: m,
                    day_s: 0,
                    day_e: 2,
                    time_s: 12,
                    time_e: te,
                    mer: false,
                    zone: Some((te + 1, z)),
                    year_s: 7,
                },
            );
        }
    }
    None
}

pub fn named_fields_at(t: &[u8]) -> (r: Option<NamedAt>)
    ensures
        named_view(r) == named_fields(t@),
        r matches Some(n) ==> named_ok(t@, n@),
{
    let u = unix_fields_at(t);
    if u.is_some() {
        return u;
    }
    let r = rfc_fields_at(t);
    if r.is_some() {
        return r;
    }
    let l = locale_fields_at(t);
    if l.is_some() {
        return l;
    }
    clf_fields_at(t)
}

/// The day of the month a named date gives.
pub open spec fn day_value(t: Seq<u8>, n: Named) -> int {
    digits_value(t, n.day_s, (n.day_e - n.day_s) as nat)
}

/// `":00"`
pub open spec fn zero_secs() -> Seq<u8> {
    seq![':' as u8, '0' as u8, '0' as u8]
}

/// A named-month date as `YYYY-MM-DD`, its clock given seconds if it has
/// none, and its zone; `+03`, as tzdb writes a zone without a name, is `+0300`.
pub open spec fn named_reading(t: Seq<u8>, n: Named) -> Seq<u8> {
    let secs = if colons(t, n.time_s, n.time_e) == 1 {
        zero_secs()
    } else {
        seq![]
    };
    let mer = if n.mer {
        t.subrange(n.time_e, n.time_e + 3)
    } else {
        seq![]
    };
    let zone = match n.zone {
        Some((a, b)) => seq![' ' as u8] + t.subrange(a, b) + if b - a == 3 && is_sign(t[a]) {
            seq!['0' as u8, '0' as u8]
        } else {
            seq![]
        },
        None => seq![],
    };
    t.subrange(n.year_s, n.year_s + 4) + seq!['-' as u8] + pad2(n.mon) + seq!['-' as u8] + pad2(
        day_value(t, n),
    ) + seq![' ' as u8] + t.subrange(n.time_s, n.time_e) + secs + mer + zone
}

/// How many digits an hour alone has before its meridiem: `^([0-9]{1,2}) ?[AaPp]`.
pub open spec fn hour_digits(t: Seq<u8>) -> int {
    let n: int = if dig2(t, 0) {
        2
    } else if dig(t, 0) {
        1
    } else {
        0
    };
    if n > 0 && ((eqb(t, n, ' ' as u8) && is_ap(byte(t, n + 1))) || is_ap(byte(t, n))) {
        n
    } else {
        0
    }
}

/// A date written with slashes, dashed: `^([0-9]{4})/([0-9]{2})/` becomes `$1-$2-`.
pub open spec fn dashed(t: Seq<u8>) -> Seq<u8> {
    if dig4(t, 0) && eqb(t, 4, '/' as u8) && dig2(t, 5) && eqb(t, 7, '/' as u8) {
        t.update(4, '-' as u8).update(7, '-' as u8)
    } else {
        t
    }
}

/// Where the first `(:[0-9]{2}),([0-9])` at or after `p` starts.
pub open spec fn first_comma_frac(u: Seq<u8>, p: int) -> Option<int>
    decreases u.len() - p,
{
    if p < 0 || p >= u.len() {
        None
    } else if eqb(u, p, ':' as u8) && dig2(u, p + 1) && eqb(u, p + 3, ',' as u8) && dig(u, p + 4) {
        Some(p)
    } else {
        first_comma_frac(u, p + 1)
    }
}

/// The first comma before a fraction made a dot: `$1.$2`.
pub open spec fn dotted(u: Seq<u8>) -> Seq<u8> {
    match first_comma_frac(u, 0) {
        Some(p) => u.update(p + 3, '.' as u8),
        None => u,
    }
}

/// What a timestamp is read as.
pub open spec fn reading(t: Seq<u8>) -> Seq<u8> {
    match named_fields(t) {
        Some(n) => named_reading(t, n),
        None => {
            let h = hour_digits(t);
            if h > 0 {
                t.subrange(0, h) + zero_secs() + t.subrange(h, t.len() as int)
            } else {
                dotted(dashed(t))
            }
        },
    }
}

fn push_zero_secs(out: &mut Vec<u8>)
    ensures
        final(out)@ == old(out)@ + zero_secs(),
{
    out.push(':' as u8);
    out.push('0' as u8);
    out.push('0' as u8);
    assert(out@ =~= old(out)@ + zero_secs());
}

fn named_reading_at(t: &[u8], n: &NamedAt) -> (r: Vec<u8>)
    requires
        named_ok(t@, n@),
    ensures
        r@ == named_reading(t@, n@),
{
    let tl = t.len();
    let mut out: Vec<u8> = Vec::new();
    push_range(&mut out, t, n.year_s, n.year_s + 4);
    out.push('-' as u8);
    push_pad2(&mut out, n.mon as u32);
    out.push('-' as u8);
    let day = digits_num(t, n.day_s, n.day_e - n.day_s);
    push_pad2(&mut out, day);
    out.push(' ' as u8);
    push_range(&mut out, t, n.time_s, n.time_e);
    if colons_at(t, n.time_s, n.time_e) == 1 {
        push_zero_secs(&mut out);
    }
    if n.mer {
        push_range(&mut out, t, n.time_e, n.time_e + 3);
    }
    match n.zone {
        Some((a, b)) => {
            out.push(' ' as u8);
            push_range(&mut out, t, a, b);
            if b - a == 3 && (t[a] == '+' as u8 || t[a] == '-' as u8) {
                out.push('0' as u8);
                out.push('0' as u8);
            }
        },
        None => {},
    }
    proof {
        let secs = if colons(t@, n@.time_s, n@.time_e) == 1 {
            zero_secs()
        } else {
            seq![]
        };
        let mer = if n@.mer {
            t@.subrange(n@.time_e, n@.time_e + 3)
        } else {
            seq![]
        };
        let zone = match n@.zone {
            Some((a, b)) => seq![' ' as u8] + t@.subrange(a, b) + if b - a == 3 && is_sign(t@[a]) {
                seq!['0' as u8, '0' as u8]
            } else {
                seq![]
            },
            None => seq![],
        };
        assert(out@ =~= t@.subrange(n@.year_s, n@.year_s + 4) + seq!['-' as u8] + pad2(n@.mon)
            + seq!['-' as u8] + pad2(day_value(t@, n@)) + seq![' ' as u8] + t@.subrange(
            n@.time_s,
            n@.time_e,
        ) + secs + mer + zone);
    }
    out
}

fn hour_digits_at(t: &[u8]) -> (r: usize)
    ensures
        r == hour_digits(t@),
        r <= 2,
        r > 0 ==> r <= t.len(),
{
    let n: usize = if dg2(t, 0, 0) {
        2
    } else if dg(t, 0, 0) {
        1
    } else {
        0
    };
    if n > 0 && ((bat(t, n, 0) == ' ' as u8 && ap(bat(t, n, 1))) || ap(bat(t, n, 0))) {
        n
    } else {
        0
    }
}

fn dashed_at(t: &[u8]) -> (r: Vec<u8>)
    ensures
        r@ == dashed(t@),
{
    let mut v = copy_all(t);
    if dg4(t, 0, 0) && bat(t, 4, 0) == '/' as u8 && dg2(t, 5, 0) && bat(t, 7, 0) == '/' as u8 {
        v.set(4, '-' as u8);
        v.set(7, '-' as u8);
    }
    v
}

fn copy_all(t: &[u8]) -> (r: Vec<u8>)
    ensures
        r@ == t@,
{
    let mut v: Vec<u8> = Vec::new();
    push_range(&mut v, t, 0, t.len());
    assert(v@ =~= t@);
    v
}

fn dotted_at(v: Vec<u8>) -> (r: Vec<u8>)
    ensures
        r@ == dotted(v@),
{
    let mut u = v;
    let mut p: usize = 0;
    while p < u.len()
        invariant
            u@ == v@,
            p <= u@.len(),
            first_comma_frac(u@, 0) == first_comma_frac(u@, p as int),
        decreases u.len() - p,
    {
        let s = u.as_slice();
        if bat(s, p, 0) == ':' as u8 && dg2(s, p, 1) && bat(s, p, 3) == ',' as u8 && dg(s, p, 4) {
            assert(first_comma_frac(u@, p as int) == Some(p as int));
            u.set(p + 3, '.' as u8);
            return u;
        }
        p += 1;
    }
    u
}

/// What a timestamp's text is read as.
pub fn reading_of(t: &[u8]) -> (r: Vec<u8>)
    ensures
        r@ == reading(t@),
{
    match named_fields_at(t) {
        Some(n) => named_reading_at(t, &n),
        None => {
            let h = hour_digits_at(t);
            if h > 0 {
                let mut out: Vec<u8> = Vec::new();
                push_range(&mut out, t, 0, h);
                push_zero_secs(&mut out);
                push_range(&mut out, t, h, t.len());
                out
            } else {
                dotted_at(dashed_at(t))
            }
        },
    }
}

} // verus!
