//! The timestamp grammar: every format `tztr` recognizes, as one leftmost-first
//! alternation over bytes, most specific format first.
//!
//! Each `spec fn` below states one piece of the grammar the way the matcher
//! reads it: greedy, with the fall-backs a backtracking matcher would try, in
//! the order it would try them. Each executable twin returns exactly the end
//! its spec gives.

use vstd::prelude::*;
use crate::text::{bat, bnd, bnd_at, byte, dg, is_digit, is_lower, is_sign, is_upper};
use crate::zones::{is_zone_token, zone_token, zone_token_at};

verus! {

/// An executable end, read as a position.
pub open spec fn as_int(r: Option<usize>) -> Option<int> {
    match r {
        Some(e) => Some(e as int),
        None => None,
    }
}

// --- character classes ------------------------------------------------------

pub open spec fn dig(s: Seq<u8>, p: int) -> bool {
    is_digit(byte(s, p))
}

pub open spec fn dig2(s: Seq<u8>, p: int) -> bool {
    dig(s, p) && dig(s, p + 1)
}

pub open spec fn dig4(s: Seq<u8>, p: int) -> bool {
    dig2(s, p) && dig2(s, p + 2)
}

pub open spec fn eqb(s: Seq<u8>, p: int, c: u8) -> bool {
    byte(s, p) == c
}

/// `[AaPp]`
pub open spec fn is_ap(b: u8) -> bool {
    b == 'A' as u8 || b == 'a' as u8 || b == 'P' as u8 || b == 'p' as u8
}

/// `[Mm]`
pub open spec fn is_m(b: u8) -> bool {
    b == 'M' as u8 || b == 'm' as u8
}

/// `[0-5]`
pub open spec fn is_d05(b: u8) -> bool {
    '0' as u8 <= b <= '5' as u8
}

/// `[0-3]`
pub open spec fn is_d03(b: u8) -> bool {
    '0' as u8 <= b <= '3' as u8
}

pub fn dg2(s: &[u8], p: usize, k: usize) -> (r: bool)
    requires
        k < 1000,
    ensures
        r == dig2(s@, p + k),
{
    dg(s, p, k) && dg(s, p, k + 1)
}

pub fn dg4(s: &[u8], p: usize, k: usize) -> (r: bool)
    requires
        k < 900,
    ensures
        r == dig4(s@, p + k),
{
    dg2(s, p, k) && dg2(s, p, k + 2)
}

pub fn ap(b: u8) -> (r: bool)
    ensures
        r == is_ap(b),
{
    b == 'A' as u8 || b == 'a' as u8 || b == 'P' as u8 || b == 'p' as u8
}

pub fn em(b: u8) -> (r: bool)
    ensures
        r == is_m(b),
{
    b == 'M' as u8 || b == 'm' as u8
}

pub fn sign(b: u8) -> (r: bool)
    ensures
        r == is_sign(b),
{
    b == '+' as u8 || b == '-' as u8
}

/// The end of the run of ASCII digits starting at `p`.
pub open spec fn run_end(s: Seq<u8>, p: int) -> int
    decreases s.len() - p,
{
    if 0 <= p < s.len() && is_digit(s[p]) {
        run_end(s, p + 1)
    } else {
        p
    }
}

pub proof fn lemma_run_end(s: Seq<u8>, p: int)
    ensures
        run_end(s, p) >= p,
        0 <= p < s.len() && is_digit(s[p]) ==> run_end(s, p) > p,
    decreases s.len() - p,
{
    if 0 <= p < s.len() && is_digit(s[p]) {
        lemma_run_end(s, p + 1);
    }
}

pub proof fn lemma_run_digits(s: Seq<u8>, p: int, e: int, k: int)
    requires
        e == run_end(s, p),
        p <= k < e,
    ensures
        is_digit(byte(s, k)),
    decreases e - p,
{
    if 0 <= p < s.len() && is_digit(s[p]) {
        if k > p {
            lemma_run_digits(s, p + 1, e, k);
        }
    }
}

/// The end of the run of ASCII letters starting at `p`.
pub open spec fn alpha_end(s: Seq<u8>, p: int) -> int
    decreases s.len() - p,
{
    if 0 <= p < s.len() && (is_upper(s[p]) || is_lower(s[p])) {
        alpha_end(s, p + 1)
    } else {
        p
    }
}

/// The end of the run of ASCII capitals starting at `p`.
pub open spec fn upper_end(s: Seq<u8>, p: int) -> int
    decreases s.len() - p,
{
    if 0 <= p < s.len() && is_upper(s[p]) {
        upper_end(s, p + 1)
    } else {
        p
    }
}

pub fn run_end_at(s: &[u8], p: usize) -> (r: usize)
    requires
        p <= s.len(),
    ensures
        r == run_end(s@, p as int),
        p <= r <= s.len(),
{
    let mut q = p;
    while q < s.len() && '0' as u8 <= s[q] && s[q] <= '9' as u8
        invariant
            p <= q <= s.len(),
            run_end(s@, q as int) == run_end(s@, p as int),
        decreases s.len() - q,
    {
        q += 1;
    }
    q
}

pub fn alpha_end_at(s: &[u8], p: usize) -> (r: usize)
    requires
        p <= s.len(),
    ensures
        r == alpha_end(s@, p as int),
        p <= r <= s.len(),
{
    let mut q = p;
    while q < s.len() && (('A' as u8 <= s[q] && s[q] <= 'Z' as u8) || ('a' as u8 <= s[q] && s[q]
        <= 'z' as u8))
        invariant
            p <= q <= s.len(),
            alpha_end(s@, q as int) == alpha_end(s@, p as int),
        decreases s.len() - q,
    {
        q += 1;
    }
    q
}

fn upper_end_at(s: &[u8], p: usize) -> (r: usize)
    requires
        p <= s.len(),
    ensures
        r == upper_end(s@, p as int),
        p <= r <= s.len(),
{
    let mut q = p;
    while q < s.len() && 'A' as u8 <= s[q] && s[q] <= 'Z' as u8
        invariant
            p <= q <= s.len(),
            upper_end(s@, q as int) == upper_end(s@, p as int),
        decreases s.len() - q,
    {
        q += 1;
    }
    q
}

// --- names ------------------------------------------------------------------

pub open spec fn lit3(s: Seq<u8>, p: int, a: u8, b: u8, c: u8) -> bool {
    byte(s, p) == a && byte(s, p + 1) == b && byte(s, p + 2) == c
}

/// The month `MON` names at `p`, `1..=12`, or `0`.
pub open spec fn mon(s: Seq<u8>, p: int) -> int {
    if lit3(s, p, 'J' as u8, 'a' as u8, 'n' as u8) {
        1
    } else if lit3(s, p, 'F' as u8, 'e' as u8, 'b' as u8) {
        2
    } else if lit3(s, p, 'M' as u8, 'a' as u8, 'r' as u8) {
        3
    } else if lit3(s, p, 'A' as u8, 'p' as u8, 'r' as u8) {
        4
    } else if lit3(s, p, 'M' as u8, 'a' as u8, 'y' as u8) {
        5
    } else if lit3(s, p, 'J' as u8, 'u' as u8, 'n' as u8) {
        6
    } else if lit3(s, p, 'J' as u8, 'u' as u8, 'l' as u8) {
        7
    } else if lit3(s, p, 'A' as u8, 'u' as u8, 'g' as u8) {
        8
    } else if lit3(s, p, 'S' as u8, 'e' as u8, 'p' as u8) {
        9
    } else if lit3(s, p, 'O' as u8, 'c' as u8, 't' as u8) {
        10
    } else if lit3(s, p, 'N' as u8, 'o' as u8, 'v' as u8) {
        11
    } else if lit3(s, p, 'D' as u8, 'e' as u8, 'c' as u8) {
        12
    } else {
        0
    }
}

/// A weekday `DAY` names at `p`.
pub open spec fn wday(s: Seq<u8>, p: int) -> bool {
    ||| lit3(s, p, 'M' as u8, 'o' as u8, 'n' as u8)
    ||| lit3(s, p, 'T' as u8, 'u' as u8, 'e' as u8)
    ||| lit3(s, p, 'W' as u8, 'e' as u8, 'd' as u8)
    ||| lit3(s, p, 'T' as u8, 'h' as u8, 'u' as u8)
    ||| lit3(s, p, 'F' as u8, 'r' as u8, 'i' as u8)
    ||| lit3(s, p, 'S' as u8, 'a' as u8, 't' as u8)
    ||| lit3(s, p, 'S' as u8, 'u' as u8, 'n' as u8)
}

pub fn lit3_at(s: &[u8], p: usize, k: usize, a: u8, b: u8, c: u8) -> (r: bool)
    requires
        k < 1000,
    ensures
        r == lit3(s@, p + k, a, b, c),
{
    bat(s, p, k) == a && bat(s, p, k + 1) == b && bat(s, p, k + 2) == c
}

pub fn mon_at(s: &[u8], p: usize, k: usize) -> (r: u8)
    requires
        k < 1000,
    ensures
        r == mon(s@, p + k),
{
    if lit3_at(s, p, k, 'J' as u8, 'a' as u8, 'n' as u8) {
        1
    } else if lit3_at(s, p, k, 'F' as u8, 'e' as u8, 'b' as u8) {
        2
    } else if lit3_at(s, p, k, 'M' as u8, 'a' as u8, 'r' as u8) {
        3
    } else if lit3_at(s, p, k, 'A' as u8, 'p' as u8, 'r' as u8) {
        4
    } else if lit3_at(s, p, k, 'M' as u8, 'a' as u8, 'y' as u8) {
        5
    } else if lit3_at(s, p, k, 'J' as u8, 'u' as u8, 'n' as u8) {
        6
    } else if lit3_at(s, p, k, 'J' as u8, 'u' as u8, 'l' as u8) {
        7
    } else if lit3_at(s, p, k, 'A' as u8, 'u' as u8, 'g' as u8) {
        8
    } else if lit3_at(s, p, k, 'S' as u8, 'e' as u8, 'p' as u8) {
        9
    } else if lit3_at(s, p, k, 'O' as u8, 'c' as u8, 't' as u8) {
        10
    } else if lit3_at(s, p, k, 'N' as u8, 'o' as u8, 'v' as u8) {
        11
    } else if lit3_at(s, p, k, 'D' as u8, 'e' as u8, 'c' as u8) {
        12
    } else {
        0
    }
}

pub fn wday_at(s: &[u8], p: usize, k: usize) -> (r: bool)
    requires
        k < 1000,
    ensures
        r == wday(s@, p + k),
{
    lit3_at(s, p, k, 'M' as u8, 'o' as u8, 'n' as u8) || lit3_at(s, p, k, 'T' as u8, 'u' as u8, 'e' as u8)
        || lit3_at(s, p, k, 'W' as u8, 'e' as u8, 'd' as u8) || lit3_at(s, p, k, 'T' as u8, 'h' as u8, 'u' as u8)
        || lit3_at(s, p, k, 'F' as u8, 'r' as u8, 'i' as u8) || lit3_at(s, p, k, 'S' as u8, 'a' as u8, 't' as u8)
        || lit3_at(s, p, k, 'S' as u8, 'u' as u8, 'n' as u8)
}

// --- tokens ----------------------------------------------------------------

/// `[0-9]{1,2}:[0-9]{2}`
pub open spec fn hm(s: Seq<u8>, p: int) -> Option<int> {
    if dig2(s, p) && eqb(s, p + 2, ':' as u8) && dig2(s, p + 3) {
        Some(p + 5)
    } else if dig(s, p) && eqb(s, p + 1, ':' as u8) && dig2(s, p + 2) {
        Some(p + 4)
    } else {
        None
    }
}

pub fn hm_at(s: &[u8], p: usize) -> (r: Option<usize>)
    ensures
        as_int(r) == hm(s@, p as int),
        r matches Some(e) ==> p < e <= s.len(),
{
    if dg2(s, p, 0) && bat(s, p, 2) == ':' as u8 && dg2(s, p, 3) {
        Some(p + 5)
    } else if dg(s, p, 0) && bat(s, p, 1) == ':' as u8 && dg2(s, p, 2) {
        Some(p + 4)
    } else {
        None
    }
}

/// `(?:\.[0-9]+)?`
pub open spec fn frac_end(s: Seq<u8>, p: int) -> int {
    if eqb(s, p, '.' as u8) && dig(s, p + 1) {
        run_end(s, p + 1)
    } else {
        p
    }
}

pub fn frac_end_at(s: &[u8], p: usize) -> (r: usize)
    requires
        p <= s.len(),
    ensures
        r == frac_end(s@, p as int),
        p <= r <= s.len(),
{
    if bat(s, p, 0) == '.' as u8 && dg(s, p, 1) {
        run_end_at(s, p + 1)
    } else {
        p
    }
}

/// `(?::[0-9]{2}(?:\.[0-9]+)?)?`
pub open spec fn secs_end(s: Seq<u8>, p: int) -> int {
    if eqb(s, p, ':' as u8) && dig2(s, p + 1) {
        frac_end(s, p + 3)
    } else {
        p
    }
}

pub fn secs_end_at(s: &[u8], p: usize) -> (r: usize)
    requires
        p <= s.len(),
    ensures
        r == secs_end(s@, p as int),
        p <= r <= s.len(),
{
    if bat(s, p, 0) == ':' as u8 && dg2(s, p, 1) {
        frac_end_at(s, p + 3)
    } else {
        p
    }
}

/// A dated clock's seconds, `(?::[0-9]{2}(?:\.[0-9]+|,[0-9]{3}\b)?)?`: any
/// fraction after a dot, or Python logging's comma and three digits.
pub open spec fn dsecs_end(s: Seq<u8>, p: int) -> int {
    if eqb(s, p, ':' as u8) && dig2(s, p + 1) {
        let q = p + 3;
        if eqb(s, q, '.' as u8) && dig(s, q + 1) {
            run_end(s, q + 1)
        } else if eqb(s, q, ',' as u8) && dig2(s, q + 1) && dig(s, q + 3) && bnd(s, q + 4) {
            q + 4
        } else {
            q
        }
    } else {
        p
    }
}

fn dsecs_end_at(s: &[u8], p: usize) -> (r: usize)
    requires
        p <= s.len(),
    ensures
        r == dsecs_end(s@, p as int),
        p <= r <= s.len(),
{
    if bat(s, p, 0) == ':' as u8 && dg2(s, p, 1) {
        let q = p + 3;
        if bat(s, q, 0) == '.' as u8 && dg(s, q, 1) {
            run_end_at(s, q + 1)
        } else if bat(s, q, 0) == ',' as u8 && dg2(s, q, 1) && dg(s, q, 3) && bnd_at(s, q, 4) {
            q + 4
        } else {
            q
        }
    } else {
        p
    }
}

/// A zone abbreviation ending at a word boundary, `(?:ZONE)\b`. The
/// abbreviations are tried longest first; at most one of them can end at a
/// boundary, since a shorter one would end inside a run of letters.
pub open spec fn zone_b(s: Seq<u8>, p: int) -> Option<int> {
    if zone_token_at(s, p, 4) && bnd(s, p + 4) {
        Some(p + 4)
    } else if zone_token_at(s, p, 3) && bnd(s, p + 3) {
        Some(p + 3)
    } else if zone_token_at(s, p, 2) && bnd(s, p + 2) {
        Some(p + 2)
    } else if zone_token_at(s, p, 1) && bnd(s, p + 1) {
        Some(p + 1)
    } else {
        None
    }
}

pub fn zone_b_at(s: &[u8], p: usize) -> (r: Option<usize>)
    ensures
        as_int(r) == zone_b(s@, p as int),
        r matches Some(e) ==> p < e <= s.len(),
{
    if zone_token(s, p, 4) && bnd_at(s, p, 4) {
        Some(p + 4)
    } else if zone_token(s, p, 3) && bnd_at(s, p, 3) {
        Some(p + 3)
    } else if zone_token(s, p, 2) && bnd_at(s, p, 2) {
        Some(p + 2)
    } else if zone_token(s, p, 1) && bnd_at(s, p, 1) {
        Some(p + 1)
    } else {
        None
    }
}

/// A numeric offset within the `-12..+14` real zones occupy:
/// `[+-](?:0[0-9]|1[0-3])[0-5][0-9]\b|[+-]1400\b`.
pub open spec fn num(s: Seq<u8>, p: int) -> Option<int> {
    if is_sign(byte(s, p)) && ((eqb(s, p + 1, '0' as u8) && dig(s, p + 2)) || (eqb(s, p + 1, '1' as u8)
        && is_d03(byte(s, p + 2)))) && is_d05(byte(s, p + 3)) && dig(s, p + 4) && bnd(s, p + 5) {
        Some(p + 5)
    } else if is_sign(byte(s, p)) && lit3(s, p + 1, '1' as u8, '4' as u8, '0' as u8) && eqb(
        s,
        p + 4,
        '0' as u8,
    ) && bnd(s, p + 5) {
        Some(p + 5)
    } else {
        None
    }
}

pub fn num_at(s: &[u8], p: usize) -> (r: Option<usize>)
    ensures
        as_int(r) == num(s@, p as int),
        r matches Some(e) ==> p < e <= s.len(),
{
    let b1 = bat(s, p, 1);
    let b2 = bat(s, p, 2);
    let b3 = bat(s, p, 3);
    if sign(bat(s, p, 0)) && ((b1 == '0' as u8 && dg(s, p, 2)) || (b1 == '1' as u8 && '0' as u8
        <= b2 && b2 <= '3' as u8)) && '0' as u8 <= b3 && b3 <= '5' as u8 && dg(s, p, 4) && bnd_at(
        s,
        p,
        5,
    ) {
        Some(p + 5)
    } else if sign(bat(s, p, 0)) && lit3_at(s, p, 1, '1' as u8, '4' as u8, '0' as u8) && bat(s, p, 4)
        == '0' as u8 && bnd_at(s, p, 5) {
        Some(p + 5)
    } else {
        None
    }
}

/// A trailing zone: `(?:(?:ZONE)\b|NUM)`.
pub open spec fn tzone(s: Seq<u8>, p: int) -> Option<int> {
    if zone_b(s, p) is Some {
        zone_b(s, p)
    } else {
        num(s, p)
    }
}

pub fn tzone_at(s: &[u8], p: usize) -> (r: Option<usize>)
    ensures
        as_int(r) == tzone(s@, p as int),
        r matches Some(e) ==> p < e <= s.len(),
{
    match zone_b_at(s, p) {
        Some(e) => Some(e),
        None => num_at(s, p),
    }
}

/// ` ?TZ`: a zone, after one optional space.
pub open spec fn sp_tzone(s: Seq<u8>, p: int) -> Option<int> {
    if eqb(s, p, ' ' as u8) {
        tzone(s, p + 1)
    } else {
        tzone(s, p)
    }
}

pub fn sp_tzone_at(s: &[u8], p: usize) -> (r: Option<usize>)
    ensures
        as_int(r) == sp_tzone(s@, p as int),
        r matches Some(e) ==> p < e <= s.len(),
{
    if bat(s, p, 0) == ' ' as u8 {
        tzone_at(s, p + 1)
    } else {
        tzone_at(s, p)
    }
}

/// Where the letter of a meridiem would stand, after its optional space.
pub open spec fn mer_letter(s: Seq<u8>, p: int) -> int {
    if eqb(s, p, ' ' as u8) {
        p + 1
    } else {
        p
    }
}

/// The rest of a meridiem after its letter: `\.[Mm]\.` or `\.?[Mm]\b`.
pub open spec fn mer_m(s: Seq<u8>, q: int) -> Option<int> {
    if eqb(s, q + 1, '.' as u8) && is_m(byte(s, q + 2)) && eqb(s, q + 3, '.' as u8) {
        Some(q + 4)
    } else if eqb(s, q + 1, '.' as u8) && is_m(byte(s, q + 2)) && bnd(s, q + 3) {
        Some(q + 3)
    } else if is_m(byte(s, q + 1)) && bnd(s, q + 2) {
        Some(q + 2)
    } else {
        None
    }
}

/// A meridiem, optionally followed by a zone ("3:45 PM PST"):
/// ` ?[AaPp](?:\.[Mm]\.|\.?[Mm]\b)(?: ?TZ)?`. A dotted one takes its
/// closing dot; an undotted one leaves a following full stop to the sentence.
pub open spec fn mer(s: Seq<u8>, p: int) -> Option<int> {
    let q = mer_letter(s, p);
    if !is_ap(byte(s, q)) {
        None
    } else {
        match mer_m(s, q) {
            None => None,
            Some(k) => match sp_tzone(s, k) {
                Some(e) => Some(e),
                None => Some(k),
            },
        }
    }
}

fn mer_m_at(s: &[u8], q: usize) -> (r: Option<usize>)
    ensures
        as_int(r) == mer_m(s@, q as int),
        r matches Some(e) ==> q < e <= s.len(),
{
    if bat(s, q, 1) == '.' as u8 && em(bat(s, q, 2)) && bat(s, q, 3) == '.' as u8 {
        Some(q + 4)
    } else if bat(s, q, 1) == '.' as u8 && em(bat(s, q, 2)) && bnd_at(s, q, 3) {
        Some(q + 3)
    } else if em(bat(s, q, 1)) && bnd_at(s, q, 2) {
        Some(q + 2)
    } else {
        None
    }
}

pub fn mer_at(s: &[u8], p: usize) -> (r: Option<usize>)
    ensures
        as_int(r) == mer(s@, p as int),
        r matches Some(e) ==> p < e <= s.len(),
{
    let q = if bat(s, p, 0) == ' ' as u8 {
        if p >= s.len() {
            return None;
        }
        p + 1
    } else {
        p
    };
    assert(q == mer_letter(s@, p as int));
    if !ap(bat(s, q, 0)) {
        return None;
    }
    match mer_m_at(s, q) {
        None => None,
        Some(k) => match sp_tzone_at(s, k) {
            Some(e) => Some(e),
            None => Some(k),
        },
    }
}

/// `[0-9]{4}(?:-[0-9]{2}-[0-9]{2}|/[0-9]{2}/[0-9]{2})`
pub open spec fn date(s: Seq<u8>, p: int) -> bool {
    dig4(s, p) && ((eqb(s, p + 4, '-' as u8) && dig2(s, p + 5) && eqb(s, p + 7, '-' as u8) && dig2(
        s,
        p + 8,
    )) || (eqb(s, p + 4, '/' as u8) && dig2(s, p + 5) && eqb(s, p + 7, '/' as u8) && dig2(s, p + 8)))
}

/// `[0-9]{4}-[0-9]{2}-[0-9]{2}`
pub open spec fn isodate(s: Seq<u8>, p: int) -> bool {
    dig4(s, p) && eqb(s, p + 4, '-' as u8) && dig2(s, p + 5) && eqb(s, p + 7, '-' as u8) && dig2(
        s,
        p + 8,
    )
}

fn date_at(s: &[u8], p: usize) -> (r: bool)
    ensures
        r == date(s@, p as int),
{
    let b4 = bat(s, p, 4);
    let b7 = bat(s, p, 7);
    dg4(s, p, 0) && ((b4 == '-' as u8 && dg2(s, p, 5) && b7 == '-' as u8 && dg2(s, p, 8)) || (b4
        == '/' as u8 && dg2(s, p, 5) && b7 == '/' as u8 && dg2(s, p, 8)))
}

pub fn isodate_at(s: &[u8], p: usize) -> (r: bool)
    ensures
        r == isodate(s@, p as int),
{
    dg4(s, p, 0) && bat(s, p, 4) == '-' as u8 && dg2(s, p, 5) && bat(s, p, 7) == '-' as u8 && dg2(
        s,
        p,
        8,
    )
}

/// The zone a date(1)-shaped line may carry, followed by a word boundary:
/// `(?:ZONE|[A-Z]{2,5}|[+-][0-9]{2}(?:[0-9]{2})?)\b`. A lettered one can only
/// end where its run of letters does.
pub open spec fn dz_b(s: Seq<u8>, p: int) -> Option<int> {
    let e = alpha_end(s, p);
    if e > p && bnd(s, e) && (is_zone_token(s.subrange(p, e)) || (2 <= e - p <= 5 && upper_end(s, p)
        == e)) {
        Some(e)
    } else if is_sign(byte(s, p)) && dig4(s, p + 1) && bnd(s, p + 5) {
        Some(p + 5)
    } else if is_sign(byte(s, p)) && dig2(s, p + 1) && bnd(s, p + 3) {
        Some(p + 3)
    } else {
        None
    }
}

/// The same zone followed by a space: `(?:ZONE|[A-Z]{2,5}|[+-][0-9]{2}(?:[0-9]{2})?) `.
pub open spec fn dz_sp(s: Seq<u8>, p: int) -> Option<int> {
    let e = alpha_end(s, p);
    if e > p && eqb(s, e, ' ' as u8) && (is_zone_token(s.subrange(p, e)) || (2 <= e - p <= 5
        && upper_end(s, p) == e)) {
        Some(e + 1)
    } else if is_sign(byte(s, p)) && dig4(s, p + 1) && eqb(s, p + 5, ' ' as u8) {
        Some(p + 6)
    } else if is_sign(byte(s, p)) && dig2(s, p + 1) && eqb(s, p + 3, ' ' as u8) {
        Some(p + 4)
    } else {
        None
    }
}

fn letters_are_zone(s: &[u8], p: usize, e: usize) -> (r: bool)
    requires
        p < e <= s.len(),
    ensures
        r == (is_zone_token(s@.subrange(p as int, e as int)) || (2 <= e - p <= 5 && upper_end(
            s@,
            p as int,
        ) == e)),
{
    let z = zone_token(s, p, e - p);
    assert(zone_token_at(s@, p as int, (e - p) as int) == is_zone_token(s@.subrange(p as int, e as int)));
    z || (2 <= e - p && e - p <= 5 && upper_end_at(s, p) == e)
}

fn dz_b_at(s: &[u8], p: usize) -> (r: Option<usize>)
    requires
        p <= s.len(),
    ensures
        as_int(r) == dz_b(s@, p as int),
        r matches Some(e) ==> p < e <= s.len(),
{
    let e = alpha_end_at(s, p);
    if e > p && bnd_at(s, e, 0) && letters_are_zone(s, p, e) {
        Some(e)
    } else if sign(bat(s, p, 0)) && dg4(s, p, 1) && bnd_at(s, p, 5) {
        Some(p + 5)
    } else if sign(bat(s, p, 0)) && dg2(s, p, 1) && bnd_at(s, p, 3) {
        Some(p + 3)
    } else {
        None
    }
}

fn dz_sp_at(s: &[u8], p: usize) -> (r: Option<usize>)
    requires
        p <= s.len(),
    ensures
        as_int(r) == dz_sp(s@, p as int),
        r matches Some(e) ==> p < e <= s.len(),
{
    let e = alpha_end_at(s, p);
    if e > p && bat(s, e, 0) == ' ' as u8 && letters_are_zone(s, p, e) {
        Some(e + 1)
    } else if sign(bat(s, p, 0)) && dg4(s, p, 1) && bat(s, p, 5) == ' ' as u8 {
        Some(p + 6)
    } else if sign(bat(s, p, 0)) && dg2(s, p, 1) && bat(s, p, 3) == ' ' as u8 {
        Some(p + 4)
    } else {
        None
    }
}

/// A day of the month and its space: `[0-9]{1,2} `.
pub open spec fn dom_sp(s: Seq<u8>, p: int) -> Option<int> {
    if dig2(s, p) && eqb(s, p + 2, ' ' as u8) {
        Some(p + 3)
    } else if dig(s, p) && eqb(s, p + 1, ' ' as u8) {
        Some(p + 2)
    } else {
        None
    }
}

pub fn dom_sp_at(s: &[u8], p: usize) -> (r: Option<usize>)
    ensures
        as_int(r) == dom_sp(s@, p as int),
        r matches Some(e) ==> p < e <= s.len(),
{
    if dg2(s, p, 0) && bat(s, p, 2) == ' ' as u8 {
        Some(p + 3)
    } else if dg(s, p, 0) && bat(s, p, 1) == ' ' as u8 {
        Some(p + 2)
    } else {
        None
    }
}

/// `[0-9]{1,2}:[0-9]{2}:[0-9]{2}`
pub open spec fn hms(s: Seq<u8>, p: int) -> Option<int> {
    match hm(s, p) {
        Some(k) => if eqb(s, k, ':' as u8) && dig2(s, k + 1) {
            Some(k + 3)
        } else {
            None
        },
        None => None,
    }
}

fn hms_at(s: &[u8], p: usize) -> (r: Option<usize>)
    ensures
        as_int(r) == hms(s@, p as int),
        r matches Some(e) ==> p < e <= s.len(),
{
    match hm_at(s, p) {
        Some(k) => if bat(s, k, 0) == ':' as u8 && dg2(s, k, 1) {
            Some(k + 3)
        } else {
            None
        },
        None => None,
    }
}

// --- the formats -----------------------------------------------------------

/// nginx/Apache access log: `15/Jan/2015:12:31:01 -0700`.
pub open spec fn p_clf(s: Seq<u8>, i: int) -> Option<int> {
    if bnd(s, i) && dig2(s, i) && eqb(s, i + 2, '/' as u8) && mon(s, i + 3) > 0 && eqb(s, i + 6, '/' as u8)
        && dig4(s, i + 7) && eqb(s, i + 11, ':' as u8) && dig2(s, i + 12) && eqb(s, i + 14, ':' as u8)
        && dig2(s, i + 15) && eqb(s, i + 17, ':' as u8) && dig2(s, i + 18) && eqb(s, i + 20, ' ' as u8)
        && is_sign(byte(s, i + 21)) && dig4(s, i + 22) && bnd(s, i + 26) {
        Some(i + 26)
    } else {
        None
    }
}

fn clf_at(s: &[u8], i: usize) -> (r: Option<usize>)
    ensures
        as_int(r) == p_clf(s@, i as int),
        r matches Some(e) ==> i < e <= s.len(),
{
    if bnd_at(s, i, 0) && dg2(s, i, 0) && bat(s, i, 2) == '/' as u8 && mon_at(s, i, 3) > 0 && bat(s, i, 6)
        == '/' as u8 && dg4(s, i, 7) && bat(s, i, 11) == ':' as u8 && dg2(s, i, 12) && bat(s, i, 14)
        == ':' as u8 && dg2(s, i, 15) && bat(s, i, 17) == ':' as u8 && dg2(s, i, 18) && bat(s, i, 20)
        == ' ' as u8 && sign(bat(s, i, 21)) && dg4(s, i, 22) && bnd_at(s, i, 26) {
        Some(i + 26)
    } else {
        None
    }
}

/// After the clock of glibc's locale date: `(?: [AP]M)? DATE_ZONE\b`.
pub open spec fn locale_tail(s: Seq<u8>, t: int) -> Option<int> {
    if eqb(s, t, ' ' as u8) && (eqb(s, t + 1, 'A' as u8) || eqb(s, t + 1, 'P' as u8)) && eqb(
        s,
        t + 2,
        'M' as u8,
    ) && eqb(s, t + 3, ' ' as u8) && dz_b(s, t + 4) is Some {
        dz_b(s, t + 4)
    } else if eqb(s, t, ' ' as u8) {
        dz_b(s, t + 1)
    } else {
        None
    }
}

/// glibc's locale date(1): `Fri 25 Sep 2026 10:14:42 PM PDT`.
pub open spec fn p_locale(s: Seq<u8>, i: int) -> Option<int> {
    if !(bnd(s, i) && wday(s, i) && eqb(s, i + 3, ' ' as u8)) {
        None
    } else {
        match dom_sp(s, i + 4) {
            None => None,
            Some(j) => if !(mon(s, j) > 0 && eqb(s, j + 3, ' ' as u8) && dig4(s, j + 4) && eqb(
                s,
                j + 8,
                ' ' as u8,
            )) {
                None
            } else {
                match hms(s, j + 9) {
                    None => None,
                    Some(t) => locale_tail(s, t),
                }
            },
        }
    }
}

fn locale_tail_at(s: &[u8], t: usize) -> (r: Option<usize>)
    requires
        t <= s.len(),
    ensures
        as_int(r) == locale_tail(s@, t as int),
        r matches Some(e) ==> t < e <= s.len(),
{
    let b1 = bat(s, t, 1);
    if bat(s, t, 0) == ' ' as u8 && (b1 == 'A' as u8 || b1 == 'P' as u8) && bat(s, t, 2) == 'M' as u8
        && bat(s, t, 3) == ' ' as u8 {
        if let Some(e) = dz_b_at(s, t + 4) {
            return Some(e);
        }
    }
    if bat(s, t, 0) == ' ' as u8 {
        dz_b_at(s, t + 1)
    } else {
        None
    }
}

fn locale_at(s: &[u8], i: usize) -> (r: Option<usize>)
    ensures
        as_int(r) == p_locale(s@, i as int),
        r matches Some(e) ==> i < e <= s.len(),
{
    if !(bnd_at(s, i, 0) && wday_at(s, i, 0) && bat(s, i, 3) == ' ' as u8) {
        return None;
    }
    let j = match dom_sp_at(s, i + 4) {
        None => return None,
        Some(j) => j,
    };
    if !(mon_at(s, j, 0) > 0 && bat(s, j, 3) == ' ' as u8 && dg4(s, j, 4) && bat(s, j, 8) == ' ' as u8) {
        return None;
    }
    match hms_at(s, j + 9) {
        None => None,
        Some(t) => locale_tail_at(s, t),
    }
}

/// Where the month of a date(1) line ends: `(?:DAY )?MON`.
pub open spec fn unix_mon(s: Seq<u8>, i: int) -> Option<int> {
    if wday(s, i) && eqb(s, i + 3, ' ' as u8) && mon(s, i + 4) > 0 {
        Some(i + 7)
    } else if mon(s, i) > 0 {
        Some(i + 3)
    } else {
        None
    }
}

/// The year of a date(1) line, after its optional zone: `(?:DATE_ZONE )?[0-9]{4}\b`.
pub open spec fn unix_year(s: Seq<u8>, p: int) -> Option<int> {
    match dz_sp(s, p) {
        Some(q) => if dig4(s, q) && bnd(s, q + 4) {
            Some(q + 4)
        } else {
            None
        },
        None => if dig4(s, p) && bnd(s, p + 4) {
            Some(p + 4)
        } else {
            None
        },
    }
}

/// date(1), ctime and `ls -lT`: `Fri Sep 25 22:14:42 PDT 2026`, weekday and
/// zone optional.
pub open spec fn p_unix(s: Seq<u8>, i: int) -> Option<int> {
    if !bnd(s, i) {
        None
    } else {
        match unix_mon(s, i) {
            None => None,
            Some(j) => if !eqb(s, j, ' ' as u8) {
                None
            } else {
                let k = if eqb(s, j + 1, ' ' as u8) {
                    j + 2
                } else {
                    j + 1
                };
                match dom_sp(s, k) {
                    None => None,
                    Some(t) => match hms(s, t) {
                        None => None,
                        Some(u) => if eqb(s, u, ' ' as u8) {
                            unix_year(s, u + 1)
                        } else {
                            None
                        },
                    },
                }
            },
        }
    }
}

fn unix_year_at(s: &[u8], p: usize) -> (r: Option<usize>)
    requires
        p <= s.len(),
    ensures
        as_int(r) == unix_year(s@, p as int),
        r matches Some(e) ==> p < e <= s.len(),
{
    match dz_sp_at(s, p) {
        Some(q) => if dg4(s, q, 0) && bnd_at(s, q, 4) {
            Some(q + 4)
        } else {
            None
        },
        None => if dg4(s, p, 0) && bnd_at(s, p, 4) {
            Some(p + 4)
        } else {
            None
        },
    }
}

fn unix_at(s: &[u8], i: usize) -> (r: Option<usize>)
    ensures
        as_int(r) == p_unix(s@, i as int),
        r matches Some(e) ==> i < e <= s.len(),
{
    if !bnd_at(s, i, 0) {
        return None;
    }
    let j = if wday_at(s, i, 0) && bat(s, i, 3) == ' ' as u8 && mon_at(s, i, 4) > 0 {
        i + 7
    } else if mon_at(s, i, 0) > 0 {
        i + 3
    } else {
        return None;
    };
    assert(unix_mon(s@, i as int) == Some(j as int));
    if bat(s, j, 0) != ' ' as u8 {
        return None;
    }
    let k = if bat(s, j, 1) == ' ' as u8 {
        j + 2
    } else {
        j + 1
    };
    let t = match dom_sp_at(s, k) {
        None => return None,
        Some(t) => t,
    };
    let u = match hms_at(s, t) {
        None => return None,
        Some(u) => u,
    };
    if bat(s, u, 0) == ' ' as u8 {
        unix_year_at(s, u + 1)
    } else {
        None
    }
}

/// RFC 2822 / HTTP: `Fri, 25 Sep 2026 22:14:42 -0700`.
pub open spec fn p_rfc(s: Seq<u8>, i: int) -> Option<int> {
    if !bnd(s, i) {
        None
    } else {
        let j = if wday(s, i) && eqb(s, i + 3, ',' as u8) && eqb(s, i + 4, ' ' as u8) {
            i + 5
        } else {
            i
        };
        match dom_sp(s, j) {
            None => None,
            Some(k) => if !(mon(s, k) > 0 && eqb(s, k + 3, ' ' as u8) && dig4(s, k + 4) && eqb(
                s,
                k + 8,
                ' ' as u8,
            ) && dig2(s, k + 9) && eqb(s, k + 11, ':' as u8) && dig2(s, k + 12)) {
                None
            } else {
                let t = if eqb(s, k + 14, ':' as u8) && dig2(s, k + 15) {
                    k + 17
                } else {
                    k + 14
                };
                if !eqb(s, t, ' ' as u8) {
                    None
                } else if is_sign(byte(s, t + 1)) && dig4(s, t + 2) && bnd(s, t + 6) {
                    Some(t + 6)
                } else {
                    zone_b(s, t + 1)
                }
            },
        }
    }
}

fn rfc_at(s: &[u8], i: usize) -> (r: Option<usize>)
    ensures
        as_int(r) == p_rfc(s@, i as int),
        r matches Some(e) ==> i < e <= s.len(),
{
    if !bnd_at(s, i, 0) {
        return None;
    }
    let j = if wday_at(s, i, 0) && bat(s, i, 3) == ',' as u8 && bat(s, i, 4) == ' ' as u8 {
        i + 5
    } else {
        i
    };
    let k = match dom_sp_at(s, j) {
        None => return None,
        Some(k) => k,
    };
    if !(mon_at(s, k, 0) > 0 && bat(s, k, 3) == ' ' as u8 && dg4(s, k, 4) && bat(s, k, 8) == ' ' as u8
        && dg2(s, k, 9) && bat(s, k, 11) == ':' as u8 && dg2(s, k, 12)) {
        return None;
    }
    let t = if bat(s, k, 14) == ':' as u8 && dg2(s, k, 15) {
        k + 17
    } else {
        k + 14
    };
    if bat(s, t, 0) != ' ' as u8 {
        None
    } else if sign(bat(s, t, 1)) && dg4(s, t, 2) && bnd_at(s, t, 6) {
        Some(t + 6)
    } else {
        zone_b_at(s, t + 1)
    }
}

/// ISO 8601's date and `T` and clock: `[0-9]{4}-[0-9]{2}-[0-9]{2}T[0-9]{1,2}:[0-9]{2}`.
pub open spec fn iso_clock(s: Seq<u8>, i: int) -> Option<int> {
    if isodate(s, i) && eqb(s, i + 10, 'T' as u8) {
        hm(s, i + 11)
    } else {
        None
    }
}

/// ISO 8601 with `Z` or an offset.
pub open spec fn p_iso_zone(s: Seq<u8>, i: int) -> Option<int> {
    match iso_clock(s, i) {
        None => None,
        Some(k) => {
            let d = dsecs_end(s, k);
            if eqb(s, d, 'Z' as u8) {
                Some(d + 1)
            } else if is_sign(byte(s, d)) && dig2(s, d + 1) && eqb(s, d + 3, ':' as u8) && dig2(
                s,
                d + 4,
            ) {
                Some(d + 6)
            } else if is_sign(byte(s, d)) && dig4(s, d + 1) {
                Some(d + 5)
            } else {
                None
            }
        },
    }
}

/// ISO 8601 without a zone.
pub open spec fn p_iso(s: Seq<u8>, i: int) -> Option<int> {
    match iso_clock(s, i) {
        None => None,
        Some(k) => Some(dsecs_end(s, k)),
    }
}

fn iso_clock_at(s: &[u8], i: usize) -> (r: Option<usize>)
    ensures
        as_int(r) == iso_clock(s@, i as int),
        r matches Some(e) ==> i < e <= s.len(),
{
    if isodate_at(s, i) && bat(s, i, 10) == 'T' as u8 {
        hm_at(s, i + 11)
    } else {
        None
    }
}

fn iso_zone_at(s: &[u8], i: usize) -> (r: Option<usize>)
    ensures
        as_int(r) == p_iso_zone(s@, i as int),
        r matches Some(e) ==> i < e <= s.len(),
{
    match iso_clock_at(s, i) {
        None => None,
        Some(k) => {
            let d = dsecs_end_at(s, k);
            if bat(s, d, 0) == 'Z' as u8 {
                Some(d + 1)
            } else if sign(bat(s, d, 0)) && dg2(s, d, 1) && bat(s, d, 3) == ':' as u8 && dg2(s, d, 4) {
                Some(d + 6)
            } else if sign(bat(s, d, 0)) && dg4(s, d, 1) {
                Some(d + 5)
            } else {
                None
            }
        },
    }
}

fn iso_at(s: &[u8], i: usize) -> (r: Option<usize>)
    ensures
        as_int(r) == p_iso(s@, i as int),
        r matches Some(e) ==> i < e <= s.len(),
{
    match iso_clock_at(s, i) {
        None => None,
        Some(k) => Some(dsecs_end_at(s, k)),
    }
}

/// A date, a space and a clock with its seconds: `DATE [0-9]{1,2}:[0-9]{2}DSECS`.
pub open spec fn dated_clock(s: Seq<u8>, i: int) -> Option<int> {
    if date(s, i) && eqb(s, i + 10, ' ' as u8) {
        match hm(s, i + 11) {
            Some(k) => Some(dsecs_end(s, k)),
            None => None,
        }
    } else {
        None
    }
}

/// Date space 12-hour time.
pub open spec fn p_dated_mer(s: Seq<u8>, i: int) -> Option<int> {
    match dated_clock(s, i) {
        Some(d) => mer(s, d),
        None => None,
    }
}

/// Date space time with a zone.
pub open spec fn p_dated_zone(s: Seq<u8>, i: int) -> Option<int> {
    match dated_clock(s, i) {
        Some(d) => sp_tzone(s, d),
        None => None,
    }
}

fn dated_clock_at(s: &[u8], i: usize) -> (r: Option<usize>)
    ensures
        as_int(r) == dated_clock(s@, i as int),
        r matches Some(e) ==> i < e <= s.len(),
{
    if date_at(s, i) && bat(s, i, 10) == ' ' as u8 {
        match hm_at(s, i + 11) {
            Some(k) => Some(dsecs_end_at(s, k)),
            None => None,
        }
    } else {
        None
    }
}

/// `\b[0-9]{1,2}:[0-9]{2}`
pub open spec fn b_hm(s: Seq<u8>, i: int) -> Option<int> {
    if bnd(s, i) {
        hm(s, i)
    } else {
        None
    }
}

/// 12-hour time: `\b[0-9]{1,2}:[0-9]{2}SECS MER`.
pub open spec fn p_mer_time(s: Seq<u8>, i: int) -> Option<int> {
    match b_hm(s, i) {
        Some(k) => mer(s, secs_end(s, k)),
        None => None,
    }
}

/// Time with a zone. A numeric offset glued to the clock needs seconds, or
/// `15:30-1645` would read as one.
pub open spec fn p_zone_time(s: Seq<u8>, i: int) -> Option<int> {
    match b_hm(s, i) {
        None => None,
        Some(k) => {
            let a = if eqb(s, k, ':' as u8) && dig2(s, k + 1) {
                sp_tzone(s, frac_end(s, k + 3))
            } else {
                None
            };
            if a is Some {
                a
            } else {
                let b = if eqb(s, k, ' ' as u8) {
                    zone_b(s, k + 1)
                } else {
                    zone_b(s, k)
                };
                if b is Some {
                    b
                } else if eqb(s, k, ' ' as u8) {
                    num(s, k + 1)
                } else {
                    None
                }
            }
        },
    }
}

/// The hours and minutes of an offset glued to a clock with seconds:
/// `(?:(?:0[0-9]|1[0-3]):?[0-5][0-9]|14:?00)\b`.
pub open spec fn glued_offset(s: Seq<u8>, o: int) -> Option<int> {
    if (eqb(s, o, '0' as u8) && dig(s, o + 1)) || (eqb(s, o, '1' as u8) && is_d03(byte(s, o + 1))) {
        if eqb(s, o + 2, ':' as u8) && is_d05(byte(s, o + 3)) && dig(s, o + 4) && bnd(s, o + 5) {
            Some(o + 5)
        } else if is_d05(byte(s, o + 2)) && dig(s, o + 3) && bnd(s, o + 4) {
            Some(o + 4)
        } else {
            None
        }
    } else if eqb(s, o, '1' as u8) && eqb(s, o + 1, '4' as u8) {
        if eqb(s, o + 2, ':' as u8) && eqb(s, o + 3, '0' as u8) && eqb(s, o + 4, '0' as u8) && bnd(s, o + 5) {
            Some(o + 5)
        } else if eqb(s, o + 2, '0' as u8) && eqb(s, o + 3, '0' as u8) && bnd(s, o + 4) {
            Some(o + 4)
        } else {
            None
        }
    } else {
        None
    }
}

/// Time with an offset. Seconds required and the offset in range, so the
/// hyphen of a range like `15:30-16:45` is not read as one.
pub open spec fn p_offset_time(s: Seq<u8>, i: int) -> Option<int> {
    match b_hm(s, i) {
        None => None,
        Some(k) => if eqb(s, k, ':' as u8) && dig2(s, k + 1) {
            let t = frac_end(s, k + 3);
            if is_sign(byte(s, t)) {
                glued_offset(s, t + 1)
            } else {
                None
            }
        } else {
            None
        },
    }
}

/// An hour with a meridiem: `9am`, `9 PM PST`.
pub open spec fn p_hour_mer(s: Seq<u8>, i: int) -> Option<int> {
    if bnd(s, i) && dig(s, i) {
        mer(
            s,
            if dig(s, i + 1) {
                i + 2
            } else {
                i + 1
            },
        )
    } else {
        None
    }
}

/// A bare time: `\b[0-9]{1,2}:[0-9]{2}SECS\b`. When the boundary fails after
/// the seconds, a matcher gives back the fraction, then the seconds.
pub open spec fn p_bare(s: Seq<u8>, i: int) -> Option<int> {
    match b_hm(s, i) {
        None => None,
        Some(k) => {
            let t = secs_end(s, k);
            if bnd(s, t) {
                Some(t)
            } else if eqb(s, k, ':' as u8) && dig2(s, k + 1) && bnd(s, k + 3) {
                Some(k + 3)
            } else if bnd(s, k) {
                Some(k)
            } else {
                None
            }
        },
    }
}

fn b_hm_at(s: &[u8], i: usize) -> (r: Option<usize>)
    ensures
        as_int(r) == b_hm(s@, i as int),
        r matches Some(e) ==> i < e <= s.len(),
{
    if bnd_at(s, i, 0) {
        hm_at(s, i)
    } else {
        None
    }
}

fn zone_time_at(s: &[u8], i: usize) -> (r: Option<usize>)
    ensures
        as_int(r) == p_zone_time(s@, i as int),
        r matches Some(e) ==> i < e <= s.len(),
{
    let k = match b_hm_at(s, i) {
        None => return None,
        Some(k) => k,
    };
    if bat(s, k, 0) == ':' as u8 && dg2(s, k, 1) {
        if let Some(e) = sp_tzone_at(s, frac_end_at(s, k + 3)) {
            return Some(e);
        }
    }
    let b = if bat(s, k, 0) == ' ' as u8 {
        zone_b_at(s, k + 1)
    } else {
        zone_b_at(s, k)
    };
    if b.is_some() {
        b
    } else if bat(s, k, 0) == ' ' as u8 {
        num_at(s, k + 1)
    } else {
        None
    }
}

fn glued_offset_at(s: &[u8], o: usize) -> (r: Option<usize>)
    ensures
        as_int(r) == glued_offset(s@, o as int),
        r matches Some(e) ==> o < e <= s.len(),
{
    let b0 = bat(s, o, 0);
    let b1 = bat(s, o, 1);
    let b2 = bat(s, o, 2);
    let b3 = bat(s, o, 3);
    if (b0 == '0' as u8 && dg(s, o, 1)) || (b0 == '1' as u8 && '0' as u8 <= b1 && b1 <= '3' as u8) {
        if b2 == ':' as u8 && '0' as u8 <= b3 && b3 <= '5' as u8 && dg(s, o, 4) && bnd_at(s, o, 5) {
            Some(o + 5)
        } else if '0' as u8 <= b2 && b2 <= '5' as u8 && dg(s, o, 3) && bnd_at(s, o, 4) {
            Some(o + 4)
        } else {
            None
        }
    } else if b0 == '1' as u8 && b1 == '4' as u8 {
        if b2 == ':' as u8 && b3 == '0' as u8 && bat(s, o, 4) == '0' as u8 && bnd_at(s, o, 5) {
            Some(o + 5)
        } else if b2 == '0' as u8 && b3 == '0' as u8 && bnd_at(s, o, 4) {
            Some(o + 4)
        } else {
            None
        }
    } else {
        None
    }
}

fn offset_time_at(s: &[u8], i: usize) -> (r: Option<usize>)
    ensures
        as_int(r) == p_offset_time(s@, i as int),
        r matches Some(e) ==> i < e <= s.len(),
{
    let k = match b_hm_at(s, i) {
        None => return None,
        Some(k) => k,
    };
    if bat(s, k, 0) == ':' as u8 && dg2(s, k, 1) {
        let t = frac_end_at(s, k + 3);
        if sign(bat(s, t, 0)) {
            glued_offset_at(s, t + 1)
        } else {
            None
        }
    } else {
        None
    }
}

fn hour_mer_at(s: &[u8], i: usize) -> (r: Option<usize>)
    ensures
        as_int(r) == p_hour_mer(s@, i as int),
        r matches Some(e) ==> i < e <= s.len(),
{
    if bnd_at(s, i, 0) && dg(s, i, 0) {
        if dg(s, i, 1) {
            mer_at(s, i + 2)
        } else {
            mer_at(s, i + 1)
        }
    } else {
        None
    }
}

fn bare_at(s: &[u8], i: usize) -> (r: Option<usize>)
    ensures
        as_int(r) == p_bare(s@, i as int),
        r matches Some(e) ==> i < e <= s.len(),
{
    let k = match b_hm_at(s, i) {
        None => return None,
        Some(k) => k,
    };
    let t = secs_end_at(s, k);
    if bnd_at(s, t, 0) {
        Some(t)
    } else if bat(s, k, 0) == ':' as u8 && dg2(s, k, 1) && bnd_at(s, k, 3) {
        Some(k + 3)
    } else if bnd_at(s, k, 0) {
        Some(k)
    } else {
        None
    }
}

/// The end of the timestamp that starts at `i`, if one does: the formats
/// tried in order, the first to match winning, so a longer format wins over
/// a shorter one inside it.
pub open spec fn stamp_at(s: Seq<u8>, i: int) -> Option<int> {
    if p_clf(s, i) is Some {
        p_clf(s, i)
    } else if p_locale(s, i) is Some {
        p_locale(s, i)
    } else if p_unix(s, i) is Some {
        p_unix(s, i)
    } else if p_rfc(s, i) is Some {
        p_rfc(s, i)
    } else if p_iso_zone(s, i) is Some {
        p_iso_zone(s, i)
    } else if p_iso(s, i) is Some {
        p_iso(s, i)
    } else if p_dated_mer(s, i) is Some {
        p_dated_mer(s, i)
    } else if p_dated_zone(s, i) is Some {
        p_dated_zone(s, i)
    } else if dated_clock(s, i) is Some {
        dated_clock(s, i)
    } else if p_mer_time(s, i) is Some {
        p_mer_time(s, i)
    } else if p_zone_time(s, i) is Some {
        p_zone_time(s, i)
    } else if p_offset_time(s, i) is Some {
        p_offset_time(s, i)
    } else if p_hour_mer(s, i) is Some {
        p_hour_mer(s, i)
    } else {
        p_bare(s, i)
    }
}

pub fn stamp_end(s: &[u8], i: usize) -> (r: Option<usize>)
    ensures
        as_int(r) == stamp_at(s@, i as int),
        r matches Some(e) ==> i < e <= s.len(),
{
    if let Some(e) = clf_at(s, i) {
        return Some(e);
    }
    if let Some(e) = locale_at(s, i) {
        return Some(e);
    }
    if let Some(e) = unix_at(s, i) {
        return Some(e);
    }
    if let Some(e) = rfc_at(s, i) {
        return Some(e);
    }
    if let Some(e) = iso_zone_at(s, i) {
        return Some(e);
    }
    if let Some(e) = iso_at(s, i) {
        return Some(e);
    }
    let dc = dated_clock_at(s, i);
    if let Some(d) = dc {
        if let Some(e) = mer_at(s, d) {
            return Some(e);
        }
        if let Some(e) = sp_tzone_at(s, d) {
            return Some(e);
        }
        return Some(d);
    }
    let bh = b_hm_at(s, i);
    if let Some(k) = bh {
        if let Some(e) = mer_at(s, secs_end_at(s, k)) {
            return Some(e);
        }
    }
    if let Some(e) = zone_time_at(s, i) {
        return Some(e);
    }
    if let Some(e) = offset_time_at(s, i) {
        return Some(e);
    }
    if let Some(e) = hour_mer_at(s, i) {
        return Some(e);
    }
    bare_at(s, i)
}

} // verus!
