//! Every timestamp starts and ends on an ASCII byte, so the text between
//! timestamps, and each timestamp, is whole UTF-8 wherever the line is.

use vstd::prelude::*;
use crate::scan::{
    isodate, alpha_end, b_hm, dated_clock, dig2, dom_sp, dsecs_end, dz_b, dz_sp, eqb, frac_end, hm, hms, iso_clock,
    lemma_run_digits, lemma_run_end, mer, mer_letter, mer_m, p_bare, p_clf, p_dated_mer, p_dated_zone,
    p_hour_mer, p_iso, p_iso_zone, p_locale, p_mer_time, p_offset_time, p_rfc, p_unix, p_zone_time,
    run_end, secs_end, sp_tzone, stamp_at, tzone, unix_mon, wday, zone_b,
};
use crate::text::{byte, is_digit, is_lower, is_upper, pad2, pad4};
use crate::civil::{local_ok, LocalTime};
use crate::reading::{clf_fields, locale_fields, rfc_fields, unix_fields, colons};
use crate::format::{hour_alone, 
    any_date_space, clock12_text, day_as_written, day_bare, day_space, format_time, hm_text, hms_text,
    iso_zone, locale_text, month_abbrev, nanos9, offset_colon, pad3, rfc_text, unix_text, weekday_abbrev,
    written_clock, written_zone, year_text, ymd_text, z_text, clf_text, first_clock, name3,
};
use crate::strs::{is_ascii_bytes, lemma_ascii_utf8};
use vstd::utf8::{
    is_char_boundary, is_char_boundary_iff_not_is_continuation_byte, is_continuation_byte, valid_utf8,
    valid_utf8_concat, valid_utf8_split,
};
use crate::zones::{all_lower, is_zone_token, zone_abbreviations, zone_token_at};

verus! {

/// The byte at `i` is ASCII; past either end there is none, which counts.
pub open spec fn plain(s: Seq<u8>, i: int) -> bool {
    byte(s, i) < 128
}

/// A span of the line that starts and ends on an ASCII byte.
pub open spec fn plain_ends(s: Seq<u8>, a: int, e: int) -> bool {
    plain(s, a) && plain(s, e - 1)
}

proof fn lemma_run_last(s: Seq<u8>, p: int)
    ensures
        run_end(s, p) >= p,
        run_end(s, p) > p ==> plain(s, run_end(s, p) - 1) && is_digit(byte(s, p)),
{
    lemma_run_end(s, p);
    if run_end(s, p) > p {
        lemma_run_digits(s, p, run_end(s, p), run_end(s, p) - 1);
        lemma_run_digits(s, p, run_end(s, p), p);
    }
}

proof fn lemma_alpha_last(s: Seq<u8>, p: int)
    ensures
        alpha_end(s, p) >= p,
        alpha_end(s, p) > p ==> plain(s, alpha_end(s, p) - 1),
    decreases s.len() - p,
{
    if 0 <= p < s.len() && (is_upper(s[p]) || is_lower(s[p])) {
        lemma_alpha_last(s, p + 1);
    }
}

#[verifier::spinoff_prover]
proof fn lemma_abbreviations_plain()
    ensures
        forall|j: int|
            0 <= j < zone_abbreviations().len() ==> (#[trigger] zone_abbreviations()[j]).len() > 0
                && zone_abbreviations()[j].last() < 128,
{
    let t = zone_abbreviations();
    assert forall|j: int| 0 <= j < t.len() implies (#[trigger] t[j]).len() > 0 && t[j].last() < 128 by {
        assert(is_upper(t[j].last()));
    }
}

proof fn lemma_zone_token_last(s: Seq<u8>, p: int, len: int)
    requires
        zone_token_at(s, p, len),
    ensures
        plain(s, p + len - 1),
{
    let t = s.subrange(p, p + len);
    assert(byte(s, p + len - 1) == t[len - 1]);
    if zone_abbreviations().contains(t) {
        lemma_abbreviations_plain();
        let j = choose|j: int| 0 <= j < zone_abbreviations().len() && zone_abbreviations()[j] == t;
        assert(zone_abbreviations()[j].last() == t[len - 1]);
    } else {
        assert(all_lower(t));
        assert(is_lower(t[len - 1]));
    }
}

proof fn lemma_zone_b(s: Seq<u8>, p: int)
    ensures
        zone_b(s, p) matches Some(q) ==> q > p && plain(s, q - 1),
{
    if zone_token_at(s, p, 4) && crate::text::bnd(s, p + 4) {
        lemma_zone_token_last(s, p, 4);
    } else if zone_token_at(s, p, 3) && crate::text::bnd(s, p + 3) {
        lemma_zone_token_last(s, p, 3);
    } else if zone_token_at(s, p, 2) && crate::text::bnd(s, p + 2) {
        lemma_zone_token_last(s, p, 2);
    } else if zone_token_at(s, p, 1) && crate::text::bnd(s, p + 1) {
        lemma_zone_token_last(s, p, 1);
    }
}

proof fn lemma_tzone(s: Seq<u8>, p: int)
    ensures
        tzone(s, p) matches Some(q) ==> q > p && plain(s, q - 1),
        sp_tzone(s, p) matches Some(q) ==> q > p && plain(s, q - 1),
{
    lemma_zone_b(s, p);
    lemma_zone_b(s, p + 1);
}

proof fn lemma_frac(s: Seq<u8>, p: int)
    ensures
        frac_end(s, p) >= p,
        frac_end(s, p) > p ==> plain(s, frac_end(s, p) - 1),
        secs_end(s, p) >= p,
        secs_end(s, p) > p ==> plain(s, secs_end(s, p) - 1),
        dsecs_end(s, p) >= p,
        dsecs_end(s, p) > p ==> plain(s, dsecs_end(s, p) - 1),
{
    lemma_run_last(s, p + 1);
    lemma_run_last(s, p + 4);
    if eqb(s, p, ':' as u8) && dig2(s, p + 1) {
        lemma_run_last(s, p + 4);
        assert(plain(s, p + 2));
    }
}

proof fn lemma_mer(s: Seq<u8>, p: int)
    ensures
        mer(s, p) matches Some(q) ==> q > p && plain(s, q - 1),
{
    let q = mer_letter(s, p);
    if let Some(k) = mer_m(s, q) {
        lemma_tzone(s, k);
    }
}

proof fn lemma_dz(s: Seq<u8>, p: int)
    ensures
        dz_b(s, p) matches Some(q) ==> q > p && plain(s, q - 1),
        dz_sp(s, p) matches Some(q) ==> q > p && plain(s, q - 1),
{
    lemma_alpha_last(s, p);
}

#[verifier::spinoff_prover]
proof fn lemma_clock(s: Seq<u8>, p: int)
    ensures
        hm(s, p) matches Some(q) ==> q > p && plain(s, q - 1) && plain(s, p),
        hms(s, p) matches Some(q) ==> q > p && plain(s, q - 1),
        iso_clock(s, p) matches Some(q) ==> q > p && plain(s, q - 1) && plain(s, p),
        dated_clock(s, p) matches Some(q) ==> q > p && plain(s, q - 1) && plain(s, p),
        p_iso(s, p) matches Some(q) ==> q > p && plain(s, q - 1) && plain(s, p),
        p_iso_zone(s, p) matches Some(q) ==> q > p && plain(s, q - 1) && plain(s, p),
{
    if let Some(k) = hm(s, p + 11) {
        lemma_frac(s, k);
        assert(plain(s, k - 1));
    }
}

#[verifier::spinoff_prover]
proof fn lemma_named(s: Seq<u8>, i: int)
    ensures
        p_clf(s, i) matches Some(q) ==> q > i && plain(s, q - 1) && plain(s, i),
        p_locale(s, i) matches Some(q) ==> q > i && plain(s, q - 1) && plain(s, i),
        p_unix(s, i) matches Some(q) ==> q > i && plain(s, q - 1) && plain(s, i),
        p_rfc(s, i) matches Some(q) ==> q > i && plain(s, q - 1) && plain(s, i),
{
    if let Some(j) = dom_sp(s, i + 4) {
        if let Some(t) = hms(s, j + 9) {
            lemma_dz(s, t + 4);
            lemma_dz(s, t + 1);
        }
    }
    if let Some(j) = unix_mon(s, i) {
        let k = if eqb(s, j + 1, ' ' as u8) {
            j + 2
        } else {
            j + 1
        };
        if let Some(t) = dom_sp(s, k) {
            if let Some(u) = hms(s, t) {
                lemma_dz(s, u + 1);
            }
        }
    }
    let j = if wday(s, i) && eqb(s, i + 3, ',' as u8) && eqb(s, i + 4, ' ' as u8) {
        i + 5
    } else {
        i
    };
    if let Some(k) = dom_sp(s, j) {
        let t = if eqb(s, k + 14, ':' as u8) && dig2(s, k + 15) {
            k + 17
        } else {
            k + 14
        };
        lemma_zone_b(s, t + 1);
    }
}

#[verifier::spinoff_prover]
proof fn lemma_times(s: Seq<u8>, i: int)
    ensures
        p_dated_mer(s, i) matches Some(q) ==> q > i && plain(s, q - 1) && plain(s, i),
        p_dated_zone(s, i) matches Some(q) ==> q > i && plain(s, q - 1) && plain(s, i),
        p_mer_time(s, i) matches Some(q) ==> q > i && plain(s, q - 1) && plain(s, i),
        p_zone_time(s, i) matches Some(q) ==> q > i && plain(s, q - 1) && plain(s, i),
        p_offset_time(s, i) matches Some(q) ==> q > i && plain(s, q - 1) && plain(s, i),
        p_hour_mer(s, i) matches Some(q) ==> q > i && plain(s, q - 1) && plain(s, i),
        p_bare(s, i) matches Some(q) ==> q > i && plain(s, q - 1) && plain(s, i),
{
    lemma_clock(s, i);
    if let Some(d) = dated_clock(s, i) {
        lemma_mer(s, d);
        lemma_tzone(s, d);
    }
    if let Some(k) = b_hm(s, i) {
        lemma_frac(s, k);
        lemma_frac(s, k + 3);
        lemma_mer(s, secs_end(s, k));
        lemma_tzone(s, frac_end(s, k + 3));
        lemma_zone_b(s, k);
        lemma_zone_b(s, k + 1);
    }
    lemma_mer(s, i + 1);
    lemma_mer(s, i + 2);
}

/// A timestamp the grammar finds starts and ends on an ASCII byte.
#[verifier::spinoff_prover]
pub proof fn lemma_stamp_plain(s: Seq<u8>, i: int)
    ensures
        stamp_at(s, i) matches Some(e) ==> i < e && plain(s, i) && plain(s, e - 1),
{
    lemma_named(s, i);
    lemma_clock(s, i);
    lemma_times(s, i);
}

// --- whole UTF-8 between cuts ------------------------------------------------

/// A place where valid UTF-8 may be cut: an end, or before a byte that
/// begins a character.
pub open spec fn cut(s: Seq<u8>, p: int) -> bool {
    p == 0 || p == s.len() || (0 < p < s.len() && !is_continuation_byte(s[p]))
}

/// The text between two cuts of valid UTF-8 is valid UTF-8.
#[verifier::spinoff_prover]
pub proof fn lemma_between_cuts(s: Seq<u8>, a: int, b: int)
    requires
        valid_utf8(s),
        0 <= a <= b <= s.len(),
        cut(s, a),
        cut(s, b),
    ensures
        valid_utf8(s.subrange(a, b)),
{
    let t = s.subrange(a, s.len() as int);
    if a == 0 {
        assert(t =~= s);
    } else if a == s.len() {
        assert(t.len() == 0);
    } else {
        is_char_boundary_iff_not_is_continuation_byte(s, a);
        valid_utf8_split(s, a);
    }
    assert(valid_utf8(t));
    if b == s.len() {
        assert(s.subrange(a, b) =~= t);
    } else if b == a {
        assert(s.subrange(a, b).len() == 0);
    } else {
        assert(t[b - a] == s[b]);
        is_char_boundary_iff_not_is_continuation_byte(t, b - a);
        valid_utf8_split(t, b - a);
        assert(t.subrange(0, b - a) =~= s.subrange(a, b));
    }
}

/// Either side of an ASCII byte of valid UTF-8 is a cut.
#[verifier::spinoff_prover]
pub proof fn lemma_ascii_cuts(s: Seq<u8>, i: int)
    requires
        valid_utf8(s),
        0 <= i < s.len(),
        s[i] < 128,
    ensures
        cut(s, i),
        cut(s, i + 1),
{
    if i + 1 < s.len() {
        if i > 0 {
            is_char_boundary_iff_not_is_continuation_byte(s, i);
            valid_utf8_split(s, i);
        }
        let t = s.subrange(i, s.len() as int);
        assert(i == 0 ==> t =~= s);
        assert(valid_utf8(t));
        assert(t[0] == s[i]);
        let rest = t.subrange(1, t.len() as int);
        assert(vstd::utf8::pop_first_scalar(t) =~= rest);
        assert(valid_utf8(rest));
        assert(rest.len() > 0);
        assert(vstd::utf8::valid_first_scalar(rest));
        assert(rest[0] == s[i + 1]);
        assert(!is_continuation_byte(rest[0]));
    }
}

// --- what a converted timestamp is written as --------------------------------

proof fn lemma_ascii_concat(a: Seq<u8>, b: Seq<u8>)
    requires
        is_ascii_bytes(a),
        is_ascii_bytes(b),
    ensures
        is_ascii_bytes(a + b),
{
    assert forall|i: int| 0 <= i < (a + b).len() implies #[trigger] (a + b)[i] < 128 by {
        if i < a.len() {
            assert((a + b)[i] == a[i]);
        } else {
            assert((a + b)[i] == b[i - a.len()]);
        }
    }
}

proof fn lemma_digits(v: int)
    requires
        0 <= v < 10000,
    ensures
        0 <= v < 100 ==> is_ascii_bytes(pad2(v)),
        0 <= v < 1000 ==> is_ascii_bytes(pad3(v)),
        is_ascii_bytes(pad4(v)),
        0 <= v < 10 ==> is_ascii_bytes(seq![crate::format::digit_char(v)]),
{
    assert(is_ascii_bytes(pad2(v % 100)));
    assert(is_ascii_bytes(pad2(v / 100)));
    lemma_ascii_concat(pad2(v / 100), pad2(v % 100));
    if v < 1000 {
        assert(is_ascii_bytes(seq![crate::format::digit_char(v / 100)]));
        lemma_ascii_concat(seq![crate::format::digit_char(v / 100)], pad2(v % 100));
    }
}

proof fn lemma_year(y: int)
    requires
        -9999 <= y <= 9999,
    ensures
        is_ascii_bytes(year_text(y)),
{
    if y >= 0 {
        lemma_digits(y);
    } else {
        lemma_digits(-y);
        if y > -1000 {
            lemma_ascii_concat(seq!['-' as u8], pad3(-y));
        } else {
            lemma_ascii_concat(seq!['-' as u8], pad4(-y));
        }
    }
}

proof fn lemma_hm_texts(t: LocalTime)
    requires
        local_ok(t),
    ensures
        is_ascii_bytes(hm_text(t)),
        is_ascii_bytes(hms_text(t)),
{
    lemma_digits(t.hour as int);
    lemma_digits(t.minute as int);
    lemma_digits(t.second as int);
    lemma_ascii_concat(pad2(t.hour as int), seq![':' as u8]);
    lemma_ascii_concat(pad2(t.hour as int) + seq![':' as u8], pad2(t.minute as int));
    lemma_ascii_concat(hm_text(t), seq![':' as u8]);
    lemma_ascii_concat(hm_text(t) + seq![':' as u8], pad2(t.second as int));
}

#[verifier::spinoff_prover]
proof fn lemma_clock12(t: LocalTime)
    requires
        local_ok(t),
    ensures
        is_ascii_bytes(clock12_text(t)),
{
    let h = if t.hour == 0 {
        12
    } else if t.hour > 12 {
        t.hour - 12
    } else {
        t.hour as int
    };
    lemma_digits(h);
    lemma_digits(t.minute as int);
    lemma_digits(t.second as int);
    let c1 = pad2(h) + seq![':' as u8];
    lemma_ascii_concat(pad2(h), seq![':' as u8]);
    lemma_ascii_concat(c1, pad2(t.minute as int));
    lemma_ascii_concat(c1 + pad2(t.minute as int), seq![':' as u8]);
    lemma_ascii_concat(c1 + pad2(t.minute as int) + seq![':' as u8], pad2(t.second as int));
    let ap = seq![' ' as u8, if t.hour < 12 { 'A' as u8 } else { 'P' as u8 }, 'M' as u8];
    lemma_ascii_concat(c1 + pad2(t.minute as int) + seq![':' as u8] + pad2(t.second as int), ap);
}

#[verifier::spinoff_prover]
proof fn lemma_offsets(t: LocalTime)
    requires
        local_ok(t),
    ensures
        is_ascii_bytes(iso_zone(t)),
        is_ascii_bytes(z_text(t)),
{
    let a = if t.offset < 0 { -t.offset } else { t.offset as int };
    lemma_digits(a / 3600);
    lemma_digits((a % 3600) / 60);
    lemma_digits((a / 60) % 60);
    lemma_digits(a % 60);
    let sg = seq![if t.offset < 0 { '-' as u8 } else { '+' as u8 }];
    lemma_ascii_concat(sg, pad2(a / 3600));
    lemma_ascii_concat(sg + pad2(a / 3600), seq![':' as u8]);
    lemma_ascii_concat(sg + pad2(a / 3600) + seq![':' as u8], pad2((a % 3600) / 60));
    assert(offset_colon(t.offset as int) == sg + pad2(a / 3600) + seq![':' as u8] + pad2((a % 3600) / 60));
    lemma_ascii_concat(sg + pad2(a / 3600), pad2((a / 60) % 60));
    lemma_ascii_concat(sg + pad2(a / 3600) + pad2((a / 60) % 60), pad2(a % 60));
    lemma_ascii_concat(sg + pad2(a / 3600) + pad2((a / 60) % 60), seq![]);
    assert(sg + pad2(a / 3600) + pad2((a / 60) % 60) + seq![] =~= sg + pad2(a / 3600) + pad2((a / 60) % 60));
}

proof fn lemma_nanos(t: LocalTime)
    requires
        local_ok(t),
    ensures
        is_ascii_bytes(nanos9(t.nanos as int)),
{
    let n = t.nanos as int;
    lemma_digits(n / 1000000);
    lemma_digits((n / 1000) % 1000);
    lemma_digits(n % 1000);
    lemma_ascii_concat(pad3(n / 1000000), pad3((n / 1000) % 1000));
    lemma_ascii_concat(pad3(n / 1000000) + pad3((n / 1000) % 1000), pad3(n % 1000));
}

#[verifier::spinoff_prover]
proof fn lemma_ymd(t: LocalTime, sep: u8)
    requires
        local_ok(t),
        sep < 128,
    ensures
        is_ascii_bytes(ymd_text(t, sep)),
{
    lemma_year(t.year as int);
    lemma_digits(t.month as int);
    lemma_digits(t.day as int);
    let y = year_text(t.year as int);
    lemma_ascii_concat(y, seq![sep]);
    lemma_ascii_concat(y + seq![sep], pad2(t.month as int));
    lemma_ascii_concat(y + seq![sep] + pad2(t.month as int), seq![sep]);
    lemma_ascii_concat(y + seq![sep] + pad2(t.month as int) + seq![sep], pad2(t.day as int));
}

proof fn lemma_names(t: LocalTime)
    requires
        local_ok(t),
    ensures
        is_ascii_bytes(month_abbrev(t.month as int)),
        is_ascii_bytes(weekday_abbrev(t.weekday as int)),
        is_ascii_bytes(day_space(t.day as int)),
        is_ascii_bytes(day_bare(t.day as int)),
{
    lemma_digits(t.day as int);
}

#[verifier::spinoff_prover]
proof fn lemma_clf(t: LocalTime)
    requires
        local_ok(t),
    ensures
        is_ascii_bytes(clf_text(t)),
{
    lemma_names(t);
    lemma_offsets(t);
    lemma_hm_texts(t);
    lemma_year(t.year as int);
    lemma_digits(t.day as int);
    let m = month_abbrev(t.month as int);
    let y = year_text(t.year as int);
    let d = pad2(t.day as int) + seq!['/' as u8];
    lemma_ascii_concat(pad2(t.day as int), seq!['/' as u8]);
    lemma_ascii_concat(d, m);
    lemma_ascii_concat(d + m, seq!['/' as u8]);
    lemma_ascii_concat(d + m + seq!['/' as u8], y);
    lemma_ascii_concat(d + m + seq!['/' as u8] + y, seq![':' as u8]);
    lemma_ascii_concat(d + m + seq!['/' as u8] + y + seq![':' as u8], hms_text(t));
    lemma_ascii_concat(d + m + seq!['/' as u8] + y + seq![':' as u8] + hms_text(t), seq![' ' as u8]);
    lemma_ascii_concat(d + m + seq!['/' as u8] + y + seq![':' as u8] + hms_text(t) + seq![' ' as u8], z_text(t));
}

#[verifier::spinoff_prover]
proof fn lemma_written_clock(t: LocalTime, u: Seq<u8>)
    requires
        local_ok(t),
    ensures
        is_ascii_bytes(written_clock(t, u)),
{
    lemma_hm_texts(t);
    lemma_nanos(t);
    if let Some(p) = first_clock(u, 0) {
        let k = hm(u, p)->0;
        if eqb(u, k, ':' as u8) && dig2(u, k + 1) && (eqb(u, k + 3, '.' as u8) || eqb(u, k + 3, ',' as u8))
            && crate::scan::dig(u, k + 4) {
            lemma_run_last(u, k + 4);
            let n = run_end(u, k + 4) - (k + 4);
            let take = if n < 9 {
                n
            } else {
                9
            };
            let x = nanos9(t.nanos as int).subrange(0, take);
            assert(is_ascii_bytes(x)) by {
                assert forall|i: int| 0 <= i < x.len() implies #[trigger] x[i] < 128 by {
                    assert(x[i] == nanos9(t.nanos as int)[i]);
                }
            }
            assert(u[k + 3] == byte(u, k + 3));
            lemma_ascii_concat(hms_text(t), seq![u[k + 3]]);
            lemma_ascii_concat(hms_text(t) + seq![u[k + 3]], x);
        }
    }
}

proof fn lemma_written_zone(t: LocalTime, u: Seq<u8>, zone: Option<(int, int)>)
    requires
        local_ok(t),
    ensures
        valid_utf8(written_zone(t, u, zone)),
{
    lemma_offsets(t);
    lemma_ascii_utf8(z_text(t));
}

/// ASCII text, then valid UTF-8, then ASCII text, is valid UTF-8.
proof fn lemma_around(a: Seq<u8>, b: Seq<u8>, c: Seq<u8>)
    requires
        is_ascii_bytes(a),
        valid_utf8(b),
        is_ascii_bytes(c),
    ensures
        valid_utf8(a + b + c),
{
    lemma_ascii_utf8(a);
    lemma_ascii_utf8(c);
    valid_utf8_concat(a, b);
    valid_utf8_concat(a + b, c);
}

proof fn lemma_ascii_all(a: Seq<u8>)
    requires
        is_ascii_bytes(a),
    ensures
        valid_utf8(a),
{
    lemma_ascii_utf8(a);
}

#[verifier::spinoff_prover]
proof fn lemma_unix_valid(t: LocalTime, u: Seq<u8>)
    requires
        local_ok(t),
        unix_fields(u) is Some,
    ensures
        valid_utf8(unix_text(t, u, unix_fields(u)->0)),
{
    lemma_hm_texts(t);
    lemma_names(t);
    lemma_year(t.year as int);
    let e: Seq<u8> = seq![];
    assert(is_ascii_bytes(e));
    let sp = seq![' ' as u8];
        let n = unix_fields(u)->0;
        let wk = if n.weekday {
            weekday_abbrev(t.weekday as int) + sp
        } else {
            e
        };
        lemma_ascii_concat(weekday_abbrev(t.weekday as int), sp);
        let m = month_abbrev(t.month as int);
        lemma_ascii_concat(wk, m);
        lemma_ascii_concat(wk + m, sp);
        lemma_ascii_concat(wk + m + sp, day_space(t.day as int));
        lemma_ascii_concat(wk + m + sp + day_space(t.day as int), sp);
        lemma_ascii_concat(wk + m + sp + day_space(t.day as int) + sp, hms_text(t));
        let pre = wk + m + sp + day_space(t.day as int) + sp + hms_text(t) + sp;
        lemma_ascii_concat(wk + m + sp + day_space(t.day as int) + sp + hms_text(t), sp);
        let y = year_text(t.year as int);
        lemma_ascii_concat(sp, y);
        lemma_written_zone(t, u, n.zone);
        lemma_around(pre, written_zone(t, u, n.zone), sp + y);
        assert(pre + written_zone(t, u, n.zone) + (sp + y) =~= unix_text(t, u, n));
}

#[verifier::spinoff_prover]
proof fn lemma_locale_valid(t: LocalTime, u: Seq<u8>)
    requires
        local_ok(t),
        locale_fields(u) is Some,
    ensures
        valid_utf8(locale_text(t, u, locale_fields(u)->0)),
{
    lemma_hm_texts(t);
    lemma_names(t);
    lemma_year(t.year as int);
    let e: Seq<u8> = seq![];
    assert(is_ascii_bytes(e));
    let sp = seq![' ' as u8];
        let n = locale_fields(u)->0;
        lemma_clock12(t);
        let m = month_abbrev(t.month as int);
        let dw = day_as_written(t, n);
        let clk = if n.mer {
            clock12_text(t)
        } else {
            hms_text(t)
        };
        let y = year_text(t.year as int);
        let w = weekday_abbrev(t.weekday as int);
        lemma_digits(t.day as int);
        assert(is_ascii_bytes(dw));
        lemma_ascii_concat(w, sp);
        lemma_ascii_concat(w + sp, dw);
        lemma_ascii_concat(w + sp + dw, sp);
        lemma_ascii_concat(w + sp + dw + sp, m);
        lemma_ascii_concat(w + sp + dw + sp + m, sp);
        lemma_ascii_concat(w + sp + dw + sp + m + sp, y);
        lemma_ascii_concat(w + sp + dw + sp + m + sp + y, sp);
        lemma_ascii_concat(w + sp + dw + sp + m + sp + y + sp, clk);
        lemma_ascii_concat(w + sp + dw + sp + m + sp + y + sp + clk, sp);
        let pre = w + sp + dw + sp + m + sp + y + sp + clk + sp;
        lemma_written_zone(t, u, n.zone);
        lemma_around(pre, written_zone(t, u, n.zone), e);
        assert(pre + written_zone(t, u, n.zone) + e =~= locale_text(t, u, n));
}

#[verifier::spinoff_prover]
proof fn lemma_rfc_valid(t: LocalTime, u: Seq<u8>)
    requires
        local_ok(t),
        rfc_fields(u) is Some,
    ensures
        valid_utf8(rfc_text(t, u, rfc_fields(u)->0)),
{
    lemma_hm_texts(t);
    lemma_names(t);
    lemma_year(t.year as int);
    let e: Seq<u8> = seq![];
    assert(is_ascii_bytes(e));
    let sp = seq![' ' as u8];
        let n = rfc_fields(u)->0;
        let m = month_abbrev(t.month as int);
        let dw = day_as_written(t, n);
        let y = year_text(t.year as int);
        let wk = if n.weekday {
            weekday_abbrev(t.weekday as int) + seq![',' as u8, ' ' as u8]
        } else {
            e
        };
        lemma_ascii_concat(weekday_abbrev(t.weekday as int), seq![',' as u8, ' ' as u8]);
        lemma_digits(t.day as int);
        lemma_digits(t.second as int);
        assert(is_ascii_bytes(dw));
        let secs = if colons(u, n.time_s, n.time_e) == 2 {
            seq![':' as u8] + pad2(t.second as int)
        } else {
            e
        };
        lemma_ascii_concat(seq![':' as u8], pad2(t.second as int));
        lemma_ascii_concat(wk, dw);
        lemma_ascii_concat(wk + dw, sp);
        lemma_ascii_concat(wk + dw + sp, m);
        lemma_ascii_concat(wk + dw + sp + m, sp);
        lemma_ascii_concat(wk + dw + sp + m + sp, y);
        lemma_ascii_concat(wk + dw + sp + m + sp + y, sp);
        lemma_ascii_concat(wk + dw + sp + m + sp + y + sp, hm_text(t));
        lemma_ascii_concat(wk + dw + sp + m + sp + y + sp + hm_text(t), secs);
        lemma_ascii_concat(wk + dw + sp + m + sp + y + sp + hm_text(t) + secs, sp);
        let pre = wk + dw + sp + m + sp + y + sp + hm_text(t) + secs + sp;
        lemma_written_zone(t, u, n.zone);
        lemma_around(pre, written_zone(t, u, n.zone), e);
        assert(pre + written_zone(t, u, n.zone) + e =~= rfc_text(t, u, n));
}

/// What a converted timestamp is written as is valid UTF-8: ASCII around
/// the zone's abbreviation.
#[verifier::spinoff_prover]
pub proof fn lemma_format_valid(t: LocalTime, fmt: Option<crate::format::Format>, u: Seq<u8>)
    requires
        local_ok(t),
    ensures
        valid_utf8(format_time(t, fmt, u)),
{
    lemma_hm_texts(t);
    lemma_offsets(t);
    lemma_clf(t);
    lemma_names(t);
    lemma_year(t.year as int);
    lemma_ymd(t, '-' as u8);
    lemma_written_clock(t, u);
    lemma_written_zone(t, u, None);
    let ab = t.abbrev@;
    let e: Seq<u8> = seq![];
    assert(is_ascii_bytes(e));
    let sp = seq![' ' as u8];
    let ymd = ymd_text(t, '-' as u8);
    match fmt {
        Some(crate::format::Format::Time) => lemma_ascii_all(hms_text(t)),
        Some(crate::format::Format::Iso) => {
            lemma_ascii_concat(ymd, sp);
            lemma_ascii_concat(ymd + sp, hms_text(t));
            lemma_ascii_concat(ymd + sp + hms_text(t), iso_zone(t));
            lemma_ascii_all(ymd + sp + hms_text(t) + iso_zone(t));
        },
        Some(crate::format::Format::Short) => {
            lemma_ascii_concat(ymd, sp);
            lemma_ascii_concat(ymd + sp, hm_text(t));
            lemma_ascii_concat(ymd + sp + hm_text(t), sp);
            lemma_around(ymd + sp + hm_text(t) + sp, ab, e);
            assert(ymd + sp + hm_text(t) + sp + ab + e =~= ymd + sp + hm_text(t) + sp + ab);
        },
        None => {
            if isodate(u, 0) && eqb(u, 10, 'T' as u8) {
                let w = written_clock(t, u);
                lemma_ascii_concat(ymd, seq!['T' as u8]);
                lemma_ascii_concat(ymd + seq!['T' as u8], w);
                lemma_ascii_concat(ymd + seq!['T' as u8] + w, iso_zone(t));
                lemma_ascii_all(ymd + seq!['T' as u8] + w + iso_zone(t));
            } else if any_date_space(u) {
                assert(u[4] == byte(u, 4));
                lemma_ymd(t, u[4]);
                let y4 = ymd_text(t, u[4]);
                let w = written_clock(t, u);
                lemma_ascii_concat(y4, sp);
                lemma_ascii_concat(y4 + sp, w);
                lemma_ascii_concat(y4 + sp + w, sp);
                lemma_around(y4 + sp + w + sp, ab, e);
                assert(y4 + sp + w + sp + ab + e =~= y4 + sp + w + sp + ab);
            } else if clf_fields(u) is Some {
                lemma_ascii_all(clf_text(t));
            } else if unix_fields(u) is Some {
                lemma_unix_valid(t, u);
            } else if locale_fields(u) is Some {
                lemma_locale_valid(t, u);
            } else if rfc_fields(u) is Some {
                lemma_rfc_valid(t, u);
            } else if hm(u, 0) is Some {
                let w = written_clock(t, u);
                lemma_ascii_concat(w, sp);
                lemma_around(w + sp, ab, e);
                assert(w + sp + ab + e =~= w + sp + ab);
            } else if hour_alone(u) {
                lemma_ascii_concat(hm_text(t), sp);
                lemma_around(hm_text(t) + sp, ab, e);
                assert(hm_text(t) + sp + ab + e =~= hm_text(t) + sp + ab);
            } else {
                lemma_ascii_concat(ymd, sp);
                lemma_ascii_concat(ymd + sp, hms_text(t));
                lemma_ascii_concat(ymd + sp + hms_text(t), sp);
                lemma_around(ymd + sp + hms_text(t) + sp, ab, e);
                assert(ymd + sp + hms_text(t) + sp + ab + e =~= ymd + sp + hms_text(t) + sp + ab);
            }
        },
    }
}

} // verus!
