//! The zone abbreviations recognized inside text, the fixed offsets the
//! natively known ones stand for, and the alias table of `-f`/`-t` values.

use vstd::prelude::*;
use crate::text::{
    byte, digits, is_digit, digits_at, digits_num, digits_value, is_lower, is_sign, lower_byte, to_lower, to_upper,
    upper_byte,
};

verus! {

/// Timezone abbreviations recognized inside text: the ones with a native
/// fixed offset (`UT UTC GMT` plus E/C/M/P x ST/DT) and the
/// abbreviation-shaped keys of the alias table. An allowlist, so log levels
/// (`INFO`, `WARN`) and meridiems (`PM`) are never read as zones.
pub open spec fn zone_abbreviations() -> Seq<Seq<u8>> {
    seq![
        seq!['A' as u8, 'E' as u8, 'D' as u8, 'T' as u8],
        seq!['A' as u8, 'E' as u8, 'S' as u8, 'T' as u8],
        seq!['A' as u8, 'K' as u8, 'D' as u8, 'T' as u8],
        seq!['A' as u8, 'K' as u8, 'S' as u8, 'T' as u8],
        seq!['B' as u8, 'S' as u8, 'T' as u8],
        seq!['C' as u8, 'D' as u8, 'T' as u8],
        seq!['C' as u8, 'E' as u8, 'S' as u8, 'T' as u8],
        seq!['C' as u8, 'E' as u8, 'T' as u8],
        seq!['C' as u8, 'S' as u8, 'T' as u8],
        seq!['C' as u8, 'T' as u8],
        seq!['E' as u8, 'D' as u8, 'T' as u8],
        seq!['E' as u8, 'S' as u8, 'T' as u8],
        seq!['E' as u8, 'T' as u8],
        seq!['G' as u8, 'M' as u8, 'T' as u8],
        seq!['H' as u8, 'K' as u8, 'T' as u8],
        seq!['H' as u8, 'S' as u8, 'T' as u8],
        seq!['I' as u8, 'S' as u8, 'T' as u8],
        seq!['J' as u8, 'S' as u8, 'T' as u8],
        seq!['K' as u8, 'S' as u8, 'T' as u8],
        seq!['M' as u8, 'D' as u8, 'T' as u8],
        seq!['M' as u8, 'S' as u8, 'T' as u8],
        seq!['M' as u8, 'T' as u8],
        seq!['N' as u8, 'Z' as u8, 'D' as u8, 'T' as u8],
        seq!['N' as u8, 'Z' as u8, 'S' as u8, 'T' as u8],
        seq!['P' as u8, 'D' as u8, 'T' as u8],
        seq!['P' as u8, 'S' as u8, 'T' as u8],
        seq!['P' as u8, 'T' as u8],
        seq!['U' as u8, 'T' as u8],
        seq!['U' as u8, 'T' as u8, 'C' as u8],
        seq!['Z' as u8],
    ]
}

/// Abbreviations whose lowercase spelling is also a word likely to follow a
/// time (French "est", "cet", "et"; German "ist"), so they are matched in
/// uppercase only.
pub open spec fn word_abbreviations() -> Seq<Seq<u8>> {
    seq![
        seq!['E' as u8, 'S' as u8, 'T' as u8],
        seq!['C' as u8, 'E' as u8, 'T' as u8],
        seq!['E' as u8, 'T' as u8],
        seq!['I' as u8, 'S' as u8, 'T' as u8],
        seq!['U' as u8, 'T' as u8],
        seq!['Z' as u8],
    ]
}

pub open spec fn upper_seq(t: Seq<u8>) -> Seq<u8> {
    t.map_values(|b: u8| to_upper(b))
}

pub open spec fn lower_seq(t: Seq<u8>) -> Seq<u8> {
    t.map_values(|b: u8| to_lower(b))
}

pub open spec fn all_lower(t: Seq<u8>) -> bool {
    forall|k: int| 0 <= k < t.len() ==> #[trigger] is_lower(t[k])
}

/// A zone token inside text: an abbreviation in uppercase, or wholly in
/// lowercase unless that spelling is also a word. Never mixed case.
pub open spec fn is_zone_token(t: Seq<u8>) -> bool {
    ||| zone_abbreviations().contains(t)
    ||| (t.len() > 0 && all_lower(t) && zone_abbreviations().contains(upper_seq(t))
        && !word_abbreviations().contains(upper_seq(t)))
}

/// A zone token spans `s[i..i + len]`.
pub open spec fn zone_token_at(s: Seq<u8>, i: int, len: int) -> bool {
    0 <= i && 0 < len && i + len <= s.len() && is_zone_token(s.subrange(i, i + len))
}

/// The zone abbreviations recognized inside text, as bytes.
pub fn abbreviation_table() -> (v: Vec<Vec<u8>>)
    ensures
        v@.len() == zone_abbreviations().len(),
        forall|k: int| 0 <= k < v@.len() ==> (#[trigger] v@[k])@ == zone_abbreviations()[k],
{
    let v = vec![
        vec!['A' as u8, 'E' as u8, 'D' as u8, 'T' as u8],
        vec!['A' as u8, 'E' as u8, 'S' as u8, 'T' as u8],
        vec!['A' as u8, 'K' as u8, 'D' as u8, 'T' as u8],
        vec!['A' as u8, 'K' as u8, 'S' as u8, 'T' as u8],
        vec!['B' as u8, 'S' as u8, 'T' as u8],
        vec!['C' as u8, 'D' as u8, 'T' as u8],
        vec!['C' as u8, 'E' as u8, 'S' as u8, 'T' as u8],
        vec!['C' as u8, 'E' as u8, 'T' as u8],
        vec!['C' as u8, 'S' as u8, 'T' as u8],
        vec!['C' as u8, 'T' as u8],
        vec!['E' as u8, 'D' as u8, 'T' as u8],
        vec!['E' as u8, 'S' as u8, 'T' as u8],
        vec!['E' as u8, 'T' as u8],
        vec!['G' as u8, 'M' as u8, 'T' as u8],
        vec!['H' as u8, 'K' as u8, 'T' as u8],
        vec!['H' as u8, 'S' as u8, 'T' as u8],
        vec!['I' as u8, 'S' as u8, 'T' as u8],
        vec!['J' as u8, 'S' as u8, 'T' as u8],
        vec!['K' as u8, 'S' as u8, 'T' as u8],
        vec!['M' as u8, 'D' as u8, 'T' as u8],
        vec!['M' as u8, 'S' as u8, 'T' as u8],
        vec!['M' as u8, 'T' as u8],
        vec!['N' as u8, 'Z' as u8, 'D' as u8, 'T' as u8],
        vec!['N' as u8, 'Z' as u8, 'S' as u8, 'T' as u8],
        vec!['P' as u8, 'D' as u8, 'T' as u8],
        vec!['P' as u8, 'S' as u8, 'T' as u8],
        vec!['P' as u8, 'T' as u8],
        vec!['U' as u8, 'T' as u8],
        vec!['U' as u8, 'T' as u8, 'C' as u8],
        vec!['Z' as u8],
    ];
    assert forall|k: int| 0 <= k < v@.len() implies (#[trigger] v@[k])@ == zone_abbreviations()[k] by {
        assert(v@[k]@ =~= zone_abbreviations()[k]);
    }
    v
}

fn word_table() -> (v: Vec<Vec<u8>>)
    ensures
        v@.len() == word_abbreviations().len(),
        forall|k: int| 0 <= k < v@.len() ==> (#[trigger] v@[k])@ == word_abbreviations()[k],
{
    let v = vec![
        vec!['E' as u8, 'S' as u8, 'T' as u8],
        vec!['C' as u8, 'E' as u8, 'T' as u8],
        vec!['E' as u8, 'T' as u8],
        vec!['I' as u8, 'S' as u8, 'T' as u8],
        vec!['U' as u8, 'T' as u8],
        vec!['Z' as u8],
    ];
    assert forall|k: int| 0 <= k < v@.len() implies (#[trigger] v@[k])@ == word_abbreviations()[k] by {
        assert(v@[k]@ =~= word_abbreviations()[k]);
    }
    v
}

pub fn bytes_eq(a: &[u8], b: &[u8]) -> (r: bool)
    ensures
        r == (a@ == b@),
{
    if a.len() != b.len() {
        return false;
    }
    let mut k: usize = 0;
    while k < a.len()
        invariant
            a.len() == b.len(),
            k <= a.len(),
            forall|j: int| 0 <= j < k ==> a@[j] == b@[j],
        decreases a.len() - k,
    {
        if a[k] != b[k] {
            return false;
        }
        k += 1;
    }
    assert(a@ =~= b@);
    true
}

/// `a` equals `s[i..i + len]`.
pub fn region_eq(a: &[u8], s: &[u8], i: usize, len: usize) -> (r: bool)
    requires
        i + len <= s.len(),
    ensures
        r == (a@ == s@.subrange(i as int, (i + len) as int)),
{
    if a.len() != len {
        return false;
    }
    let mut k: usize = 0;
    while k < len
        invariant
            a.len() == len,
            i + len <= s.len(),
            k <= len,
            forall|j: int| 0 <= j < k ==> a@[j] == s@[i + j],
        decreases len - k,
    {
        if a[k] != s[i + k] {
            assert(s@.subrange(i as int, (i + len) as int)[k as int] == s@[i + k]);
            return false;
        }
        k += 1;
    }
    assert(a@ =~= s@.subrange(i as int, (i + len) as int));
    true
}

pub fn table_contains(tbl: &Vec<Vec<u8>>, spec_tbl: Ghost<Seq<Seq<u8>>>, t: &[u8]) -> (r: bool)
    requires
        tbl@.len() == spec_tbl@.len(),
        forall|k: int| 0 <= k < tbl@.len() ==> (#[trigger] tbl@[k])@ == spec_tbl@[k],
    ensures
        r == spec_tbl@.contains(t@),
{
    let mut k: usize = 0;
    while k < tbl.len()
        invariant
            k <= tbl@.len() == spec_tbl@.len(),
            forall|j: int| 0 <= j < tbl@.len() ==> (#[trigger] tbl@[j])@ == spec_tbl@[j],
            forall|j: int| 0 <= j < k ==> spec_tbl@[j] != t@,
        decreases tbl.len() - k,
    {
        if bytes_eq(tbl[k].as_slice(), t) {
            assert(spec_tbl@[k as int] == t@);
            return true;
        }
        k += 1;
    }
    assert(!spec_tbl@.contains(t@)) by {
        if spec_tbl@.contains(t@) {
            let j = choose|j: int| 0 <= j < spec_tbl@.len() && spec_tbl@[j] == t@;
            assert(spec_tbl@[j] != t@);
        }
    }
    false
}

/// Whether `t` is one of the zone abbreviations, as written.
pub fn zone_listed(t: &[u8]) -> (r: bool)
    ensures
        r == zone_abbreviations().contains(t@),
{
    table_contains(&abbreviation_table(), Ghost(zone_abbreviations()), t)
}

/// `s[from..to]` with ASCII letters uppercased.
pub fn upper_copy(s: &[u8], from: usize, to: usize) -> (r: Vec<u8>)
    requires
        from <= to <= s.len(),
    ensures
        r@ == upper_seq(s@.subrange(from as int, to as int)),
{
    let mut r: Vec<u8> = Vec::new();
    let mut k = from;
    while k < to
        invariant
            from <= k <= to <= s.len(),
            r@ =~= upper_seq(s@.subrange(from as int, k as int)),
        decreases to - k,
    {
        r.push(upper_byte(s[k]));
        k += 1;
        assert(r@ =~= upper_seq(s@.subrange(from as int, k as int)));
    }
    r
}

/// `s[from..to]` with ASCII letters lowercased.
pub fn lower_copy(s: &[u8], from: usize, to: usize) -> (r: Vec<u8>)
    requires
        from <= to <= s.len(),
    ensures
        r@ == lower_seq(s@.subrange(from as int, to as int)),
{
    let mut r: Vec<u8> = Vec::new();
    let mut k = from;
    while k < to
        invariant
            from <= k <= to <= s.len(),
            r@ =~= lower_seq(s@.subrange(from as int, k as int)),
        decreases to - k,
    {
        r.push(lower_byte(s[k]));
        k += 1;
        assert(r@ =~= lower_seq(s@.subrange(from as int, k as int)));
    }
    r
}

fn all_lower_range(s: &[u8], from: usize, to: usize) -> (r: bool)
    requires
        from <= to <= s.len(),
    ensures
        r == all_lower(s@.subrange(from as int, to as int)),
{
    let mut k = from;
    while k < to
        invariant
            from <= k <= to <= s.len(),
            forall|j: int| from <= j < k ==> is_lower(#[trigger] s@[j]),
        decreases to - k,
    {
        if !('a' as u8 <= s[k] && s[k] <= 'z' as u8) {
            assert(!is_lower(s@.subrange(from as int, to as int)[k - from]));
            return false;
        }
        k += 1;
    }
    assert forall|j: int| 0 <= j < to - from implies #[trigger] is_lower(
        s@.subrange(from as int, to as int)[j],
    ) by {
        assert(is_lower(s@[from + j]));
    }
    true
}

proof fn abbreviations_are_upper()
    ensures
        forall|j: int|
            0 <= j < zone_abbreviations().len() ==> upper_seq(#[trigger] zone_abbreviations()[j])
                == zone_abbreviations()[j],
{
    assert forall|j: int| 0 <= j < zone_abbreviations().len() implies upper_seq(
        #[trigger] zone_abbreviations()[j],
    ) == zone_abbreviations()[j] by {
        assert(upper_seq(zone_abbreviations()[j]) =~= zone_abbreviations()[j]);
    }
}

/// Whether a zone token spans `s[i..i + len]`.
pub fn zone_token(s: &[u8], i: usize, len: usize) -> (r: bool)
    ensures
        r == zone_token_at(s@, i as int, len as int),
{
    if len == 0 || i > s.len() || len > s.len() - i {
        return false;
    }
    let ghost t = s@.subrange(i as int, (i + len) as int);
    let up = upper_copy(s, i, i + len);
    proof {
        abbreviations_are_upper();
        if zone_abbreviations().contains(t) {
            let j = choose|j: int|
                0 <= j < zone_abbreviations().len() && zone_abbreviations()[j] == t;
            assert(upper_seq(zone_abbreviations()[j]) == zone_abbreviations()[j]);
        }
    }
    if !table_contains(&abbreviation_table(), Ghost(zone_abbreviations()), up.as_slice()) {
        return false;
    }
    if region_eq(up.as_slice(), s, i, len) {
        return true;
    }
    all_lower_range(s, i, i + len) && !table_contains(&word_table(), Ghost(word_abbreviations()), up.as_slice())
}

// --- fixed offsets --------------------------------------------------------

/// The abbreviations with a fixed offset, in seconds east of UTC, whatever
/// the date: `CEST` is +02:00 even in January. Only `ET`, `CT`, `MT`, `PT`
/// are left out: they follow DST through the alias table.
pub open spec fn offset_table() -> Seq<(Seq<u8>, int)> {
    seq![
        (seq!['U' as u8, 'T' as u8, 'C' as u8], 0),
        (seq!['G' as u8, 'M' as u8, 'T' as u8], 0),
        (seq!['U' as u8, 'T' as u8], 0),
        (seq!['E' as u8, 'S' as u8, 'T' as u8], -18000),
        (seq!['E' as u8, 'D' as u8, 'T' as u8], -14400),
        (seq!['C' as u8, 'S' as u8, 'T' as u8], -21600),
        (seq!['C' as u8, 'D' as u8, 'T' as u8], -18000),
        (seq!['M' as u8, 'S' as u8, 'T' as u8], -25200),
        (seq!['M' as u8, 'D' as u8, 'T' as u8], -21600),
        (seq!['P' as u8, 'S' as u8, 'T' as u8], -28800),
        (seq!['P' as u8, 'D' as u8, 'T' as u8], -25200),
        (seq!['H' as u8, 'S' as u8, 'T' as u8], -36000),
        (seq!['A' as u8, 'K' as u8, 'S' as u8, 'T' as u8], -32400),
        (seq!['A' as u8, 'K' as u8, 'D' as u8, 'T' as u8], -28800),
        (seq!['C' as u8, 'E' as u8, 'T' as u8], 3600),
        (seq!['B' as u8, 'S' as u8, 'T' as u8], 3600),
        (seq!['C' as u8, 'E' as u8, 'S' as u8, 'T' as u8], 7200),
        (seq!['I' as u8, 'S' as u8, 'T' as u8], 19800),
        (seq!['J' as u8, 'S' as u8, 'T' as u8], 32400),
        (seq!['K' as u8, 'S' as u8, 'T' as u8], 32400),
        (seq!['H' as u8, 'K' as u8, 'T' as u8], 28800),
        (seq!['A' as u8, 'E' as u8, 'S' as u8, 'T' as u8], 36000),
        (seq!['A' as u8, 'E' as u8, 'D' as u8, 'T' as u8], 39600),
        (seq!['N' as u8, 'Z' as u8, 'S' as u8, 'T' as u8], 43200),
        (seq!['N' as u8, 'Z' as u8, 'D' as u8, 'T' as u8], 46800),
    ]
}

pub open spec fn offset_lookup(tbl: Seq<(Seq<u8>, int)>, key: Seq<u8>) -> Option<int>
    decreases tbl.len(),
{
    if tbl.len() == 0 {
        None
    } else if tbl[0].0 == key {
        Some(tbl[0].1)
    } else {
        offset_lookup(tbl.drop_first(), key)
    }
}

/// `^[+-][0-9]{2}:?[0-9]{2}$`
pub open spec fn numeric_zone(t: Seq<u8>) -> bool {
    ||| (t.len() == 5 && is_sign(t[0]) && digits_at(t, 1, 4))
    ||| (t.len() == 6 && is_sign(t[0]) && digits_at(t, 1, 2) && t[3] == ':' as u8 && digits_at(
        t,
        4,
        2,
    ))
}

/// The seconds a numeric zone stands for; minutes are not range checked.
pub open spec fn numeric_zone_seconds(t: Seq<u8>) -> int {
    let m = if t.len() == 6 { 4int } else { 3int };
    let v = digits_value(t, 1, 2) * 3600 + digits_value(t, m, 2) * 60;
    if t[0] == '-' as u8 {
        -v
    } else {
        v
    }
}

/// The offset a zone token names, if it is a fixed one: `Z`, a numeric
/// offset, or a natively known abbreviation in either case.
pub open spec fn zone_offset_seconds(t: Seq<u8>) -> Option<int> {
    if t.len() == 0 {
        None
    } else if t == seq!['Z' as u8] {
        Some(0)
    } else if numeric_zone(t) {
        Some(numeric_zone_seconds(t))
    } else {
        offset_lookup(offset_table(), upper_seq(t))
    }
}

proof fn offset_values_small(tbl: Seq<(Seq<u8>, int)>)
    requires
        tbl == offset_table(),
    ensures
        forall|j: int| 0 <= j < tbl.len() ==> -360000 < #[trigger] tbl[j].1 < 360000,
{
}

fn offset_vec() -> (v: Vec<(Vec<u8>, i32)>)
    ensures
        v@.len() == offset_table().len(),
        forall|k: int|
            0 <= k < v@.len() ==> (#[trigger] v@[k]).0@ == offset_table()[k].0 && v@[k].1
                == offset_table()[k].1,
{
    let v = vec![
        (vec!['U' as u8, 'T' as u8, 'C' as u8], 0i32),
        (vec!['G' as u8, 'M' as u8, 'T' as u8], 0i32),
        (vec!['U' as u8, 'T' as u8], 0i32),
        (vec!['E' as u8, 'S' as u8, 'T' as u8], -18000i32),
        (vec!['E' as u8, 'D' as u8, 'T' as u8], -14400i32),
        (vec!['C' as u8, 'S' as u8, 'T' as u8], -21600i32),
        (vec!['C' as u8, 'D' as u8, 'T' as u8], -18000i32),
        (vec!['M' as u8, 'S' as u8, 'T' as u8], -25200i32),
        (vec!['M' as u8, 'D' as u8, 'T' as u8], -21600i32),
        (vec!['P' as u8, 'S' as u8, 'T' as u8], -28800i32),
        (vec!['P' as u8, 'D' as u8, 'T' as u8], -25200i32),
        (vec!['H' as u8, 'S' as u8, 'T' as u8], -36000i32),
        (vec!['A' as u8, 'K' as u8, 'S' as u8, 'T' as u8], -32400i32),
        (vec!['A' as u8, 'K' as u8, 'D' as u8, 'T' as u8], -28800i32),
        (vec!['C' as u8, 'E' as u8, 'T' as u8], 3600i32),
        (vec!['B' as u8, 'S' as u8, 'T' as u8], 3600i32),
        (vec!['C' as u8, 'E' as u8, 'S' as u8, 'T' as u8], 7200i32),
        (vec!['I' as u8, 'S' as u8, 'T' as u8], 19800i32),
        (vec!['J' as u8, 'S' as u8, 'T' as u8], 32400i32),
        (vec!['K' as u8, 'S' as u8, 'T' as u8], 32400i32),
        (vec!['H' as u8, 'K' as u8, 'T' as u8], 28800i32),
        (vec!['A' as u8, 'E' as u8, 'S' as u8, 'T' as u8], 36000i32),
        (vec!['A' as u8, 'E' as u8, 'D' as u8, 'T' as u8], 39600i32),
        (vec!['N' as u8, 'Z' as u8, 'S' as u8, 'T' as u8], 43200i32),
        (vec!['N' as u8, 'Z' as u8, 'D' as u8, 'T' as u8], 46800i32),
    ];
    assert(v@.len() == offset_table().len());
    assert forall|k: int| 0 <= k < v@.len() implies (#[trigger] v@[k]).0@ == offset_table()[k].0
        && v@[k].1 == offset_table()[k].1 by {
        assert(v@[k].0@ =~= offset_table()[k].0);
    }
    v
}

pub fn numeric_zone_check(t: &[u8]) -> (r: bool)
    ensures
        r == numeric_zone(t@),
{
    if t.len() == 5 {
        (t[0] == '+' as u8 || t[0] == '-' as u8) && digits(t, 1, 4)
    } else if t.len() == 6 {
        (t[0] == '+' as u8 || t[0] == '-' as u8) && digits(t, 1, 2) && t[3] == ':' as u8
            && digits(t, 4, 2)
    } else {
        false
    }
}

/// Recognized zone offset in seconds, or `None` for empty or unknown tokens.
pub fn zone_offset(t: &[u8]) -> (r: Option<i32>)
    ensures
        match zone_offset_seconds(t@) {
            Some(v) => r == Some(v as i32) && -400000 < v < 400000,
            None => r is None,
        },
{
    if t.len() == 0 {
        return None;
    }
    if t.len() == 1 && t[0] == 'Z' as u8 {
        assert(t@ =~= seq!['Z' as u8]);
        return Some(0);
    }
    assert(t@ != seq!['Z' as u8]);
    if numeric_zone_check(t) {
        let m: usize = if t.len() == 6 { 4 } else { 3 };
        assert(digits_at(t@, m as int, 2)) by {
            if t.len() == 5 {
                assert(is_digit(byte(t@, 1int + 2)) && is_digit(byte(t@, 1int + 3)));
            }
        }
        let hh = digits_num(t, 1, 2) as i32;
        let mm = digits_num(t, m, 2) as i32;
        let v = hh * 3600 + mm * 60;
        return if t[0] == '-' as u8 { Some(-v) } else { Some(v) };
    }
    let up = upper_copy(t, 0, t.len());
    assert(t@.subrange(0, t@.len() as int) =~= t@);
    assert(zone_offset_seconds(t@) == offset_lookup(offset_table(), up@));
    let tbl = offset_vec();
    assert(offset_table().subrange(0, offset_table().len() as int) =~= offset_table());
    proof { offset_values_small(offset_table()); }
    let mut k: usize = 0;
    while k < tbl.len()
        invariant
            k <= tbl@.len() == offset_table().len(),
            forall|j: int|
                0 <= j < tbl@.len() ==> (#[trigger] tbl@[j]).0@ == offset_table()[j].0 && tbl@[j].1
                    == offset_table()[j].1,
            offset_lookup(offset_table(), up@) == offset_lookup(
                offset_table().subrange(k as int, offset_table().len() as int),
                up@,
            ),
            zone_offset_seconds(t@) == offset_lookup(offset_table(), up@),
            forall|j: int| 0 <= j < offset_table().len() ==> -360000 < #[trigger] offset_table()[j].1 < 360000,
        decreases tbl.len() - k,
    {
        let ghost rest = offset_table().subrange(k as int, offset_table().len() as int);
        assert(rest[0] == offset_table()[k as int]);
        assert(rest.drop_first() =~= offset_table().subrange(k + 1, offset_table().len() as int));
        if bytes_eq(tbl[k].0.as_slice(), up.as_slice()) {
            assert(offset_lookup(rest, up@) == Some(rest[0].1));
            return Some(tbl[k].1);
        }
        k += 1;
    }
    None
}

/// Every natively known abbreviation, in any case, reads as its documented
/// fixed offset from UTC: `UTC`, `GMT` and `UT` are 0, `EST` is -5h, `EDT`
/// -4h, `CST` -6h, `CDT` -5h, `MST` -7h, `MDT` -6h, `PST` -8h, `PDT` -7h,
/// `HST` -10h, `AKST` -9h, `AKDT` -8h, `CET` and `BST` +1h, `CEST` +2h,
/// `IST` +5:30, `JST` and `KST` +9h, `HKT` +8h, `AEST` +10h, `AEDT` +11h,
/// `NZST` +12h and `NZDT` +13h.
pub proof fn law_abbreviation_offsets(t: Seq<u8>)
    ensures
        upper_seq(t) == seq!['U' as u8, 'T' as u8, 'C' as u8] ==> zone_offset_seconds(t) == Some(0 as int),
        upper_seq(t) == seq!['G' as u8, 'M' as u8, 'T' as u8] ==> zone_offset_seconds(t) == Some(0 as int),
        upper_seq(t) == seq!['U' as u8, 'T' as u8] ==> zone_offset_seconds(t) == Some(0 as int),
        upper_seq(t) == seq!['E' as u8, 'S' as u8, 'T' as u8] ==> zone_offset_seconds(t) == Some(-5 * 3600 as int),
        upper_seq(t) == seq!['E' as u8, 'D' as u8, 'T' as u8] ==> zone_offset_seconds(t) == Some(-4 * 3600 as int),
        upper_seq(t) == seq!['C' as u8, 'S' as u8, 'T' as u8] ==> zone_offset_seconds(t) == Some(-6 * 3600 as int),
        upper_seq(t) == seq!['C' as u8, 'D' as u8, 'T' as u8] ==> zone_offset_seconds(t) == Some(-5 * 3600 as int),
        upper_seq(t) == seq!['M' as u8, 'S' as u8, 'T' as u8] ==> zone_offset_seconds(t) == Some(-7 * 3600 as int),
        upper_seq(t) == seq!['M' as u8, 'D' as u8, 'T' as u8] ==> zone_offset_seconds(t) == Some(-6 * 3600 as int),
        upper_seq(t) == seq!['P' as u8, 'S' as u8, 'T' as u8] ==> zone_offset_seconds(t) == Some(-8 * 3600 as int),
        upper_seq(t) == seq!['P' as u8, 'D' as u8, 'T' as u8] ==> zone_offset_seconds(t) == Some(-7 * 3600 as int),
        upper_seq(t) == seq!['H' as u8, 'S' as u8, 'T' as u8] ==> zone_offset_seconds(t) == Some(-10 * 3600 as int),
        upper_seq(t) == seq!['A' as u8, 'K' as u8, 'S' as u8, 'T' as u8] ==> zone_offset_seconds(t) == Some(-9 * 3600 as int),
        upper_seq(t) == seq!['A' as u8, 'K' as u8, 'D' as u8, 'T' as u8] ==> zone_offset_seconds(t) == Some(-8 * 3600 as int),
        upper_seq(t) == seq!['C' as u8, 'E' as u8, 'T' as u8] ==> zone_offset_seconds(t) == Some(1 * 3600 as int),
        upper_seq(t) == seq!['B' as u8, 'S' as u8, 'T' as u8] ==> zone_offset_seconds(t) == Some(1 * 3600 as int),
        upper_seq(t) == seq!['C' as u8, 'E' as u8, 'S' as u8, 'T' as u8] ==> zone_offset_seconds(t) == Some(2 * 3600 as int),
        upper_seq(t) == seq!['I' as u8, 'S' as u8, 'T' as u8] ==> zone_offset_seconds(t) == Some(5 * 3600 + 1800 as int),
        upper_seq(t) == seq!['J' as u8, 'S' as u8, 'T' as u8] ==> zone_offset_seconds(t) == Some(9 * 3600 as int),
        upper_seq(t) == seq!['K' as u8, 'S' as u8, 'T' as u8] ==> zone_offset_seconds(t) == Some(9 * 3600 as int),
        upper_seq(t) == seq!['H' as u8, 'K' as u8, 'T' as u8] ==> zone_offset_seconds(t) == Some(8 * 3600 as int),
        upper_seq(t) == seq!['A' as u8, 'E' as u8, 'S' as u8, 'T' as u8] ==> zone_offset_seconds(t) == Some(10 * 3600 as int),
        upper_seq(t) == seq!['A' as u8, 'E' as u8, 'D' as u8, 'T' as u8] ==> zone_offset_seconds(t) == Some(11 * 3600 as int),
        upper_seq(t) == seq!['N' as u8, 'Z' as u8, 'S' as u8, 'T' as u8] ==> zone_offset_seconds(t) == Some(12 * 3600 as int),
        upper_seq(t) == seq!['N' as u8, 'Z' as u8, 'D' as u8, 'T' as u8] ==> zone_offset_seconds(t) == Some(13 * 3600 as int),
{
    lemma_offset_values();
    let u = upper_seq(t);
    assert(u.len() == t.len());
    if 2 <= t.len() <= 4 {
        assert(!numeric_zone(t));
        assert(t != seq!['Z' as u8]);
        assert(zone_offset_seconds(t) == offset_lookup(offset_table(), u));
    }
}

proof fn lemma_offset_values()
    ensures
        offset_lookup(offset_table(), seq!['U' as u8, 'T' as u8, 'C' as u8]) == Some(0 as int),
        offset_lookup(offset_table(), seq!['G' as u8, 'M' as u8, 'T' as u8]) == Some(0 as int),
        offset_lookup(offset_table(), seq!['U' as u8, 'T' as u8]) == Some(0 as int),
        offset_lookup(offset_table(), seq!['E' as u8, 'S' as u8, 'T' as u8]) == Some(-5 * 3600 as int),
        offset_lookup(offset_table(), seq!['E' as u8, 'D' as u8, 'T' as u8]) == Some(-4 * 3600 as int),
        offset_lookup(offset_table(), seq!['C' as u8, 'S' as u8, 'T' as u8]) == Some(-6 * 3600 as int),
        offset_lookup(offset_table(), seq!['C' as u8, 'D' as u8, 'T' as u8]) == Some(-5 * 3600 as int),
        offset_lookup(offset_table(), seq!['M' as u8, 'S' as u8, 'T' as u8]) == Some(-7 * 3600 as int),
        offset_lookup(offset_table(), seq!['M' as u8, 'D' as u8, 'T' as u8]) == Some(-6 * 3600 as int),
        offset_lookup(offset_table(), seq!['P' as u8, 'S' as u8, 'T' as u8]) == Some(-8 * 3600 as int),
        offset_lookup(offset_table(), seq!['P' as u8, 'D' as u8, 'T' as u8]) == Some(-7 * 3600 as int),
        offset_lookup(offset_table(), seq!['H' as u8, 'S' as u8, 'T' as u8]) == Some(-10 * 3600 as int),
        offset_lookup(offset_table(), seq!['A' as u8, 'K' as u8, 'S' as u8, 'T' as u8]) == Some(-9 * 3600 as int),
        offset_lookup(offset_table(), seq!['A' as u8, 'K' as u8, 'D' as u8, 'T' as u8]) == Some(-8 * 3600 as int),
        offset_lookup(offset_table(), seq!['C' as u8, 'E' as u8, 'T' as u8]) == Some(1 * 3600 as int),
        offset_lookup(offset_table(), seq!['B' as u8, 'S' as u8, 'T' as u8]) == Some(1 * 3600 as int),
        offset_lookup(offset_table(), seq!['C' as u8, 'E' as u8, 'S' as u8, 'T' as u8]) == Some(2 * 3600 as int),
        offset_lookup(offset_table(), seq!['I' as u8, 'S' as u8, 'T' as u8]) == Some(5 * 3600 + 1800 as int),
        offset_lookup(offset_table(), seq!['J' as u8, 'S' as u8, 'T' as u8]) == Some(9 * 3600 as int),
        offset_lookup(offset_table(), seq!['K' as u8, 'S' as u8, 'T' as u8]) == Some(9 * 3600 as int),
        offset_lookup(offset_table(), seq!['H' as u8, 'K' as u8, 'T' as u8]) == Some(8 * 3600 as int),
        offset_lookup(offset_table(), seq!['A' as u8, 'E' as u8, 'S' as u8, 'T' as u8]) == Some(10 * 3600 as int),
        offset_lookup(offset_table(), seq!['A' as u8, 'E' as u8, 'D' as u8, 'T' as u8]) == Some(11 * 3600 as int),
        offset_lookup(offset_table(), seq!['N' as u8, 'Z' as u8, 'S' as u8, 'T' as u8]) == Some(12 * 3600 as int),
        offset_lookup(offset_table(), seq!['N' as u8, 'Z' as u8, 'D' as u8, 'T' as u8]) == Some(13 * 3600 as int),
{
    reveal_with_fuel(offset_lookup, 26);
}

// --- aliases --------------------------------------------------------------

/// Aliases and abbreviations accepted for `-f`/`-t`, sorted by key. Keys
/// are lowercase, with `_` for a space.
pub open spec fn alias_table() -> Seq<(Seq<u8>, Seq<u8>)> {
    seq![
        (seq!['a' as u8, 'e' as u8, 'd' as u8, 't' as u8], seq!['A' as u8, 'u' as u8, 's' as u8, 't' as u8, 'r' as u8, 'a' as u8, 'l' as u8, 'i' as u8, 'a' as u8, '/' as u8, 'S' as u8, 'y' as u8, 'd' as u8, 'n' as u8, 'e' as u8, 'y' as u8]),
        (seq!['a' as u8, 'e' as u8, 's' as u8, 't' as u8], seq!['A' as u8, 'u' as u8, 's' as u8, 't' as u8, 'r' as u8, 'a' as u8, 'l' as u8, 'i' as u8, 'a' as u8, '/' as u8, 'S' as u8, 'y' as u8, 'd' as u8, 'n' as u8, 'e' as u8, 'y' as u8]),
        (seq!['a' as u8, 'k' as u8, 'd' as u8, 't' as u8], seq!['A' as u8, 'm' as u8, 'e' as u8, 'r' as u8, 'i' as u8, 'c' as u8, 'a' as u8, '/' as u8, 'A' as u8, 'n' as u8, 'c' as u8, 'h' as u8, 'o' as u8, 'r' as u8, 'a' as u8, 'g' as u8, 'e' as u8]),
        (seq!['a' as u8, 'k' as u8, 's' as u8, 't' as u8], seq!['A' as u8, 'm' as u8, 'e' as u8, 'r' as u8, 'i' as u8, 'c' as u8, 'a' as u8, '/' as u8, 'A' as u8, 'n' as u8, 'c' as u8, 'h' as u8, 'o' as u8, 'r' as u8, 'a' as u8, 'g' as u8, 'e' as u8]),
        (seq!['a' as u8, 'l' as u8, 'a' as u8, 's' as u8, 'k' as u8, 'a' as u8], seq!['A' as u8, 'm' as u8, 'e' as u8, 'r' as u8, 'i' as u8, 'c' as u8, 'a' as u8, '/' as u8, 'A' as u8, 'n' as u8, 'c' as u8, 'h' as u8, 'o' as u8, 'r' as u8, 'a' as u8, 'g' as u8, 'e' as u8]),
        (seq!['a' as u8, 'm' as u8, 's' as u8, 't' as u8, 'e' as u8, 'r' as u8, 'd' as u8, 'a' as u8, 'm' as u8], seq!['E' as u8, 'u' as u8, 'r' as u8, 'o' as u8, 'p' as u8, 'e' as u8, '/' as u8, 'A' as u8, 'm' as u8, 's' as u8, 't' as u8, 'e' as u8, 'r' as u8, 'd' as u8, 'a' as u8, 'm' as u8]),
        (seq!['a' as u8, 'u' as u8, 'c' as u8, 'k' as u8, 'l' as u8, 'a' as u8, 'n' as u8, 'd' as u8], seq!['P' as u8, 'a' as u8, 'c' as u8, 'i' as u8, 'f' as u8, 'i' as u8, 'c' as u8, '/' as u8, 'A' as u8, 'u' as u8, 'c' as u8, 'k' as u8, 'l' as u8, 'a' as u8, 'n' as u8, 'd' as u8]),
        (seq!['b' as u8, 'a' as u8, 'n' as u8, 'g' as u8, 'k' as u8, 'o' as u8, 'k' as u8], seq!['A' as u8, 's' as u8, 'i' as u8, 'a' as u8, '/' as u8, 'B' as u8, 'a' as u8, 'n' as u8, 'g' as u8, 'k' as u8, 'o' as u8, 'k' as u8]),
        (seq!['b' as u8, 'e' as u8, 'i' as u8, 'j' as u8, 'i' as u8, 'n' as u8, 'g' as u8], seq!['A' as u8, 's' as u8, 'i' as u8, 'a' as u8, '/' as u8, 'S' as u8, 'h' as u8, 'a' as u8, 'n' as u8, 'g' as u8, 'h' as u8, 'a' as u8, 'i' as u8]),
        (seq!['b' as u8, 'e' as u8, 'r' as u8, 'l' as u8, 'i' as u8, 'n' as u8], seq!['E' as u8, 'u' as u8, 'r' as u8, 'o' as u8, 'p' as u8, 'e' as u8, '/' as u8, 'B' as u8, 'e' as u8, 'r' as u8, 'l' as u8, 'i' as u8, 'n' as u8]),
        (seq!['b' as u8, 's' as u8, 't' as u8], seq!['E' as u8, 'u' as u8, 'r' as u8, 'o' as u8, 'p' as u8, 'e' as u8, '/' as u8, 'L' as u8, 'o' as u8, 'n' as u8, 'd' as u8, 'o' as u8, 'n' as u8]),
        (seq!['c' as u8, 'd' as u8, 't' as u8], seq!['A' as u8, 'm' as u8, 'e' as u8, 'r' as u8, 'i' as u8, 'c' as u8, 'a' as u8, '/' as u8, 'C' as u8, 'h' as u8, 'i' as u8, 'c' as u8, 'a' as u8, 'g' as u8, 'o' as u8]),
        (seq!['c' as u8, 'e' as u8, 'n' as u8, 't' as u8, 'r' as u8, 'a' as u8, 'l' as u8], seq!['A' as u8, 'm' as u8, 'e' as u8, 'r' as u8, 'i' as u8, 'c' as u8, 'a' as u8, '/' as u8, 'C' as u8, 'h' as u8, 'i' as u8, 'c' as u8, 'a' as u8, 'g' as u8, 'o' as u8]),
        (seq!['c' as u8, 'e' as u8, 's' as u8, 't' as u8], seq!['E' as u8, 'u' as u8, 'r' as u8, 'o' as u8, 'p' as u8, 'e' as u8, '/' as u8, 'P' as u8, 'a' as u8, 'r' as u8, 'i' as u8, 's' as u8]),
        (seq!['c' as u8, 'e' as u8, 't' as u8], seq!['E' as u8, 'u' as u8, 'r' as u8, 'o' as u8, 'p' as u8, 'e' as u8, '/' as u8, 'P' as u8, 'a' as u8, 'r' as u8, 'i' as u8, 's' as u8]),
        (seq!['c' as u8, 'h' as u8, 'i' as u8, 'c' as u8, 'a' as u8, 'g' as u8, 'o' as u8], seq!['A' as u8, 'm' as u8, 'e' as u8, 'r' as u8, 'i' as u8, 'c' as u8, 'a' as u8, '/' as u8, 'C' as u8, 'h' as u8, 'i' as u8, 'c' as u8, 'a' as u8, 'g' as u8, 'o' as u8]),
        (seq!['c' as u8, 's' as u8, 't' as u8], seq!['A' as u8, 'm' as u8, 'e' as u8, 'r' as u8, 'i' as u8, 'c' as u8, 'a' as u8, '/' as u8, 'C' as u8, 'h' as u8, 'i' as u8, 'c' as u8, 'a' as u8, 'g' as u8, 'o' as u8]),
        (seq!['c' as u8, 't' as u8], seq!['A' as u8, 'm' as u8, 'e' as u8, 'r' as u8, 'i' as u8, 'c' as u8, 'a' as u8, '/' as u8, 'C' as u8, 'h' as u8, 'i' as u8, 'c' as u8, 'a' as u8, 'g' as u8, 'o' as u8]),
        (seq!['d' as u8, 'e' as u8, 'n' as u8, 'v' as u8, 'e' as u8, 'r' as u8], seq!['A' as u8, 'm' as u8, 'e' as u8, 'r' as u8, 'i' as u8, 'c' as u8, 'a' as u8, '/' as u8, 'D' as u8, 'e' as u8, 'n' as u8, 'v' as u8, 'e' as u8, 'r' as u8]),
        (seq!['d' as u8, 'u' as u8, 'b' as u8, 'a' as u8, 'i' as u8], seq!['A' as u8, 's' as u8, 'i' as u8, 'a' as u8, '/' as u8, 'D' as u8, 'u' as u8, 'b' as u8, 'a' as u8, 'i' as u8]),
        (seq!['e' as u8, 'a' as u8, 's' as u8, 't' as u8, 'e' as u8, 'r' as u8, 'n' as u8], seq!['A' as u8, 'm' as u8, 'e' as u8, 'r' as u8, 'i' as u8, 'c' as u8, 'a' as u8, '/' as u8, 'N' as u8, 'e' as u8, 'w' as u8, '_' as u8, 'Y' as u8, 'o' as u8, 'r' as u8, 'k' as u8]),
        (seq!['e' as u8, 'd' as u8, 't' as u8], seq!['A' as u8, 'm' as u8, 'e' as u8, 'r' as u8, 'i' as u8, 'c' as u8, 'a' as u8, '/' as u8, 'N' as u8, 'e' as u8, 'w' as u8, '_' as u8, 'Y' as u8, 'o' as u8, 'r' as u8, 'k' as u8]),
        (seq!['e' as u8, 's' as u8, 't' as u8], seq!['A' as u8, 'm' as u8, 'e' as u8, 'r' as u8, 'i' as u8, 'c' as u8, 'a' as u8, '/' as u8, 'N' as u8, 'e' as u8, 'w' as u8, '_' as u8, 'Y' as u8, 'o' as u8, 'r' as u8, 'k' as u8]),
        (seq!['e' as u8, 't' as u8], seq!['A' as u8, 'm' as u8, 'e' as u8, 'r' as u8, 'i' as u8, 'c' as u8, 'a' as u8, '/' as u8, 'N' as u8, 'e' as u8, 'w' as u8, '_' as u8, 'Y' as u8, 'o' as u8, 'r' as u8, 'k' as u8]),
        (seq!['g' as u8, 'm' as u8, 't' as u8], seq!['U' as u8, 'T' as u8, 'C' as u8]),
        (seq!['h' as u8, 'a' as u8, 'w' as u8, 'a' as u8, 'i' as u8, 'i' as u8], seq!['P' as u8, 'a' as u8, 'c' as u8, 'i' as u8, 'f' as u8, 'i' as u8, 'c' as u8, '/' as u8, 'H' as u8, 'o' as u8, 'n' as u8, 'o' as u8, 'l' as u8, 'u' as u8, 'l' as u8, 'u' as u8]),
        (seq!['h' as u8, 'k' as u8, 't' as u8], seq!['A' as u8, 's' as u8, 'i' as u8, 'a' as u8, '/' as u8, 'H' as u8, 'o' as u8, 'n' as u8, 'g' as u8, '_' as u8, 'K' as u8, 'o' as u8, 'n' as u8, 'g' as u8]),
        (seq!['h' as u8, 'o' as u8, 'n' as u8, 'g' as u8, '_' as u8, 'k' as u8, 'o' as u8, 'n' as u8, 'g' as u8], seq!['A' as u8, 's' as u8, 'i' as u8, 'a' as u8, '/' as u8, 'H' as u8, 'o' as u8, 'n' as u8, 'g' as u8, '_' as u8, 'K' as u8, 'o' as u8, 'n' as u8, 'g' as u8]),
        (seq!['h' as u8, 'o' as u8, 'n' as u8, 'o' as u8, 'l' as u8, 'u' as u8, 'l' as u8, 'u' as u8], seq!['P' as u8, 'a' as u8, 'c' as u8, 'i' as u8, 'f' as u8, 'i' as u8, 'c' as u8, '/' as u8, 'H' as u8, 'o' as u8, 'n' as u8, 'o' as u8, 'l' as u8, 'u' as u8, 'l' as u8, 'u' as u8]),
        (seq!['h' as u8, 's' as u8, 't' as u8], seq!['P' as u8, 'a' as u8, 'c' as u8, 'i' as u8, 'f' as u8, 'i' as u8, 'c' as u8, '/' as u8, 'H' as u8, 'o' as u8, 'n' as u8, 'o' as u8, 'l' as u8, 'u' as u8, 'l' as u8, 'u' as u8]),
        (seq!['i' as u8, 's' as u8, 't' as u8], seq!['A' as u8, 's' as u8, 'i' as u8, 'a' as u8, '/' as u8, 'K' as u8, 'o' as u8, 'l' as u8, 'k' as u8, 'a' as u8, 't' as u8, 'a' as u8]),
        (seq!['j' as u8, 's' as u8, 't' as u8], seq!['A' as u8, 's' as u8, 'i' as u8, 'a' as u8, '/' as u8, 'T' as u8, 'o' as u8, 'k' as u8, 'y' as u8, 'o' as u8]),
        (seq!['k' as u8, 's' as u8, 't' as u8], seq!['A' as u8, 's' as u8, 'i' as u8, 'a' as u8, '/' as u8, 'S' as u8, 'e' as u8, 'o' as u8, 'u' as u8, 'l' as u8]),
        (seq!['l' as u8, 'a' as u8], seq!['A' as u8, 'm' as u8, 'e' as u8, 'r' as u8, 'i' as u8, 'c' as u8, 'a' as u8, '/' as u8, 'L' as u8, 'o' as u8, 's' as u8, '_' as u8, 'A' as u8, 'n' as u8, 'g' as u8, 'e' as u8, 'l' as u8, 'e' as u8, 's' as u8]),
        (seq!['l' as u8, 'o' as u8, 'n' as u8, 'd' as u8, 'o' as u8, 'n' as u8], seq!['E' as u8, 'u' as u8, 'r' as u8, 'o' as u8, 'p' as u8, 'e' as u8, '/' as u8, 'L' as u8, 'o' as u8, 'n' as u8, 'd' as u8, 'o' as u8, 'n' as u8]),
        (seq!['l' as u8, 'o' as u8, 's' as u8, '_' as u8, 'a' as u8, 'n' as u8, 'g' as u8, 'e' as u8, 'l' as u8, 'e' as u8, 's' as u8], seq!['A' as u8, 'm' as u8, 'e' as u8, 'r' as u8, 'i' as u8, 'c' as u8, 'a' as u8, '/' as u8, 'L' as u8, 'o' as u8, 's' as u8, '_' as u8, 'A' as u8, 'n' as u8, 'g' as u8, 'e' as u8, 'l' as u8, 'e' as u8, 's' as u8]),
        (seq!['m' as u8, 'd' as u8, 't' as u8], seq!['A' as u8, 'm' as u8, 'e' as u8, 'r' as u8, 'i' as u8, 'c' as u8, 'a' as u8, '/' as u8, 'D' as u8, 'e' as u8, 'n' as u8, 'v' as u8, 'e' as u8, 'r' as u8]),
        (seq!['m' as u8, 'o' as u8, 'u' as u8, 'n' as u8, 't' as u8, 'a' as u8, 'i' as u8, 'n' as u8], seq!['A' as u8, 'm' as u8, 'e' as u8, 'r' as u8, 'i' as u8, 'c' as u8, 'a' as u8, '/' as u8, 'D' as u8, 'e' as u8, 'n' as u8, 'v' as u8, 'e' as u8, 'r' as u8]),
        (seq!['m' as u8, 's' as u8, 't' as u8], seq!['A' as u8, 'm' as u8, 'e' as u8, 'r' as u8, 'i' as u8, 'c' as u8, 'a' as u8, '/' as u8, 'D' as u8, 'e' as u8, 'n' as u8, 'v' as u8, 'e' as u8, 'r' as u8]),
        (seq!['m' as u8, 't' as u8], seq!['A' as u8, 'm' as u8, 'e' as u8, 'r' as u8, 'i' as u8, 'c' as u8, 'a' as u8, '/' as u8, 'D' as u8, 'e' as u8, 'n' as u8, 'v' as u8, 'e' as u8, 'r' as u8]),
        (seq!['m' as u8, 'u' as u8, 'm' as u8, 'b' as u8, 'a' as u8, 'i' as u8], seq!['A' as u8, 's' as u8, 'i' as u8, 'a' as u8, '/' as u8, 'K' as u8, 'o' as u8, 'l' as u8, 'k' as u8, 'a' as u8, 't' as u8, 'a' as u8]),
        (seq!['n' as u8, 'e' as u8, 'w' as u8, '_' as u8, 'y' as u8, 'o' as u8, 'r' as u8, 'k' as u8], seq!['A' as u8, 'm' as u8, 'e' as u8, 'r' as u8, 'i' as u8, 'c' as u8, 'a' as u8, '/' as u8, 'N' as u8, 'e' as u8, 'w' as u8, '_' as u8, 'Y' as u8, 'o' as u8, 'r' as u8, 'k' as u8]),
        (seq!['n' as u8, 'y' as u8, 'c' as u8], seq!['A' as u8, 'm' as u8, 'e' as u8, 'r' as u8, 'i' as u8, 'c' as u8, 'a' as u8, '/' as u8, 'N' as u8, 'e' as u8, 'w' as u8, '_' as u8, 'Y' as u8, 'o' as u8, 'r' as u8, 'k' as u8]),
        (seq!['n' as u8, 'z' as u8, 'd' as u8, 't' as u8], seq!['P' as u8, 'a' as u8, 'c' as u8, 'i' as u8, 'f' as u8, 'i' as u8, 'c' as u8, '/' as u8, 'A' as u8, 'u' as u8, 'c' as u8, 'k' as u8, 'l' as u8, 'a' as u8, 'n' as u8, 'd' as u8]),
        (seq!['n' as u8, 'z' as u8, 's' as u8, 't' as u8], seq!['P' as u8, 'a' as u8, 'c' as u8, 'i' as u8, 'f' as u8, 'i' as u8, 'c' as u8, '/' as u8, 'A' as u8, 'u' as u8, 'c' as u8, 'k' as u8, 'l' as u8, 'a' as u8, 'n' as u8, 'd' as u8]),
        (seq!['p' as u8, 'a' as u8, 'c' as u8, 'i' as u8, 'f' as u8, 'i' as u8, 'c' as u8], seq!['A' as u8, 'm' as u8, 'e' as u8, 'r' as u8, 'i' as u8, 'c' as u8, 'a' as u8, '/' as u8, 'L' as u8, 'o' as u8, 's' as u8, '_' as u8, 'A' as u8, 'n' as u8, 'g' as u8, 'e' as u8, 'l' as u8, 'e' as u8, 's' as u8]),
        (seq!['p' as u8, 'a' as u8, 'r' as u8, 'i' as u8, 's' as u8], seq!['E' as u8, 'u' as u8, 'r' as u8, 'o' as u8, 'p' as u8, 'e' as u8, '/' as u8, 'P' as u8, 'a' as u8, 'r' as u8, 'i' as u8, 's' as u8]),
        (seq!['p' as u8, 'd' as u8, 't' as u8], seq!['A' as u8, 'm' as u8, 'e' as u8, 'r' as u8, 'i' as u8, 'c' as u8, 'a' as u8, '/' as u8, 'L' as u8, 'o' as u8, 's' as u8, '_' as u8, 'A' as u8, 'n' as u8, 'g' as u8, 'e' as u8, 'l' as u8, 'e' as u8, 's' as u8]),
        (seq!['p' as u8, 's' as u8, 't' as u8], seq!['A' as u8, 'm' as u8, 'e' as u8, 'r' as u8, 'i' as u8, 'c' as u8, 'a' as u8, '/' as u8, 'L' as u8, 'o' as u8, 's' as u8, '_' as u8, 'A' as u8, 'n' as u8, 'g' as u8, 'e' as u8, 'l' as u8, 'e' as u8, 's' as u8]),
        (seq!['p' as u8, 't' as u8], seq!['A' as u8, 'm' as u8, 'e' as u8, 'r' as u8, 'i' as u8, 'c' as u8, 'a' as u8, '/' as u8, 'L' as u8, 'o' as u8, 's' as u8, '_' as u8, 'A' as u8, 'n' as u8, 'g' as u8, 'e' as u8, 'l' as u8, 'e' as u8, 's' as u8]),
        (seq!['s' as u8, 'e' as u8, 'o' as u8, 'u' as u8, 'l' as u8], seq!['A' as u8, 's' as u8, 'i' as u8, 'a' as u8, '/' as u8, 'S' as u8, 'e' as u8, 'o' as u8, 'u' as u8, 'l' as u8]),
        (seq!['s' as u8, 'f' as u8], seq!['A' as u8, 'm' as u8, 'e' as u8, 'r' as u8, 'i' as u8, 'c' as u8, 'a' as u8, '/' as u8, 'L' as u8, 'o' as u8, 's' as u8, '_' as u8, 'A' as u8, 'n' as u8, 'g' as u8, 'e' as u8, 'l' as u8, 'e' as u8, 's' as u8]),
        (seq!['s' as u8, 'i' as u8, 'n' as u8, 'g' as u8, 'a' as u8, 'p' as u8, 'o' as u8, 'r' as u8, 'e' as u8], seq!['A' as u8, 's' as u8, 'i' as u8, 'a' as u8, '/' as u8, 'S' as u8, 'i' as u8, 'n' as u8, 'g' as u8, 'a' as u8, 'p' as u8, 'o' as u8, 'r' as u8, 'e' as u8]),
        (seq!['s' as u8, 'y' as u8, 'd' as u8, 'n' as u8, 'e' as u8, 'y' as u8], seq!['A' as u8, 'u' as u8, 's' as u8, 't' as u8, 'r' as u8, 'a' as u8, 'l' as u8, 'i' as u8, 'a' as u8, '/' as u8, 'S' as u8, 'y' as u8, 'd' as u8, 'n' as u8, 'e' as u8, 'y' as u8]),
        (seq!['t' as u8, 'o' as u8, 'k' as u8, 'y' as u8, 'o' as u8], seq!['A' as u8, 's' as u8, 'i' as u8, 'a' as u8, '/' as u8, 'T' as u8, 'o' as u8, 'k' as u8, 'y' as u8, 'o' as u8]),
        (seq!['t' as u8, 'o' as u8, 'r' as u8, 'o' as u8, 'n' as u8, 't' as u8, 'o' as u8], seq!['A' as u8, 'm' as u8, 'e' as u8, 'r' as u8, 'i' as u8, 'c' as u8, 'a' as u8, '/' as u8, 'T' as u8, 'o' as u8, 'r' as u8, 'o' as u8, 'n' as u8, 't' as u8, 'o' as u8]),
        (seq!['u' as u8, 't' as u8], seq!['U' as u8, 'T' as u8, 'C' as u8]),
        (seq!['u' as u8, 't' as u8, 'c' as u8], seq!['U' as u8, 'T' as u8, 'C' as u8]),
        (seq!['z' as u8], seq!['U' as u8, 'T' as u8, 'C' as u8]),
    ]
}

/// The name an alias key stands for.
pub open spec fn alias_lookup(tbl: Seq<(Seq<u8>, Seq<u8>)>, key: Seq<u8>) -> Option<Seq<u8>>
    decreases tbl.len(),
{
    if tbl.len() == 0 {
        None
    } else if tbl[0].0 == key {
        Some(tbl[0].1)
    } else {
        alias_lookup(tbl.drop_first(), key)
    }
}

pub fn alias_vec() -> (v: Vec<(Vec<u8>, Vec<u8>)>)
    ensures
        v@.len() == alias_table().len(),
        forall|k: int|
            0 <= k < v@.len() ==> (#[trigger] v@[k]).0@ == alias_table()[k].0 && v@[k].1@
                == alias_table()[k].1,
{
    let v = vec![
        (vec!['a' as u8, 'e' as u8, 'd' as u8, 't' as u8], vec!['A' as u8, 'u' as u8, 's' as u8, 't' as u8, 'r' as u8, 'a' as u8, 'l' as u8, 'i' as u8, 'a' as u8, '/' as u8, 'S' as u8, 'y' as u8, 'd' as u8, 'n' as u8, 'e' as u8, 'y' as u8]),
        (vec!['a' as u8, 'e' as u8, 's' as u8, 't' as u8], vec!['A' as u8, 'u' as u8, 's' as u8, 't' as u8, 'r' as u8, 'a' as u8, 'l' as u8, 'i' as u8, 'a' as u8, '/' as u8, 'S' as u8, 'y' as u8, 'd' as u8, 'n' as u8, 'e' as u8, 'y' as u8]),
        (vec!['a' as u8, 'k' as u8, 'd' as u8, 't' as u8], vec!['A' as u8, 'm' as u8, 'e' as u8, 'r' as u8, 'i' as u8, 'c' as u8, 'a' as u8, '/' as u8, 'A' as u8, 'n' as u8, 'c' as u8, 'h' as u8, 'o' as u8, 'r' as u8, 'a' as u8, 'g' as u8, 'e' as u8]),
        (vec!['a' as u8, 'k' as u8, 's' as u8, 't' as u8], vec!['A' as u8, 'm' as u8, 'e' as u8, 'r' as u8, 'i' as u8, 'c' as u8, 'a' as u8, '/' as u8, 'A' as u8, 'n' as u8, 'c' as u8, 'h' as u8, 'o' as u8, 'r' as u8, 'a' as u8, 'g' as u8, 'e' as u8]),
        (vec!['a' as u8, 'l' as u8, 'a' as u8, 's' as u8, 'k' as u8, 'a' as u8], vec!['A' as u8, 'm' as u8, 'e' as u8, 'r' as u8, 'i' as u8, 'c' as u8, 'a' as u8, '/' as u8, 'A' as u8, 'n' as u8, 'c' as u8, 'h' as u8, 'o' as u8, 'r' as u8, 'a' as u8, 'g' as u8, 'e' as u8]),
        (vec!['a' as u8, 'm' as u8, 's' as u8, 't' as u8, 'e' as u8, 'r' as u8, 'd' as u8, 'a' as u8, 'm' as u8], vec!['E' as u8, 'u' as u8, 'r' as u8, 'o' as u8, 'p' as u8, 'e' as u8, '/' as u8, 'A' as u8, 'm' as u8, 's' as u8, 't' as u8, 'e' as u8, 'r' as u8, 'd' as u8, 'a' as u8, 'm' as u8]),
        (vec!['a' as u8, 'u' as u8, 'c' as u8, 'k' as u8, 'l' as u8, 'a' as u8, 'n' as u8, 'd' as u8], vec!['P' as u8, 'a' as u8, 'c' as u8, 'i' as u8, 'f' as u8, 'i' as u8, 'c' as u8, '/' as u8, 'A' as u8, 'u' as u8, 'c' as u8, 'k' as u8, 'l' as u8, 'a' as u8, 'n' as u8, 'd' as u8]),
        (vec!['b' as u8, 'a' as u8, 'n' as u8, 'g' as u8, 'k' as u8, 'o' as u8, 'k' as u8], vec!['A' as u8, 's' as u8, 'i' as u8, 'a' as u8, '/' as u8, 'B' as u8, 'a' as u8, 'n' as u8, 'g' as u8, 'k' as u8, 'o' as u8, 'k' as u8]),
        (vec!['b' as u8, 'e' as u8, 'i' as u8, 'j' as u8, 'i' as u8, 'n' as u8, 'g' as u8], vec!['A' as u8, 's' as u8, 'i' as u8, 'a' as u8, '/' as u8, 'S' as u8, 'h' as u8, 'a' as u8, 'n' as u8, 'g' as u8, 'h' as u8, 'a' as u8, 'i' as u8]),
        (vec!['b' as u8, 'e' as u8, 'r' as u8, 'l' as u8, 'i' as u8, 'n' as u8], vec!['E' as u8, 'u' as u8, 'r' as u8, 'o' as u8, 'p' as u8, 'e' as u8, '/' as u8, 'B' as u8, 'e' as u8, 'r' as u8, 'l' as u8, 'i' as u8, 'n' as u8]),
        (vec!['b' as u8, 's' as u8, 't' as u8], vec!['E' as u8, 'u' as u8, 'r' as u8, 'o' as u8, 'p' as u8, 'e' as u8, '/' as u8, 'L' as u8, 'o' as u8, 'n' as u8, 'd' as u8, 'o' as u8, 'n' as u8]),
        (vec!['c' as u8, 'd' as u8, 't' as u8], vec!['A' as u8, 'm' as u8, 'e' as u8, 'r' as u8, 'i' as u8, 'c' as u8, 'a' as u8, '/' as u8, 'C' as u8, 'h' as u8, 'i' as u8, 'c' as u8, 'a' as u8, 'g' as u8, 'o' as u8]),
        (vec!['c' as u8, 'e' as u8, 'n' as u8, 't' as u8, 'r' as u8, 'a' as u8, 'l' as u8], vec!['A' as u8, 'm' as u8, 'e' as u8, 'r' as u8, 'i' as u8, 'c' as u8, 'a' as u8, '/' as u8, 'C' as u8, 'h' as u8, 'i' as u8, 'c' as u8, 'a' as u8, 'g' as u8, 'o' as u8]),
        (vec!['c' as u8, 'e' as u8, 's' as u8, 't' as u8], vec!['E' as u8, 'u' as u8, 'r' as u8, 'o' as u8, 'p' as u8, 'e' as u8, '/' as u8, 'P' as u8, 'a' as u8, 'r' as u8, 'i' as u8, 's' as u8]),
        (vec!['c' as u8, 'e' as u8, 't' as u8], vec!['E' as u8, 'u' as u8, 'r' as u8, 'o' as u8, 'p' as u8, 'e' as u8, '/' as u8, 'P' as u8, 'a' as u8, 'r' as u8, 'i' as u8, 's' as u8]),
        (vec!['c' as u8, 'h' as u8, 'i' as u8, 'c' as u8, 'a' as u8, 'g' as u8, 'o' as u8], vec!['A' as u8, 'm' as u8, 'e' as u8, 'r' as u8, 'i' as u8, 'c' as u8, 'a' as u8, '/' as u8, 'C' as u8, 'h' as u8, 'i' as u8, 'c' as u8, 'a' as u8, 'g' as u8, 'o' as u8]),
        (vec!['c' as u8, 's' as u8, 't' as u8], vec!['A' as u8, 'm' as u8, 'e' as u8, 'r' as u8, 'i' as u8, 'c' as u8, 'a' as u8, '/' as u8, 'C' as u8, 'h' as u8, 'i' as u8, 'c' as u8, 'a' as u8, 'g' as u8, 'o' as u8]),
        (vec!['c' as u8, 't' as u8], vec!['A' as u8, 'm' as u8, 'e' as u8, 'r' as u8, 'i' as u8, 'c' as u8, 'a' as u8, '/' as u8, 'C' as u8, 'h' as u8, 'i' as u8, 'c' as u8, 'a' as u8, 'g' as u8, 'o' as u8]),
        (vec!['d' as u8, 'e' as u8, 'n' as u8, 'v' as u8, 'e' as u8, 'r' as u8], vec!['A' as u8, 'm' as u8, 'e' as u8, 'r' as u8, 'i' as u8, 'c' as u8, 'a' as u8, '/' as u8, 'D' as u8, 'e' as u8, 'n' as u8, 'v' as u8, 'e' as u8, 'r' as u8]),
        (vec!['d' as u8, 'u' as u8, 'b' as u8, 'a' as u8, 'i' as u8], vec!['A' as u8, 's' as u8, 'i' as u8, 'a' as u8, '/' as u8, 'D' as u8, 'u' as u8, 'b' as u8, 'a' as u8, 'i' as u8]),
        (vec!['e' as u8, 'a' as u8, 's' as u8, 't' as u8, 'e' as u8, 'r' as u8, 'n' as u8], vec!['A' as u8, 'm' as u8, 'e' as u8, 'r' as u8, 'i' as u8, 'c' as u8, 'a' as u8, '/' as u8, 'N' as u8, 'e' as u8, 'w' as u8, '_' as u8, 'Y' as u8, 'o' as u8, 'r' as u8, 'k' as u8]),
        (vec!['e' as u8, 'd' as u8, 't' as u8], vec!['A' as u8, 'm' as u8, 'e' as u8, 'r' as u8, 'i' as u8, 'c' as u8, 'a' as u8, '/' as u8, 'N' as u8, 'e' as u8, 'w' as u8, '_' as u8, 'Y' as u8, 'o' as u8, 'r' as u8, 'k' as u8]),
        (vec!['e' as u8, 's' as u8, 't' as u8], vec!['A' as u8, 'm' as u8, 'e' as u8, 'r' as u8, 'i' as u8, 'c' as u8, 'a' as u8, '/' as u8, 'N' as u8, 'e' as u8, 'w' as u8, '_' as u8, 'Y' as u8, 'o' as u8, 'r' as u8, 'k' as u8]),
        (vec!['e' as u8, 't' as u8], vec!['A' as u8, 'm' as u8, 'e' as u8, 'r' as u8, 'i' as u8, 'c' as u8, 'a' as u8, '/' as u8, 'N' as u8, 'e' as u8, 'w' as u8, '_' as u8, 'Y' as u8, 'o' as u8, 'r' as u8, 'k' as u8]),
        (vec!['g' as u8, 'm' as u8, 't' as u8], vec!['U' as u8, 'T' as u8, 'C' as u8]),
        (vec!['h' as u8, 'a' as u8, 'w' as u8, 'a' as u8, 'i' as u8, 'i' as u8], vec!['P' as u8, 'a' as u8, 'c' as u8, 'i' as u8, 'f' as u8, 'i' as u8, 'c' as u8, '/' as u8, 'H' as u8, 'o' as u8, 'n' as u8, 'o' as u8, 'l' as u8, 'u' as u8, 'l' as u8, 'u' as u8]),
        (vec!['h' as u8, 'k' as u8, 't' as u8], vec!['A' as u8, 's' as u8, 'i' as u8, 'a' as u8, '/' as u8, 'H' as u8, 'o' as u8, 'n' as u8, 'g' as u8, '_' as u8, 'K' as u8, 'o' as u8, 'n' as u8, 'g' as u8]),
        (vec!['h' as u8, 'o' as u8, 'n' as u8, 'g' as u8, '_' as u8, 'k' as u8, 'o' as u8, 'n' as u8, 'g' as u8], vec!['A' as u8, 's' as u8, 'i' as u8, 'a' as u8, '/' as u8, 'H' as u8, 'o' as u8, 'n' as u8, 'g' as u8, '_' as u8, 'K' as u8, 'o' as u8, 'n' as u8, 'g' as u8]),
        (vec!['h' as u8, 'o' as u8, 'n' as u8, 'o' as u8, 'l' as u8, 'u' as u8, 'l' as u8, 'u' as u8], vec!['P' as u8, 'a' as u8, 'c' as u8, 'i' as u8, 'f' as u8, 'i' as u8, 'c' as u8, '/' as u8, 'H' as u8, 'o' as u8, 'n' as u8, 'o' as u8, 'l' as u8, 'u' as u8, 'l' as u8, 'u' as u8]),
        (vec!['h' as u8, 's' as u8, 't' as u8], vec!['P' as u8, 'a' as u8, 'c' as u8, 'i' as u8, 'f' as u8, 'i' as u8, 'c' as u8, '/' as u8, 'H' as u8, 'o' as u8, 'n' as u8, 'o' as u8, 'l' as u8, 'u' as u8, 'l' as u8, 'u' as u8]),
        (vec!['i' as u8, 's' as u8, 't' as u8], vec!['A' as u8, 's' as u8, 'i' as u8, 'a' as u8, '/' as u8, 'K' as u8, 'o' as u8, 'l' as u8, 'k' as u8, 'a' as u8, 't' as u8, 'a' as u8]),
        (vec!['j' as u8, 's' as u8, 't' as u8], vec!['A' as u8, 's' as u8, 'i' as u8, 'a' as u8, '/' as u8, 'T' as u8, 'o' as u8, 'k' as u8, 'y' as u8, 'o' as u8]),
        (vec!['k' as u8, 's' as u8, 't' as u8], vec!['A' as u8, 's' as u8, 'i' as u8, 'a' as u8, '/' as u8, 'S' as u8, 'e' as u8, 'o' as u8, 'u' as u8, 'l' as u8]),
        (vec!['l' as u8, 'a' as u8], vec!['A' as u8, 'm' as u8, 'e' as u8, 'r' as u8, 'i' as u8, 'c' as u8, 'a' as u8, '/' as u8, 'L' as u8, 'o' as u8, 's' as u8, '_' as u8, 'A' as u8, 'n' as u8, 'g' as u8, 'e' as u8, 'l' as u8, 'e' as u8, 's' as u8]),
        (vec!['l' as u8, 'o' as u8, 'n' as u8, 'd' as u8, 'o' as u8, 'n' as u8], vec!['E' as u8, 'u' as u8, 'r' as u8, 'o' as u8, 'p' as u8, 'e' as u8, '/' as u8, 'L' as u8, 'o' as u8, 'n' as u8, 'd' as u8, 'o' as u8, 'n' as u8]),
        (vec!['l' as u8, 'o' as u8, 's' as u8, '_' as u8, 'a' as u8, 'n' as u8, 'g' as u8, 'e' as u8, 'l' as u8, 'e' as u8, 's' as u8], vec!['A' as u8, 'm' as u8, 'e' as u8, 'r' as u8, 'i' as u8, 'c' as u8, 'a' as u8, '/' as u8, 'L' as u8, 'o' as u8, 's' as u8, '_' as u8, 'A' as u8, 'n' as u8, 'g' as u8, 'e' as u8, 'l' as u8, 'e' as u8, 's' as u8]),
        (vec!['m' as u8, 'd' as u8, 't' as u8], vec!['A' as u8, 'm' as u8, 'e' as u8, 'r' as u8, 'i' as u8, 'c' as u8, 'a' as u8, '/' as u8, 'D' as u8, 'e' as u8, 'n' as u8, 'v' as u8, 'e' as u8, 'r' as u8]),
        (vec!['m' as u8, 'o' as u8, 'u' as u8, 'n' as u8, 't' as u8, 'a' as u8, 'i' as u8, 'n' as u8], vec!['A' as u8, 'm' as u8, 'e' as u8, 'r' as u8, 'i' as u8, 'c' as u8, 'a' as u8, '/' as u8, 'D' as u8, 'e' as u8, 'n' as u8, 'v' as u8, 'e' as u8, 'r' as u8]),
        (vec!['m' as u8, 's' as u8, 't' as u8], vec!['A' as u8, 'm' as u8, 'e' as u8, 'r' as u8, 'i' as u8, 'c' as u8, 'a' as u8, '/' as u8, 'D' as u8, 'e' as u8, 'n' as u8, 'v' as u8, 'e' as u8, 'r' as u8]),
        (vec!['m' as u8, 't' as u8], vec!['A' as u8, 'm' as u8, 'e' as u8, 'r' as u8, 'i' as u8, 'c' as u8, 'a' as u8, '/' as u8, 'D' as u8, 'e' as u8, 'n' as u8, 'v' as u8, 'e' as u8, 'r' as u8]),
        (vec!['m' as u8, 'u' as u8, 'm' as u8, 'b' as u8, 'a' as u8, 'i' as u8], vec!['A' as u8, 's' as u8, 'i' as u8, 'a' as u8, '/' as u8, 'K' as u8, 'o' as u8, 'l' as u8, 'k' as u8, 'a' as u8, 't' as u8, 'a' as u8]),
        (vec!['n' as u8, 'e' as u8, 'w' as u8, '_' as u8, 'y' as u8, 'o' as u8, 'r' as u8, 'k' as u8], vec!['A' as u8, 'm' as u8, 'e' as u8, 'r' as u8, 'i' as u8, 'c' as u8, 'a' as u8, '/' as u8, 'N' as u8, 'e' as u8, 'w' as u8, '_' as u8, 'Y' as u8, 'o' as u8, 'r' as u8, 'k' as u8]),
        (vec!['n' as u8, 'y' as u8, 'c' as u8], vec!['A' as u8, 'm' as u8, 'e' as u8, 'r' as u8, 'i' as u8, 'c' as u8, 'a' as u8, '/' as u8, 'N' as u8, 'e' as u8, 'w' as u8, '_' as u8, 'Y' as u8, 'o' as u8, 'r' as u8, 'k' as u8]),
        (vec!['n' as u8, 'z' as u8, 'd' as u8, 't' as u8], vec!['P' as u8, 'a' as u8, 'c' as u8, 'i' as u8, 'f' as u8, 'i' as u8, 'c' as u8, '/' as u8, 'A' as u8, 'u' as u8, 'c' as u8, 'k' as u8, 'l' as u8, 'a' as u8, 'n' as u8, 'd' as u8]),
        (vec!['n' as u8, 'z' as u8, 's' as u8, 't' as u8], vec!['P' as u8, 'a' as u8, 'c' as u8, 'i' as u8, 'f' as u8, 'i' as u8, 'c' as u8, '/' as u8, 'A' as u8, 'u' as u8, 'c' as u8, 'k' as u8, 'l' as u8, 'a' as u8, 'n' as u8, 'd' as u8]),
        (vec!['p' as u8, 'a' as u8, 'c' as u8, 'i' as u8, 'f' as u8, 'i' as u8, 'c' as u8], vec!['A' as u8, 'm' as u8, 'e' as u8, 'r' as u8, 'i' as u8, 'c' as u8, 'a' as u8, '/' as u8, 'L' as u8, 'o' as u8, 's' as u8, '_' as u8, 'A' as u8, 'n' as u8, 'g' as u8, 'e' as u8, 'l' as u8, 'e' as u8, 's' as u8]),
        (vec!['p' as u8, 'a' as u8, 'r' as u8, 'i' as u8, 's' as u8], vec!['E' as u8, 'u' as u8, 'r' as u8, 'o' as u8, 'p' as u8, 'e' as u8, '/' as u8, 'P' as u8, 'a' as u8, 'r' as u8, 'i' as u8, 's' as u8]),
        (vec!['p' as u8, 'd' as u8, 't' as u8], vec!['A' as u8, 'm' as u8, 'e' as u8, 'r' as u8, 'i' as u8, 'c' as u8, 'a' as u8, '/' as u8, 'L' as u8, 'o' as u8, 's' as u8, '_' as u8, 'A' as u8, 'n' as u8, 'g' as u8, 'e' as u8, 'l' as u8, 'e' as u8, 's' as u8]),
        (vec!['p' as u8, 's' as u8, 't' as u8], vec!['A' as u8, 'm' as u8, 'e' as u8, 'r' as u8, 'i' as u8, 'c' as u8, 'a' as u8, '/' as u8, 'L' as u8, 'o' as u8, 's' as u8, '_' as u8, 'A' as u8, 'n' as u8, 'g' as u8, 'e' as u8, 'l' as u8, 'e' as u8, 's' as u8]),
        (vec!['p' as u8, 't' as u8], vec!['A' as u8, 'm' as u8, 'e' as u8, 'r' as u8, 'i' as u8, 'c' as u8, 'a' as u8, '/' as u8, 'L' as u8, 'o' as u8, 's' as u8, '_' as u8, 'A' as u8, 'n' as u8, 'g' as u8, 'e' as u8, 'l' as u8, 'e' as u8, 's' as u8]),
        (vec!['s' as u8, 'e' as u8, 'o' as u8, 'u' as u8, 'l' as u8], vec!['A' as u8, 's' as u8, 'i' as u8, 'a' as u8, '/' as u8, 'S' as u8, 'e' as u8, 'o' as u8, 'u' as u8, 'l' as u8]),
        (vec!['s' as u8, 'f' as u8], vec!['A' as u8, 'm' as u8, 'e' as u8, 'r' as u8, 'i' as u8, 'c' as u8, 'a' as u8, '/' as u8, 'L' as u8, 'o' as u8, 's' as u8, '_' as u8, 'A' as u8, 'n' as u8, 'g' as u8, 'e' as u8, 'l' as u8, 'e' as u8, 's' as u8]),
        (vec!['s' as u8, 'i' as u8, 'n' as u8, 'g' as u8, 'a' as u8, 'p' as u8, 'o' as u8, 'r' as u8, 'e' as u8], vec!['A' as u8, 's' as u8, 'i' as u8, 'a' as u8, '/' as u8, 'S' as u8, 'i' as u8, 'n' as u8, 'g' as u8, 'a' as u8, 'p' as u8, 'o' as u8, 'r' as u8, 'e' as u8]),
        (vec!['s' as u8, 'y' as u8, 'd' as u8, 'n' as u8, 'e' as u8, 'y' as u8], vec!['A' as u8, 'u' as u8, 's' as u8, 't' as u8, 'r' as u8, 'a' as u8, 'l' as u8, 'i' as u8, 'a' as u8, '/' as u8, 'S' as u8, 'y' as u8, 'd' as u8, 'n' as u8, 'e' as u8, 'y' as u8]),
        (vec!['t' as u8, 'o' as u8, 'k' as u8, 'y' as u8, 'o' as u8], vec!['A' as u8, 's' as u8, 'i' as u8, 'a' as u8, '/' as u8, 'T' as u8, 'o' as u8, 'k' as u8, 'y' as u8, 'o' as u8]),
        (vec!['t' as u8, 'o' as u8, 'r' as u8, 'o' as u8, 'n' as u8, 't' as u8, 'o' as u8], vec!['A' as u8, 'm' as u8, 'e' as u8, 'r' as u8, 'i' as u8, 'c' as u8, 'a' as u8, '/' as u8, 'T' as u8, 'o' as u8, 'r' as u8, 'o' as u8, 'n' as u8, 't' as u8, 'o' as u8]),
        (vec!['u' as u8, 't' as u8], vec!['U' as u8, 'T' as u8, 'C' as u8]),
        (vec!['u' as u8, 't' as u8, 'c' as u8], vec!['U' as u8, 'T' as u8, 'C' as u8]),
        (vec!['z' as u8], vec!['U' as u8, 'T' as u8, 'C' as u8]),
    ];
    assert(v@.len() == alias_table().len());
    assert forall|k: int| 0 <= k < v@.len() implies (#[trigger] v@[k]).0@ == alias_table()[k].0
        && v@[k].1@ == alias_table()[k].1 by {
        assert(v@[k].0@ =~= alias_table()[k].0);
        assert(v@[k].1@ =~= alias_table()[k].1);
    }
    v
}

/// Every key and name of the alias table is ASCII.
pub proof fn lemma_alias_ascii()
    ensures
        forall|k: int|
            0 <= k < alias_table().len() ==> crate::strs::is_ascii_bytes(
                #[trigger] alias_table()[k].0,
            ) && crate::strs::is_ascii_bytes(alias_table()[k].1),
{
    let t = alias_table();
    assert forall|k: int| 0 <= k < t.len() implies crate::strs::is_ascii_bytes(#[trigger] t[k].0)
        && crate::strs::is_ascii_bytes(t[k].1) by {
    }
}

/// `a` comes strictly before `b` in byte order: at the first byte where
/// they differ `a`'s is smaller, or `a` is a proper prefix of `b`.
pub open spec fn key_before(a: Seq<u8>, b: Seq<u8>) -> bool
    decreases a.len(),
{
    if b.len() == 0 {
        false
    } else if a.len() == 0 {
        true
    } else if a[0] != b[0] {
        a[0] < b[0]
    } else {
        key_before(a.drop_first(), b.drop_first())
    }
}

proof fn lemma_key_before_trans(a: Seq<u8>, b: Seq<u8>, c: Seq<u8>)
    requires
        key_before(a, b),
        key_before(b, c),
    ensures
        key_before(a, c),
    decreases a.len(),
{
    if a.len() > 0 && a[0] == b[0] && b[0] == c[0] {
        lemma_key_before_trans(a.drop_first(), b.drop_first(), c.drop_first());
    }
}

proof fn lemma_alias_adjacent()
    ensures
        forall|i: int|
            0 <= i < alias_table().len() - 1 ==> key_before(
                #[trigger] alias_table()[i].0,
                alias_table()[i + 1].0,
            ),
{
    reveal_with_fuel(key_before, 5);
    let t = alias_table();
    assert forall|i: int| 0 <= i < t.len() - 1 implies key_before(#[trigger] t[i].0, t[i + 1].0) by {
    }
}

/// The keys of the alias table are strictly increasing in byte order, so no
/// key occurs twice and the table lists in sorted order.
pub proof fn law_alias_keys_sorted()
    ensures
        forall|i: int, j: int|
            0 <= i < j < alias_table().len() ==> key_before(
                #[trigger] alias_table()[i].0,
                #[trigger] alias_table()[j].0,
            ),
{
    lemma_alias_adjacent();
    let t = alias_table();
    assert forall|i: int, j: int| 0 <= i < j < t.len() implies key_before(
        #[trigger] t[i].0,
        #[trigger] t[j].0,
    ) by {
        lemma_alias_chain(i, j);
    }
}

proof fn lemma_alias_chain(i: int, j: int)
    requires
        0 <= i < j < alias_table().len(),
        forall|m: int|
            0 <= m < alias_table().len() - 1 ==> key_before(
                #[trigger] alias_table()[m].0,
                alias_table()[m + 1].0,
            ),
    ensures
        key_before(alias_table()[i].0, alias_table()[j].0),
    decreases j - i,
{
    let t = alias_table();
    assert(key_before(t[j - 1].0, t[j].0));
    if i < j - 1 {
        lemma_alias_chain(i, j - 1);
        lemma_key_before_trans(t[i].0, t[j - 1].0, t[j].0);
    }
}

proof fn lemma_key_before_irreflexive(a: Seq<u8>)
    ensures
        !key_before(a, a),
    decreases a.len(),
{
    if a.len() > 0 {
        lemma_key_before_irreflexive(a.drop_first());
    }
}

proof fn lemma_lookup_first(tbl: Seq<(Seq<u8>, Seq<u8>)>, i: int)
    requires
        0 <= i < tbl.len(),
        forall|j: int| 0 <= j < i ==> (#[trigger] tbl[j]).0 != tbl[i].0,
    ensures
        alias_lookup(tbl, tbl[i].0) == Some(tbl[i].1),
    decreases i,
{
    if i > 0 {
        let r = tbl.drop_first();
        assert(r[i - 1] == tbl[i]);
        assert forall|j: int| 0 <= j < i - 1 implies (#[trigger] r[j]).0 != r[i - 1].0 by {
            assert(r[j] == tbl[j + 1]);
        }
        lemma_lookup_first(r, i - 1);
    }
}

/// Looking up any key of the alias table gives the name listed beside it.
proof fn lemma_alias_entry(i: int)
    requires
        0 <= i < alias_table().len(),
    ensures
        alias_lookup(alias_table(), alias_table()[i].0) == Some(alias_table()[i].1),
{
    let t = alias_table();
    law_alias_keys_sorted();
    assert forall|j: int| 0 <= j < i implies (#[trigger] t[j]).0 != t[i].0 by {
        assert(key_before(t[j].0, t[i].0));
        lemma_key_before_irreflexive(t[i].0);
    }
    lemma_lookup_first(t, i);
}

proof fn lemma_alias_los_angeles()
    ensures
        alias_lookup(alias_table(), seq!['p' as u8, 'a' as u8, 'c' as u8, 'i' as u8, 'f' as u8, 'i' as u8, 'c' as u8]) == Some(seq!['A' as u8, 'm' as u8, 'e' as u8, 'r' as u8, 'i' as u8, 'c' as u8, 'a' as u8, '/' as u8, 'L' as u8, 'o' as u8, 's' as u8, '_' as u8, 'A' as u8, 'n' as u8, 'g' as u8, 'e' as u8, 'l' as u8, 'e' as u8, 's' as u8]),
        alias_lookup(alias_table(), seq!['p' as u8, 's' as u8, 't' as u8]) == Some(seq!['A' as u8, 'm' as u8, 'e' as u8, 'r' as u8, 'i' as u8, 'c' as u8, 'a' as u8, '/' as u8, 'L' as u8, 'o' as u8, 's' as u8, '_' as u8, 'A' as u8, 'n' as u8, 'g' as u8, 'e' as u8, 'l' as u8, 'e' as u8, 's' as u8]),
        alias_lookup(alias_table(), seq!['p' as u8, 'd' as u8, 't' as u8]) == Some(seq!['A' as u8, 'm' as u8, 'e' as u8, 'r' as u8, 'i' as u8, 'c' as u8, 'a' as u8, '/' as u8, 'L' as u8, 'o' as u8, 's' as u8, '_' as u8, 'A' as u8, 'n' as u8, 'g' as u8, 'e' as u8, 'l' as u8, 'e' as u8, 's' as u8]),
        alias_lookup(alias_table(), seq!['p' as u8, 't' as u8]) == Some(seq!['A' as u8, 'm' as u8, 'e' as u8, 'r' as u8, 'i' as u8, 'c' as u8, 'a' as u8, '/' as u8, 'L' as u8, 'o' as u8, 's' as u8, '_' as u8, 'A' as u8, 'n' as u8, 'g' as u8, 'e' as u8, 'l' as u8, 'e' as u8, 's' as u8]),
        alias_lookup(alias_table(), seq!['l' as u8, 'a' as u8]) == Some(seq!['A' as u8, 'm' as u8, 'e' as u8, 'r' as u8, 'i' as u8, 'c' as u8, 'a' as u8, '/' as u8, 'L' as u8, 'o' as u8, 's' as u8, '_' as u8, 'A' as u8, 'n' as u8, 'g' as u8, 'e' as u8, 'l' as u8, 'e' as u8, 's' as u8]),
        alias_lookup(alias_table(), seq!['s' as u8, 'f' as u8]) == Some(seq!['A' as u8, 'm' as u8, 'e' as u8, 'r' as u8, 'i' as u8, 'c' as u8, 'a' as u8, '/' as u8, 'L' as u8, 'o' as u8, 's' as u8, '_' as u8, 'A' as u8, 'n' as u8, 'g' as u8, 'e' as u8, 'l' as u8, 'e' as u8, 's' as u8]),
        alias_lookup(alias_table(), seq!['l' as u8, 'o' as u8, 's' as u8, '_' as u8, 'a' as u8, 'n' as u8, 'g' as u8, 'e' as u8, 'l' as u8, 'e' as u8, 's' as u8]) == Some(seq!['A' as u8, 'm' as u8, 'e' as u8, 'r' as u8, 'i' as u8, 'c' as u8, 'a' as u8, '/' as u8, 'L' as u8, 'o' as u8, 's' as u8, '_' as u8, 'A' as u8, 'n' as u8, 'g' as u8, 'e' as u8, 'l' as u8, 'e' as u8, 's' as u8]),
{
    let t = alias_table();
    lemma_alias_entry(45);
    assert(t[45].0 =~= seq!['p' as u8, 'a' as u8, 'c' as u8, 'i' as u8, 'f' as u8, 'i' as u8, 'c' as u8]);
    assert(t[45].1 =~= seq!['A' as u8, 'm' as u8, 'e' as u8, 'r' as u8, 'i' as u8, 'c' as u8, 'a' as u8, '/' as u8, 'L' as u8, 'o' as u8, 's' as u8, '_' as u8, 'A' as u8, 'n' as u8, 'g' as u8, 'e' as u8, 'l' as u8, 'e' as u8, 's' as u8]);
    lemma_alias_entry(48);
    assert(t[48].0 =~= seq!['p' as u8, 's' as u8, 't' as u8]);
    assert(t[48].1 =~= seq!['A' as u8, 'm' as u8, 'e' as u8, 'r' as u8, 'i' as u8, 'c' as u8, 'a' as u8, '/' as u8, 'L' as u8, 'o' as u8, 's' as u8, '_' as u8, 'A' as u8, 'n' as u8, 'g' as u8, 'e' as u8, 'l' as u8, 'e' as u8, 's' as u8]);
    lemma_alias_entry(47);
    assert(t[47].0 =~= seq!['p' as u8, 'd' as u8, 't' as u8]);
    assert(t[47].1 =~= seq!['A' as u8, 'm' as u8, 'e' as u8, 'r' as u8, 'i' as u8, 'c' as u8, 'a' as u8, '/' as u8, 'L' as u8, 'o' as u8, 's' as u8, '_' as u8, 'A' as u8, 'n' as u8, 'g' as u8, 'e' as u8, 'l' as u8, 'e' as u8, 's' as u8]);
    lemma_alias_entry(49);
    assert(t[49].0 =~= seq!['p' as u8, 't' as u8]);
    assert(t[49].1 =~= seq!['A' as u8, 'm' as u8, 'e' as u8, 'r' as u8, 'i' as u8, 'c' as u8, 'a' as u8, '/' as u8, 'L' as u8, 'o' as u8, 's' as u8, '_' as u8, 'A' as u8, 'n' as u8, 'g' as u8, 'e' as u8, 'l' as u8, 'e' as u8, 's' as u8]);
    lemma_alias_entry(33);
    assert(t[33].0 =~= seq!['l' as u8, 'a' as u8]);
    assert(t[33].1 =~= seq!['A' as u8, 'm' as u8, 'e' as u8, 'r' as u8, 'i' as u8, 'c' as u8, 'a' as u8, '/' as u8, 'L' as u8, 'o' as u8, 's' as u8, '_' as u8, 'A' as u8, 'n' as u8, 'g' as u8, 'e' as u8, 'l' as u8, 'e' as u8, 's' as u8]);
    lemma_alias_entry(51);
    assert(t[51].0 =~= seq!['s' as u8, 'f' as u8]);
    assert(t[51].1 =~= seq!['A' as u8, 'm' as u8, 'e' as u8, 'r' as u8, 'i' as u8, 'c' as u8, 'a' as u8, '/' as u8, 'L' as u8, 'o' as u8, 's' as u8, '_' as u8, 'A' as u8, 'n' as u8, 'g' as u8, 'e' as u8, 'l' as u8, 'e' as u8, 's' as u8]);
    lemma_alias_entry(35);
    assert(t[35].0 =~= seq!['l' as u8, 'o' as u8, 's' as u8, '_' as u8, 'a' as u8, 'n' as u8, 'g' as u8, 'e' as u8, 'l' as u8, 'e' as u8, 's' as u8]);
    assert(t[35].1 =~= seq!['A' as u8, 'm' as u8, 'e' as u8, 'r' as u8, 'i' as u8, 'c' as u8, 'a' as u8, '/' as u8, 'L' as u8, 'o' as u8, 's' as u8, '_' as u8, 'A' as u8, 'n' as u8, 'g' as u8, 'e' as u8, 'l' as u8, 'e' as u8, 's' as u8]);
}

proof fn lemma_alias_denver()
    ensures
        alias_lookup(alias_table(), seq!['m' as u8, 'o' as u8, 'u' as u8, 'n' as u8, 't' as u8, 'a' as u8, 'i' as u8, 'n' as u8]) == Some(seq!['A' as u8, 'm' as u8, 'e' as u8, 'r' as u8, 'i' as u8, 'c' as u8, 'a' as u8, '/' as u8, 'D' as u8, 'e' as u8, 'n' as u8, 'v' as u8, 'e' as u8, 'r' as u8]),
        alias_lookup(alias_table(), seq!['m' as u8, 's' as u8, 't' as u8]) == Some(seq!['A' as u8, 'm' as u8, 'e' as u8, 'r' as u8, 'i' as u8, 'c' as u8, 'a' as u8, '/' as u8, 'D' as u8, 'e' as u8, 'n' as u8, 'v' as u8, 'e' as u8, 'r' as u8]),
        alias_lookup(alias_table(), seq!['m' as u8, 'd' as u8, 't' as u8]) == Some(seq!['A' as u8, 'm' as u8, 'e' as u8, 'r' as u8, 'i' as u8, 'c' as u8, 'a' as u8, '/' as u8, 'D' as u8, 'e' as u8, 'n' as u8, 'v' as u8, 'e' as u8, 'r' as u8]),
        alias_lookup(alias_table(), seq!['m' as u8, 't' as u8]) == Some(seq!['A' as u8, 'm' as u8, 'e' as u8, 'r' as u8, 'i' as u8, 'c' as u8, 'a' as u8, '/' as u8, 'D' as u8, 'e' as u8, 'n' as u8, 'v' as u8, 'e' as u8, 'r' as u8]),
        alias_lookup(alias_table(), seq!['d' as u8, 'e' as u8, 'n' as u8, 'v' as u8, 'e' as u8, 'r' as u8]) == Some(seq!['A' as u8, 'm' as u8, 'e' as u8, 'r' as u8, 'i' as u8, 'c' as u8, 'a' as u8, '/' as u8, 'D' as u8, 'e' as u8, 'n' as u8, 'v' as u8, 'e' as u8, 'r' as u8]),
{
    let t = alias_table();
    lemma_alias_entry(37);
    assert(t[37].0 =~= seq!['m' as u8, 'o' as u8, 'u' as u8, 'n' as u8, 't' as u8, 'a' as u8, 'i' as u8, 'n' as u8]);
    assert(t[37].1 =~= seq!['A' as u8, 'm' as u8, 'e' as u8, 'r' as u8, 'i' as u8, 'c' as u8, 'a' as u8, '/' as u8, 'D' as u8, 'e' as u8, 'n' as u8, 'v' as u8, 'e' as u8, 'r' as u8]);
    lemma_alias_entry(38);
    assert(t[38].0 =~= seq!['m' as u8, 's' as u8, 't' as u8]);
    assert(t[38].1 =~= seq!['A' as u8, 'm' as u8, 'e' as u8, 'r' as u8, 'i' as u8, 'c' as u8, 'a' as u8, '/' as u8, 'D' as u8, 'e' as u8, 'n' as u8, 'v' as u8, 'e' as u8, 'r' as u8]);
    lemma_alias_entry(36);
    assert(t[36].0 =~= seq!['m' as u8, 'd' as u8, 't' as u8]);
    assert(t[36].1 =~= seq!['A' as u8, 'm' as u8, 'e' as u8, 'r' as u8, 'i' as u8, 'c' as u8, 'a' as u8, '/' as u8, 'D' as u8, 'e' as u8, 'n' as u8, 'v' as u8, 'e' as u8, 'r' as u8]);
    lemma_alias_entry(39);
    assert(t[39].0 =~= seq!['m' as u8, 't' as u8]);
    assert(t[39].1 =~= seq!['A' as u8, 'm' as u8, 'e' as u8, 'r' as u8, 'i' as u8, 'c' as u8, 'a' as u8, '/' as u8, 'D' as u8, 'e' as u8, 'n' as u8, 'v' as u8, 'e' as u8, 'r' as u8]);
    lemma_alias_entry(18);
    assert(t[18].0 =~= seq!['d' as u8, 'e' as u8, 'n' as u8, 'v' as u8, 'e' as u8, 'r' as u8]);
    assert(t[18].1 =~= seq!['A' as u8, 'm' as u8, 'e' as u8, 'r' as u8, 'i' as u8, 'c' as u8, 'a' as u8, '/' as u8, 'D' as u8, 'e' as u8, 'n' as u8, 'v' as u8, 'e' as u8, 'r' as u8]);
}

proof fn lemma_alias_chicago()
    ensures
        alias_lookup(alias_table(), seq!['c' as u8, 'e' as u8, 'n' as u8, 't' as u8, 'r' as u8, 'a' as u8, 'l' as u8]) == Some(seq!['A' as u8, 'm' as u8, 'e' as u8, 'r' as u8, 'i' as u8, 'c' as u8, 'a' as u8, '/' as u8, 'C' as u8, 'h' as u8, 'i' as u8, 'c' as u8, 'a' as u8, 'g' as u8, 'o' as u8]),
        alias_lookup(alias_table(), seq!['c' as u8, 's' as u8, 't' as u8]) == Some(seq!['A' as u8, 'm' as u8, 'e' as u8, 'r' as u8, 'i' as u8, 'c' as u8, 'a' as u8, '/' as u8, 'C' as u8, 'h' as u8, 'i' as u8, 'c' as u8, 'a' as u8, 'g' as u8, 'o' as u8]),
        alias_lookup(alias_table(), seq!['c' as u8, 'd' as u8, 't' as u8]) == Some(seq!['A' as u8, 'm' as u8, 'e' as u8, 'r' as u8, 'i' as u8, 'c' as u8, 'a' as u8, '/' as u8, 'C' as u8, 'h' as u8, 'i' as u8, 'c' as u8, 'a' as u8, 'g' as u8, 'o' as u8]),
        alias_lookup(alias_table(), seq!['c' as u8, 't' as u8]) == Some(seq!['A' as u8, 'm' as u8, 'e' as u8, 'r' as u8, 'i' as u8, 'c' as u8, 'a' as u8, '/' as u8, 'C' as u8, 'h' as u8, 'i' as u8, 'c' as u8, 'a' as u8, 'g' as u8, 'o' as u8]),
        alias_lookup(alias_table(), seq!['c' as u8, 'h' as u8, 'i' as u8, 'c' as u8, 'a' as u8, 'g' as u8, 'o' as u8]) == Some(seq!['A' as u8, 'm' as u8, 'e' as u8, 'r' as u8, 'i' as u8, 'c' as u8, 'a' as u8, '/' as u8, 'C' as u8, 'h' as u8, 'i' as u8, 'c' as u8, 'a' as u8, 'g' as u8, 'o' as u8]),
{
    let t = alias_table();
    lemma_alias_entry(12);
    assert(t[12].0 =~= seq!['c' as u8, 'e' as u8, 'n' as u8, 't' as u8, 'r' as u8, 'a' as u8, 'l' as u8]);
    assert(t[12].1 =~= seq!['A' as u8, 'm' as u8, 'e' as u8, 'r' as u8, 'i' as u8, 'c' as u8, 'a' as u8, '/' as u8, 'C' as u8, 'h' as u8, 'i' as u8, 'c' as u8, 'a' as u8, 'g' as u8, 'o' as u8]);
    lemma_alias_entry(16);
    assert(t[16].0 =~= seq!['c' as u8, 's' as u8, 't' as u8]);
    assert(t[16].1 =~= seq!['A' as u8, 'm' as u8, 'e' as u8, 'r' as u8, 'i' as u8, 'c' as u8, 'a' as u8, '/' as u8, 'C' as u8, 'h' as u8, 'i' as u8, 'c' as u8, 'a' as u8, 'g' as u8, 'o' as u8]);
    lemma_alias_entry(11);
    assert(t[11].0 =~= seq!['c' as u8, 'd' as u8, 't' as u8]);
    assert(t[11].1 =~= seq!['A' as u8, 'm' as u8, 'e' as u8, 'r' as u8, 'i' as u8, 'c' as u8, 'a' as u8, '/' as u8, 'C' as u8, 'h' as u8, 'i' as u8, 'c' as u8, 'a' as u8, 'g' as u8, 'o' as u8]);
    lemma_alias_entry(17);
    assert(t[17].0 =~= seq!['c' as u8, 't' as u8]);
    assert(t[17].1 =~= seq!['A' as u8, 'm' as u8, 'e' as u8, 'r' as u8, 'i' as u8, 'c' as u8, 'a' as u8, '/' as u8, 'C' as u8, 'h' as u8, 'i' as u8, 'c' as u8, 'a' as u8, 'g' as u8, 'o' as u8]);
    lemma_alias_entry(15);
    assert(t[15].0 =~= seq!['c' as u8, 'h' as u8, 'i' as u8, 'c' as u8, 'a' as u8, 'g' as u8, 'o' as u8]);
    assert(t[15].1 =~= seq!['A' as u8, 'm' as u8, 'e' as u8, 'r' as u8, 'i' as u8, 'c' as u8, 'a' as u8, '/' as u8, 'C' as u8, 'h' as u8, 'i' as u8, 'c' as u8, 'a' as u8, 'g' as u8, 'o' as u8]);
}

proof fn lemma_alias_new_york()
    ensures
        alias_lookup(alias_table(), seq!['e' as u8, 'a' as u8, 's' as u8, 't' as u8, 'e' as u8, 'r' as u8, 'n' as u8]) == Some(seq!['A' as u8, 'm' as u8, 'e' as u8, 'r' as u8, 'i' as u8, 'c' as u8, 'a' as u8, '/' as u8, 'N' as u8, 'e' as u8, 'w' as u8, '_' as u8, 'Y' as u8, 'o' as u8, 'r' as u8, 'k' as u8]),
        alias_lookup(alias_table(), seq!['e' as u8, 's' as u8, 't' as u8]) == Some(seq!['A' as u8, 'm' as u8, 'e' as u8, 'r' as u8, 'i' as u8, 'c' as u8, 'a' as u8, '/' as u8, 'N' as u8, 'e' as u8, 'w' as u8, '_' as u8, 'Y' as u8, 'o' as u8, 'r' as u8, 'k' as u8]),
        alias_lookup(alias_table(), seq!['e' as u8, 'd' as u8, 't' as u8]) == Some(seq!['A' as u8, 'm' as u8, 'e' as u8, 'r' as u8, 'i' as u8, 'c' as u8, 'a' as u8, '/' as u8, 'N' as u8, 'e' as u8, 'w' as u8, '_' as u8, 'Y' as u8, 'o' as u8, 'r' as u8, 'k' as u8]),
        alias_lookup(alias_table(), seq!['e' as u8, 't' as u8]) == Some(seq!['A' as u8, 'm' as u8, 'e' as u8, 'r' as u8, 'i' as u8, 'c' as u8, 'a' as u8, '/' as u8, 'N' as u8, 'e' as u8, 'w' as u8, '_' as u8, 'Y' as u8, 'o' as u8, 'r' as u8, 'k' as u8]),
        alias_lookup(alias_table(), seq!['n' as u8, 'y' as u8, 'c' as u8]) == Some(seq!['A' as u8, 'm' as u8, 'e' as u8, 'r' as u8, 'i' as u8, 'c' as u8, 'a' as u8, '/' as u8, 'N' as u8, 'e' as u8, 'w' as u8, '_' as u8, 'Y' as u8, 'o' as u8, 'r' as u8, 'k' as u8]),
        alias_lookup(alias_table(), seq!['n' as u8, 'e' as u8, 'w' as u8, '_' as u8, 'y' as u8, 'o' as u8, 'r' as u8, 'k' as u8]) == Some(seq!['A' as u8, 'm' as u8, 'e' as u8, 'r' as u8, 'i' as u8, 'c' as u8, 'a' as u8, '/' as u8, 'N' as u8, 'e' as u8, 'w' as u8, '_' as u8, 'Y' as u8, 'o' as u8, 'r' as u8, 'k' as u8]),
{
    let t = alias_table();
    lemma_alias_entry(20);
    assert(t[20].0 =~= seq!['e' as u8, 'a' as u8, 's' as u8, 't' as u8, 'e' as u8, 'r' as u8, 'n' as u8]);
    assert(t[20].1 =~= seq!['A' as u8, 'm' as u8, 'e' as u8, 'r' as u8, 'i' as u8, 'c' as u8, 'a' as u8, '/' as u8, 'N' as u8, 'e' as u8, 'w' as u8, '_' as u8, 'Y' as u8, 'o' as u8, 'r' as u8, 'k' as u8]);
    lemma_alias_entry(22);
    assert(t[22].0 =~= seq!['e' as u8, 's' as u8, 't' as u8]);
    assert(t[22].1 =~= seq!['A' as u8, 'm' as u8, 'e' as u8, 'r' as u8, 'i' as u8, 'c' as u8, 'a' as u8, '/' as u8, 'N' as u8, 'e' as u8, 'w' as u8, '_' as u8, 'Y' as u8, 'o' as u8, 'r' as u8, 'k' as u8]);
    lemma_alias_entry(21);
    assert(t[21].0 =~= seq!['e' as u8, 'd' as u8, 't' as u8]);
    assert(t[21].1 =~= seq!['A' as u8, 'm' as u8, 'e' as u8, 'r' as u8, 'i' as u8, 'c' as u8, 'a' as u8, '/' as u8, 'N' as u8, 'e' as u8, 'w' as u8, '_' as u8, 'Y' as u8, 'o' as u8, 'r' as u8, 'k' as u8]);
    lemma_alias_entry(23);
    assert(t[23].0 =~= seq!['e' as u8, 't' as u8]);
    assert(t[23].1 =~= seq!['A' as u8, 'm' as u8, 'e' as u8, 'r' as u8, 'i' as u8, 'c' as u8, 'a' as u8, '/' as u8, 'N' as u8, 'e' as u8, 'w' as u8, '_' as u8, 'Y' as u8, 'o' as u8, 'r' as u8, 'k' as u8]);
    lemma_alias_entry(42);
    assert(t[42].0 =~= seq!['n' as u8, 'y' as u8, 'c' as u8]);
    assert(t[42].1 =~= seq!['A' as u8, 'm' as u8, 'e' as u8, 'r' as u8, 'i' as u8, 'c' as u8, 'a' as u8, '/' as u8, 'N' as u8, 'e' as u8, 'w' as u8, '_' as u8, 'Y' as u8, 'o' as u8, 'r' as u8, 'k' as u8]);
    lemma_alias_entry(41);
    assert(t[41].0 =~= seq!['n' as u8, 'e' as u8, 'w' as u8, '_' as u8, 'y' as u8, 'o' as u8, 'r' as u8, 'k' as u8]);
    assert(t[41].1 =~= seq!['A' as u8, 'm' as u8, 'e' as u8, 'r' as u8, 'i' as u8, 'c' as u8, 'a' as u8, '/' as u8, 'N' as u8, 'e' as u8, 'w' as u8, '_' as u8, 'Y' as u8, 'o' as u8, 'r' as u8, 'k' as u8]);
}

proof fn lemma_alias_anchorage()
    ensures
        alias_lookup(alias_table(), seq!['a' as u8, 'l' as u8, 'a' as u8, 's' as u8, 'k' as u8, 'a' as u8]) == Some(seq!['A' as u8, 'm' as u8, 'e' as u8, 'r' as u8, 'i' as u8, 'c' as u8, 'a' as u8, '/' as u8, 'A' as u8, 'n' as u8, 'c' as u8, 'h' as u8, 'o' as u8, 'r' as u8, 'a' as u8, 'g' as u8, 'e' as u8]),
        alias_lookup(alias_table(), seq!['a' as u8, 'k' as u8, 's' as u8, 't' as u8]) == Some(seq!['A' as u8, 'm' as u8, 'e' as u8, 'r' as u8, 'i' as u8, 'c' as u8, 'a' as u8, '/' as u8, 'A' as u8, 'n' as u8, 'c' as u8, 'h' as u8, 'o' as u8, 'r' as u8, 'a' as u8, 'g' as u8, 'e' as u8]),
        alias_lookup(alias_table(), seq!['a' as u8, 'k' as u8, 'd' as u8, 't' as u8]) == Some(seq!['A' as u8, 'm' as u8, 'e' as u8, 'r' as u8, 'i' as u8, 'c' as u8, 'a' as u8, '/' as u8, 'A' as u8, 'n' as u8, 'c' as u8, 'h' as u8, 'o' as u8, 'r' as u8, 'a' as u8, 'g' as u8, 'e' as u8]),
{
    let t = alias_table();
    lemma_alias_entry(4);
    assert(t[4].0 =~= seq!['a' as u8, 'l' as u8, 'a' as u8, 's' as u8, 'k' as u8, 'a' as u8]);
    assert(t[4].1 =~= seq!['A' as u8, 'm' as u8, 'e' as u8, 'r' as u8, 'i' as u8, 'c' as u8, 'a' as u8, '/' as u8, 'A' as u8, 'n' as u8, 'c' as u8, 'h' as u8, 'o' as u8, 'r' as u8, 'a' as u8, 'g' as u8, 'e' as u8]);
    lemma_alias_entry(3);
    assert(t[3].0 =~= seq!['a' as u8, 'k' as u8, 's' as u8, 't' as u8]);
    assert(t[3].1 =~= seq!['A' as u8, 'm' as u8, 'e' as u8, 'r' as u8, 'i' as u8, 'c' as u8, 'a' as u8, '/' as u8, 'A' as u8, 'n' as u8, 'c' as u8, 'h' as u8, 'o' as u8, 'r' as u8, 'a' as u8, 'g' as u8, 'e' as u8]);
    lemma_alias_entry(2);
    assert(t[2].0 =~= seq!['a' as u8, 'k' as u8, 'd' as u8, 't' as u8]);
    assert(t[2].1 =~= seq!['A' as u8, 'm' as u8, 'e' as u8, 'r' as u8, 'i' as u8, 'c' as u8, 'a' as u8, '/' as u8, 'A' as u8, 'n' as u8, 'c' as u8, 'h' as u8, 'o' as u8, 'r' as u8, 'a' as u8, 'g' as u8, 'e' as u8]);
}

proof fn lemma_alias_honolulu()
    ensures
        alias_lookup(alias_table(), seq!['h' as u8, 'a' as u8, 'w' as u8, 'a' as u8, 'i' as u8, 'i' as u8]) == Some(seq!['P' as u8, 'a' as u8, 'c' as u8, 'i' as u8, 'f' as u8, 'i' as u8, 'c' as u8, '/' as u8, 'H' as u8, 'o' as u8, 'n' as u8, 'o' as u8, 'l' as u8, 'u' as u8, 'l' as u8, 'u' as u8]),
        alias_lookup(alias_table(), seq!['h' as u8, 's' as u8, 't' as u8]) == Some(seq!['P' as u8, 'a' as u8, 'c' as u8, 'i' as u8, 'f' as u8, 'i' as u8, 'c' as u8, '/' as u8, 'H' as u8, 'o' as u8, 'n' as u8, 'o' as u8, 'l' as u8, 'u' as u8, 'l' as u8, 'u' as u8]),
        alias_lookup(alias_table(), seq!['h' as u8, 'o' as u8, 'n' as u8, 'o' as u8, 'l' as u8, 'u' as u8, 'l' as u8, 'u' as u8]) == Some(seq!['P' as u8, 'a' as u8, 'c' as u8, 'i' as u8, 'f' as u8, 'i' as u8, 'c' as u8, '/' as u8, 'H' as u8, 'o' as u8, 'n' as u8, 'o' as u8, 'l' as u8, 'u' as u8, 'l' as u8, 'u' as u8]),
{
    let t = alias_table();
    lemma_alias_entry(25);
    assert(t[25].0 =~= seq!['h' as u8, 'a' as u8, 'w' as u8, 'a' as u8, 'i' as u8, 'i' as u8]);
    assert(t[25].1 =~= seq!['P' as u8, 'a' as u8, 'c' as u8, 'i' as u8, 'f' as u8, 'i' as u8, 'c' as u8, '/' as u8, 'H' as u8, 'o' as u8, 'n' as u8, 'o' as u8, 'l' as u8, 'u' as u8, 'l' as u8, 'u' as u8]);
    lemma_alias_entry(29);
    assert(t[29].0 =~= seq!['h' as u8, 's' as u8, 't' as u8]);
    assert(t[29].1 =~= seq!['P' as u8, 'a' as u8, 'c' as u8, 'i' as u8, 'f' as u8, 'i' as u8, 'c' as u8, '/' as u8, 'H' as u8, 'o' as u8, 'n' as u8, 'o' as u8, 'l' as u8, 'u' as u8, 'l' as u8, 'u' as u8]);
    lemma_alias_entry(28);
    assert(t[28].0 =~= seq!['h' as u8, 'o' as u8, 'n' as u8, 'o' as u8, 'l' as u8, 'u' as u8, 'l' as u8, 'u' as u8]);
    assert(t[28].1 =~= seq!['P' as u8, 'a' as u8, 'c' as u8, 'i' as u8, 'f' as u8, 'i' as u8, 'c' as u8, '/' as u8, 'H' as u8, 'o' as u8, 'n' as u8, 'o' as u8, 'l' as u8, 'u' as u8, 'l' as u8, 'u' as u8]);
}

proof fn lemma_alias_toronto()
    ensures
        alias_lookup(alias_table(), seq!['t' as u8, 'o' as u8, 'r' as u8, 'o' as u8, 'n' as u8, 't' as u8, 'o' as u8]) == Some(seq!['A' as u8, 'm' as u8, 'e' as u8, 'r' as u8, 'i' as u8, 'c' as u8, 'a' as u8, '/' as u8, 'T' as u8, 'o' as u8, 'r' as u8, 'o' as u8, 'n' as u8, 't' as u8, 'o' as u8]),
{
    let t = alias_table();
    lemma_alias_entry(55);
    assert(t[55].0 =~= seq!['t' as u8, 'o' as u8, 'r' as u8, 'o' as u8, 'n' as u8, 't' as u8, 'o' as u8]);
    assert(t[55].1 =~= seq!['A' as u8, 'm' as u8, 'e' as u8, 'r' as u8, 'i' as u8, 'c' as u8, 'a' as u8, '/' as u8, 'T' as u8, 'o' as u8, 'r' as u8, 'o' as u8, 'n' as u8, 't' as u8, 'o' as u8]);
}

proof fn lemma_alias_utc()
    ensures
        alias_lookup(alias_table(), seq!['u' as u8, 't' as u8, 'c' as u8]) == Some(seq!['U' as u8, 'T' as u8, 'C' as u8]),
        alias_lookup(alias_table(), seq!['u' as u8, 't' as u8]) == Some(seq!['U' as u8, 'T' as u8, 'C' as u8]),
        alias_lookup(alias_table(), seq!['z' as u8]) == Some(seq!['U' as u8, 'T' as u8, 'C' as u8]),
        alias_lookup(alias_table(), seq!['g' as u8, 'm' as u8, 't' as u8]) == Some(seq!['U' as u8, 'T' as u8, 'C' as u8]),
{
    let t = alias_table();
    lemma_alias_entry(57);
    assert(t[57].0 =~= seq!['u' as u8, 't' as u8, 'c' as u8]);
    assert(t[57].1 =~= seq!['U' as u8, 'T' as u8, 'C' as u8]);
    lemma_alias_entry(56);
    assert(t[56].0 =~= seq!['u' as u8, 't' as u8]);
    assert(t[56].1 =~= seq!['U' as u8, 'T' as u8, 'C' as u8]);
    lemma_alias_entry(58);
    assert(t[58].0 =~= seq!['z' as u8]);
    assert(t[58].1 =~= seq!['U' as u8, 'T' as u8, 'C' as u8]);
    lemma_alias_entry(24);
    assert(t[24].0 =~= seq!['g' as u8, 'm' as u8, 't' as u8]);
    assert(t[24].1 =~= seq!['U' as u8, 'T' as u8, 'C' as u8]);
}

proof fn lemma_alias_london()
    ensures
        alias_lookup(alias_table(), seq!['b' as u8, 's' as u8, 't' as u8]) == Some(seq!['E' as u8, 'u' as u8, 'r' as u8, 'o' as u8, 'p' as u8, 'e' as u8, '/' as u8, 'L' as u8, 'o' as u8, 'n' as u8, 'd' as u8, 'o' as u8, 'n' as u8]),
        alias_lookup(alias_table(), seq!['l' as u8, 'o' as u8, 'n' as u8, 'd' as u8, 'o' as u8, 'n' as u8]) == Some(seq!['E' as u8, 'u' as u8, 'r' as u8, 'o' as u8, 'p' as u8, 'e' as u8, '/' as u8, 'L' as u8, 'o' as u8, 'n' as u8, 'd' as u8, 'o' as u8, 'n' as u8]),
{
    let t = alias_table();
    lemma_alias_entry(10);
    assert(t[10].0 =~= seq!['b' as u8, 's' as u8, 't' as u8]);
    assert(t[10].1 =~= seq!['E' as u8, 'u' as u8, 'r' as u8, 'o' as u8, 'p' as u8, 'e' as u8, '/' as u8, 'L' as u8, 'o' as u8, 'n' as u8, 'd' as u8, 'o' as u8, 'n' as u8]);
    lemma_alias_entry(34);
    assert(t[34].0 =~= seq!['l' as u8, 'o' as u8, 'n' as u8, 'd' as u8, 'o' as u8, 'n' as u8]);
    assert(t[34].1 =~= seq!['E' as u8, 'u' as u8, 'r' as u8, 'o' as u8, 'p' as u8, 'e' as u8, '/' as u8, 'L' as u8, 'o' as u8, 'n' as u8, 'd' as u8, 'o' as u8, 'n' as u8]);
}

proof fn lemma_alias_paris()
    ensures
        alias_lookup(alias_table(), seq!['c' as u8, 'e' as u8, 't' as u8]) == Some(seq!['E' as u8, 'u' as u8, 'r' as u8, 'o' as u8, 'p' as u8, 'e' as u8, '/' as u8, 'P' as u8, 'a' as u8, 'r' as u8, 'i' as u8, 's' as u8]),
        alias_lookup(alias_table(), seq!['c' as u8, 'e' as u8, 's' as u8, 't' as u8]) == Some(seq!['E' as u8, 'u' as u8, 'r' as u8, 'o' as u8, 'p' as u8, 'e' as u8, '/' as u8, 'P' as u8, 'a' as u8, 'r' as u8, 'i' as u8, 's' as u8]),
        alias_lookup(alias_table(), seq!['p' as u8, 'a' as u8, 'r' as u8, 'i' as u8, 's' as u8]) == Some(seq!['E' as u8, 'u' as u8, 'r' as u8, 'o' as u8, 'p' as u8, 'e' as u8, '/' as u8, 'P' as u8, 'a' as u8, 'r' as u8, 'i' as u8, 's' as u8]),
{
    let t = alias_table();
    lemma_alias_entry(14);
    assert(t[14].0 =~= seq!['c' as u8, 'e' as u8, 't' as u8]);
    assert(t[14].1 =~= seq!['E' as u8, 'u' as u8, 'r' as u8, 'o' as u8, 'p' as u8, 'e' as u8, '/' as u8, 'P' as u8, 'a' as u8, 'r' as u8, 'i' as u8, 's' as u8]);
    lemma_alias_entry(13);
    assert(t[13].0 =~= seq!['c' as u8, 'e' as u8, 's' as u8, 't' as u8]);
    assert(t[13].1 =~= seq!['E' as u8, 'u' as u8, 'r' as u8, 'o' as u8, 'p' as u8, 'e' as u8, '/' as u8, 'P' as u8, 'a' as u8, 'r' as u8, 'i' as u8, 's' as u8]);
    lemma_alias_entry(46);
    assert(t[46].0 =~= seq!['p' as u8, 'a' as u8, 'r' as u8, 'i' as u8, 's' as u8]);
    assert(t[46].1 =~= seq!['E' as u8, 'u' as u8, 'r' as u8, 'o' as u8, 'p' as u8, 'e' as u8, '/' as u8, 'P' as u8, 'a' as u8, 'r' as u8, 'i' as u8, 's' as u8]);
}

proof fn lemma_alias_berlin()
    ensures
        alias_lookup(alias_table(), seq!['b' as u8, 'e' as u8, 'r' as u8, 'l' as u8, 'i' as u8, 'n' as u8]) == Some(seq!['E' as u8, 'u' as u8, 'r' as u8, 'o' as u8, 'p' as u8, 'e' as u8, '/' as u8, 'B' as u8, 'e' as u8, 'r' as u8, 'l' as u8, 'i' as u8, 'n' as u8]),
{
    let t = alias_table();
    lemma_alias_entry(9);
    assert(t[9].0 =~= seq!['b' as u8, 'e' as u8, 'r' as u8, 'l' as u8, 'i' as u8, 'n' as u8]);
    assert(t[9].1 =~= seq!['E' as u8, 'u' as u8, 'r' as u8, 'o' as u8, 'p' as u8, 'e' as u8, '/' as u8, 'B' as u8, 'e' as u8, 'r' as u8, 'l' as u8, 'i' as u8, 'n' as u8]);
}

proof fn lemma_alias_amsterdam()
    ensures
        alias_lookup(alias_table(), seq!['a' as u8, 'm' as u8, 's' as u8, 't' as u8, 'e' as u8, 'r' as u8, 'd' as u8, 'a' as u8, 'm' as u8]) == Some(seq!['E' as u8, 'u' as u8, 'r' as u8, 'o' as u8, 'p' as u8, 'e' as u8, '/' as u8, 'A' as u8, 'm' as u8, 's' as u8, 't' as u8, 'e' as u8, 'r' as u8, 'd' as u8, 'a' as u8, 'm' as u8]),
{
    let t = alias_table();
    lemma_alias_entry(5);
    assert(t[5].0 =~= seq!['a' as u8, 'm' as u8, 's' as u8, 't' as u8, 'e' as u8, 'r' as u8, 'd' as u8, 'a' as u8, 'm' as u8]);
    assert(t[5].1 =~= seq!['E' as u8, 'u' as u8, 'r' as u8, 'o' as u8, 'p' as u8, 'e' as u8, '/' as u8, 'A' as u8, 'm' as u8, 's' as u8, 't' as u8, 'e' as u8, 'r' as u8, 'd' as u8, 'a' as u8, 'm' as u8]);
}

proof fn lemma_alias_kolkata()
    ensures
        alias_lookup(alias_table(), seq!['i' as u8, 's' as u8, 't' as u8]) == Some(seq!['A' as u8, 's' as u8, 'i' as u8, 'a' as u8, '/' as u8, 'K' as u8, 'o' as u8, 'l' as u8, 'k' as u8, 'a' as u8, 't' as u8, 'a' as u8]),
        alias_lookup(alias_table(), seq!['m' as u8, 'u' as u8, 'm' as u8, 'b' as u8, 'a' as u8, 'i' as u8]) == Some(seq!['A' as u8, 's' as u8, 'i' as u8, 'a' as u8, '/' as u8, 'K' as u8, 'o' as u8, 'l' as u8, 'k' as u8, 'a' as u8, 't' as u8, 'a' as u8]),
{
    let t = alias_table();
    lemma_alias_entry(30);
    assert(t[30].0 =~= seq!['i' as u8, 's' as u8, 't' as u8]);
    assert(t[30].1 =~= seq!['A' as u8, 's' as u8, 'i' as u8, 'a' as u8, '/' as u8, 'K' as u8, 'o' as u8, 'l' as u8, 'k' as u8, 'a' as u8, 't' as u8, 'a' as u8]);
    lemma_alias_entry(40);
    assert(t[40].0 =~= seq!['m' as u8, 'u' as u8, 'm' as u8, 'b' as u8, 'a' as u8, 'i' as u8]);
    assert(t[40].1 =~= seq!['A' as u8, 's' as u8, 'i' as u8, 'a' as u8, '/' as u8, 'K' as u8, 'o' as u8, 'l' as u8, 'k' as u8, 'a' as u8, 't' as u8, 'a' as u8]);
}

proof fn lemma_alias_tokyo()
    ensures
        alias_lookup(alias_table(), seq!['j' as u8, 's' as u8, 't' as u8]) == Some(seq!['A' as u8, 's' as u8, 'i' as u8, 'a' as u8, '/' as u8, 'T' as u8, 'o' as u8, 'k' as u8, 'y' as u8, 'o' as u8]),
        alias_lookup(alias_table(), seq!['t' as u8, 'o' as u8, 'k' as u8, 'y' as u8, 'o' as u8]) == Some(seq!['A' as u8, 's' as u8, 'i' as u8, 'a' as u8, '/' as u8, 'T' as u8, 'o' as u8, 'k' as u8, 'y' as u8, 'o' as u8]),
{
    let t = alias_table();
    lemma_alias_entry(31);
    assert(t[31].0 =~= seq!['j' as u8, 's' as u8, 't' as u8]);
    assert(t[31].1 =~= seq!['A' as u8, 's' as u8, 'i' as u8, 'a' as u8, '/' as u8, 'T' as u8, 'o' as u8, 'k' as u8, 'y' as u8, 'o' as u8]);
    lemma_alias_entry(54);
    assert(t[54].0 =~= seq!['t' as u8, 'o' as u8, 'k' as u8, 'y' as u8, 'o' as u8]);
    assert(t[54].1 =~= seq!['A' as u8, 's' as u8, 'i' as u8, 'a' as u8, '/' as u8, 'T' as u8, 'o' as u8, 'k' as u8, 'y' as u8, 'o' as u8]);
}

proof fn lemma_alias_seoul()
    ensures
        alias_lookup(alias_table(), seq!['k' as u8, 's' as u8, 't' as u8]) == Some(seq!['A' as u8, 's' as u8, 'i' as u8, 'a' as u8, '/' as u8, 'S' as u8, 'e' as u8, 'o' as u8, 'u' as u8, 'l' as u8]),
        alias_lookup(alias_table(), seq!['s' as u8, 'e' as u8, 'o' as u8, 'u' as u8, 'l' as u8]) == Some(seq!['A' as u8, 's' as u8, 'i' as u8, 'a' as u8, '/' as u8, 'S' as u8, 'e' as u8, 'o' as u8, 'u' as u8, 'l' as u8]),
{
    let t = alias_table();
    lemma_alias_entry(32);
    assert(t[32].0 =~= seq!['k' as u8, 's' as u8, 't' as u8]);
    assert(t[32].1 =~= seq!['A' as u8, 's' as u8, 'i' as u8, 'a' as u8, '/' as u8, 'S' as u8, 'e' as u8, 'o' as u8, 'u' as u8, 'l' as u8]);
    lemma_alias_entry(50);
    assert(t[50].0 =~= seq!['s' as u8, 'e' as u8, 'o' as u8, 'u' as u8, 'l' as u8]);
    assert(t[50].1 =~= seq!['A' as u8, 's' as u8, 'i' as u8, 'a' as u8, '/' as u8, 'S' as u8, 'e' as u8, 'o' as u8, 'u' as u8, 'l' as u8]);
}

proof fn lemma_alias_hong_kong()
    ensures
        alias_lookup(alias_table(), seq!['h' as u8, 'k' as u8, 't' as u8]) == Some(seq!['A' as u8, 's' as u8, 'i' as u8, 'a' as u8, '/' as u8, 'H' as u8, 'o' as u8, 'n' as u8, 'g' as u8, '_' as u8, 'K' as u8, 'o' as u8, 'n' as u8, 'g' as u8]),
        alias_lookup(alias_table(), seq!['h' as u8, 'o' as u8, 'n' as u8, 'g' as u8, '_' as u8, 'k' as u8, 'o' as u8, 'n' as u8, 'g' as u8]) == Some(seq!['A' as u8, 's' as u8, 'i' as u8, 'a' as u8, '/' as u8, 'H' as u8, 'o' as u8, 'n' as u8, 'g' as u8, '_' as u8, 'K' as u8, 'o' as u8, 'n' as u8, 'g' as u8]),
{
    let t = alias_table();
    lemma_alias_entry(26);
    assert(t[26].0 =~= seq!['h' as u8, 'k' as u8, 't' as u8]);
    assert(t[26].1 =~= seq!['A' as u8, 's' as u8, 'i' as u8, 'a' as u8, '/' as u8, 'H' as u8, 'o' as u8, 'n' as u8, 'g' as u8, '_' as u8, 'K' as u8, 'o' as u8, 'n' as u8, 'g' as u8]);
    lemma_alias_entry(27);
    assert(t[27].0 =~= seq!['h' as u8, 'o' as u8, 'n' as u8, 'g' as u8, '_' as u8, 'k' as u8, 'o' as u8, 'n' as u8, 'g' as u8]);
    assert(t[27].1 =~= seq!['A' as u8, 's' as u8, 'i' as u8, 'a' as u8, '/' as u8, 'H' as u8, 'o' as u8, 'n' as u8, 'g' as u8, '_' as u8, 'K' as u8, 'o' as u8, 'n' as u8, 'g' as u8]);
}

proof fn lemma_alias_shanghai()
    ensures
        alias_lookup(alias_table(), seq!['b' as u8, 'e' as u8, 'i' as u8, 'j' as u8, 'i' as u8, 'n' as u8, 'g' as u8]) == Some(seq!['A' as u8, 's' as u8, 'i' as u8, 'a' as u8, '/' as u8, 'S' as u8, 'h' as u8, 'a' as u8, 'n' as u8, 'g' as u8, 'h' as u8, 'a' as u8, 'i' as u8]),
{
    let t = alias_table();
    lemma_alias_entry(8);
    assert(t[8].0 =~= seq!['b' as u8, 'e' as u8, 'i' as u8, 'j' as u8, 'i' as u8, 'n' as u8, 'g' as u8]);
    assert(t[8].1 =~= seq!['A' as u8, 's' as u8, 'i' as u8, 'a' as u8, '/' as u8, 'S' as u8, 'h' as u8, 'a' as u8, 'n' as u8, 'g' as u8, 'h' as u8, 'a' as u8, 'i' as u8]);
}

proof fn lemma_alias_singapore()
    ensures
        alias_lookup(alias_table(), seq!['s' as u8, 'i' as u8, 'n' as u8, 'g' as u8, 'a' as u8, 'p' as u8, 'o' as u8, 'r' as u8, 'e' as u8]) == Some(seq!['A' as u8, 's' as u8, 'i' as u8, 'a' as u8, '/' as u8, 'S' as u8, 'i' as u8, 'n' as u8, 'g' as u8, 'a' as u8, 'p' as u8, 'o' as u8, 'r' as u8, 'e' as u8]),
{
    let t = alias_table();
    lemma_alias_entry(52);
    assert(t[52].0 =~= seq!['s' as u8, 'i' as u8, 'n' as u8, 'g' as u8, 'a' as u8, 'p' as u8, 'o' as u8, 'r' as u8, 'e' as u8]);
    assert(t[52].1 =~= seq!['A' as u8, 's' as u8, 'i' as u8, 'a' as u8, '/' as u8, 'S' as u8, 'i' as u8, 'n' as u8, 'g' as u8, 'a' as u8, 'p' as u8, 'o' as u8, 'r' as u8, 'e' as u8]);
}

proof fn lemma_alias_bangkok()
    ensures
        alias_lookup(alias_table(), seq!['b' as u8, 'a' as u8, 'n' as u8, 'g' as u8, 'k' as u8, 'o' as u8, 'k' as u8]) == Some(seq!['A' as u8, 's' as u8, 'i' as u8, 'a' as u8, '/' as u8, 'B' as u8, 'a' as u8, 'n' as u8, 'g' as u8, 'k' as u8, 'o' as u8, 'k' as u8]),
{
    let t = alias_table();
    lemma_alias_entry(7);
    assert(t[7].0 =~= seq!['b' as u8, 'a' as u8, 'n' as u8, 'g' as u8, 'k' as u8, 'o' as u8, 'k' as u8]);
    assert(t[7].1 =~= seq!['A' as u8, 's' as u8, 'i' as u8, 'a' as u8, '/' as u8, 'B' as u8, 'a' as u8, 'n' as u8, 'g' as u8, 'k' as u8, 'o' as u8, 'k' as u8]);
}

proof fn lemma_alias_dubai()
    ensures
        alias_lookup(alias_table(), seq!['d' as u8, 'u' as u8, 'b' as u8, 'a' as u8, 'i' as u8]) == Some(seq!['A' as u8, 's' as u8, 'i' as u8, 'a' as u8, '/' as u8, 'D' as u8, 'u' as u8, 'b' as u8, 'a' as u8, 'i' as u8]),
{
    let t = alias_table();
    lemma_alias_entry(19);
    assert(t[19].0 =~= seq!['d' as u8, 'u' as u8, 'b' as u8, 'a' as u8, 'i' as u8]);
    assert(t[19].1 =~= seq!['A' as u8, 's' as u8, 'i' as u8, 'a' as u8, '/' as u8, 'D' as u8, 'u' as u8, 'b' as u8, 'a' as u8, 'i' as u8]);
}

proof fn lemma_alias_sydney()
    ensures
        alias_lookup(alias_table(), seq!['a' as u8, 'e' as u8, 's' as u8, 't' as u8]) == Some(seq!['A' as u8, 'u' as u8, 's' as u8, 't' as u8, 'r' as u8, 'a' as u8, 'l' as u8, 'i' as u8, 'a' as u8, '/' as u8, 'S' as u8, 'y' as u8, 'd' as u8, 'n' as u8, 'e' as u8, 'y' as u8]),
        alias_lookup(alias_table(), seq!['a' as u8, 'e' as u8, 'd' as u8, 't' as u8]) == Some(seq!['A' as u8, 'u' as u8, 's' as u8, 't' as u8, 'r' as u8, 'a' as u8, 'l' as u8, 'i' as u8, 'a' as u8, '/' as u8, 'S' as u8, 'y' as u8, 'd' as u8, 'n' as u8, 'e' as u8, 'y' as u8]),
        alias_lookup(alias_table(), seq!['s' as u8, 'y' as u8, 'd' as u8, 'n' as u8, 'e' as u8, 'y' as u8]) == Some(seq!['A' as u8, 'u' as u8, 's' as u8, 't' as u8, 'r' as u8, 'a' as u8, 'l' as u8, 'i' as u8, 'a' as u8, '/' as u8, 'S' as u8, 'y' as u8, 'd' as u8, 'n' as u8, 'e' as u8, 'y' as u8]),
{
    let t = alias_table();
    lemma_alias_entry(1);
    assert(t[1].0 =~= seq!['a' as u8, 'e' as u8, 's' as u8, 't' as u8]);
    assert(t[1].1 =~= seq!['A' as u8, 'u' as u8, 's' as u8, 't' as u8, 'r' as u8, 'a' as u8, 'l' as u8, 'i' as u8, 'a' as u8, '/' as u8, 'S' as u8, 'y' as u8, 'd' as u8, 'n' as u8, 'e' as u8, 'y' as u8]);
    lemma_alias_entry(0);
    assert(t[0].0 =~= seq!['a' as u8, 'e' as u8, 'd' as u8, 't' as u8]);
    assert(t[0].1 =~= seq!['A' as u8, 'u' as u8, 's' as u8, 't' as u8, 'r' as u8, 'a' as u8, 'l' as u8, 'i' as u8, 'a' as u8, '/' as u8, 'S' as u8, 'y' as u8, 'd' as u8, 'n' as u8, 'e' as u8, 'y' as u8]);
    lemma_alias_entry(53);
    assert(t[53].0 =~= seq!['s' as u8, 'y' as u8, 'd' as u8, 'n' as u8, 'e' as u8, 'y' as u8]);
    assert(t[53].1 =~= seq!['A' as u8, 'u' as u8, 's' as u8, 't' as u8, 'r' as u8, 'a' as u8, 'l' as u8, 'i' as u8, 'a' as u8, '/' as u8, 'S' as u8, 'y' as u8, 'd' as u8, 'n' as u8, 'e' as u8, 'y' as u8]);
}

proof fn lemma_alias_auckland()
    ensures
        alias_lookup(alias_table(), seq!['n' as u8, 'z' as u8, 's' as u8, 't' as u8]) == Some(seq!['P' as u8, 'a' as u8, 'c' as u8, 'i' as u8, 'f' as u8, 'i' as u8, 'c' as u8, '/' as u8, 'A' as u8, 'u' as u8, 'c' as u8, 'k' as u8, 'l' as u8, 'a' as u8, 'n' as u8, 'd' as u8]),
        alias_lookup(alias_table(), seq!['n' as u8, 'z' as u8, 'd' as u8, 't' as u8]) == Some(seq!['P' as u8, 'a' as u8, 'c' as u8, 'i' as u8, 'f' as u8, 'i' as u8, 'c' as u8, '/' as u8, 'A' as u8, 'u' as u8, 'c' as u8, 'k' as u8, 'l' as u8, 'a' as u8, 'n' as u8, 'd' as u8]),
        alias_lookup(alias_table(), seq!['a' as u8, 'u' as u8, 'c' as u8, 'k' as u8, 'l' as u8, 'a' as u8, 'n' as u8, 'd' as u8]) == Some(seq!['P' as u8, 'a' as u8, 'c' as u8, 'i' as u8, 'f' as u8, 'i' as u8, 'c' as u8, '/' as u8, 'A' as u8, 'u' as u8, 'c' as u8, 'k' as u8, 'l' as u8, 'a' as u8, 'n' as u8, 'd' as u8]),
{
    let t = alias_table();
    lemma_alias_entry(44);
    assert(t[44].0 =~= seq!['n' as u8, 'z' as u8, 's' as u8, 't' as u8]);
    assert(t[44].1 =~= seq!['P' as u8, 'a' as u8, 'c' as u8, 'i' as u8, 'f' as u8, 'i' as u8, 'c' as u8, '/' as u8, 'A' as u8, 'u' as u8, 'c' as u8, 'k' as u8, 'l' as u8, 'a' as u8, 'n' as u8, 'd' as u8]);
    lemma_alias_entry(43);
    assert(t[43].0 =~= seq!['n' as u8, 'z' as u8, 'd' as u8, 't' as u8]);
    assert(t[43].1 =~= seq!['P' as u8, 'a' as u8, 'c' as u8, 'i' as u8, 'f' as u8, 'i' as u8, 'c' as u8, '/' as u8, 'A' as u8, 'u' as u8, 'c' as u8, 'k' as u8, 'l' as u8, 'a' as u8, 'n' as u8, 'd' as u8]);
    lemma_alias_entry(6);
    assert(t[6].0 =~= seq!['a' as u8, 'u' as u8, 'c' as u8, 'k' as u8, 'l' as u8, 'a' as u8, 'n' as u8, 'd' as u8]);
    assert(t[6].1 =~= seq!['P' as u8, 'a' as u8, 'c' as u8, 'i' as u8, 'f' as u8, 'i' as u8, 'c' as u8, '/' as u8, 'A' as u8, 'u' as u8, 'c' as u8, 'k' as u8, 'l' as u8, 'a' as u8, 'n' as u8, 'd' as u8]);
}

/// Every key of the alias table with the name listed beside it.
pub(crate) proof fn lemma_alias_names()
    ensures
        alias_lookup(alias_table(), seq!['p' as u8, 'a' as u8, 'c' as u8, 'i' as u8, 'f' as u8, 'i' as u8, 'c' as u8]) == Some(seq!['A' as u8, 'm' as u8, 'e' as u8, 'r' as u8, 'i' as u8, 'c' as u8, 'a' as u8, '/' as u8, 'L' as u8, 'o' as u8, 's' as u8, '_' as u8, 'A' as u8, 'n' as u8, 'g' as u8, 'e' as u8, 'l' as u8, 'e' as u8, 's' as u8]),
        alias_lookup(alias_table(), seq!['p' as u8, 's' as u8, 't' as u8]) == Some(seq!['A' as u8, 'm' as u8, 'e' as u8, 'r' as u8, 'i' as u8, 'c' as u8, 'a' as u8, '/' as u8, 'L' as u8, 'o' as u8, 's' as u8, '_' as u8, 'A' as u8, 'n' as u8, 'g' as u8, 'e' as u8, 'l' as u8, 'e' as u8, 's' as u8]),
        alias_lookup(alias_table(), seq!['p' as u8, 'd' as u8, 't' as u8]) == Some(seq!['A' as u8, 'm' as u8, 'e' as u8, 'r' as u8, 'i' as u8, 'c' as u8, 'a' as u8, '/' as u8, 'L' as u8, 'o' as u8, 's' as u8, '_' as u8, 'A' as u8, 'n' as u8, 'g' as u8, 'e' as u8, 'l' as u8, 'e' as u8, 's' as u8]),
        alias_lookup(alias_table(), seq!['p' as u8, 't' as u8]) == Some(seq!['A' as u8, 'm' as u8, 'e' as u8, 'r' as u8, 'i' as u8, 'c' as u8, 'a' as u8, '/' as u8, 'L' as u8, 'o' as u8, 's' as u8, '_' as u8, 'A' as u8, 'n' as u8, 'g' as u8, 'e' as u8, 'l' as u8, 'e' as u8, 's' as u8]),
        alias_lookup(alias_table(), seq!['l' as u8, 'a' as u8]) == Some(seq!['A' as u8, 'm' as u8, 'e' as u8, 'r' as u8, 'i' as u8, 'c' as u8, 'a' as u8, '/' as u8, 'L' as u8, 'o' as u8, 's' as u8, '_' as u8, 'A' as u8, 'n' as u8, 'g' as u8, 'e' as u8, 'l' as u8, 'e' as u8, 's' as u8]),
        alias_lookup(alias_table(), seq!['s' as u8, 'f' as u8]) == Some(seq!['A' as u8, 'm' as u8, 'e' as u8, 'r' as u8, 'i' as u8, 'c' as u8, 'a' as u8, '/' as u8, 'L' as u8, 'o' as u8, 's' as u8, '_' as u8, 'A' as u8, 'n' as u8, 'g' as u8, 'e' as u8, 'l' as u8, 'e' as u8, 's' as u8]),
        alias_lookup(alias_table(), seq!['l' as u8, 'o' as u8, 's' as u8, '_' as u8, 'a' as u8, 'n' as u8, 'g' as u8, 'e' as u8, 'l' as u8, 'e' as u8, 's' as u8]) == Some(seq!['A' as u8, 'm' as u8, 'e' as u8, 'r' as u8, 'i' as u8, 'c' as u8, 'a' as u8, '/' as u8, 'L' as u8, 'o' as u8, 's' as u8, '_' as u8, 'A' as u8, 'n' as u8, 'g' as u8, 'e' as u8, 'l' as u8, 'e' as u8, 's' as u8]),
        alias_lookup(alias_table(), seq!['m' as u8, 'o' as u8, 'u' as u8, 'n' as u8, 't' as u8, 'a' as u8, 'i' as u8, 'n' as u8]) == Some(seq!['A' as u8, 'm' as u8, 'e' as u8, 'r' as u8, 'i' as u8, 'c' as u8, 'a' as u8, '/' as u8, 'D' as u8, 'e' as u8, 'n' as u8, 'v' as u8, 'e' as u8, 'r' as u8]),
        alias_lookup(alias_table(), seq!['m' as u8, 's' as u8, 't' as u8]) == Some(seq!['A' as u8, 'm' as u8, 'e' as u8, 'r' as u8, 'i' as u8, 'c' as u8, 'a' as u8, '/' as u8, 'D' as u8, 'e' as u8, 'n' as u8, 'v' as u8, 'e' as u8, 'r' as u8]),
        alias_lookup(alias_table(), seq!['m' as u8, 'd' as u8, 't' as u8]) == Some(seq!['A' as u8, 'm' as u8, 'e' as u8, 'r' as u8, 'i' as u8, 'c' as u8, 'a' as u8, '/' as u8, 'D' as u8, 'e' as u8, 'n' as u8, 'v' as u8, 'e' as u8, 'r' as u8]),
        alias_lookup(alias_table(), seq!['m' as u8, 't' as u8]) == Some(seq!['A' as u8, 'm' as u8, 'e' as u8, 'r' as u8, 'i' as u8, 'c' as u8, 'a' as u8, '/' as u8, 'D' as u8, 'e' as u8, 'n' as u8, 'v' as u8, 'e' as u8, 'r' as u8]),
        alias_lookup(alias_table(), seq!['d' as u8, 'e' as u8, 'n' as u8, 'v' as u8, 'e' as u8, 'r' as u8]) == Some(seq!['A' as u8, 'm' as u8, 'e' as u8, 'r' as u8, 'i' as u8, 'c' as u8, 'a' as u8, '/' as u8, 'D' as u8, 'e' as u8, 'n' as u8, 'v' as u8, 'e' as u8, 'r' as u8]),
        alias_lookup(alias_table(), seq!['c' as u8, 'e' as u8, 'n' as u8, 't' as u8, 'r' as u8, 'a' as u8, 'l' as u8]) == Some(seq!['A' as u8, 'm' as u8, 'e' as u8, 'r' as u8, 'i' as u8, 'c' as u8, 'a' as u8, '/' as u8, 'C' as u8, 'h' as u8, 'i' as u8, 'c' as u8, 'a' as u8, 'g' as u8, 'o' as u8]),
        alias_lookup(alias_table(), seq!['c' as u8, 's' as u8, 't' as u8]) == Some(seq!['A' as u8, 'm' as u8, 'e' as u8, 'r' as u8, 'i' as u8, 'c' as u8, 'a' as u8, '/' as u8, 'C' as u8, 'h' as u8, 'i' as u8, 'c' as u8, 'a' as u8, 'g' as u8, 'o' as u8]),
        alias_lookup(alias_table(), seq!['c' as u8, 'd' as u8, 't' as u8]) == Some(seq!['A' as u8, 'm' as u8, 'e' as u8, 'r' as u8, 'i' as u8, 'c' as u8, 'a' as u8, '/' as u8, 'C' as u8, 'h' as u8, 'i' as u8, 'c' as u8, 'a' as u8, 'g' as u8, 'o' as u8]),
        alias_lookup(alias_table(), seq!['c' as u8, 't' as u8]) == Some(seq!['A' as u8, 'm' as u8, 'e' as u8, 'r' as u8, 'i' as u8, 'c' as u8, 'a' as u8, '/' as u8, 'C' as u8, 'h' as u8, 'i' as u8, 'c' as u8, 'a' as u8, 'g' as u8, 'o' as u8]),
        alias_lookup(alias_table(), seq!['c' as u8, 'h' as u8, 'i' as u8, 'c' as u8, 'a' as u8, 'g' as u8, 'o' as u8]) == Some(seq!['A' as u8, 'm' as u8, 'e' as u8, 'r' as u8, 'i' as u8, 'c' as u8, 'a' as u8, '/' as u8, 'C' as u8, 'h' as u8, 'i' as u8, 'c' as u8, 'a' as u8, 'g' as u8, 'o' as u8]),
        alias_lookup(alias_table(), seq!['e' as u8, 'a' as u8, 's' as u8, 't' as u8, 'e' as u8, 'r' as u8, 'n' as u8]) == Some(seq!['A' as u8, 'm' as u8, 'e' as u8, 'r' as u8, 'i' as u8, 'c' as u8, 'a' as u8, '/' as u8, 'N' as u8, 'e' as u8, 'w' as u8, '_' as u8, 'Y' as u8, 'o' as u8, 'r' as u8, 'k' as u8]),
        alias_lookup(alias_table(), seq!['e' as u8, 's' as u8, 't' as u8]) == Some(seq!['A' as u8, 'm' as u8, 'e' as u8, 'r' as u8, 'i' as u8, 'c' as u8, 'a' as u8, '/' as u8, 'N' as u8, 'e' as u8, 'w' as u8, '_' as u8, 'Y' as u8, 'o' as u8, 'r' as u8, 'k' as u8]),
        alias_lookup(alias_table(), seq!['e' as u8, 'd' as u8, 't' as u8]) == Some(seq!['A' as u8, 'm' as u8, 'e' as u8, 'r' as u8, 'i' as u8, 'c' as u8, 'a' as u8, '/' as u8, 'N' as u8, 'e' as u8, 'w' as u8, '_' as u8, 'Y' as u8, 'o' as u8, 'r' as u8, 'k' as u8]),
        alias_lookup(alias_table(), seq!['e' as u8, 't' as u8]) == Some(seq!['A' as u8, 'm' as u8, 'e' as u8, 'r' as u8, 'i' as u8, 'c' as u8, 'a' as u8, '/' as u8, 'N' as u8, 'e' as u8, 'w' as u8, '_' as u8, 'Y' as u8, 'o' as u8, 'r' as u8, 'k' as u8]),
        alias_lookup(alias_table(), seq!['n' as u8, 'y' as u8, 'c' as u8]) == Some(seq!['A' as u8, 'm' as u8, 'e' as u8, 'r' as u8, 'i' as u8, 'c' as u8, 'a' as u8, '/' as u8, 'N' as u8, 'e' as u8, 'w' as u8, '_' as u8, 'Y' as u8, 'o' as u8, 'r' as u8, 'k' as u8]),
        alias_lookup(alias_table(), seq!['n' as u8, 'e' as u8, 'w' as u8, '_' as u8, 'y' as u8, 'o' as u8, 'r' as u8, 'k' as u8]) == Some(seq!['A' as u8, 'm' as u8, 'e' as u8, 'r' as u8, 'i' as u8, 'c' as u8, 'a' as u8, '/' as u8, 'N' as u8, 'e' as u8, 'w' as u8, '_' as u8, 'Y' as u8, 'o' as u8, 'r' as u8, 'k' as u8]),
        alias_lookup(alias_table(), seq!['a' as u8, 'l' as u8, 'a' as u8, 's' as u8, 'k' as u8, 'a' as u8]) == Some(seq!['A' as u8, 'm' as u8, 'e' as u8, 'r' as u8, 'i' as u8, 'c' as u8, 'a' as u8, '/' as u8, 'A' as u8, 'n' as u8, 'c' as u8, 'h' as u8, 'o' as u8, 'r' as u8, 'a' as u8, 'g' as u8, 'e' as u8]),
        alias_lookup(alias_table(), seq!['a' as u8, 'k' as u8, 's' as u8, 't' as u8]) == Some(seq!['A' as u8, 'm' as u8, 'e' as u8, 'r' as u8, 'i' as u8, 'c' as u8, 'a' as u8, '/' as u8, 'A' as u8, 'n' as u8, 'c' as u8, 'h' as u8, 'o' as u8, 'r' as u8, 'a' as u8, 'g' as u8, 'e' as u8]),
        alias_lookup(alias_table(), seq!['a' as u8, 'k' as u8, 'd' as u8, 't' as u8]) == Some(seq!['A' as u8, 'm' as u8, 'e' as u8, 'r' as u8, 'i' as u8, 'c' as u8, 'a' as u8, '/' as u8, 'A' as u8, 'n' as u8, 'c' as u8, 'h' as u8, 'o' as u8, 'r' as u8, 'a' as u8, 'g' as u8, 'e' as u8]),
        alias_lookup(alias_table(), seq!['h' as u8, 'a' as u8, 'w' as u8, 'a' as u8, 'i' as u8, 'i' as u8]) == Some(seq!['P' as u8, 'a' as u8, 'c' as u8, 'i' as u8, 'f' as u8, 'i' as u8, 'c' as u8, '/' as u8, 'H' as u8, 'o' as u8, 'n' as u8, 'o' as u8, 'l' as u8, 'u' as u8, 'l' as u8, 'u' as u8]),
        alias_lookup(alias_table(), seq!['h' as u8, 's' as u8, 't' as u8]) == Some(seq!['P' as u8, 'a' as u8, 'c' as u8, 'i' as u8, 'f' as u8, 'i' as u8, 'c' as u8, '/' as u8, 'H' as u8, 'o' as u8, 'n' as u8, 'o' as u8, 'l' as u8, 'u' as u8, 'l' as u8, 'u' as u8]),
        alias_lookup(alias_table(), seq!['h' as u8, 'o' as u8, 'n' as u8, 'o' as u8, 'l' as u8, 'u' as u8, 'l' as u8, 'u' as u8]) == Some(seq!['P' as u8, 'a' as u8, 'c' as u8, 'i' as u8, 'f' as u8, 'i' as u8, 'c' as u8, '/' as u8, 'H' as u8, 'o' as u8, 'n' as u8, 'o' as u8, 'l' as u8, 'u' as u8, 'l' as u8, 'u' as u8]),
        alias_lookup(alias_table(), seq!['t' as u8, 'o' as u8, 'r' as u8, 'o' as u8, 'n' as u8, 't' as u8, 'o' as u8]) == Some(seq!['A' as u8, 'm' as u8, 'e' as u8, 'r' as u8, 'i' as u8, 'c' as u8, 'a' as u8, '/' as u8, 'T' as u8, 'o' as u8, 'r' as u8, 'o' as u8, 'n' as u8, 't' as u8, 'o' as u8]),
        alias_lookup(alias_table(), seq!['u' as u8, 't' as u8, 'c' as u8]) == Some(seq!['U' as u8, 'T' as u8, 'C' as u8]),
        alias_lookup(alias_table(), seq!['u' as u8, 't' as u8]) == Some(seq!['U' as u8, 'T' as u8, 'C' as u8]),
        alias_lookup(alias_table(), seq!['z' as u8]) == Some(seq!['U' as u8, 'T' as u8, 'C' as u8]),
        alias_lookup(alias_table(), seq!['g' as u8, 'm' as u8, 't' as u8]) == Some(seq!['U' as u8, 'T' as u8, 'C' as u8]),
        alias_lookup(alias_table(), seq!['b' as u8, 's' as u8, 't' as u8]) == Some(seq!['E' as u8, 'u' as u8, 'r' as u8, 'o' as u8, 'p' as u8, 'e' as u8, '/' as u8, 'L' as u8, 'o' as u8, 'n' as u8, 'd' as u8, 'o' as u8, 'n' as u8]),
        alias_lookup(alias_table(), seq!['l' as u8, 'o' as u8, 'n' as u8, 'd' as u8, 'o' as u8, 'n' as u8]) == Some(seq!['E' as u8, 'u' as u8, 'r' as u8, 'o' as u8, 'p' as u8, 'e' as u8, '/' as u8, 'L' as u8, 'o' as u8, 'n' as u8, 'd' as u8, 'o' as u8, 'n' as u8]),
        alias_lookup(alias_table(), seq!['c' as u8, 'e' as u8, 't' as u8]) == Some(seq!['E' as u8, 'u' as u8, 'r' as u8, 'o' as u8, 'p' as u8, 'e' as u8, '/' as u8, 'P' as u8, 'a' as u8, 'r' as u8, 'i' as u8, 's' as u8]),
        alias_lookup(alias_table(), seq!['c' as u8, 'e' as u8, 's' as u8, 't' as u8]) == Some(seq!['E' as u8, 'u' as u8, 'r' as u8, 'o' as u8, 'p' as u8, 'e' as u8, '/' as u8, 'P' as u8, 'a' as u8, 'r' as u8, 'i' as u8, 's' as u8]),
        alias_lookup(alias_table(), seq!['p' as u8, 'a' as u8, 'r' as u8, 'i' as u8, 's' as u8]) == Some(seq!['E' as u8, 'u' as u8, 'r' as u8, 'o' as u8, 'p' as u8, 'e' as u8, '/' as u8, 'P' as u8, 'a' as u8, 'r' as u8, 'i' as u8, 's' as u8]),
        alias_lookup(alias_table(), seq!['b' as u8, 'e' as u8, 'r' as u8, 'l' as u8, 'i' as u8, 'n' as u8]) == Some(seq!['E' as u8, 'u' as u8, 'r' as u8, 'o' as u8, 'p' as u8, 'e' as u8, '/' as u8, 'B' as u8, 'e' as u8, 'r' as u8, 'l' as u8, 'i' as u8, 'n' as u8]),
        alias_lookup(alias_table(), seq!['a' as u8, 'm' as u8, 's' as u8, 't' as u8, 'e' as u8, 'r' as u8, 'd' as u8, 'a' as u8, 'm' as u8]) == Some(seq!['E' as u8, 'u' as u8, 'r' as u8, 'o' as u8, 'p' as u8, 'e' as u8, '/' as u8, 'A' as u8, 'm' as u8, 's' as u8, 't' as u8, 'e' as u8, 'r' as u8, 'd' as u8, 'a' as u8, 'm' as u8]),
        alias_lookup(alias_table(), seq!['i' as u8, 's' as u8, 't' as u8]) == Some(seq!['A' as u8, 's' as u8, 'i' as u8, 'a' as u8, '/' as u8, 'K' as u8, 'o' as u8, 'l' as u8, 'k' as u8, 'a' as u8, 't' as u8, 'a' as u8]),
        alias_lookup(alias_table(), seq!['m' as u8, 'u' as u8, 'm' as u8, 'b' as u8, 'a' as u8, 'i' as u8]) == Some(seq!['A' as u8, 's' as u8, 'i' as u8, 'a' as u8, '/' as u8, 'K' as u8, 'o' as u8, 'l' as u8, 'k' as u8, 'a' as u8, 't' as u8, 'a' as u8]),
        alias_lookup(alias_table(), seq!['j' as u8, 's' as u8, 't' as u8]) == Some(seq!['A' as u8, 's' as u8, 'i' as u8, 'a' as u8, '/' as u8, 'T' as u8, 'o' as u8, 'k' as u8, 'y' as u8, 'o' as u8]),
        alias_lookup(alias_table(), seq!['t' as u8, 'o' as u8, 'k' as u8, 'y' as u8, 'o' as u8]) == Some(seq!['A' as u8, 's' as u8, 'i' as u8, 'a' as u8, '/' as u8, 'T' as u8, 'o' as u8, 'k' as u8, 'y' as u8, 'o' as u8]),
        alias_lookup(alias_table(), seq!['k' as u8, 's' as u8, 't' as u8]) == Some(seq!['A' as u8, 's' as u8, 'i' as u8, 'a' as u8, '/' as u8, 'S' as u8, 'e' as u8, 'o' as u8, 'u' as u8, 'l' as u8]),
        alias_lookup(alias_table(), seq!['s' as u8, 'e' as u8, 'o' as u8, 'u' as u8, 'l' as u8]) == Some(seq!['A' as u8, 's' as u8, 'i' as u8, 'a' as u8, '/' as u8, 'S' as u8, 'e' as u8, 'o' as u8, 'u' as u8, 'l' as u8]),
        alias_lookup(alias_table(), seq!['h' as u8, 'k' as u8, 't' as u8]) == Some(seq!['A' as u8, 's' as u8, 'i' as u8, 'a' as u8, '/' as u8, 'H' as u8, 'o' as u8, 'n' as u8, 'g' as u8, '_' as u8, 'K' as u8, 'o' as u8, 'n' as u8, 'g' as u8]),
        alias_lookup(alias_table(), seq!['h' as u8, 'o' as u8, 'n' as u8, 'g' as u8, '_' as u8, 'k' as u8, 'o' as u8, 'n' as u8, 'g' as u8]) == Some(seq!['A' as u8, 's' as u8, 'i' as u8, 'a' as u8, '/' as u8, 'H' as u8, 'o' as u8, 'n' as u8, 'g' as u8, '_' as u8, 'K' as u8, 'o' as u8, 'n' as u8, 'g' as u8]),
        alias_lookup(alias_table(), seq!['b' as u8, 'e' as u8, 'i' as u8, 'j' as u8, 'i' as u8, 'n' as u8, 'g' as u8]) == Some(seq!['A' as u8, 's' as u8, 'i' as u8, 'a' as u8, '/' as u8, 'S' as u8, 'h' as u8, 'a' as u8, 'n' as u8, 'g' as u8, 'h' as u8, 'a' as u8, 'i' as u8]),
        alias_lookup(alias_table(), seq!['s' as u8, 'i' as u8, 'n' as u8, 'g' as u8, 'a' as u8, 'p' as u8, 'o' as u8, 'r' as u8, 'e' as u8]) == Some(seq!['A' as u8, 's' as u8, 'i' as u8, 'a' as u8, '/' as u8, 'S' as u8, 'i' as u8, 'n' as u8, 'g' as u8, 'a' as u8, 'p' as u8, 'o' as u8, 'r' as u8, 'e' as u8]),
        alias_lookup(alias_table(), seq!['b' as u8, 'a' as u8, 'n' as u8, 'g' as u8, 'k' as u8, 'o' as u8, 'k' as u8]) == Some(seq!['A' as u8, 's' as u8, 'i' as u8, 'a' as u8, '/' as u8, 'B' as u8, 'a' as u8, 'n' as u8, 'g' as u8, 'k' as u8, 'o' as u8, 'k' as u8]),
        alias_lookup(alias_table(), seq!['d' as u8, 'u' as u8, 'b' as u8, 'a' as u8, 'i' as u8]) == Some(seq!['A' as u8, 's' as u8, 'i' as u8, 'a' as u8, '/' as u8, 'D' as u8, 'u' as u8, 'b' as u8, 'a' as u8, 'i' as u8]),
        alias_lookup(alias_table(), seq!['a' as u8, 'e' as u8, 's' as u8, 't' as u8]) == Some(seq!['A' as u8, 'u' as u8, 's' as u8, 't' as u8, 'r' as u8, 'a' as u8, 'l' as u8, 'i' as u8, 'a' as u8, '/' as u8, 'S' as u8, 'y' as u8, 'd' as u8, 'n' as u8, 'e' as u8, 'y' as u8]),
        alias_lookup(alias_table(), seq!['a' as u8, 'e' as u8, 'd' as u8, 't' as u8]) == Some(seq!['A' as u8, 'u' as u8, 's' as u8, 't' as u8, 'r' as u8, 'a' as u8, 'l' as u8, 'i' as u8, 'a' as u8, '/' as u8, 'S' as u8, 'y' as u8, 'd' as u8, 'n' as u8, 'e' as u8, 'y' as u8]),
        alias_lookup(alias_table(), seq!['s' as u8, 'y' as u8, 'd' as u8, 'n' as u8, 'e' as u8, 'y' as u8]) == Some(seq!['A' as u8, 'u' as u8, 's' as u8, 't' as u8, 'r' as u8, 'a' as u8, 'l' as u8, 'i' as u8, 'a' as u8, '/' as u8, 'S' as u8, 'y' as u8, 'd' as u8, 'n' as u8, 'e' as u8, 'y' as u8]),
        alias_lookup(alias_table(), seq!['n' as u8, 'z' as u8, 's' as u8, 't' as u8]) == Some(seq!['P' as u8, 'a' as u8, 'c' as u8, 'i' as u8, 'f' as u8, 'i' as u8, 'c' as u8, '/' as u8, 'A' as u8, 'u' as u8, 'c' as u8, 'k' as u8, 'l' as u8, 'a' as u8, 'n' as u8, 'd' as u8]),
        alias_lookup(alias_table(), seq!['n' as u8, 'z' as u8, 'd' as u8, 't' as u8]) == Some(seq!['P' as u8, 'a' as u8, 'c' as u8, 'i' as u8, 'f' as u8, 'i' as u8, 'c' as u8, '/' as u8, 'A' as u8, 'u' as u8, 'c' as u8, 'k' as u8, 'l' as u8, 'a' as u8, 'n' as u8, 'd' as u8]),
        alias_lookup(alias_table(), seq!['a' as u8, 'u' as u8, 'c' as u8, 'k' as u8, 'l' as u8, 'a' as u8, 'n' as u8, 'd' as u8]) == Some(seq!['P' as u8, 'a' as u8, 'c' as u8, 'i' as u8, 'f' as u8, 'i' as u8, 'c' as u8, '/' as u8, 'A' as u8, 'u' as u8, 'c' as u8, 'k' as u8, 'l' as u8, 'a' as u8, 'n' as u8, 'd' as u8]),
{
    lemma_alias_los_angeles();
    lemma_alias_denver();
    lemma_alias_chicago();
    lemma_alias_new_york();
    lemma_alias_anchorage();
    lemma_alias_honolulu();
    lemma_alias_toronto();
    lemma_alias_utc();
    lemma_alias_london();
    lemma_alias_paris();
    lemma_alias_berlin();
    lemma_alias_amsterdam();
    lemma_alias_kolkata();
    lemma_alias_tokyo();
    lemma_alias_seoul();
    lemma_alias_hong_kong();
    lemma_alias_shanghai();
    lemma_alias_singapore();
    lemma_alias_bangkok();
    lemma_alias_dubai();
    lemma_alias_sydney();
    lemma_alias_auckland();
}

/// The name `key` stands for in the alias table, if any.
pub fn find_alias(key: &[u8]) -> (r: Option<Vec<u8>>)
    ensures
        match alias_lookup(alias_table(), key@) {
            Some(name) => r is Some && r->0@ == name,
            None => r is None,
        },
{
    let tbl = alias_vec();
    assert(alias_table().subrange(0, alias_table().len() as int) =~= alias_table());
    let mut k: usize = 0;
    while k < tbl.len()
        invariant
            k <= tbl@.len() == alias_table().len(),
            forall|j: int|
                0 <= j < tbl@.len() ==> (#[trigger] tbl@[j]).0@ == alias_table()[j].0 && tbl@[j].1@
                    == alias_table()[j].1,
            alias_lookup(alias_table(), key@) == alias_lookup(
                alias_table().subrange(k as int, alias_table().len() as int),
                key@,
            ),
        decreases tbl.len() - k,
    {
        let ghost rest = alias_table().subrange(k as int, alias_table().len() as int);
        assert(rest[0] == alias_table()[k as int]);
        assert(rest.drop_first() =~= alias_table().subrange(k + 1, alias_table().len() as int));
        if bytes_eq(tbl[k].0.as_slice(), key) {
            return Some(tbl[k].1.clone());
        }
        k += 1;
    }
    None
}


} // verus!
