//! The words the grammar reads without regard to case: units of time that
//! make a clock a duration, the words that join a range or a list, and the
//! month names that make a number a day of the month.
//!
//! Without case, a letter also matches the characters that fold to it: `s`
//! matches `ſ` (U+017F) and `k` matches the Kelvin sign (U+212A).

use vstd::prelude::*;
use crate::scan::as_int;
use crate::text::{bat, bnd, bnd_at, byte, is_blank, lower_byte, to_lower};

verus! {

/// One letter `c`, given in lowercase, without case, at `p`.
pub open spec fn ci_at(s: Seq<u8>, p: int, c: u8) -> Option<int> {
    if to_lower(byte(s, p)) == c {
        Some(p + 1)
    } else if c == 's' as u8 && byte(s, p) == 0xC5 && byte(s, p + 1) == 0xBF {
        Some(p + 2)
    } else if c == 'k' as u8 && byte(s, p) == 0xE2 && byte(s, p + 1) == 0x84 && byte(s, p + 2) == 0xAA {
        Some(p + 3)
    } else {
        None
    }
}

/// The word `w`, given in lowercase, without case, at `p`.
pub open spec fn ci_word(s: Seq<u8>, p: int, w: Seq<u8>) -> Option<int>
    decreases w.len(),
{
    if w.len() == 0 {
        Some(p)
    } else {
        match ci_at(s, p, w[0]) {
            Some(q) => ci_word(s, q, w.drop_first()),
            None => None,
        }
    }
}

/// Lowercase ASCII letters only, as every word of this module is.
pub open spec fn lower_word(w: Seq<u8>) -> bool {
    forall|k: int| 0 <= k < w.len() ==> 'a' as u8 <= #[trigger] w[k] <= 'z' as u8
}

fn ci_at_exec(s: &[u8], p: usize, c: u8) -> (r: Option<usize>)
    requires
        'a' as u8 <= c <= 'z' as u8,
    ensures
        as_int(r) == ci_at(s@, p as int, c),
        r matches Some(e) ==> p < e <= s.len(),
{
    let b0 = bat(s, p, 0);
    if lower_byte(b0) == c {
        Some(p + 1)
    } else if c == 's' as u8 && b0 == 0xC5 && bat(s, p, 1) == 0xBF {
        Some(p + 2)
    } else if c == 'k' as u8 && b0 == 0xE2 && bat(s, p, 1) == 0x84 && bat(s, p, 2) == 0xAA {
        Some(p + 3)
    } else {
        None
    }
}

pub fn ci_word_at(s: &[u8], p: usize, w: &[u8]) -> (r: Option<usize>)
    requires
        lower_word(w@),
    ensures
        as_int(r) == ci_word(s@, p as int, w@),
        r matches Some(e) ==> p <= e <= s.len() || w@.len() == 0,
{
    let mut q = p;
    let mut j: usize = 0;
    assert(w@.subrange(0, w@.len() as int) =~= w@);
    while j < w.len()
        invariant
            j <= w.len(),
            lower_word(w@),
            ci_word(s@, p as int, w@) == ci_word(s@, q as int, w@.subrange(j as int, w@.len() as int)),
            p <= q,
            j > 0 ==> q <= s.len(),
        decreases w.len() - j,
    {
        let ghost rest = w@.subrange(j as int, w@.len() as int);
        assert(rest[0] == w@[j as int]);
        assert(rest.drop_first() =~= w@.subrange(j + 1, w@.len() as int));
        match ci_at_exec(s, q, w[j]) {
            Some(e) => {
                q = e;
            },
            None => {
                return None;
            },
        }
        j += 1;
    }
    assert(w@.subrange(j as int, w@.len() as int) =~= Seq::<u8>::empty());
    Some(q)
}

/// The end of the run of `[ \t]` starting at `p`.
pub open spec fn blank_end(s: Seq<u8>, p: int) -> int
    decreases s.len() - p,
{
    if 0 <= p < s.len() && is_blank(s[p]) {
        blank_end(s, p + 1)
    } else {
        p
    }
}

pub fn blank_end_at(s: &[u8], p: usize) -> (r: usize)
    requires
        p <= s.len(),
    ensures
        r == blank_end(s@, p as int),
        p <= r <= s.len(),
{
    let mut q = p;
    while q < s.len() && (s[q] == ' ' as u8 || s[q] == '\t' as u8)
        invariant
            p <= q <= s.len(),
            blank_end(s@, q as int) == blank_end(s@, p as int),
        decreases s.len() - q,
    {
        q += 1;
    }
    q
}

/// A word from a table, ending at a word boundary, at `p`.
pub open spec fn ci_word_b(s: Seq<u8>, p: int, w: Seq<u8>) -> bool {
    match ci_word(s, p, w) {
        Some(e) => bnd(s, e),
        None => false,
    }
}

/// A word from a table, followed by nothing but blanks, at `p`.
pub open spec fn ci_word_last(s: Seq<u8>, p: int, w: Seq<u8>) -> bool {
    match ci_word(s, p, w) {
        Some(e) => 0 <= e <= s.len() && blank_end(s, e) == s.len(),
        None => false,
    }
}

/// Units of time spelled out enough not to be a word of their own:
/// `secs?|seconds?|mins?|minutes?|hrs?|hours?`.
pub open spec fn units() -> Seq<Seq<u8>> {
    seq![
        seq!['s' as u8, 'e' as u8, 'c' as u8],
        seq!['s' as u8, 'e' as u8, 'c' as u8, 's' as u8],
        seq!['s' as u8, 'e' as u8, 'c' as u8, 'o' as u8, 'n' as u8, 'd' as u8],
        seq!['s' as u8, 'e' as u8, 'c' as u8, 'o' as u8, 'n' as u8, 'd' as u8, 's' as u8],
        seq!['m' as u8, 'i' as u8, 'n' as u8],
        seq!['m' as u8, 'i' as u8, 'n' as u8, 's' as u8],
        seq!['m' as u8, 'i' as u8, 'n' as u8, 'u' as u8, 't' as u8, 'e' as u8],
        seq!['m' as u8, 'i' as u8, 'n' as u8, 'u' as u8, 't' as u8, 'e' as u8, 's' as u8],
        seq!['h' as u8, 'r' as u8],
        seq!['h' as u8, 'r' as u8, 's' as u8],
        seq!['h' as u8, 'o' as u8, 'u' as u8, 'r' as u8],
        seq!['h' as u8, 'o' as u8, 'u' as u8, 'r' as u8, 's' as u8],
    ]
}

/// The words that join the ends of a range: `to|until|till|through|thru`.
pub open spec fn range_words() -> Seq<Seq<u8>> {
    seq![
        seq!['t' as u8, 'o' as u8],
        seq!['u' as u8, 'n' as u8, 't' as u8, 'i' as u8, 'l' as u8],
        seq!['t' as u8, 'i' as u8, 'l' as u8, 'l' as u8],
        seq!['t' as u8, 'h' as u8, 'r' as u8, 'o' as u8, 'u' as u8, 'g' as u8, 'h' as u8],
        seq!['t' as u8, 'h' as u8, 'r' as u8, 'u' as u8],
    ]
}

/// The words that join the items of a list: `or|and`.
pub open spec fn list_words() -> Seq<Seq<u8>> {
    seq![seq!['o' as u8, 'r' as u8], seq!['a' as u8, 'n' as u8, 'd' as u8]]
}

/// The months, as `after_month` reads them without case.
pub open spec fn month_words() -> Seq<Seq<u8>> {
    seq![
        seq!['j' as u8, 'a' as u8, 'n' as u8],
        seq!['f' as u8, 'e' as u8, 'b' as u8],
        seq!['m' as u8, 'a' as u8, 'r' as u8],
        seq!['a' as u8, 'p' as u8, 'r' as u8],
        seq!['m' as u8, 'a' as u8, 'y' as u8],
        seq!['j' as u8, 'u' as u8, 'n' as u8],
        seq!['j' as u8, 'u' as u8, 'l' as u8],
        seq!['a' as u8, 'u' as u8, 'g' as u8],
        seq!['s' as u8, 'e' as u8, 'p' as u8],
        seq!['o' as u8, 'c' as u8, 't' as u8],
        seq!['n' as u8, 'o' as u8, 'v' as u8],
        seq!['d' as u8, 'e' as u8, 'c' as u8],
    ]
}

/// The table `tbl` as executable words.
pub open spec fn table_is(v: Seq<Vec<u8>>, tbl: Seq<Seq<u8>>) -> bool {
    &&& v.len() == tbl.len()
    &&& forall|k: int| 0 <= k < v.len() ==> (#[trigger] v[k])@ == tbl[k]
    &&& forall|k: int| 0 <= k < tbl.len() ==> lower_word(#[trigger] tbl[k])
}

fn word_vec(tbl: Ghost<Seq<Seq<u8>>>, v: Vec<Vec<u8>>) -> (r: Vec<Vec<u8>>)
    requires
        v@.len() == tbl@.len(),
        forall|k: int| 0 <= k < v@.len() ==> (#[trigger] v@[k])@ =~= tbl@[k],
        forall|k: int| 0 <= k < tbl@.len() ==> lower_word(#[trigger] tbl@[k]),
    ensures
        table_is(r@, tbl@),
{
    v
}

pub fn unit_table() -> (r: Vec<Vec<u8>>)
    ensures
        table_is(r@, units()),
{
    let v = vec![
        vec!['s' as u8, 'e' as u8, 'c' as u8],
        vec!['s' as u8, 'e' as u8, 'c' as u8, 's' as u8],
        vec!['s' as u8, 'e' as u8, 'c' as u8, 'o' as u8, 'n' as u8, 'd' as u8],
        vec!['s' as u8, 'e' as u8, 'c' as u8, 'o' as u8, 'n' as u8, 'd' as u8, 's' as u8],
        vec!['m' as u8, 'i' as u8, 'n' as u8],
        vec!['m' as u8, 'i' as u8, 'n' as u8, 's' as u8],
        vec!['m' as u8, 'i' as u8, 'n' as u8, 'u' as u8, 't' as u8, 'e' as u8],
        vec!['m' as u8, 'i' as u8, 'n' as u8, 'u' as u8, 't' as u8, 'e' as u8, 's' as u8],
        vec!['h' as u8, 'r' as u8],
        vec!['h' as u8, 'r' as u8, 's' as u8],
        vec!['h' as u8, 'o' as u8, 'u' as u8, 'r' as u8],
        vec!['h' as u8, 'o' as u8, 'u' as u8, 'r' as u8, 's' as u8],
    ];
    word_vec(Ghost(units()), v)
}

pub fn range_word_table() -> (r: Vec<Vec<u8>>)
    ensures
        table_is(r@, range_words()),
{
    let v = vec![
        vec!['t' as u8, 'o' as u8],
        vec!['u' as u8, 'n' as u8, 't' as u8, 'i' as u8, 'l' as u8],
        vec!['t' as u8, 'i' as u8, 'l' as u8, 'l' as u8],
        vec!['t' as u8, 'h' as u8, 'r' as u8, 'o' as u8, 'u' as u8, 'g' as u8, 'h' as u8],
        vec!['t' as u8, 'h' as u8, 'r' as u8, 'u' as u8],
    ];
    word_vec(Ghost(range_words()), v)
}

pub fn list_word_table() -> (r: Vec<Vec<u8>>)
    ensures
        table_is(r@, list_words()),
{
    let v = vec![vec!['o' as u8, 'r' as u8], vec!['a' as u8, 'n' as u8, 'd' as u8]];
    word_vec(Ghost(list_words()), v)
}

pub fn month_word_table() -> (r: Vec<Vec<u8>>)
    ensures
        table_is(r@, month_words()),
{
    let v = vec![
        vec!['j' as u8, 'a' as u8, 'n' as u8],
        vec!['f' as u8, 'e' as u8, 'b' as u8],
        vec!['m' as u8, 'a' as u8, 'r' as u8],
        vec!['a' as u8, 'p' as u8, 'r' as u8],
        vec!['m' as u8, 'a' as u8, 'y' as u8],
        vec!['j' as u8, 'u' as u8, 'n' as u8],
        vec!['j' as u8, 'u' as u8, 'l' as u8],
        vec!['a' as u8, 'u' as u8, 'g' as u8],
        vec!['s' as u8, 'e' as u8, 'p' as u8],
        vec!['o' as u8, 'c' as u8, 't' as u8],
        vec!['n' as u8, 'o' as u8, 'v' as u8],
        vec!['d' as u8, 'e' as u8, 'c' as u8],
    ];
    word_vec(Ghost(month_words()), v)
}

/// Some word of `tbl` ends at a word boundary at `p`.
pub open spec fn any_word_b(s: Seq<u8>, p: int, tbl: Seq<Seq<u8>>) -> bool {
    exists|k: int| 0 <= k < tbl.len() && ci_word_b(s, p, #[trigger] tbl[k])
}

/// Some word of `tbl` at `p` is followed by nothing but blanks.
pub open spec fn any_word_last(s: Seq<u8>, p: int, tbl: Seq<Seq<u8>>) -> bool {
    exists|k: int| 0 <= k < tbl.len() && ci_word_last(s, p, #[trigger] tbl[k])
}

pub fn any_word_b_at(s: &[u8], p: usize, tbl: &Vec<Vec<u8>>, spec_tbl: Ghost<Seq<Seq<u8>>>) -> (r: bool)
    requires
        table_is(tbl@, spec_tbl@),
    ensures
        r == any_word_b(s@, p as int, spec_tbl@),
{
    let mut k: usize = 0;
    while k < tbl.len()
        invariant
            k <= tbl@.len(),
            table_is(tbl@, spec_tbl@),
            forall|j: int| 0 <= j < k ==> !ci_word_b(s@, p as int, #[trigger] spec_tbl@[j]),
        decreases tbl.len() - k,
    {
        assert(lower_word(spec_tbl@[k as int]));
        match ci_word_at(s, p, tbl[k].as_slice()) {
            Some(e) => {
                if bnd_at(s, e, 0) {
                    assert(ci_word_b(s@, p as int, spec_tbl@[k as int]));
                    return true;
                }
            },
            None => {},
        }
        k += 1;
    }
    false
}

pub fn any_word_last_at(s: &[u8], p: usize, tbl: &Vec<Vec<u8>>, spec_tbl: Ghost<Seq<Seq<u8>>>) -> (r: bool)
    requires
        table_is(tbl@, spec_tbl@),
    ensures
        r == any_word_last(s@, p as int, spec_tbl@),
{
    let mut k: usize = 0;
    while k < tbl.len()
        invariant
            k <= tbl@.len(),
            table_is(tbl@, spec_tbl@),
            forall|j: int| 0 <= j < k ==> !ci_word_last(s@, p as int, #[trigger] spec_tbl@[j]),
        decreases tbl.len() - k,
    {
        assert(lower_word(spec_tbl@[k as int]));
        match ci_word_at(s, p, tbl[k].as_slice()) {
            Some(e) => {
                if e <= s.len() && blank_end_at(s, e) == s.len() {
                    assert(ci_word_last(s@, p as int, spec_tbl@[k as int]));
                    return true;
                }
            },
            None => {},
        }
        k += 1;
    }
    false
}

} // verus!
