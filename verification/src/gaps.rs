//! What stands between two timestamps: a word that joins them into a range or
//! a list, or a bare hour that starts a range ("the 9 of 9-9:15am").

use vstd::prelude::*;
use crate::scan::{dig, dig2, eqb};
use crate::text::{bat, bnd, bnd_here, byte, dg, is_alpha};
use crate::scan::dg2;
use crate::words::{
    any_word_last, any_word_last_at, blank_end, blank_end_at, ci_word, ci_word_at, list_word_table,
    list_words, month_word_table, month_words, range_word_table, range_words, table_is,
};

verus! {

/// A dash that joins a range, `[-–—]`, at `p`: where it ends.
pub open spec fn dash_end(g: Seq<u8>, p: int) -> Option<int> {
    if eqb(g, p, '-' as u8) {
        Some(p + 1)
    } else if byte(g, p) == 0xE2 && byte(g, p + 1) == 0x80 && (byte(g, p + 2) == 0x93 || byte(g, p + 2)
        == 0x94) {
        Some(p + 3)
    } else {
        None
    }
}

fn dash_end_at(g: &[u8], p: usize) -> (r: Option<usize>)
    ensures
        match dash_end(g@, p as int) {
            Some(e) => r == Some(e as usize) && p < e <= g.len(),
            None => r is None,
        },
{
    let b2 = bat(g, p, 2);
    if bat(g, p, 0) == '-' as u8 {
        Some(p + 1)
    } else if bat(g, p, 0) == 0xE2 && bat(g, p, 1) == 0x80 && (b2 == 0x93 || b2 == 0x94) {
        Some(p + 3)
    } else {
        None
    }
}

/// What joins the ends of a range: `(?i)^[ \t]*(?:-|–|—|to|until|till|through|thru)[ \t]*$`.
pub open spec fn range_join(g: Seq<u8>) -> bool {
    let p = blank_end(g, 0);
    (dash_end(g, p) matches Some(e) && blank_end(g, e) == g.len()) || any_word_last(g, p, range_words())
}

/// What joins the items of a list: `(?i)^[ \t]*(?:,|(?:,[ \t]*)?(?:or|and))[ \t]*$`.
pub open spec fn list_join(g: Seq<u8>) -> bool {
    let p = blank_end(g, 0);
    (eqb(g, p, ',' as u8) && blank_end(g, p + 1) == g.len()) || any_word_last(
        g,
        if eqb(g, p, ',' as u8) {
            blank_end(g, p + 1)
        } else {
            p
        },
        list_words(),
    )
}

pub fn range_join_at(g: &[u8]) -> (r: bool)
    ensures
        r == range_join(g@),
{
    let p = blank_end_at(g, 0);
    if let Some(e) = dash_end_at(g, p) {
        if blank_end_at(g, e) == g.len() {
            return true;
        }
    }
    any_word_last_at(g, p, &range_word_table(), Ghost(range_words()))
}

pub fn list_join_at(g: &[u8]) -> (r: bool)
    ensures
        r == list_join(g@),
{
    let p = blank_end_at(g, 0);
    let comma = p < g.len() && g[p] == ',' as u8;
    if comma && blank_end_at(g, p + 1) == g.len() {
        return true;
    }
    let q = if comma {
        blank_end_at(g, p + 1)
    } else {
        p
    };
    any_word_last_at(g, q, &list_word_table(), Ghost(list_words()))
}

/// After a bare hour, what makes it the start of a range, to the end of the
/// gap: a dash, or a word of a range between blanks.
pub open spec fn rh_tail(g: Seq<u8>, he: int) -> bool {
    ||| (dash_end(g, he) matches Some(e) && e == g.len())
    ||| {
        let q = blank_end(g, he);
        q > he && exists|k: int|
            0 <= k < range_words().len() && (ci_word(g, q, #[trigger] range_words()[k]) matches Some(e)
                && 0 <= e <= g.len() && blank_end(g, e) > e && blank_end(g, e) == g.len())
    }
}

/// The bare hour starting at `hs`, one or two digits, and where it ends.
pub open spec fn rh_from(g: Seq<u8>, hs: int) -> Option<int> {
    if dig2(g, hs) && rh_tail(g, hs + 2) {
        Some(hs + 2)
    } else if dig(g, hs) && rh_tail(g, hs + 1) {
        Some(hs + 1)
    } else {
        None
    }
}

/// A bare hour starting a range, matched from `p`: at the start of the gap
/// or after a space or `(`. Where the hour lies.
pub open spec fn range_hour_at(g: Seq<u8>, p: int) -> Option<(int, int)> {
    if p == 0 && rh_from(g, 0) is Some {
        Some((0, rh_from(g, 0)->0))
    } else if (eqb(g, p, ' ' as u8) || eqb(g, p, '\t' as u8) || eqb(g, p, '(' as u8)) && rh_from(
        g,
        p + 1,
    ) is Some {
        Some((p + 1, rh_from(g, p + 1)->0))
    } else {
        None
    }
}

/// The leftmost bare hour that starts a range, searching from `p`:
/// `(?i)(?:^|[ \t(])(?<hour>[0-9]{1,2})(?:[-–—]|[ \t]+(?:to|until|till|through|thru)[ \t]+)$`.
pub open spec fn range_hour(g: Seq<u8>, p: int) -> Option<(int, int)>
    decreases g.len() + 1 - p,
{
    if p < 0 || p > g.len() {
        None
    } else {
        match range_hour_at(g, p) {
            Some(x) => Some(x),
            None => range_hour(g, p + 1),
        }
    }
}

fn word_blank_tail(g: &[u8], q: usize, tbl: &Vec<Vec<u8>>) -> (r: bool)
    requires
        table_is(tbl@, range_words()),
    ensures
        r == exists|k: int|
            0 <= k < range_words().len() && (ci_word(g@, q as int, #[trigger] range_words()[k]) matches Some(e)
                && 0 <= e <= g@.len() && blank_end(g@, e) > e && blank_end(g@, e) == g@.len()),
{
    let mut k: usize = 0;
    while k < tbl.len()
        invariant
            k <= tbl@.len(),
            table_is(tbl@, range_words()),
            forall|j: int|
                0 <= j < k ==> !(ci_word(g@, q as int, #[trigger] range_words()[j]) matches Some(e) && 0
                    <= e <= g@.len() && blank_end(g@, e) > e && blank_end(g@, e) == g@.len()),
        decreases tbl.len() - k,
    {
        assert(crate::words::lower_word(range_words()[k as int]));
        if let Some(e) = ci_word_at(g, q, tbl[k].as_slice()) {
            if e <= g.len() {
                let b = blank_end_at(g, e);
                if b > e && b == g.len() {
                    assert(ci_word(g@, q as int, range_words()[k as int]) matches Some(e) && 0 <= e
                        <= g@.len() && blank_end(g@, e) > e && blank_end(g@, e) == g@.len());
                    return true;
                }
            }
        }
        k += 1;
    }
    false
}

fn rh_tail_at(g: &[u8], he: usize, tbl: &Vec<Vec<u8>>) -> (r: bool)
    requires
        he <= g.len(),
        table_is(tbl@, range_words()),
    ensures
        r == rh_tail(g@, he as int),
{
    if let Some(e) = dash_end_at(g, he) {
        if e == g.len() {
            return true;
        }
    }
    let q = blank_end_at(g, he);
    q > he && word_blank_tail(g, q, tbl)
}

fn rh_from_at(g: &[u8], hs: usize, tbl: &Vec<Vec<u8>>) -> (r: Option<usize>)
    requires
        hs <= g.len(),
        table_is(tbl@, range_words()),
    ensures
        match rh_from(g@, hs as int) {
            Some(e) => r == Some(e as usize) && hs < e <= g.len(),
            None => r is None,
        },
{
    if dg2(g, hs, 0) && rh_tail_at(g, hs + 2, tbl) {
        Some(hs + 2)
    } else if dg(g, hs, 0) && rh_tail_at(g, hs + 1, tbl) {
        Some(hs + 1)
    } else {
        None
    }
}

/// Where the bare hour that starts a range lies in the gap, if one does.
pub fn range_hour_of(g: &[u8]) -> (r: Option<(usize, usize)>)
    ensures
        match range_hour(g@, 0) {
            Some((a, b)) => r == Some((a as usize, b as usize)) && 0 <= a < b <= g.len(),
            None => r is None,
        },
{
    let tbl = range_word_table();
    if let Some(e) = rh_from_at(g, 0, &tbl) {
        return Some((0, e));
    }
    let mut p: usize = 0;
    while p < g.len()
        invariant
            p <= g.len(),
            table_is(tbl@, range_words()),
            range_hour(g@, 0) == range_hour(g@, p as int),
            p == 0 ==> rh_from(g@, 0) is None,
        decreases g.len() - p,
    {
        if g[p] == ' ' as u8 || g[p] == '\t' as u8 || g[p] == '(' as u8 {
            if let Some(e) = rh_from_at(g, p + 1, &tbl) {
                return Some((p + 1, e));
            }
        }
        assert(range_hour_at(g@, p as int) is None);
        assert(range_hour(g@, p as int) == range_hour(g@, p + 1));
        p += 1;
    }
    if g.len() == 0 {
        assert(range_hour_at(g@, 0) is None);
    }
    assert(range_hour_at(g@, p as int) is None);
    assert(range_hour(g@, p + 1) is None);
    None
}

/// The end of a run of letters, read without case: ASCII letters, `ſ`, and
/// the Kelvin sign, as `(?i)[a-z]` takes them.
pub open spec fn ci_letters_end(h: Seq<u8>, q: int) -> int
    decreases h.len() - q,
{
    if q < 0 || q >= h.len() {
        q
    } else if is_alpha(h[q]) {
        ci_letters_end(h, q + 1)
    } else if byte(h, q) == 0xC5 && byte(h, q + 1) == 0xBF {
        ci_letters_end(h, q + 2)
    } else if byte(h, q) == 0xE2 && byte(h, q + 1) == 0x84 && byte(h, q + 2) == 0xAA {
        ci_letters_end(h, q + 3)
    } else {
        q
    }
}

/// After a month name: more letters, an optional full stop, and blanks to
/// the end.
pub open spec fn month_tail(h: Seq<u8>, q: int) -> bool {
    let x = ci_letters_end(h, q);
    let y = if eqb(h, x, '.' as u8) {
        x + 1
    } else {
        x
    };
    0 <= y <= h.len() && blank_end(h, y) == h.len()
}

/// A month name starts a word at `p` and ends the text, give or take
/// letters, a full stop and blanks.
pub open spec fn month_at(h: Seq<u8>, p: int) -> bool {
    bnd(h, p) && exists|k: int|
        0 <= k < month_words().len() && (ci_word(h, p, #[trigger] month_words()[k]) matches Some(q)
            && 0 <= q <= h.len() && month_tail(h, q))
}

/// A day of the month, not an hour: the 1 of "Oct 1 thru 5pm":
/// `(?i)\b(?:Jan|Feb|…|Dec)[a-z]*\.?[ \t]*$` somewhere in the text.
pub open spec fn after_month(h: Seq<u8>) -> bool {
    exists|p: int| 0 <= p <= h.len() && #[trigger] month_at(h, p)
}

fn ci_letters_end_at(h: &[u8], q: usize) -> (r: usize)
    requires
        q <= h.len(),
    ensures
        r == ci_letters_end(h@, q as int),
        q <= r <= h.len(),
{
    let mut x = q;
    while x < h.len()
        invariant
            q <= x <= h.len(),
            ci_letters_end(h@, x as int) == ci_letters_end(h@, q as int),
        decreases h.len() - x,
    {
        let b = h[x];
        if ('a' as u8 <= b && b <= 'z' as u8) || ('A' as u8 <= b && b <= 'Z' as u8) {
            x += 1;
        } else if b == 0xC5 && bat(h, x, 1) == 0xBF {
            x += 2;
        } else if b == 0xE2 && bat(h, x, 1) == 0x84 && bat(h, x, 2) == 0xAA {
            x += 3;
        } else {
            return x;
        }
    }
    x
}

fn month_tail_at(h: &[u8], q: usize) -> (r: bool)
    requires
        q <= h.len(),
    ensures
        r == month_tail(h@, q as int),
{
    let x = ci_letters_end_at(h, q);
    let y = if bat(h, x, 0) == '.' as u8 {
        x + 1
    } else {
        x
    };
    y <= h.len() && blank_end_at(h, y) == h.len()
}

fn month_at_exec(h: &[u8], p: usize, tbl: &Vec<Vec<u8>>) -> (r: bool)
    requires
        table_is(tbl@, month_words()),
    ensures
        r == month_at(h@, p as int),
{
    if !bnd_here(h, p) {
        return false;
    }
    let mut k: usize = 0;
    while k < tbl.len()
        invariant
            k <= tbl@.len(),
            table_is(tbl@, month_words()),
            bnd(h@, p as int),
            forall|j: int|
                0 <= j < k ==> !(ci_word(h@, p as int, #[trigger] month_words()[j]) matches Some(q) && 0
                    <= q <= h@.len() && month_tail(h@, q)),
        decreases tbl.len() - k,
    {
        assert(crate::words::lower_word(month_words()[k as int]));
        if let Some(q) = ci_word_at(h, p, tbl[k].as_slice()) {
            if q <= h.len() && month_tail_at(h, q) {
                let ghost kk = k as int;
                assert(0 <= kk < month_words().len() && (ci_word(h@, p as int, month_words()[kk]) matches Some(q)
                    && 0 <= q <= h@.len() && month_tail(h@, q)));
                assert(bnd(h@, p as int));
                assert(month_at(h@, p as int));
                return true;
            }
        }
        k += 1;
    }
    false
}

pub fn after_month_at(h: &[u8]) -> (r: bool)
    ensures
        r == after_month(h@),
{
    let tbl = month_word_table();
    let mut p: usize = 0;
    while p < h.len()
        invariant
            p <= h.len(),
            table_is(tbl@, month_words()),
            forall|j: int| 0 <= j < p ==> !#[trigger] month_at(h@, j),
        decreases h.len() - p,
    {
        if month_at_exec(h, p, &tbl) {
            return true;
        }
        p += 1;
    }
    month_at_exec(h, p, &tbl)
}

} // verus!
