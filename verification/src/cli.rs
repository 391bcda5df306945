//! What the command line reads from its arguments and writes about its
//! inputs: flags that take a value, `-F` formats, `-d` dates and the message
//! naming a file that failed.

use vstd::prelude::*;
use vstd::string::{StringExecFns, StringSliceAdditionalSpecFns};
use vstd::utf8::encode_utf8;
use crate::civil::{add_days, valid_date};
use crate::format::Format;
use crate::notes::{date_string, date_text};
use crate::scan::{alpha_end, alpha_end_at, run_end, run_end_at};
use crate::strs::to_lowercase;
use crate::text::{byte, bat, digits, digits_at, digits_num, digits_value, is_digit};
use crate::zones::{bytes_eq, lower_copy, lower_seq};

verus! {

/// Short flags that take a value, so a bundle like `-tsf` means `-t sf`.
pub fn is_value_short(c: char) -> (r: bool)
    ensures
        r == (c == 'f' || c == 't' || c == 'd' || c == 'F'),
{
    c == 'f' || c == 't' || c == 'd' || c == 'F'
}

pub open spec fn word_iso() -> Seq<u8> {
    seq!['i' as u8, 's' as u8, 'o' as u8]
}

pub open spec fn word_short() -> Seq<u8> {
    seq!['s' as u8, 'h' as u8, 'o' as u8, 'r' as u8, 't' as u8]
}

pub open spec fn word_time() -> Seq<u8> {
    seq!['t' as u8, 'i' as u8, 'm' as u8, 'e' as u8]
}

/// The `-F` format a value names: `iso`, `short` or `time`, exactly.
pub open spec fn format_named(b: Seq<u8>) -> Option<Format> {
    if b == word_iso() {
        Some(Format::Iso)
    } else if b == word_short() {
        Some(Format::Short)
    } else if b == word_time() {
        Some(Format::Time)
    } else {
        None
    }
}

/// The `-F` value as a format, or the message saying it is none.
pub fn parse_format(v: &str) -> (r: Result<Format, String>)
    ensures
        match format_named(v.spec_bytes()) {
            Some(f) => r == Ok::<Format, String>(f),
            None => r matches Err(e) && e@ == "invalid format: "@ + v@ + " (expected iso, short, time)"@,
        },
{
    let b = v.as_bytes();
    let iso = vec!['i' as u8, 's' as u8, 'o' as u8];
    let short = vec!['s' as u8, 'h' as u8, 'o' as u8, 'r' as u8, 't' as u8];
    let time = vec!['t' as u8, 'i' as u8, 'm' as u8, 'e' as u8];
    assert(iso@ == word_iso());
    assert(short@ == word_short());
    assert(time@ == word_time());
    if bytes_eq(b, iso.as_slice()) {
        Ok(Format::Iso)
    } else if bytes_eq(b, short.as_slice()) {
        Ok(Format::Short)
    } else if bytes_eq(b, time.as_slice()) {
        Ok(Format::Time)
    } else {
        let mut e = String::from_str("invalid format: ");
        e.append(v);
        e.append(" (expected iso, short, time)");
        Err(e)
    }
}

/// The months, lowercase and in full.
pub open spec fn month_names() -> Seq<Seq<u8>> {
    seq![
        seq!['j' as u8, 'a' as u8, 'n' as u8, 'u' as u8, 'a' as u8, 'r' as u8, 'y' as u8],
        seq!['f' as u8, 'e' as u8, 'b' as u8, 'r' as u8, 'u' as u8, 'a' as u8, 'r' as u8, 'y' as u8],
        seq!['m' as u8, 'a' as u8, 'r' as u8, 'c' as u8, 'h' as u8],
        seq!['a' as u8, 'p' as u8, 'r' as u8, 'i' as u8, 'l' as u8],
        seq!['m' as u8, 'a' as u8, 'y' as u8],
        seq!['j' as u8, 'u' as u8, 'n' as u8, 'e' as u8],
        seq!['j' as u8, 'u' as u8, 'l' as u8, 'y' as u8],
        seq!['a' as u8, 'u' as u8, 'g' as u8, 'u' as u8, 's' as u8, 't' as u8],
        seq!['s' as u8, 'e' as u8, 'p' as u8, 't' as u8, 'e' as u8, 'm' as u8, 'b' as u8, 'e' as u8, 'r' as u8],
        seq!['o' as u8, 'c' as u8, 't' as u8, 'o' as u8, 'b' as u8, 'e' as u8, 'r' as u8],
        seq!['n' as u8, 'o' as u8, 'v' as u8, 'e' as u8, 'm' as u8, 'b' as u8, 'e' as u8, 'r' as u8],
        seq!['d' as u8, 'e' as u8, 'c' as u8, 'e' as u8, 'm' as u8, 'b' as u8, 'e' as u8, 'r' as u8],
    ]
}

/// A lowercase name is a month's: the whole name, or exactly its first
/// three letters.
pub open spec fn names_month(m: Seq<u8>, n: Seq<u8>) -> bool {
    m == n || (n.len() == 3 && m.len() >= 3 && m.subrange(0, 3) == n)
}

/// The first month from the `k`th on that a lowercase name names, 1-based.
pub open spec fn month_from(n: Seq<u8>, k: int) -> Option<int>
    decreases 12 - k,
{
    if k < 0 || k >= 12 {
        None
    } else if names_month(month_names()[k], n) {
        Some(k + 1)
    } else {
        month_from(n, k + 1)
    }
}

/// The month a lowercase name names, 1-based.
pub open spec fn month_of(n: Seq<u8>) -> Option<int> {
    month_from(n, 0)
}

proof fn lemma_month_from(n: Seq<u8>, k: int)
    ensures
        month_from(n, k) matches Some(m) ==> 1 <= m <= 12,
    decreases 12 - k,
{
    if 0 <= k < 12 && !names_month(month_names()[k], n) {
        lemma_month_from(n, k + 1);
    }
}

fn month_table() -> (v: Vec<Vec<u8>>)
    ensures
        v@.len() == 12,
        forall|k: int| 0 <= k < 12 ==> (#[trigger] v@[k])@ == month_names()[k],
{
    let v = vec![
        vec!['j' as u8, 'a' as u8, 'n' as u8, 'u' as u8, 'a' as u8, 'r' as u8, 'y' as u8],
        vec!['f' as u8, 'e' as u8, 'b' as u8, 'r' as u8, 'u' as u8, 'a' as u8, 'r' as u8, 'y' as u8],
        vec!['m' as u8, 'a' as u8, 'r' as u8, 'c' as u8, 'h' as u8],
        vec!['a' as u8, 'p' as u8, 'r' as u8, 'i' as u8, 'l' as u8],
        vec!['m' as u8, 'a' as u8, 'y' as u8],
        vec!['j' as u8, 'u' as u8, 'n' as u8, 'e' as u8],
        vec!['j' as u8, 'u' as u8, 'l' as u8, 'y' as u8],
        vec!['a' as u8, 'u' as u8, 'g' as u8, 'u' as u8, 's' as u8, 't' as u8],
        vec!['s' as u8, 'e' as u8, 'p' as u8, 't' as u8, 'e' as u8, 'm' as u8, 'b' as u8, 'e' as u8, 'r' as u8],
        vec!['o' as u8, 'c' as u8, 't' as u8, 'o' as u8, 'b' as u8, 'e' as u8, 'r' as u8],
        vec!['n' as u8, 'o' as u8, 'v' as u8, 'e' as u8, 'm' as u8, 'b' as u8, 'e' as u8, 'r' as u8],
        vec!['d' as u8, 'e' as u8, 'c' as u8, 'e' as u8, 'm' as u8, 'b' as u8, 'e' as u8, 'r' as u8],
    ];
    assert forall|k: int| 0 <= k < 12 implies (#[trigger] v@[k])@ == month_names()[k] by {
        assert(v@[k]@ =~= month_names()[k]);
    }
    v
}

/// Whether the name names a month given the month's full name.
fn names_month_at(m: &[u8], n: &[u8]) -> (r: bool)
    ensures
        r == names_month(m@, n@),
{
    if bytes_eq(m, n) {
        return true;
    }
    if n.len() != 3 || m.len() < 3 {
        return false;
    }
    let same = m[0] == n[0] && m[1] == n[1] && m[2] == n[2];
    assert(same == (m@.subrange(0, 3) =~= n@));
    same
}

/// The month a lowercase name names, 1-based, among the months.
fn month_of_lower(n: &[u8]) -> (r: Option<u32>)
    ensures
        match month_of(n@) {
            Some(k) => r == Some(k as u32) && 1 <= k <= 12,
            None => r is None,
        },
{
    proof {
        lemma_month_from(n@, 0);
    }
    let months = month_table();
    let mut k: usize = 0;
    while k < 12
        invariant
            k <= 12,
            months@.len() == 12,
            forall|j: int| 0 <= j < 12 ==> (#[trigger] months@[j])@ == month_names()[j],
            month_of(n@) == month_from(n@, k as int),
        decreases 12 - k,
    {
        if names_month_at(months[k].as_slice(), n) {
            return Some((k + 1) as u32);
        }
        k += 1;
    }
    None
}

/// The month a name gives, 1-based: the full month name, or exactly its
/// first three letters, in any case. `Sep` and `September` are forms,
/// `Sept` is not.
pub fn month_number(name: &str) -> (r: Option<u32>)
    ensures
        match month_of(encode_utf8(crate::strs::unicode_lowercase(name@))) {
            Some(k) => r == Some(k as u32),
            None => r is None,
        },
        crate::strs::ascii_chars(name@) ==> match month_of(
            encode_utf8(name@.map_values(|ch: char| crate::strs::ascii_lower_char(ch))),
        ) {
            Some(k) => r == Some(k as u32),
            None => r is None,
        },
{
    let n = to_lowercase(name);
    month_of_lower(n.as_str().as_bytes())
}

/// The date a `YYYY-MM-DD`, `YYYY/MM/DD` or `YYYYMMDD` value reads as: two
/// digits for month and day, one separator throughout.
pub open spec fn ymd_read(b: Seq<u8>) -> Option<(int, int, int)> {
    if b.len() == 10 && digits_at(b, 0, 4) && ((b[4] == '-' as u8 && b[7] == '-' as u8) || (b[4]
        == '/' as u8 && b[7] == '/' as u8)) && digits_at(b, 5, 2) && digits_at(b, 8, 2) {
        Some((digits_value(b, 0, 4), digits_value(b, 5, 2), digits_value(b, 8, 2)))
    } else if b.len() == 8 && digits_at(b, 0, 8) {
        Some((digits_value(b, 0, 4), digits_value(b, 4, 2), digits_value(b, 6, 2)))
    } else {
        None
    }
}

/// Past a dot at `p`, if there is one.
pub open spec fn skip(b: Seq<u8>, p: int, c: u8) -> int {
    if byte(b, p) == c {
        p + 1
    } else {
        p
    }
}

/// A day of one or two digits at `p`, then an optional comma, a space and
/// four digits ending the text: the day, and the year.
pub open spec fn day_year(b: Seq<u8>, p: int) -> Option<(int, int)> {
    let e = run_end(b, p);
    let c = skip(b, e, ',' as u8);
    if 1 <= e - p <= 2 && byte(b, c) == ' ' as u8 && c + 5 == b.len() && digits_at(b, c + 1, 4) {
        Some((digits_value(b, p, (e - p) as nat), digits_value(b, c + 1, 4)))
    } else {
        None
    }
}

/// `Month D, YYYY`: letters, an optional dot, a space, the day, an
/// optional comma, a space and the year.
pub open spec fn mdy_read(b: Seq<u8>) -> Option<(int, int, int)> {
    let a = alpha_end(b, 0);
    let p = skip(b, a, '.' as u8);
    if a >= 1 && byte(b, p) == ' ' as u8 {
        match (month_of(lower_seq(b.subrange(0, a))), day_year(b, p + 1)) {
            (Some(m), Some((d, y))) => Some((y, m, d)),
            _ => None,
        }
    } else {
        None
    }
}

/// `D Month YYYY`: the day, a space, letters, an optional dot, an optional
/// comma, a space and the year.
pub open spec fn dmy_read(b: Seq<u8>) -> Option<(int, int, int)> {
    let e = run_end(b, 0);
    let a = alpha_end(b, e + 1);
    let c = skip(b, skip(b, a, '.' as u8), ',' as u8);
    if 1 <= e <= 2 && byte(b, e) == ' ' as u8 && a > e + 1 && byte(b, c) == ' ' as u8 && c + 5 == b.len()
        && digits_at(b, c + 1, 4) {
        match month_of(lower_seq(b.subrange(e + 1, a))) {
            Some(m) => Some((digits_value(b, c + 1, 4), m, digits_value(b, 0, e as nat))),
            None => None,
        }
    } else {
        None
    }
}

/// The date a `-d` value reads as, before the calendar is asked: the
/// numeric forms, `Month D, YYYY` or `D Month YYYY`.
pub open spec fn date_read(b: Seq<u8>) -> Option<(int, int, int)> {
    match ymd_read(b) {
        Some(r) => Some(r),
        None => match mdy_read(b) {
            Some(r) => Some(r),
            None => dmy_read(b),
        },
    }
}

proof fn lemma_alpha_end_at(b: Seq<u8>, p: int, n: int)
    requires
        0 <= p <= n < b.len(),
        forall|k: int| p <= k < n ==> #[trigger] crate::text::is_alpha(b[k]),
        !crate::text::is_alpha(b[n]),
    ensures
        alpha_end(b, p) == n,
    decreases n - p,
{
    if p < n {
        assert(crate::text::is_alpha(b[p]));
        lemma_alpha_end_at(b, p + 1, n);
    } else {
        assert(!(crate::text::is_upper(b[p]) || crate::text::is_lower(b[p])));
    }
}

proof fn lemma_run_end_at(b: Seq<u8>, p: int, n: int)
    requires
        0 <= p <= n < b.len(),
        forall|k: int| p <= k < n ==> #[trigger] crate::text::is_digit(b[k]),
        !crate::text::is_digit(b[n]),
    ensures
        run_end(b, p) == n,
    decreases n - p,
{
    if p < n {
        assert(crate::text::is_digit(b[p]));
        lemma_run_end_at(b, p + 1, n);
    }
}

proof fn lemma_digits_value_shift(s: Seq<u8>, i: int, t: Seq<u8>, j: int, n: nat)
    requires
        forall|k: int| 0 <= k < n ==> #[trigger] byte(s, i + k) == byte(t, j + k),
    ensures
        digits_value(s, i, n) == digits_value(t, j, n),
    decreases n,
{
    if n > 0 {
        lemma_digits_value_shift(s, i, t, j, (n - 1) as nat);
        assert(byte(s, i + n - 1) == byte(t, j + n - 1));
    }
}

/// A date written `Month D, YYYY` reads as that month, day and year: the
/// month named in full or by its first three letters, in any case, and a
/// day of one digit or two.
pub proof fn law_month_day_year(name: Seq<u8>, day: Seq<u8>, year: Seq<u8>)
    requires
        name.len() >= 1,
        forall|k: int| 0 <= k < name.len() ==> #[trigger] crate::text::is_alpha(name[k]),
        month_of(lower_seq(name)) is Some,
        1 <= day.len() <= 2,
        forall|k: int| 0 <= k < day.len() ==> #[trigger] crate::text::is_digit(day[k]),
        year.len() == 4,
        forall|k: int| 0 <= k < year.len() ==> #[trigger] crate::text::is_digit(year[k]),
    ensures
        date_read(name + seq![' ' as u8] + day + seq![',' as u8, ' ' as u8] + year) == Some(
            (digits_value(year, 0, 4), month_of(lower_seq(name))->0, digits_value(day, 0, day.len())),
        ),
{
    let b = name + seq![' ' as u8] + day + seq![',' as u8, ' ' as u8] + year;
    let a = name.len() as int;
    let dl = day.len() as int;
    assert(b.len() == a + dl + 7);
    assert forall|k: int| 0 <= k < a implies #[trigger] crate::text::is_alpha(b[k]) by {
        assert(b[k] == name[k]);
    }
    assert(b[a] == ' ' as u8);
    lemma_alpha_end_at(b, 0, a);
    assert(ymd_read(b) is None) by {
        assert(!crate::text::is_digit(byte(b, 0int + 0int))) by {
            assert(b[0] == name[0]);
        }
        assert(!digits_at(b, 0, 4));
        assert(!digits_at(b, 0, 8));
    }
    assert(skip(b, a, '.' as u8) == a);
    assert(b.subrange(0, a) =~= name);
    assert forall|k: int| a + 1 <= k < a + 1 + dl implies #[trigger] crate::text::is_digit(b[k]) by {
        assert(b[k] == day[k - a - 1]);
    }
    assert(b[a + 1 + dl] == ',' as u8);
    lemma_run_end_at(b, a + 1, a + 1 + dl);
    let c = a + 1 + dl + 1;
    assert(skip(b, a + 1 + dl, ',' as u8) == c);
    assert(b[c] == ' ' as u8);
    assert forall|k: int| 0 <= k < 4 implies #[trigger] crate::text::is_digit(byte(b, c + 1 + k)) by {
        assert(b[c + 1 + k] == year[k]);
    }
    assert forall|k: int| 0 <= k < dl implies #[trigger] byte(b, a + 1 + k) == byte(day, 0 + k) by {
        assert(b[a + 1 + k] == day[k]);
    }
    lemma_digits_value_shift(b, a + 1, day, 0, dl as nat);
    assert forall|k: int| 0 <= k < 4 implies #[trigger] byte(b, c + 1 + k) == byte(year, 0 + k) by {
        assert(b[c + 1 + k] == year[k]);
    }
    lemma_digits_value_shift(b, c + 1, year, 0, 4);
    assert(day_year(b, a + 1) == Some((digits_value(day, 0, day.len()), digits_value(year, 0, 4))));
    assert(mdy_read(b) == Some((digits_value(year, 0, 4), month_of(lower_seq(name))->0, digits_value(day, 0, day.len()))));
}

pub open spec fn read_view(r: Option<(u32, u32, u32)>) -> Option<(int, int, int)> {
    match r {
        Some((y, m, d)) => Some((y as int, m as int, d as int)),
        None => None,
    }
}

/// Bounds that hold of every date read: four digits of year, two of month
/// and day at most.
pub open spec fn read_bounded(r: Option<(u32, u32, u32)>) -> bool {
    r matches Some((y, m, d)) ==> y < 10000 && m < 100 && d < 100
}

fn ymd_read_at(b: &[u8]) -> (r: Option<(u32, u32, u32)>)
    ensures
        read_view(r) == ymd_read(b@),
        read_bounded(r),
{
    if b.len() == 10 && digits(b, 0, 4) && ((b[4] == '-' as u8 && b[7] == '-' as u8) || (b[4]
        == '/' as u8 && b[7] == '/' as u8)) && digits(b, 5, 2) && digits(b, 8, 2) {
        Some((digits_num(b, 0, 4), digits_num(b, 5, 2), digits_num(b, 8, 2)))
    } else if b.len() == 8 && digits(b, 0, 8) {
        assert(digits_at(b@, 0, 4) && digits_at(b@, 4, 2) && digits_at(b@, 6, 2)) by {
            assert forall|k: int| 0 <= k < 4 implies #[trigger] is_digit(byte(b@, 0 + k)) by {
                assert(is_digit(byte(b@, 0 + k)));
            }
            assert forall|k: int| 0 <= k < 2 implies #[trigger] is_digit(byte(b@, 4 + k)) by {
                assert(is_digit(byte(b@, 0 + (4 + k))));
            }
            assert forall|k: int| 0 <= k < 2 implies #[trigger] is_digit(byte(b@, 6 + k)) by {
                assert(is_digit(byte(b@, 0 + (6 + k))));
            }
        }
        Some((digits_num(b, 0, 4), digits_num(b, 4, 2), digits_num(b, 6, 2)))
    } else {
        None
    }
}

fn day_year_at(b: &[u8], p: usize) -> (r: Option<(u32, u32)>)
    requires
        p <= b.len(),
    ensures
        match day_year(b@, p as int) {
            Some((d, y)) => r matches Some((d2, y2)) && d2 == d && y2 == y && d2 < 100 && y2 < 10000,
            None => r is None,
        },
{
    let e = run_end_at(b, p);
    if e - p < 1 || e - p > 2 {
        return None;
    }
    let c = if bat(b, e, 0) == ',' as u8 {
        e + 1
    } else {
        e
    };
    assert(e + 0 == e);
    if c > b.len() || bat(b, c, 0) != ' ' as u8 || b.len() - c != 5 || !digits(b, c + 1, 4) {
        assert(c + 0 == c);
        return None;
    }
    assert(c + 0 == c);
    assert(digits_at(b@, p as int, (e - p) as int)) by {
        assert forall|k: int| 0 <= k < e - p implies #[trigger] is_digit(byte(b@, p + k)) by {
            crate::scan::lemma_run_digits(b@, p as int, e as int, p + k);
        }
    }
    let d = digits_num(b, p, e - p);
    let y = digits_num(b, c + 1, 4);
    Some((d, y))
}

fn mdy_read_at(b: &[u8]) -> (r: Option<(u32, u32, u32)>)
    ensures
        read_view(r) == mdy_read(b@),
        read_bounded(r),
{
    let a = alpha_end_at(b, 0);
    if a < 1 {
        return None;
    }
    let p = if bat(b, a, 0) == '.' as u8 {
        a + 1
    } else {
        a
    };
    assert(a + 0 == a);
    if p > b.len() || bat(b, p, 0) != ' ' as u8 {
        assert(p + 0 == p);
        return None;
    }
    assert(p + 0 == p);
    let lower = lower_copy(b, 0, a);
    let m = month_of_lower(lower.as_slice());
    let dy = day_year_at(b, p + 1);
    match (m, dy) {
        (Some(m), Some((d, y))) => Some((y, m, d)),
        _ => None,
    }
}

fn dmy_read_at(b: &[u8]) -> (r: Option<(u32, u32, u32)>)
    ensures
        read_view(r) == dmy_read(b@),
        read_bounded(r),
{
    let e = run_end_at(b, 0);
    if e < 1 || e > 2 || bat(b, e, 0) != ' ' as u8 {
        assert(e + 0 == e);
        return None;
    }
    assert(e + 0 == e);
    let a = alpha_end_at(b, e + 1);
    if a <= e + 1 {
        return None;
    }
    let c1 = if bat(b, a, 0) == '.' as u8 {
        a + 1
    } else {
        a
    };
    assert(a + 0 == a);
    let c = if bat(b, c1, 0) == ',' as u8 {
        c1 + 1
    } else {
        c1
    };
    assert(c1 + 0 == c1);
    if c > b.len() || bat(b, c, 0) != ' ' as u8 || b.len() - c != 5 || !digits(b, c + 1, 4) {
        assert(c + 0 == c);
        return None;
    }
    assert(c + 0 == c);
    assert(digits_at(b@, 0, e as int)) by {
        assert forall|k: int| 0 <= k < e implies #[trigger] is_digit(byte(b@, 0 + k)) by {
            crate::scan::lemma_run_digits(b@, 0, e as int, k);
        }
    }
    let lower = lower_copy(b, e + 1, a);
    match month_of_lower(lower.as_slice()) {
        Some(m) => Some((digits_num(b, c + 1, 4), m, digits_num(b, 0, e))),
        None => None,
    }
}

/// The date as `YYYY-MM-DD` when the calendar has it.
fn build_date(y: u32, m: u32, d: u32) -> (r: Option<String>)
    requires
        y < 10000,
        m < 100,
        d < 100,
    ensures
        valid_date(y as int, m as int, d as int) ==> (r matches Some(t) && encode_utf8(t@) == date_text(
            y as int,
            m as int,
            d as int,
        )),
        !valid_date(y as int, m as int, d as int) ==> r is None,
{
    match add_days(y as i16, m as i8, d as i8, 0) {
        Some((y2, m2, d2)) => Some(date_string(y2, m2, d2)),
        None => None,
    }
}

/// A `-d` value as `YYYY-MM-DD`, or `None` if it is not one of the
/// documented forms (`YYYY-MM-DD`, `YYYY/MM/DD`, `YYYYMMDD`,
/// `Month D, YYYY`, `D Month YYYY`) or not a date the calendar has.
/// Ambiguous slash dates (`1/15/2026`) are rejected rather than guessed at.
pub fn normalize_date(input: &str) -> (r: Option<String>)
    ensures
        match date_read(input.spec_bytes()) {
            Some((y, m, d)) => if valid_date(y, m, d) {
                r matches Some(t) && encode_utf8(t@) == date_text(y, m, d)
            } else {
                r is None
            },
            None => r is None,
        },
{
    let b = input.as_bytes();
    let read = match ymd_read_at(b) {
        Some(x) => Some(x),
        None => match mdy_read_at(b) {
            Some(x) => Some(x),
            None => dmy_read_at(b),
        },
    };
    match read {
        Some((y, m, d)) => build_date(y, m, d),
        None => None,
    }
}

/// The message for an input that failed: the error alone when it is a
/// broken pipe, which is about stdout and not about the input; else the
/// file's name, a colon and the error.
pub fn file_error(file: &str, broken_pipe: bool, message: &str) -> (r: String)
    ensures
        broken_pipe ==> r@ == message@,
        !broken_pipe ==> r@ == file@ + ": "@ + message@,
{
    if broken_pipe {
        String::from_str(message)
    } else {
        let mut r = String::from_str(file);
        r.append(": ");
        r.append(message);
        r
    }
}

} // verus!
