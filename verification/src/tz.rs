//! A user-supplied zone resolved to a name the system tz database loads: an
//! alias or abbreviation, a whole-hour numeric offset, or an IANA name.
//! A zone that does not resolve is an error, never a silent fall back to UTC.

use vstd::prelude::*;
use vstd::utf8::encode_utf8;
use vstd::string::StringSliceAdditionalSpecFns;
use crate::civil::{zone_fixed_at, zone_name, zone_named, zone_utc, Zone};
use crate::scan::{dig, dig2};
use crate::strs::{ascii_string, has_colon, is_ascii_bytes, strip_colon, to_lowercase, unicode_lowercase, utf8_string};
use crate::text::{bat, byte, dg, digits_value, is_sign};
use crate::zones::{alias_lookup, alias_table, alias_vec, find_alias, lemma_alias_ascii, lemma_alias_names};

verus! {

/// Why a user-supplied timezone could not be resolved.
#[derive(Clone, Debug, PartialEq, Eq)]
pub enum TzError {
    /// Not an alias, not a numeric offset, and not a name the system tz
    /// database knows.
    Unknown(String),
    /// A whole-hour numeric offset outside the range real zones occupy.
    OffsetOutOfRange(String),
}

impl TzError {
    /// The message for the error: `unknown timezone: X`, or
    /// `offset out of range: X (expected -12..14)`.
    pub fn to_string(&self) -> (r: String)
        ensures
            self matches TzError::Unknown(s) ==> r@ == "unknown timezone: "@ + s@,
            self matches TzError::OffsetOutOfRange(s) ==> r@ == "offset out of range: "@ + s@
                + " (expected -12..14)"@,
    {
        match self {
            TzError::Unknown(s) => {
                let mut r = String::from_str("unknown timezone: ");
                r.append(s.as_str());
                r
            },
            TzError::OffsetOutOfRange(s) => {
                let mut r = String::from_str("offset out of range: ");
                r.append(s.as_str());
                r.append(" (expected -12..14)");
                r
            },
        }
    }
}

/// The input without the leading colon POSIX may spell `TZ` with.
pub open spec fn stripped(c: Seq<char>) -> Seq<char> {
    if has_colon(c) {
        c.drop_first()
    } else {
        c
    }
}

/// A whole-hour numeric offset: `^[+-]?[0-9]{1,2}$`.
pub open spec fn numeric_offset(b: Seq<u8>) -> bool {
    let d: int = if b.len() > 0 && is_sign(b[0]) {
        1
    } else {
        0
    };
    (b.len() == d + 1 && dig(b, d)) || (b.len() == d + 2 && dig2(b, d))
}

/// The hours a numeric offset names.
pub open spec fn numeric_value(b: Seq<u8>) -> int {
    let d: int = if b.len() > 0 && is_sign(b[0]) {
        1
    } else {
        0
    };
    let v = digits_value(b, d, (b.len() - d) as nat);
    if d == 1 && b[0] == '-' as u8 {
        -v
    } else {
        v
    }
}

/// `Etc/GMT` and the offset with its sign inverted, as POSIX has it:
/// `-7` is `Etc/GMT+7`.
pub open spec fn etc_name(n: int) -> Seq<u8> {
    let a = if n < 0 {
        -n
    } else {
        n
    };
    seq!['E' as u8, 't' as u8, 'c' as u8, '/' as u8, 'G' as u8, 'M' as u8, 'T' as u8] + seq![
        if n > 0 {
            '-' as u8
        } else {
            '+' as u8
        },
    ] + if a >= 10 {
        seq![('0' as u8 + a / 10) as u8, ('0' as u8 + a % 10) as u8]
    } else {
        seq![('0' as u8 + a) as u8]
    }
}

/// `UTC`
pub open spec fn utc_name() -> Seq<u8> {
    seq!['U' as u8, 'T' as u8, 'C' as u8]
}

/// Spaces made underscores.
pub open spec fn underscored(b: Seq<u8>) -> Seq<u8> {
    Seq::new(b.len(), |i: int| if b[i] == ' ' as u8 { '_' as u8 } else { b[i] })
}

/// The key an input is looked up under in the alias table: lowercase, with
/// underscores for spaces.
pub open spec fn tz_key(c: Seq<char>) -> Seq<u8> {
    underscored(encode_utf8(unicode_lowercase(c)))
}

/// The name an input that is not a numeric offset stands for: its alias,
/// or itself.
pub open spec fn named(c: Seq<char>) -> Option<Seq<u8>> {
    alias_lookup(alias_table(), tz_key(c))
}

fn numeric_offset_at(b: &[u8]) -> (r: bool)
    ensures
        r == numeric_offset(b@),
{
    let d: usize = if b.len() > 0 && (b[0] == '+' as u8 || b[0] == '-' as u8) {
        1
    } else {
        0
    };
    (b.len() == d + 1 && dg(b, d, 0)) || (b.len() == d + 2 && dg(b, d, 0) && dg(b, d, 1))
}

fn underscored_of(b: &[u8]) -> (r: Vec<u8>)
    ensures
        r@ == underscored(b@),
{
    let mut out: Vec<u8> = Vec::new();
    let mut i: usize = 0;
    while i < b.len()
        invariant
            i <= b@.len(),
            out@ == underscored(b@).subrange(0, i as int),
        decreases b.len() - i,
    {
        out.push(if b[i] == ' ' as u8 {
            '_' as u8
        } else {
            b[i]
        });
        assert(out@ =~= underscored(b@).subrange(0, i + 1));
        i += 1;
    }
    assert(underscored(b@).subrange(0, b@.len() as int) =~= underscored(b@));
    out
}

/// What resolving `input` may give: a numeric offset exactly its zone or
/// its error; anything else its alias, or itself, or an unknown zone.
pub open spec fn resolution(input: Seq<char>, r: Result<String, TzError>) -> bool {
    let c = stripped(input);
    let b = encode_utf8(c);
    &&& numeric_offset(b) && numeric_value(b) == 0 ==> (r matches Ok(s) && encode_utf8(s@) == utc_name())
    &&& numeric_offset(b) && (numeric_value(b) < -12 || numeric_value(b) > 14) ==> (r matches Err(
        TzError::OffsetOutOfRange(x),
    ) && x@ == c)
    &&& numeric_offset(b) && numeric_value(b) != 0 && -12 <= numeric_value(b) <= 14 ==> (r matches Ok(s)
        && encode_utf8(s@) == etc_name(numeric_value(b)))
    &&& !numeric_offset(b) && r is Ok ==> (match named(c) {
        Some(nm) => encode_utf8(r->Ok_0@) == nm,
        None => r->Ok_0@ == c,
    })
    &&& !numeric_offset(b) && r is Err ==> (r matches Err(TzError::Unknown(x)) && x@ == c)
}

/// Resolve a user-supplied zone (alias, numeric offset, or IANA name) to an
/// IANA-style name the system tz database can load.
///
/// A numeric offset is exact: `0` is `UTC`, `-7` is `Etc/GMT+7`, and one
/// outside `-12..=14` is an error. Anything else resolves to its alias, or
/// to itself, when the tz database has that name, and is an error otherwise.
pub fn resolve_tz(input: &str) -> (r: Result<String, TzError>)
    ensures
        resolution(input@, r),
{
    let inp = strip_colon(input);
    let b = inp.as_bytes();
    if numeric_offset_at(b) {
        let d: usize = if b[0] == '+' as u8 || b[0] == '-' as u8 {
            1
        } else {
            0
        };
        assert(crate::text::digits_at(b@, d as int, (b.len() - d) as int));
        let v = crate::text::digits_num(b, d, b.len() - d) as i32;
        let n: i32 = if d == 1 && b[0] == '-' as u8 {
            -v
        } else {
            v
        };
        assert(n == numeric_value(b@));
        if n == 0 {
            let u = vec!['U' as u8, 'T' as u8, 'C' as u8];
            assert(u@ == utc_name());
            assert(is_ascii_bytes(u@));
            return Ok(ascii_string(u));
        }
        if n < -12 || n > 14 {
            return Err(TzError::OffsetOutOfRange(inp.to_owned()));
        }
        let a: u8 = if n < 0 {
            (-n) as u8
        } else {
            n as u8
        };
        let mut name = vec!['E' as u8, 't' as u8, 'c' as u8, '/' as u8, 'G' as u8, 'M' as u8, 'T' as u8];
        name.push(if n > 0 {
            '-' as u8
        } else {
            '+' as u8
        });
        if a >= 10 {
            name.push('0' as u8 + a / 10);
            name.push('0' as u8 + a % 10);
        } else {
            name.push('0' as u8 + a);
        }
        assert(name@ =~= etc_name(n as int));
        assert(is_ascii_bytes(name@));
        return Ok(ascii_string(name));
    }
    let lower = to_lowercase(inp);
    let key = underscored_of(lower.as_str().as_bytes());
    let name: String = match find_alias(key.as_slice()) {
        Some(v) => match utf8_string(v) {
            Some(s) => s,
            None => return Err(TzError::Unknown(inp.to_owned())),
        },
        None => inp.to_owned(),
    };
    match zone_named(name.as_str()) {
        Some(_) => Ok(name),
        None => Err(TzError::Unknown(inp.to_owned())),
    }
}

/// A name [`resolve_tz`] may give for `input`: a numeric offset's exact
/// zone, else its alias, else the input itself.
pub open spec fn resolves_to(input: Seq<char>, n: Seq<char>) -> bool {
    let c = stripped(input);
    let b = encode_utf8(c);
    if numeric_offset(b) {
        if numeric_value(b) == 0 {
            encode_utf8(n) == utc_name()
        } else if -12 <= numeric_value(b) <= 14 {
            encode_utf8(n) == etc_name(numeric_value(b))
        } else {
            false
        }
    } else {
        match named(c) {
            Some(nm) => encode_utf8(n) == nm,
            None => n == c,
        }
    }
}

/// `z` is what `input` resolves to: the zone loaded under the name
/// [`resolve_tz`] gives it, or UTC when there is none.
pub open spec fn resolved_zone(input: Seq<char>, z: Zone) -> bool {
    ||| zone_name(z) matches Some(n) && resolves_to(input, n)
    ||| zone_name(z) is None && zone_fixed_at(z) == Some(0int)
}

/// The zone an input resolves to, or UTC, the last resort for a caller that
/// did not validate it through [`resolve_tz`] first.
pub(crate) fn resolve_zone(input: &str) -> (r: Zone)
    ensures
        resolved_zone(input@, r),
{
    match resolve_tz(input) {
        Ok(name) => match zone_named(name.as_str()) {
            Some(z) => z,
            None => zone_utc(),
        },
        Err(_) => zone_utc(),
    }
}

/// Each alias names the zone its word stands for, whatever its case and
/// with a space for an underscore: the Pacific words (`pacific`, `pst`,
/// `pdt`, `pt`, `la`, `sf`, `los angeles`) name `America/Los_Angeles`, the
/// Mountain ones `America/Denver`, the Central ones `America/Chicago`, the
/// Eastern ones `America/New_York`, `alaska` and its abbreviations
/// `America/Anchorage`, `hawaii` and `hst` `Pacific/Honolulu`, `utc`, `ut`,
/// `z` and `gmt` `UTC`, and each city and abbreviation abroad its own zone.
/// An input that is no numeric offset resolves, when it resolves, to the
/// name given here.
pub proof fn law_alias_zones(c: Seq<char>)
    ensures
        (tz_key(c) == seq!['p' as u8, 'a' as u8, 'c' as u8, 'i' as u8, 'f' as u8, 'i' as u8, 'c' as u8] || tz_key(c) == seq!['p' as u8, 's' as u8, 't' as u8] || tz_key(c) == seq!['p' as u8, 'd' as u8, 't' as u8] || tz_key(c) == seq!['p' as u8, 't' as u8] || tz_key(c) == seq!['l' as u8, 'a' as u8] || tz_key(c) == seq!['s' as u8, 'f' as u8] || tz_key(c) == seq!['l' as u8, 'o' as u8, 's' as u8, '_' as u8, 'a' as u8, 'n' as u8, 'g' as u8, 'e' as u8, 'l' as u8, 'e' as u8, 's' as u8]) ==> named(c) == Some(seq!['A' as u8, 'm' as u8, 'e' as u8, 'r' as u8, 'i' as u8, 'c' as u8, 'a' as u8, '/' as u8, 'L' as u8, 'o' as u8, 's' as u8, '_' as u8, 'A' as u8, 'n' as u8, 'g' as u8, 'e' as u8, 'l' as u8, 'e' as u8, 's' as u8]),
        (tz_key(c) == seq!['m' as u8, 'o' as u8, 'u' as u8, 'n' as u8, 't' as u8, 'a' as u8, 'i' as u8, 'n' as u8] || tz_key(c) == seq!['m' as u8, 's' as u8, 't' as u8] || tz_key(c) == seq!['m' as u8, 'd' as u8, 't' as u8] || tz_key(c) == seq!['m' as u8, 't' as u8] || tz_key(c) == seq!['d' as u8, 'e' as u8, 'n' as u8, 'v' as u8, 'e' as u8, 'r' as u8]) ==> named(c) == Some(seq!['A' as u8, 'm' as u8, 'e' as u8, 'r' as u8, 'i' as u8, 'c' as u8, 'a' as u8, '/' as u8, 'D' as u8, 'e' as u8, 'n' as u8, 'v' as u8, 'e' as u8, 'r' as u8]),
        (tz_key(c) == seq!['c' as u8, 'e' as u8, 'n' as u8, 't' as u8, 'r' as u8, 'a' as u8, 'l' as u8] || tz_key(c) == seq!['c' as u8, 's' as u8, 't' as u8] || tz_key(c) == seq!['c' as u8, 'd' as u8, 't' as u8] || tz_key(c) == seq!['c' as u8, 't' as u8] || tz_key(c) == seq!['c' as u8, 'h' as u8, 'i' as u8, 'c' as u8, 'a' as u8, 'g' as u8, 'o' as u8]) ==> named(c) == Some(seq!['A' as u8, 'm' as u8, 'e' as u8, 'r' as u8, 'i' as u8, 'c' as u8, 'a' as u8, '/' as u8, 'C' as u8, 'h' as u8, 'i' as u8, 'c' as u8, 'a' as u8, 'g' as u8, 'o' as u8]),
        (tz_key(c) == seq!['e' as u8, 'a' as u8, 's' as u8, 't' as u8, 'e' as u8, 'r' as u8, 'n' as u8] || tz_key(c) == seq!['e' as u8, 's' as u8, 't' as u8] || tz_key(c) == seq!['e' as u8, 'd' as u8, 't' as u8] || tz_key(c) == seq!['e' as u8, 't' as u8] || tz_key(c) == seq!['n' as u8, 'y' as u8, 'c' as u8] || tz_key(c) == seq!['n' as u8, 'e' as u8, 'w' as u8, '_' as u8, 'y' as u8, 'o' as u8, 'r' as u8, 'k' as u8]) ==> named(c) == Some(seq!['A' as u8, 'm' as u8, 'e' as u8, 'r' as u8, 'i' as u8, 'c' as u8, 'a' as u8, '/' as u8, 'N' as u8, 'e' as u8, 'w' as u8, '_' as u8, 'Y' as u8, 'o' as u8, 'r' as u8, 'k' as u8]),
        (tz_key(c) == seq!['a' as u8, 'l' as u8, 'a' as u8, 's' as u8, 'k' as u8, 'a' as u8] || tz_key(c) == seq!['a' as u8, 'k' as u8, 's' as u8, 't' as u8] || tz_key(c) == seq!['a' as u8, 'k' as u8, 'd' as u8, 't' as u8]) ==> named(c) == Some(seq!['A' as u8, 'm' as u8, 'e' as u8, 'r' as u8, 'i' as u8, 'c' as u8, 'a' as u8, '/' as u8, 'A' as u8, 'n' as u8, 'c' as u8, 'h' as u8, 'o' as u8, 'r' as u8, 'a' as u8, 'g' as u8, 'e' as u8]),
        (tz_key(c) == seq!['h' as u8, 'a' as u8, 'w' as u8, 'a' as u8, 'i' as u8, 'i' as u8] || tz_key(c) == seq!['h' as u8, 's' as u8, 't' as u8] || tz_key(c) == seq!['h' as u8, 'o' as u8, 'n' as u8, 'o' as u8, 'l' as u8, 'u' as u8, 'l' as u8, 'u' as u8]) ==> named(c) == Some(seq!['P' as u8, 'a' as u8, 'c' as u8, 'i' as u8, 'f' as u8, 'i' as u8, 'c' as u8, '/' as u8, 'H' as u8, 'o' as u8, 'n' as u8, 'o' as u8, 'l' as u8, 'u' as u8, 'l' as u8, 'u' as u8]),
        tz_key(c) == seq!['t' as u8, 'o' as u8, 'r' as u8, 'o' as u8, 'n' as u8, 't' as u8, 'o' as u8] ==> named(c) == Some(seq!['A' as u8, 'm' as u8, 'e' as u8, 'r' as u8, 'i' as u8, 'c' as u8, 'a' as u8, '/' as u8, 'T' as u8, 'o' as u8, 'r' as u8, 'o' as u8, 'n' as u8, 't' as u8, 'o' as u8]),
        (tz_key(c) == seq!['u' as u8, 't' as u8, 'c' as u8] || tz_key(c) == seq!['u' as u8, 't' as u8] || tz_key(c) == seq!['z' as u8] || tz_key(c) == seq!['g' as u8, 'm' as u8, 't' as u8]) ==> named(c) == Some(seq!['U' as u8, 'T' as u8, 'C' as u8]),
        (tz_key(c) == seq!['b' as u8, 's' as u8, 't' as u8] || tz_key(c) == seq!['l' as u8, 'o' as u8, 'n' as u8, 'd' as u8, 'o' as u8, 'n' as u8]) ==> named(c) == Some(seq!['E' as u8, 'u' as u8, 'r' as u8, 'o' as u8, 'p' as u8, 'e' as u8, '/' as u8, 'L' as u8, 'o' as u8, 'n' as u8, 'd' as u8, 'o' as u8, 'n' as u8]),
        (tz_key(c) == seq!['c' as u8, 'e' as u8, 't' as u8] || tz_key(c) == seq!['c' as u8, 'e' as u8, 's' as u8, 't' as u8] || tz_key(c) == seq!['p' as u8, 'a' as u8, 'r' as u8, 'i' as u8, 's' as u8]) ==> named(c) == Some(seq!['E' as u8, 'u' as u8, 'r' as u8, 'o' as u8, 'p' as u8, 'e' as u8, '/' as u8, 'P' as u8, 'a' as u8, 'r' as u8, 'i' as u8, 's' as u8]),
        tz_key(c) == seq!['b' as u8, 'e' as u8, 'r' as u8, 'l' as u8, 'i' as u8, 'n' as u8] ==> named(c) == Some(seq!['E' as u8, 'u' as u8, 'r' as u8, 'o' as u8, 'p' as u8, 'e' as u8, '/' as u8, 'B' as u8, 'e' as u8, 'r' as u8, 'l' as u8, 'i' as u8, 'n' as u8]),
        tz_key(c) == seq!['a' as u8, 'm' as u8, 's' as u8, 't' as u8, 'e' as u8, 'r' as u8, 'd' as u8, 'a' as u8, 'm' as u8] ==> named(c) == Some(seq!['E' as u8, 'u' as u8, 'r' as u8, 'o' as u8, 'p' as u8, 'e' as u8, '/' as u8, 'A' as u8, 'm' as u8, 's' as u8, 't' as u8, 'e' as u8, 'r' as u8, 'd' as u8, 'a' as u8, 'm' as u8]),
        (tz_key(c) == seq!['i' as u8, 's' as u8, 't' as u8] || tz_key(c) == seq!['m' as u8, 'u' as u8, 'm' as u8, 'b' as u8, 'a' as u8, 'i' as u8]) ==> named(c) == Some(seq!['A' as u8, 's' as u8, 'i' as u8, 'a' as u8, '/' as u8, 'K' as u8, 'o' as u8, 'l' as u8, 'k' as u8, 'a' as u8, 't' as u8, 'a' as u8]),
        (tz_key(c) == seq!['j' as u8, 's' as u8, 't' as u8] || tz_key(c) == seq!['t' as u8, 'o' as u8, 'k' as u8, 'y' as u8, 'o' as u8]) ==> named(c) == Some(seq!['A' as u8, 's' as u8, 'i' as u8, 'a' as u8, '/' as u8, 'T' as u8, 'o' as u8, 'k' as u8, 'y' as u8, 'o' as u8]),
        (tz_key(c) == seq!['k' as u8, 's' as u8, 't' as u8] || tz_key(c) == seq!['s' as u8, 'e' as u8, 'o' as u8, 'u' as u8, 'l' as u8]) ==> named(c) == Some(seq!['A' as u8, 's' as u8, 'i' as u8, 'a' as u8, '/' as u8, 'S' as u8, 'e' as u8, 'o' as u8, 'u' as u8, 'l' as u8]),
        (tz_key(c) == seq!['h' as u8, 'k' as u8, 't' as u8] || tz_key(c) == seq!['h' as u8, 'o' as u8, 'n' as u8, 'g' as u8, '_' as u8, 'k' as u8, 'o' as u8, 'n' as u8, 'g' as u8]) ==> named(c) == Some(seq!['A' as u8, 's' as u8, 'i' as u8, 'a' as u8, '/' as u8, 'H' as u8, 'o' as u8, 'n' as u8, 'g' as u8, '_' as u8, 'K' as u8, 'o' as u8, 'n' as u8, 'g' as u8]),
        tz_key(c) == seq!['b' as u8, 'e' as u8, 'i' as u8, 'j' as u8, 'i' as u8, 'n' as u8, 'g' as u8] ==> named(c) == Some(seq!['A' as u8, 's' as u8, 'i' as u8, 'a' as u8, '/' as u8, 'S' as u8, 'h' as u8, 'a' as u8, 'n' as u8, 'g' as u8, 'h' as u8, 'a' as u8, 'i' as u8]),
        tz_key(c) == seq!['s' as u8, 'i' as u8, 'n' as u8, 'g' as u8, 'a' as u8, 'p' as u8, 'o' as u8, 'r' as u8, 'e' as u8] ==> named(c) == Some(seq!['A' as u8, 's' as u8, 'i' as u8, 'a' as u8, '/' as u8, 'S' as u8, 'i' as u8, 'n' as u8, 'g' as u8, 'a' as u8, 'p' as u8, 'o' as u8, 'r' as u8, 'e' as u8]),
        tz_key(c) == seq!['b' as u8, 'a' as u8, 'n' as u8, 'g' as u8, 'k' as u8, 'o' as u8, 'k' as u8] ==> named(c) == Some(seq!['A' as u8, 's' as u8, 'i' as u8, 'a' as u8, '/' as u8, 'B' as u8, 'a' as u8, 'n' as u8, 'g' as u8, 'k' as u8, 'o' as u8, 'k' as u8]),
        tz_key(c) == seq!['d' as u8, 'u' as u8, 'b' as u8, 'a' as u8, 'i' as u8] ==> named(c) == Some(seq!['A' as u8, 's' as u8, 'i' as u8, 'a' as u8, '/' as u8, 'D' as u8, 'u' as u8, 'b' as u8, 'a' as u8, 'i' as u8]),
        (tz_key(c) == seq!['a' as u8, 'e' as u8, 's' as u8, 't' as u8] || tz_key(c) == seq!['a' as u8, 'e' as u8, 'd' as u8, 't' as u8] || tz_key(c) == seq!['s' as u8, 'y' as u8, 'd' as u8, 'n' as u8, 'e' as u8, 'y' as u8]) ==> named(c) == Some(seq!['A' as u8, 'u' as u8, 's' as u8, 't' as u8, 'r' as u8, 'a' as u8, 'l' as u8, 'i' as u8, 'a' as u8, '/' as u8, 'S' as u8, 'y' as u8, 'd' as u8, 'n' as u8, 'e' as u8, 'y' as u8]),
        (tz_key(c) == seq!['n' as u8, 'z' as u8, 's' as u8, 't' as u8] || tz_key(c) == seq!['n' as u8, 'z' as u8, 'd' as u8, 't' as u8] || tz_key(c) == seq!['a' as u8, 'u' as u8, 'c' as u8, 'k' as u8, 'l' as u8, 'a' as u8, 'n' as u8, 'd' as u8]) ==> named(c) == Some(seq!['P' as u8, 'a' as u8, 'c' as u8, 'i' as u8, 'f' as u8, 'i' as u8, 'c' as u8, '/' as u8, 'A' as u8, 'u' as u8, 'c' as u8, 'k' as u8, 'l' as u8, 'a' as u8, 'n' as u8, 'd' as u8]),
{
    lemma_alias_names();
}

/// Aliases and abbreviations accepted for `-f`/`-t`, sorted by key: each
/// key with the zone it names.
pub fn timezone_aliases() -> (r: Vec<(String, String)>)
    ensures
        r@.len() == alias_table().len(),
        forall|k: int|
            0 <= k < r@.len() ==> encode_utf8((#[trigger] r@[k]).0@) == alias_table()[k].0
                && encode_utf8(r@[k].1@) == alias_table()[k].1,
{
    let tbl = alias_vec();
    proof {
        lemma_alias_ascii();
    }
    let mut out: Vec<(String, String)> = Vec::new();
    let mut k: usize = 0;
    while k < tbl.len()
        invariant
            k <= tbl@.len() == alias_table().len(),
            out@.len() == k,
            forall|j: int|
                0 <= j < tbl@.len() ==> (#[trigger] tbl@[j]).0@ == alias_table()[j].0 && tbl@[j].1@
                    == alias_table()[j].1,
            forall|j: int|
                0 <= j < alias_table().len() ==> is_ascii_bytes(#[trigger] alias_table()[j].0)
                    && is_ascii_bytes(alias_table()[j].1),
            forall|j: int|
                0 <= j < k ==> encode_utf8((#[trigger] out@[j]).0@) == alias_table()[j].0
                    && encode_utf8(out@[j].1@) == alias_table()[j].1,
        decreases tbl.len() - k,
    {
        let (key, name) = (&tbl[k].0, &tbl[k].1);
        assert(is_ascii_bytes(alias_table()[k as int].0));
        let ks = ascii_string(crate::text::copy_range(key.as_slice(), 0, key.len()));
        let ns = ascii_string(crate::text::copy_range(name.as_slice(), 0, name.len()));
        out.push((ks, ns));
        k += 1;
    }
    out
}

} // verus!
