//! Byte-level building blocks of the timestamp grammar: character classes,
//! literal tests, and the Unicode-aware word boundary that `\b` stands for.

use vstd::prelude::*;
use vstd::utf8::*;

verus! {

/// The byte at `i`, or NUL past either end. No class of the grammar holds
/// NUL, so a test on a byte beyond the text simply fails.
pub open spec fn byte(s: Seq<u8>, i: int) -> u8 {
    if 0 <= i < s.len() {
        s[i]
    } else {
        0
    }
}

pub fn byte_at(s: &[u8], i: usize) -> (r: u8)
    ensures
        r == byte(s@, i as int),
{
    if i < s.len() {
        s[i]
    } else {
        0
    }
}

pub open spec fn is_digit(b: u8) -> bool {
    '0' as u8 <= b <= '9' as u8
}

pub open spec fn is_upper(b: u8) -> bool {
    'A' as u8 <= b <= 'Z' as u8
}

pub open spec fn is_lower(b: u8) -> bool {
    'a' as u8 <= b <= 'z' as u8
}

pub open spec fn is_alpha(b: u8) -> bool {
    is_upper(b) || is_lower(b)
}

/// `[ \t]`
pub open spec fn is_blank(b: u8) -> bool {
    b == ' ' as u8 || b == '\t' as u8
}

/// ASCII whitespace, which is all `\s` can meet in the grammar's readings.
pub open spec fn is_ascii_space(b: u8) -> bool {
    b == ' ' as u8 || (9 <= b <= 13)
}

pub open spec fn is_sign(b: u8) -> bool {
    b == '+' as u8 || b == '-' as u8
}

/// `n` ASCII digits at `i`.
pub open spec fn digits_at(s: Seq<u8>, i: int, n: int) -> bool {
    forall|k: int| 0 <= k < n ==> #[trigger] is_digit(byte(s, i + k))
}

/// The value of the `n` ASCII digits at `i`.
pub open spec fn digits_value(s: Seq<u8>, i: int, n: nat) -> int
    decreases n,
{
    if n == 0 {
        0
    } else {
        digits_value(s, i, (n - 1) as nat) * 10 + (byte(s, i + n - 1) - '0' as u8)
    }
}

/// The lowercase of an ASCII letter; any other byte is itself.
pub open spec fn to_lower(b: u8) -> u8 {
    if is_upper(b) {
        (b + 32) as u8
    } else {
        b
    }
}

pub open spec fn to_upper(b: u8) -> u8 {
    if is_lower(b) {
        (b - 32) as u8
    } else {
        b
    }
}

pub fn lower_byte(b: u8) -> (r: u8)
    ensures
        r == to_lower(b),
{
    if 'A' as u8 <= b && b <= 'Z' as u8 {
        b + 32
    } else {
        b
    }
}

pub fn upper_byte(b: u8) -> (r: u8)
    ensures
        r == to_upper(b),
{
    if 'a' as u8 <= b && b <= 'z' as u8 {
        b - 32
    } else {
        b
    }
}

pub fn digit(b: u8) -> (r: bool)
    ensures
        r == is_digit(b),
{
    '0' as u8 <= b && b <= '9' as u8
}

pub fn digits(s: &[u8], i: usize, n: usize) -> (r: bool)
    requires
        i + n <= usize::MAX,
    ensures
        r == digits_at(s@, i as int, n as int),
{
    let mut k: usize = 0;
    while k < n
        invariant
            k <= n,
            i + n <= usize::MAX,
            forall|j: int| 0 <= j < k ==> #[trigger] is_digit(byte(s@, i + j)),
        decreases n - k,
    {
        if !digit(byte_at(s, i + k)) {
            return false;
        }
        k += 1;
    }
    true
}

/// The value of up to four ASCII digits, as the grammar's fields have.
pub fn digits_num(s: &[u8], i: usize, n: usize) -> (r: u32)
    requires
        n <= 4,
        i + n <= usize::MAX,
        digits_at(s@, i as int, n as int),
    ensures
        r == digits_value(s@, i as int, n as nat),
        r < 10000,
        n <= 1 ==> r < 10,
        n <= 2 ==> r < 100,
        n <= 3 ==> r < 1000,
{
    let mut k: usize = 0;
    let mut v: u32 = 0;
    while k < n
        invariant
            k <= n <= 4,
            i + n <= usize::MAX,
            digits_at(s@, i as int, n as int),
            v == digits_value(s@, i as int, k as nat),
            v < 10000,
            k == 0 ==> v == 0,
            k == 1 ==> v < 10,
            k == 2 ==> v < 100,
            k == 3 ==> v < 1000,
            k <= 1 ==> v < 10,
            k <= 2 ==> v < 100,
            k <= 3 ==> v < 1000,
        decreases n - k,
    {
        let b = byte_at(s, i + k);
        assert(is_digit(byte(s@, i + k)));
        v = v * 10 + (b - '0' as u8) as u32;
        k += 1;
    }
    v
}

// --- the word boundary --------------------------------------------------

/// What the outside word class says of a scalar: a Unicode word character,
/// in the sense of UTS#18 Annex C.
pub uninterp spec fn unicode_word_scalar(cp: u32) -> bool;

/// `[_0-9A-Za-z]`, the word characters among the ASCII ones.
pub open spec fn ascii_word(b: u8) -> bool {
    is_digit(b) || is_alpha(b) || b == '_' as u8
}

pub open spec fn word_scalar(cp: u32) -> bool {
    if cp < 128 {
        ascii_word(cp as u8)
    } else {
        unicode_word_scalar(cp)
    }
}

/// `regex_syntax::is_word_character`: whether a scalar is a Unicode word
/// character. The claim is only that the answer is a function of the scalar,
/// named `unicode_word_scalar`.
#[verifier::external_body]
fn unicode_word_character(cp: u32) -> (r: bool)
    requires
        is_scalar(cp),
    ensures
        r == unicode_word_scalar(cp),
{
    match char::from_u32(cp) {
        Some(c) => regex_syntax::is_word_character(c),
        None => false,
    }
}

/// The text from `at` on begins with a well-formed scalar that is a word
/// character.
pub open spec fn word_after(s: Seq<u8>, at: int) -> bool {
    let t = s.subrange(at, s.len() as int);
    t.len() > 0 && valid_first_scalar(t) && word_scalar(decode_first_scalar(t))
}

/// Where the last scalar before `at` starts: back over at most three
/// continuation bytes.
pub open spec fn rev_start(s: Seq<u8>, start: int, limit: int) -> int
    decreases start - limit,
{
    if start > limit && is_continuation_byte(s[start]) {
        rev_start(s, start - 1, limit)
    } else {
        start
    }
}

/// The scalar that ends at `at` is a word character.
pub open spec fn word_before(s: Seq<u8>, at: int) -> bool {
    if at <= 0 {
        false
    } else {
        let limit = if at >= 4 { at - 4 } else { 0 };
        let st = rev_start(s, at - 1, limit);
        let t = s.subrange(st, at);
        valid_first_scalar(t) && word_scalar(decode_first_scalar(t))
    }
}

/// `\b` at `at`: a word character on exactly one side.
pub open spec fn boundary(s: Seq<u8>, at: int) -> bool {
    word_before(s, at) != word_after(s, at)
}

/// The scalar at the front of `s[from..to]` when it is well formed.
fn first_scalar(s: &[u8], from: usize, to: usize) -> (r: Option<u32>)
    requires
        from <= to <= s.len(),
    ensures
        ({
            let t = s@.subrange(from as int, to as int);
            match r {
                Some(cp) => t.len() > 0 && valid_first_scalar(t) && cp == decode_first_scalar(t)
                    && is_scalar(cp),
                None => !(t.len() > 0 && valid_first_scalar(t)),
            }
        }),
{
    let ghost t = s@.subrange(from as int, to as int);
    if from == to {
        return None;
    }
    let b0 = s[from];
    let n = to - from;
    assert(t[0] == b0);
    if b0 <= 0x7f {
        let cp = (b0 & 0x7f) as u32;
        assert(cp == b0 as u32) by (bit_vector)
            requires
                b0 <= 0x7f,
                cp == (b0 & 0x7f) as u32,
        ;
        return Some(cp);
    }
    if 0xc0 <= b0 && b0 <= 0xdf {
        if n < 2 || !(0x80 <= s[from + 1] && s[from + 1] <= 0xbf) {
            return None;
        }
        let b1 = s[from + 1];
        assert(t[1] == b1);
        let cp = (((b0 & 0x1f) as u32) << 6) | ((b1 & 0x3f) as u32);
        if cp < 0x80 {
            return None;
        }
        assert(cp < 0x800) by (bit_vector)
            requires
                cp == (((b0 & 0x1f) as u32) << 6) | ((b1 & 0x3f) as u32),
        ;
        return Some(cp);
    }
    if 0xe0 <= b0 && b0 <= 0xef {
        if n < 3 || !(0x80 <= s[from + 1] && s[from + 1] <= 0xbf) || !(0x80 <= s[from + 2]
            && s[from + 2] <= 0xbf) {
            return None;
        }
        let b1 = s[from + 1];
        let b2 = s[from + 2];
        assert(t[1] == b1 && t[2] == b2);
        let cp = (((b0 & 0x0f) as u32) << 12) | (((b1 & 0x3f) as u32) << 6) | ((b2 & 0x3f) as u32);
        if cp < 0x800 || (0xd800 <= cp && cp <= 0xdfff) {
            return None;
        }
        assert(cp < 0x10000) by (bit_vector)
            requires
                cp == (((b0 & 0x0f) as u32) << 12) | (((b1 & 0x3f) as u32) << 6) | ((b2
                    & 0x3f) as u32),
        ;
        return Some(cp);
    }
    if 0xf0 <= b0 && b0 <= 0xf7 {
        if n < 4 || !(0x80 <= s[from + 1] && s[from + 1] <= 0xbf) || !(0x80 <= s[from + 2]
            && s[from + 2] <= 0xbf) || !(0x80 <= s[from + 3] && s[from + 3] <= 0xbf) {
            return None;
        }
        let b1 = s[from + 1];
        let b2 = s[from + 2];
        let b3 = s[from + 3];
        assert(t[1] == b1 && t[2] == b2 && t[3] == b3);
        let cp = (((b0 & 0x07) as u32) << 18) | (((b1 & 0x3f) as u32) << 12) | (((b2
            & 0x3f) as u32) << 6) | ((b3 & 0x3f) as u32);
        if cp < 0x10000 || cp > 0x10ffff {
            return None;
        }
        return Some(cp);
    }
    None
}

fn scalar_is_word(cp: u32) -> (r: bool)
    requires
        is_scalar(cp),
    ensures
        r == word_scalar(cp),
{
    if cp < 128 {
        let b = cp as u8;
        ('0' as u8 <= b && b <= '9' as u8) || ('a' as u8 <= b && b <= 'z' as u8) || ('A' as u8
            <= b && b <= 'Z' as u8) || b == '_' as u8
    } else {
        unicode_word_character(cp)
    }
}

pub fn is_word_after(s: &[u8], at: usize) -> (r: bool)
    requires
        at <= s.len(),
    ensures
        r == word_after(s@, at as int),
{
    match first_scalar(s, at, s.len()) {
        Some(cp) => scalar_is_word(cp),
        None => false,
    }
}

pub fn is_word_before(s: &[u8], at: usize) -> (r: bool)
    requires
        at <= s.len(),
    ensures
        r == word_before(s@, at as int),
{
    if at == 0 {
        return false;
    }
    let limit: usize = if at >= 4 { at - 4 } else { 0 };
    let mut st: usize = at - 1;
    while st > limit && 0x80 <= s[st] && s[st] <= 0xbf
        invariant
            limit <= st < at <= s.len(),
            rev_start(s@, st as int, limit as int) == rev_start(s@, at - 1, limit as int),
        decreases st,
    {
        st -= 1;
    }
    match first_scalar(s, st, at) {
        Some(cp) => scalar_is_word(cp),
        None => false,
    }
}

/// `\b`
pub fn is_boundary(s: &[u8], at: usize) -> (r: bool)
    requires
        at <= s.len(),
    ensures
        r == boundary(s@, at as int),
{
    is_word_before(s, at) != is_word_after(s, at)
}

/// The byte `k` past `p`, computed without overflowing a position.
pub fn bat(s: &[u8], p: usize, k: usize) -> (r: u8)
    ensures
        r == byte(s@, p + k),
        s@.len() <= usize::MAX,
{
    if p < s.len() && k < s.len() - p {
        s[p + k]
    } else {
        0
    }
}

/// An ASCII digit `k` past `p`.
pub fn dg(s: &[u8], p: usize, k: usize) -> (r: bool)
    ensures
        r == is_digit(byte(s@, p + k)),
{
    digit(bat(s, p, k))
}

/// `\b` at a position that lies within the text.
pub open spec fn bnd(s: Seq<u8>, at: int) -> bool {
    0 <= at <= s.len() && boundary(s, at)
}

/// `\b` `k` past `p`.
pub fn bnd_at(s: &[u8], p: usize, k: usize) -> (r: bool)
    ensures
        r == bnd(s@, p + k),
        s@.len() <= usize::MAX,
{
    if p <= s.len() && k <= s.len() - p {
        is_boundary(s, p + k)
    } else {
        false
    }
}

/// Two decimal digits, zero-padded.
pub open spec fn pad2(v: int) -> Seq<u8> {
    seq![('0' as u8 + v / 10) as u8, ('0' as u8 + v % 10) as u8]
}

/// Four decimal digits, zero-padded.
pub open spec fn pad4(v: int) -> Seq<u8> {
    pad2(v / 100) + pad2(v % 100)
}

pub fn push_range(out: &mut Vec<u8>, s: &[u8], a: usize, b: usize)
    requires
        a <= b <= s.len(),
    ensures
        final(out)@ == old(out)@ + s@.subrange(a as int, b as int),
{
    let ghost start = out@;
    let mut k = a;
    while k < b
        invariant
            a <= k <= b <= s.len(),
            out@ == start + s@.subrange(a as int, k as int),
        decreases b - k,
    {
        out.push(s[k]);
        assert(s@.subrange(a as int, k + 1) =~= s@.subrange(a as int, k as int).push(s@[k as int]));
        k += 1;
    }
}

pub fn push_all(out: &mut Vec<u8>, s: &[u8])
    ensures
        final(out)@ == old(out)@ + s@,
{
    push_range(out, s, 0, s.len());
    assert(s@.subrange(0, s@.len() as int) =~= s@);
}

pub fn push_pad2(out: &mut Vec<u8>, v: u32)
    requires
        v < 100,
    ensures
        final(out)@ == old(out)@ + pad2(v as int),
{
    out.push(('0' as u8 + (v / 10) as u8) as u8);
    out.push(('0' as u8 + (v % 10) as u8) as u8);
    assert(out@ =~= old(out)@ + pad2(v as int));
}

pub fn push_pad4(out: &mut Vec<u8>, v: u32)
    requires
        v < 10000,
    ensures
        final(out)@ == old(out)@ + pad4(v as int),
{
    push_pad2(out, v / 100);
    push_pad2(out, v % 100);
    assert(out@ =~= old(out)@ + pad4(v as int));
}

/// The bytes of `s` from `a` to `b`, as a new vector.
pub fn copy_range(s: &[u8], a: usize, b: usize) -> (r: Vec<u8>)
    requires
        a <= b <= s.len(),
    ensures
        r@ == s@.subrange(a as int, b as int),
{
    let mut r: Vec<u8> = Vec::new();
    push_range(&mut r, s, a, b);
    assert(r@ =~= s@.subrange(a as int, b as int));
    r
}

/// `\b` at `p`.
pub fn bnd_here(s: &[u8], p: usize) -> (r: bool)
    ensures
        r == bnd(s@, p as int),
{
    p <= s.len() && is_boundary(s, p)
}

} // verus!
