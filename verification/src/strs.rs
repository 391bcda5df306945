//! Text as `String`: bytes that are UTF-8 become one, and ASCII always is.

use vstd::prelude::*;
use vstd::utf8::*;
use vstd::string::StringSliceAdditionalSpecFns;

verus! {

/// Every byte is ASCII.
pub open spec fn is_ascii_bytes(b: Seq<u8>) -> bool {
    forall|i: int| 0 <= i < b.len() ==> #[trigger] b[i] < 128
}

/// ASCII is UTF-8.
pub proof fn lemma_ascii_utf8(b: Seq<u8>)
    requires
        is_ascii_bytes(b),
    ensures
        valid_utf8(b),
    decreases b.len(),
{
    if b.len() > 0 {
        assert(is_leading_byte_width_1(b[0]));
        let rest = pop_first_scalar(b);
        assert(rest =~= b.subrange(1, b.len() as int));
        assert(is_ascii_bytes(rest)) by {
            assert forall|i: int| 0 <= i < rest.len() implies #[trigger] rest[i] < 128 by {
                assert(rest[i] == b[i + 1]);
            }
        }
        lemma_ascii_utf8(rest);
    }
}

/// The bytes, if they are UTF-8, as a `String`: `String::from_utf8`.
/// Claimed: there is one exactly when the bytes are UTF-8, and it holds them.
#[verifier::external_body]
pub(crate) fn utf8_string(v: Vec<u8>) -> (r: Option<String>)
    ensures
        r is Some <==> valid_utf8(v@),
        r matches Some(s) ==> encode_utf8(s@) == v@,
{
    String::from_utf8(v).ok()
}

/// ASCII bytes as a `String`.
pub fn ascii_string(v: Vec<u8>) -> (r: String)
    requires
        is_ascii_bytes(v@),
    ensures
        encode_utf8(r@) == v@,
{
    proof {
        lemma_ascii_utf8(v@);
    }
    match utf8_string(v) {
        Some(s) => s,
        None => String::new(),
    }
}

/// A leading `:`.
pub open spec fn has_colon(c: Seq<char>) -> bool {
    c.len() > 0 && c[0] == ':'
}

/// `s` without a leading `:`, as POSIX spells `TZ`: `str::strip_prefix`.
/// Claimed: the characters after a leading colon, or all of them.
#[verifier::external_body]
pub(crate) fn strip_colon(s: &str) -> (r: &str)
    ensures
        has_colon(s@) ==> r@ == s@.drop_first(),
        !has_colon(s@) ==> r@ == s@,
{
    s.strip_prefix(':').unwrap_or(s)
}

/// What `str::to_lowercase` makes of a string: lowercase as Unicode defines
/// it, which takes tables to state.
pub uninterp spec fn unicode_lowercase(s: Seq<char>) -> Seq<char>;

/// Every character is ASCII.
pub open spec fn ascii_chars(c: Seq<char>) -> bool {
    forall|i: int| 0 <= i < c.len() ==> (#[trigger] c[i]) as u32 <= 127
}

/// A character with `A`-`Z` made `a`-`z`.
pub open spec fn ascii_lower_char(ch: char) -> char {
    if 65 <= ch as u32 <= 90 {
        ((ch as u32) + 32) as char
    } else {
        ch
    }
}

/// `str::to_lowercase`. Claimed: the result is named, as a function of the
/// text alone; and of ASCII text it is the text with `A`-`Z` made `a`-`z`,
/// as Unicode lowercases ASCII.
#[verifier::external_body]
pub(crate) fn to_lowercase(s: &str) -> (r: String)
    ensures
        r@ == unicode_lowercase(s@),
        ascii_chars(s@) ==> r@ == s@.map_values(|ch: char| ascii_lower_char(ch)),
{
    s.to_lowercase()
}

} // verus!
