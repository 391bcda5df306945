//! What `-v` says of a line: the zone abbreviations written after a
//! timestamp but not read because of their case, and what converting the
//! line has to assume — today's date, the source zone.

use vstd::prelude::*;
use vstd::utf8::encode_utf8;
use crate::found::{find_stamps, spans_view, stamps_from};
use crate::scan::{alpha_end, alpha_end_at};
use crate::strs::{ascii_string, is_ascii_bytes};
use crate::text::{bat, byte, copy_range, is_lower, is_upper, is_word_after, word_after};
use crate::civil::{today_date, today_in, today_zone, valid_date, zone_fixed_at, zone_name, Today, Zone};
use crate::convert::{alias_zone, anchor_of, naive_zone, opt_zone};
use crate::format::{push_year, year_text};
use crate::parts::{detected_zone, detected_zone_of, time_only, time_only_at};
use crate::stamps::{timestamps, timestamps_of, sview};
use crate::text::{pad2, push_pad2};
use crate::zones::{zone_offset_seconds, bytes_eq, lower_copy, lower_seq, table_contains, upper_copy, upper_seq, zone_abbreviations, zone_listed};

verus! {

/// The word written right after a timestamp ending at `e`: after at most
/// one space, two to four ASCII letters that end at a word boundary.
pub open spec fn trailing_word(s: Seq<u8>, e: int) -> Option<(int, int)> {
    let p = if byte(s, e) == ' ' as u8 {
        e + 1
    } else {
        e
    };
    let q = alpha_end(s, p);
    if 2 <= q - p <= 4 && !word_after(s, q) {
        Some((p, q))
    } else {
        None
    }
}

/// Neither all uppercase nor all lowercase.
pub open spec fn mixed_case(t: Seq<u8>) -> bool {
    t != upper_seq(t) && t != lower_seq(t)
}

/// The words ignored for their case so far, `prev`, and the one written
/// after a timestamp ending at `e`, if it is ignored and not listed yet.
pub open spec fn ignored_next(s: Seq<u8>, prev: Seq<Seq<u8>>, e: int) -> Seq<Seq<u8>> {
    match trailing_word(s, e) {
        Some((p, q)) => {
            let t = s.subrange(p, q);
            if mixed_case(t) && zone_abbreviations().contains(upper_seq(t)) && !prev.contains(t) {
                prev.push(t)
            } else {
                prev
            }
        },
        None => prev,
    }
}

/// The words ignored for their case after the first `k` timestamps found:
/// each a zone abbreviation once uppercased, each listed once, in the order
/// first written.
pub open spec fn ignored_upto(s: Seq<u8>, sp: Seq<(int, int)>, k: int) -> Seq<Seq<u8>>
    decreases k,
{
    if k <= 0 {
        seq![]
    } else {
        ignored_next(s, ignored_upto(s, sp, k - 1), sp[k - 1].1)
    }
}

pub open spec fn tview(v: Seq<Vec<u8>>) -> Seq<Seq<u8>> {
    Seq::new(v.len(), |k: int| v[k]@)
}

/// ASCII text, each of them.
pub open spec fn all_ascii(v: Seq<Vec<u8>>) -> bool {
    forall|k: int| 0 <= k < v.len() ==> is_ascii_bytes((#[trigger] v[k])@)
}

/// Adds the word after a timestamp ending at `e` when it is ignored for its
/// case and not listed yet.
fn ignored_step(line: &[u8], e: usize, tokens: &mut Vec<Vec<u8>>)
    requires
        all_ascii(old(tokens)@),
    ensures
        tview(final(tokens)@) == ignored_next(line@, tview(old(tokens)@), e as int),
        all_ascii(final(tokens)@),
{
    let ghost prev = tview(tokens@);
    if e > line.len() {
        return;
    }
    let p = if bat(line, e, 0) == ' ' as u8 {
        e + 1
    } else {
        e
    };
    assert(e + 0 == e);
    if p > line.len() {
        return;
    }
    let q = alpha_end_at(line, p);
    if q - p >= 2 && q - p <= 4 && !is_word_after(line, q) {
        let tok = copy_range(line, p, q);
        let up = upper_copy(line, p, q);
        let lo = lower_copy(line, p, q);
        if !bytes_eq(tok.as_slice(), up.as_slice()) && !bytes_eq(tok.as_slice(), lo.as_slice())
            && zone_listed(up.as_slice()) && !table_contains(tokens, Ghost(prev), tok.as_slice()) {
            proof {
                assert forall|k: int| 0 <= k < tok@.len() implies #[trigger] tok@[k] < 128 by {
                    lemma_alpha_letters(line@, p as int, p + k);
                }
            }
            tokens.push(tok);
            assert(tview(tokens@) =~= prev.push(line@.subrange(p as int, q as int)));
        }
    }
}

/// The zone abbreviations of a line ignored for their case.
pub open spec fn ignored(s: Seq<u8>) -> Seq<Seq<u8>> {
    let sp = stamps_from(s, 0);
    ignored_upto(s, sp, sp.len() as int)
}

proof fn lemma_alpha_letters(s: Seq<u8>, p: int, k: int)
    requires
        0 <= p <= k < alpha_end(s, p),
    ensures
        k < s.len(),
        is_upper(s[k]) || is_lower(s[k]),
    decreases k - p,
{
    if k > p {
        lemma_alpha_letters(s, p + 1, k);
    }
}

/// Zone abbreviations written right after a timestamp but not read as one
/// because of their case (`Pst`), each once, in the order written.
pub fn ignored_zones(line: &[u8]) -> (r: Vec<String>)
    ensures
        r@.len() == ignored(line@).len(),
        forall|k: int| 0 <= k < r@.len() ==> encode_utf8((#[trigger] r@[k])@) == ignored(line@)[k],
{
    let spans = find_stamps(line);
    let ghost sp = stamps_from(line@, 0);
    let mut tokens: Vec<Vec<u8>> = Vec::new();
    let mut i: usize = 0;
    assert(tview(tokens@) =~= ignored_upto(line@, sp, 0));
    while i < spans.len()
        invariant
            spans_view(spans@) == sp,
            sp == stamps_from(line@, 0),
            i <= spans@.len(),
            tview(tokens@) == ignored_upto(line@, sp, i as int),
            all_ascii(tokens@),
        decreases spans.len() - i,
    {
        let e = spans[i].1;
        assert(sp[i as int].1 == e as int);
        ignored_step(line, e, &mut tokens);
        i += 1;
    }
    assert(tokens@.len() == tview(tokens@).len());
    let mut out: Vec<String> = Vec::new();
    let mut k: usize = 0;
    while k < tokens.len()
        invariant
            k <= tokens@.len(),
            tview(tokens@) == ignored(line@),
            all_ascii(tokens@),
            out@.len() == k,
            forall|j: int| 0 <= j < k ==> encode_utf8((#[trigger] out@[j])@) == ignored(line@)[j],
        decreases tokens.len() - k,
    {
        let t = copy_range(tokens[k].as_slice(), 0, tokens[k].len());
        assert(t@ =~= tokens@[k as int]@);
        assert(tview(tokens@)[k as int] == tokens@[k as int]@);
        out.push(ascii_string(t));
        k += 1;
    }
    out
}

/// Which assumptions a line's timestamps force on us, for `-v` to
/// disclose. The two are separate because they are assumed for separate
/// reasons.
#[derive(Clone, Copy, Debug, PartialEq, Eq, Structural)]
pub struct Assumptions {
    /// A timestamp carries no date, so DST in the target zone is resolved
    /// against today.
    pub date: bool,
    /// A timestamp carries no zone, so its source zone came from `$TZ`.
    pub zone: bool,
}

impl Default for Assumptions {
    fn default() -> (r: Self)
        ensures
            !r.date && !r.zone,
    {
        Assumptions { date: false, zone: false }
    }
}

/// Whether anything at all is assumed.
pub open spec fn assumes_any(a: Assumptions) -> bool {
    a.date || a.zone
}

/// What `a` assumes that `d` does not.
pub open spec fn assumed_minus(a: Assumptions, d: Assumptions) -> Assumptions {
    Assumptions { date: a.date && !d.date, zone: a.zone && !d.zone }
}

/// What either one assumes.
pub open spec fn assumed_union(a: Assumptions, b: Assumptions) -> Assumptions {
    Assumptions { date: a.date || b.date, zone: a.zone || b.zone }
}

impl Assumptions {
    /// Whether anything at all is being assumed.
    pub fn any(self) -> (r: bool)
        ensures
            r == assumes_any(self),
    {
        self.date || self.zone
    }

    /// The assumptions in `self` that `already` does not cover: what is
    /// left to say after an earlier line has spoken.
    pub fn minus(self, already: Self) -> (r: Self)
        ensures
            r == assumed_minus(self, already),
    {
        Assumptions { date: self.date && !already.date, zone: self.zone && !already.zone }
    }

    /// Everything either one assumes.
    pub fn union(self, other: Self) -> (r: Self)
        ensures
            r == assumed_union(self, other),
    {
        Assumptions { date: self.date || other.date, zone: self.zone || other.zone }
    }
}

/// Once what is new in `a` after `d` is added to `d`, nothing of `a` is
/// left to say: each assumption is disclosed once.
pub proof fn law_disclosed_once(a: Assumptions, d: Assumptions)
    ensures
        !assumes_any(assumed_minus(a, assumed_union(d, assumed_minus(a, d)))),
{
}

/// What is new in `a` after `d`, together with `d`, is everything the two
/// assume, and shares nothing with `d`: nothing is lost by saying only what
/// is new, and nothing is said twice.
pub proof fn law_minus_union(a: Assumptions, d: Assumptions)
    ensures
        assumed_union(assumed_minus(a, d), d) == assumed_union(a, d),
        assumed_minus(assumed_minus(a, d), d) == assumed_minus(a, d),
        !(assumed_minus(a, d).date && d.date) && !(assumed_minus(a, d).zone && d.zone),
{
}

/// Something is new only when something is assumed, and nothing is new
/// after everything.
pub proof fn law_minus_any(a: Assumptions, d: Assumptions)
    ensures
        assumes_any(assumed_minus(a, d)) ==> assumes_any(a),
        !assumes_any(assumed_minus(a, assumed_union(a, d))),
        assumed_minus(a, Assumptions { date: false, zone: false }) == a,
{
}

/// Some timestamp of the line has no date.
pub open spec fn assumes_date(s: Seq<u8>) -> bool {
    exists|k: int| 0 <= k < timestamps(s).len() && time_only(#[trigger] timestamps(s)[k].effective)
}

/// Some timestamp of the line has neither a date nor a zone, so its source
/// zone is assumed too.
pub open spec fn assumes_zone(s: Seq<u8>) -> bool {
    exists|k: int|
        0 <= k < timestamps(s).len() && time_only(#[trigger] timestamps(s)[k].effective) && detected_zone(
            timestamps(s)[k].effective,
        ) is None
}

/// What converting `line` would have to assume. See [`Assumptions`].
pub fn assumptions(line: &[u8]) -> (r: Assumptions)
    ensures
        r.date == assumes_date(line@),
        r.zone == assumes_zone(line@),
{
    let ts = timestamps_of(line);
    let ghost tv = timestamps(line@);
    let mut date = false;
    let mut zone = false;
    let mut k: usize = 0;
    while k < ts.len()
        invariant
            sview(ts@) == tv,
            tv == timestamps(line@),
            k <= ts@.len(),
            date == exists|j: int| 0 <= j < k && time_only(#[trigger] tv[j].effective),
            zone == exists|j: int| 0 <= j < k && time_only(#[trigger] tv[j].effective) && detected_zone(tv[j].effective) is None,
        decreases ts.len() - k,
    {
        assert(tv[k as int] == ts@[k as int]@);
        let ghost kk = k as int;
        let dateless = time_only_at(ts[k].effective.as_slice());
        if dateless {
            date = true;
            assert(time_only(tv[kk].effective));
        }
        if dateless && detected_zone_of(ts[k].effective.as_slice()).is_none() {
            zone = true;
            assert(detected_zone(tv[kk].effective) is None);
        }
        k += 1;
        assert(date == exists|j: int| 0 <= j < k && time_only(#[trigger] tv[j].effective)) by {
            if date {
                if !time_only(tv[kk].effective) {
                    let w = choose|j: int| 0 <= j < kk && time_only(#[trigger] tv[j].effective);
                    assert(0 <= w < k && time_only(tv[w].effective));
                }
            }
        }
        assert(zone == exists|j: int| 0 <= j < k && time_only(#[trigger] tv[j].effective) && detected_zone(tv[j].effective) is None) by {
            if zone {
                if !(time_only(tv[kk].effective) && detected_zone(tv[kk].effective) is None) {
                    let w = choose|j: int| 0 <= j < kk && time_only(#[trigger] tv[j].effective) && detected_zone(tv[j].effective) is None;
                    assert(0 <= w < k && time_only(tv[w].effective) && detected_zone(tv[w].effective) is None);
                }
            }
        }
    }
    Assumptions { date, zone }
}

/// A zone is never assumed without a date: the zone flag is set only for
/// a timestamp that lacks its date too.
pub proof fn law_zone_only_with_date(s: Seq<u8>)
    ensures
        assumes_zone(s) ==> assumes_date(s),
{
}

/// `YYYY-MM-DD`, the year as `%Y` writes it.
pub open spec fn date_text(y: int, m: int, d: int) -> Seq<u8> {
    year_text(y) + seq!['-' as u8] + pad2(m) + seq!['-' as u8] + pad2(d)
}

pub fn date_string(y: i16, m: i8, d: i8) -> (r: String)
    requires
        valid_date(y as int, m as int, d as int),
    ensures
        encode_utf8(r@) == date_text(y as int, m as int, d as int),
{
    let mut v: Vec<u8> = Vec::new();
    push_year(&mut v, y);
    v.push('-' as u8);
    push_pad2(&mut v, m as u32);
    v.push('-' as u8);
    push_pad2(&mut v, d as u32);
    assert(v@ =~= date_text(y as int, m as int, d as int));
    assert(is_ascii_bytes(v@)) by {
        assert forall|i: int| 0 <= i < v@.len() implies #[trigger] v@[i] < 128 by {
            let yt = year_text(y as int);
            if i < yt.len() {
                assert(v@[i] == yt[i]);
            }
        }
    }
    ascii_string(v)
}

/// `t` is the date of `td`, drawn in the zone `tz` resolves to.
pub open spec fn today_for(tz: Seq<char>, td: Today, z: Zone, t: Seq<u8>) -> bool {
    &&& crate::tz::resolved_zone(tz, z)
    &&& today_zone(td) == z
    &&& valid_date(today_date(td).0, today_date(td).1, today_date(td).2)
    &&& t == date_text(today_date(td).0, today_date(td).1, today_date(td).2)
}

/// Today's date in `tz` as `YYYY-MM-DD`: the date a date-less timestamp is
/// resolved against when no reference date is given. Which date it is rests
/// on the clock; it is drawn in the zone `tz` resolves to.
pub fn today_in_zone(tz: &str) -> (r: String)
    ensures
        exists|td: Today, z: Zone| #[trigger] today_for(tz@, td, z, encode_utf8(r@)),
{
    let z = crate::tz::resolve_zone(tz);
    let td = today_in(&z);
    let (y, m, d) = td.date();
    let r = date_string(y, m, d);
    assert(today_for(tz@, td, z, encode_utf8(r@)));
    r
}

/// Where the first date-less timestamp of a line sits among its
/// timestamps.
pub open spec fn first_dateless(ts: Seq<crate::stamps::StampV>, k: int) -> bool {
    0 <= k < ts.len() && time_only(ts[k].effective) && forall|j: int|
        0 <= j < k ==> !time_only(#[trigger] ts[j].effective)
}

/// The line's first date-less timestamp is read on today's date in a zone
/// that always loads: the source or output zone, or a fixed offset of its
/// own that `jiff` allows.
pub open spec fn dated_today(s: Seq<u8>) -> bool {
    exists|k: int|
        #[trigger] first_dateless(timestamps(s), k) && match detected_zone(timestamps(s)[k].effective) {
            None => true,
            Some(z) => zone_offset_seconds(z) matches Some(o) && -93599 <= o <= 93599,
        }
}

/// A zone token, or nothing when a reading names none.
pub open spec fn token_of(e: Seq<u8>) -> Seq<u8> {
    match detected_zone(e) {
        Some(z) => z,
        None => seq![],
    }
}

/// `z` is the zone a reading with zone token `token` is anchored in: the
/// source zone or else the output zone when it names none, the fixed
/// offset it names, or the zone its abbreviation is an alias of.
pub open spec fn anchored_in(token: Seq<u8>, from: Option<Zone>, to: Zone, z: Zone) -> bool {
    if token.len() == 0 {
        z == naive_zone(from, to)
    } else {
        match zone_offset_seconds(token) {
            Some(o) => zone_fixed_at(z) == Some(o) && zone_name(z) is None,
            None => alias_zone(token, z),
        }
    }
}

/// `t` is the date of `td`, drawn in the zone the `k`th timestamp of `s`,
/// its first date-less one, is anchored in, `to` and `from` being the zones
/// `to_text` and `from_text` resolve to.
pub open spec fn assumed_for(
    s: Seq<u8>,
    from_text: Option<Seq<char>>,
    to_text: Seq<char>,
    k: int,
    td: Today,
    to: Zone,
    from: Option<Zone>,
    t: Seq<u8>,
) -> bool {
    &&& first_dateless(timestamps(s), k)
    &&& crate::zones_for(to_text, from_text, to, from)
    &&& anchored_in(token_of(timestamps(s)[k].effective), from, to, today_zone(td))
    &&& valid_date(today_date(td).0, today_date(td).1, today_date(td).2)
    &&& t == date_text(today_date(td).0, today_date(td).1, today_date(td).2)
}

/// The date `-v` says it assumed for this line's first date-less
/// timestamp: today where it was written, in the zone it names, else the
/// source zone, else the output zone. Which date it is rests on the clock.
/// The first date-less timestamp of a line and its zone token, if it has
/// one.
fn first_dateless_token(line: &[u8]) -> (r: Option<(usize, Vec<u8>)>)
    ensures
        r is None ==> !assumes_date(line@),
        r matches Some((k, tok)) ==> first_dateless(timestamps(line@), k as int) && tok@ == token_of(
            timestamps(line@)[k as int].effective,
        ),
        r matches Some((k, tok)) ==> forall|j: int| #[trigger] first_dateless(timestamps(line@), j) ==> j == k,
{
    let ts = timestamps_of(line);
    let ghost tv = timestamps(line@);
    let mut k: usize = 0;
    let mut found = false;
    while k < ts.len() && !found
        invariant
            sview(ts@) == tv,
            tv == timestamps(line@),
            k <= ts@.len(),
            found ==> k < ts@.len() && time_only(tv[k as int].effective),
            forall|j: int| 0 <= j < k ==> !time_only(#[trigger] tv[j].effective),
        decreases ts.len() - k + if found { 0int } else { 1int },
    {
        assert(tv[k as int] == ts@[k as int]@);
        if time_only_at(ts[k].effective.as_slice()) {
            found = true;
        } else {
            k += 1;
        }
    }
    if !found {
        assert(!assumes_date(line@));
        return None;
    }
    assert(tv[k as int] == ts@[k as int]@);
    assert(first_dateless(tv, k as int));
    assert forall|j: int| first_dateless(tv, j) implies j == k by {
        if j < k {
        } else if j > k {
            assert(!time_only(tv[k as int].effective));
        }
    }
    let token = match detected_zone_of(ts[k].effective.as_slice()) {
        Some(z) => z,
        None => Vec::new(),
    };
    Some((k, token))
}

#[verifier::rlimit(80)]
#[verifier::spinoff_prover]
pub fn assumed_date(line: &[u8], from: Option<&str>, to: &str) -> (r: Option<String>)
    ensures
        !assumes_date(line@) ==> r is None,
        r matches Some(t) ==> assumes_date(line@) && exists|y: int, m: int, d: int|
            valid_date(y, m, d) && encode_utf8(t@) == date_text(y, m, d),
        r matches Some(t) ==> exists|k: int, td: Today, to_z: Zone, from_z: Option<Zone>|
            #[trigger] assumed_for(line@, crate::str_chars(from), to@, k, td, to_z, from_z, encode_utf8(t@)),
        dated_today(line@) ==> r is Some,
{
    let (k, token) = match first_dateless_token(line) {
        Some(x) => x,
        None => return None,
    };
    proof {
        if let Some(z) = detected_zone(timestamps(line@)[k as int].effective) {
            assert(z.len() > 0);
        }
        assert(assumes_date(line@));
    }
    let to_tz = crate::tz::resolve_zone(to);
    let from_tz = match from {
        Some(f) => Some(crate::tz::resolve_zone(f)),
        None => None,
    };
    assert(crate::zones_for(to@, crate::str_chars(from), to_tz, from_tz));
    let fr = from_tz.as_ref();
    assert(opt_zone(fr) == from_tz);
    match today_at(token.as_slice(), fr, &to_tz) {
        Some(td) => {
            let (y, m, d) = td.date();
            let r = date_string(y, m, d);
            assert(assumed_for(line@, crate::str_chars(from), to@, k as int, td, to_tz, from_tz, encode_utf8(r@)));
            let res = Some(r);
            assert(res matches Some(t) && assumed_for(line@, crate::str_chars(from), to@, k as int, td, to_tz, from_tz, encode_utf8(t@)));
            res
        },
        None => None,
    }
}

/// Today's date in the zone a reading with zone token `token` is anchored
/// in; none when that zone does not load.
fn today_at(token: &[u8], from: Option<&Zone>, to: &Zone) -> (r: Option<Today>)
    ensures
        r matches Some(td) ==> anchored_in(token@, opt_zone(from), *to, today_zone(td)) && valid_date(
            today_date(td).0,
            today_date(td).1,
            today_date(td).2,
        ),
        token@.len() == 0 || (zone_offset_seconds(token@) matches Some(o) && -93599 <= o <= 93599) ==> r is Some,
{
    match anchor_of(token, from, to) {
        Some(a) => match crate::convert::anchor_zone(&a) {
            Some(z) => Some(today_in(&z)),
            None => None,
        },
        None => None,
    }
}

} // verus!
