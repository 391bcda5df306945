//! The timestamps of a line, read together: a bare hour that starts a
//! range, the zone and meridiem a range or list shares from its end, the
//! next day a later member rolls into, and the bare clocks left out beside
//! a timestamp that is more specific.

use vstd::prelude::*;
use crate::found::{
    bare_time, duration_follows, duration_follows_at, find_stamps, is_bare_time, keep_span,
    next_stamp, spans_view, stamps_from,
};
use crate::reading::{reading, reading_of, zero_secs};
use crate::scan::stamp_at;
use crate::plain::{lemma_stamp_plain, plain_ends};
use crate::text::{copy_range, digits_num, digits_value, pad2, pad4, push_pad2, push_pad4, push_range};
use crate::parts::{
    date_prefix, date_prefix_at, detected_zone, detected_zone_of, minute_of_day, minute_of_day_at,
    range_start, range_start_at, time_parts, time_parts_at,
};
use crate::gaps::{after_month, after_month_at, list_join, list_join_at, range_hour, range_hour_of,
    range_join, range_join_at};
use crate::civil::{add_days, date_plus_days};
use vstd::slice::slice_subrange;

verus! {

/// A timestamp found in a line: where it sits, its text, what it is read as,
/// and how many days after the reference date it falls.
pub struct Stamp {
    pub start: usize,
    pub end: usize,
    pub text: Vec<u8>,
    pub effective: Vec<u8>,
    pub days: u64,
}

pub struct StampV {
    pub start: int,
    pub end: int,
    pub text: Seq<u8>,
    pub effective: Seq<u8>,
    pub days: int,
}

impl View for Stamp {
    type V = StampV;

    open spec fn view(&self) -> StampV {
        StampV {
            start: self.start as int,
            end: self.end as int,
            text: self.text@,
            effective: self.effective@,
            days: self.days as int,
        }
    }
}

pub open spec fn sview(v: Seq<Stamp>) -> Seq<StampV> {
    Seq::new(v.len(), |k: int| v[k]@)
}

/// The stamps lie in the line in order, each holding its own text.
pub open spec fn placed(s: Seq<u8>, st: Seq<StampV>) -> bool {
    &&& forall|k: int|
        0 <= k < st.len() ==> 0 <= (#[trigger] st[k]).start < st[k].end <= s.len() && st[k].text
            == s.subrange(st[k].start, st[k].end)
    &&& forall|k: int| 0 < k < st.len() ==> st[k - 1].end <= (#[trigger] st[k]).start
}

proof fn lemma_spans(s: Seq<u8>, p: int)
    requires
        0 <= p,
    ensures
        forall|k: int|
            0 <= k < stamps_from(s, p).len() ==> p <= (#[trigger] stamps_from(s, p)[k]).0
                < stamps_from(s, p)[k].1 <= s.len(),
        forall|k: int|
            0 < k < stamps_from(s, p).len() ==> stamps_from(s, p)[k - 1].1 <= (
            #[trigger] stamps_from(s, p)[k]).0,
    decreases s.len() + 1 - p,
{
    match next_stamp(s, p) {
        None => {},
        Some((a, e)) => if p <= a < e <= s.len() {
            lemma_spans(s, e);
            let rest = stamps_from(s, e);
            assert(stamps_from(s, p) == seq![(a, e)] + rest);
            assert forall|k: int| 0 < k < stamps_from(s, p).len() implies stamps_from(s, p)[k - 1].1
                <= (#[trigger] stamps_from(s, p)[k]).0 by {
                if k > 1 {
                    assert(stamps_from(s, p)[k - 1] == rest[k - 2]);
                    assert(stamps_from(s, p)[k] == rest[k - 1]);
                } else {
                    assert(stamps_from(s, p)[k] == rest[0]);
                }
            }
            assert forall|k: int| 0 <= k < stamps_from(s, p).len() implies p <= (
            #[trigger] stamps_from(s, p)[k]).0 < stamps_from(s, p)[k].1 <= s.len() by {
                if k > 0 {
                    assert(stamps_from(s, p)[k] == rest[k - 1]);
                }
            }
        },
    }
}

/// A timestamp as the grammar found it: read, and on the reference date.
pub open spec fn found_stamp(s: Seq<u8>, a: int, e: int) -> StampV {
    StampV { start: a, end: e, text: s.subrange(a, e), effective: reading(s.subrange(a, e)), days: 0 }
}

/// The first `k` spans that are timestamps and not durations.
pub open spec fn scanned(s: Seq<u8>, sp: Seq<(int, int)>, k: int) -> Seq<StampV>
    decreases k,
{
    if k <= 0 || k > sp.len() {
        seq![]
    } else {
        let prev = scanned(s, sp, k - 1);
        let x = sp[k - 1];
        if keep_span(s, x.0, x.1) {
            prev.push(found_stamp(s, x.0, x.1))
        } else {
            prev
        }
    }
}

/// Every timestamp of the line the grammar finds, less the clocks a unit of
/// time follows.
pub open spec fn scan_stamps(s: Seq<u8>) -> Seq<StampV> {
    scanned(s, stamps_from(s, 0), stamps_from(s, 0).len() as int)
}

#[verifier::rlimit(60)]
#[verifier::spinoff_prover]
pub fn scan_stamps_of(s: &[u8]) -> (r: Vec<Stamp>)
    ensures
        sview(r@) == scan_stamps(s@),
        placed(s@, sview(r@)),
        forall|k: int| 0 <= k < r@.len() ==> (#[trigger] r@[k]).days == 0,
        forall|k: int| 0 <= k < r@.len() ==> plain_ends(s@, (#[trigger] r@[k]).start as int, r@[k].end as int),
{
    let sp = find_stamps(s);
    let ghost spv = spans_view(sp@);
    proof {
        lemma_spans(s@, 0);
    }
    let mut out: Vec<Stamp> = Vec::new();
    let mut k: usize = 0;
    while k < sp.len()
        invariant
            k <= sp@.len() == spv.len(),
            spv == stamps_from(s@, 0),
            spv == spans_view(sp@),
            forall|j: int| 0 <= j < spv.len() ==> 0 <= (#[trigger] spv[j]).0 < spv[j].1 <= s@.len(),
            forall|j: int| 0 < j < spv.len() ==> spv[j - 1].1 <= (#[trigger] spv[j]).0,
            sview(out@) == scanned(s@, spv, k as int),
            placed(s@, sview(out@)),
            out@.len() > 0 ==> k > 0 && out@.last().end <= spv[k - 1].1,
            forall|j: int| 0 <= j < out@.len() ==> (#[trigger] out@[j]).days == 0,
            forall|j: int| 0 <= j < sp@.len() ==> stamp_at(s@, (#[trigger] sp@[j]).0 as int) == Some(sp@[j].1 as int),
            forall|j: int| 0 <= j < out@.len() ==> plain_ends(s@, (#[trigger] out@[j]).start as int, out@[j].end as int),
        decreases sp.len() - k,
    {
        let (a, e) = sp[k];
        assert(spv[k as int] == (a as int, e as int));
        assert(plain_ends(s@, a as int, e as int)) by {
            assert(stamp_at(s@, a as int) == Some(e as int));
            lemma_stamp_plain(s@, a as int);
        }
        let text = copy_range(s, a, e);
        let keep = !(bare_time(text.as_slice()) && duration_follows_at(s, e));
        if keep {
            let eff = reading_of(text.as_slice());
            let ghost before = out@;
            out.push(Stamp { start: a, end: e, text, effective: eff, days: 0 });
            assert(sview(out@) =~= sview(before).push(found_stamp(s@, a as int, e as int)));
            assert(placed(s@, sview(out@))) by {
                if before.len() > 0 {
                    assert(sview(out@)[before.len() - 1] == sview(before)[before.len() - 1]);
                }
            }
        }
        k += 1;
    }
    out
}

pub fn copy_stamp(st: &Stamp) -> (r: Stamp)
    ensures
        r@ == st@,
{
    let text = copy_range(st.text.as_slice(), 0, st.text.len());
    let effective = copy_range(st.effective.as_slice(), 0, st.effective.len());
    assert(text@ =~= st.text@);
    assert(effective@ =~= st.effective@);
    Stamp { start: st.start, end: st.end, text, effective, days: st.days }
}

proof fn lemma_range_hour(g: Seq<u8>, p: int)
    ensures
        range_hour(g, p) matches Some((a, b)) ==> crate::gaps::rh_from(g, a) == Some(b),
    decreases g.len() + 1 - p,
{
    if 0 <= p <= g.len() && crate::gaps::range_hour_at(g, p) is None {
        lemma_range_hour(g, p + 1);
    }
}

/// Where the stamp before the `k`th ends: the start of the gap before it.
pub open spec fn prev_end(st: Seq<StampV>, k: int) -> int {
    if k == 0 {
        0
    } else {
        st[k - 1].end
    }
}

/// A reading with a meridiem.
pub open spec fn has_meridiem(t: Seq<u8>) -> bool {
    time_parts(t) matches Some(p) && p.mer is Some
}

/// The bare hour before the `k`th stamp that starts a range ending in it: only
/// when that stamp has a meridiem, the hour is `1..=12`, and it is not the day
/// of a month named before it.
#[verifier::opaque]
pub open spec fn hour_stamp(s: Seq<u8>, st: Seq<StampV>, k: int) -> Option<StampV> {
    let pe = prev_end(st, k);
    let g = s.subrange(pe, st[k].start);
    if has_meridiem(st[k].effective) {
        match range_hour(g, 0) {
            Some((hs, he)) => if !after_month(g.subrange(0, hs)) && 1 <= digits_value(
                g,
                hs,
                (he - hs) as nat,
            ) <= 12 {
                Some(
                    StampV {
                        start: pe + hs,
                        end: pe + he,
                        text: g.subrange(hs, he),
                        effective: g.subrange(hs, he) + zero_secs(),
                        days: 0,
                    },
                )
            } else {
                None
            },
            None => None,
        }
    } else {
        None
    }
}

/// The first `k` stamps, each after the bare hour that starts its range.
pub open spec fn with_hours(s: Seq<u8>, st: Seq<StampV>, k: int) -> Seq<StampV>
    decreases k,
{
    if k <= 0 || k > st.len() {
        seq![]
    } else {
        let prev = with_hours(s, st, k - 1);
        let mid = match hour_stamp(s, st, k - 1) {
            Some(h) => prev.push(h),
            None => prev,
        };
        mid.push(st[k - 1])
    }
}

fn has_meridiem_of(t: &[u8]) -> (r: bool)
    ensures
        r == has_meridiem(t@),
{
    match time_parts_at(t) {
        Some(p) => p.mer.is_some(),
        None => false,
    }
}

#[verifier::rlimit(80)]
#[verifier::spinoff_prover]
fn hour_stamp_of(s: &[u8], st: &Vec<Stamp>, k: usize, pe: usize) -> (r: Option<Stamp>)
    requires
        placed(s@, sview(st@)),
        k < st@.len(),
        pe == prev_end(sview(st@), k as int),
    ensures
        match hour_stamp(s@, sview(st@), k as int) {
            Some(h) => r matches Some(x) && x@ == h && pe <= h.start < h.end <= st@[k as int].start
                && h.text == s@.subrange(h.start, h.end),
            None => r is None,
        },
        r matches Some(x) ==> x.days == 0,
        r matches Some(x) ==> plain_ends(s@, x.start as int, x.end as int),
{
    reveal(hour_stamp);
    let ghost sv = sview(st@);
    assert(sv[k as int] == st@[k as int]@);
    if k > 0 {
        assert(sv[k - 1] == st@[k - 1]@);
    }
    assert(pe <= st@[k as int].start);
    if !has_meridiem_of(st[k].effective.as_slice()) {
        return None;
    }
    let g = slice_subrange(s, pe, st[k].start);
    match range_hour_of(g) {
        Some((hs, he)) => {
            let before = slice_subrange(g, 0, hs);
            if after_month_at(before) {
                return None;
            }
            proof {
                lemma_range_hour(g@, 0);
            }
            assert(crate::text::digits_at(g@, hs as int, (he - hs) as int));
            let v = digits_num(g, hs, he - hs);
            assert(plain_ends(s@, pe + hs, pe + he)) by {
                assert(crate::text::is_digit(crate::text::byte(g@, hs + 0)));
                assert(crate::text::is_digit(crate::text::byte(g@, hs + (he - hs - 1))));
                assert(crate::text::byte(g@, hs as int) == crate::text::byte(s@, pe + hs));
                assert(crate::text::byte(g@, he - 1) == crate::text::byte(s@, pe + he - 1));
            }
            if 1 <= v && v <= 12 {
                let text = copy_range(g, hs, he);
                let mut eff = copy_range(g, hs, he);
                eff.push(':' as u8);
                eff.push('0' as u8);
                eff.push('0' as u8);
                assert(eff@ =~= g@.subrange(hs as int, he as int) + zero_secs());
                assert(text@ =~= s@.subrange(pe + hs, pe + he));
                Some(Stamp { start: pe + hs, end: pe + he, text, effective: eff, days: 0 })
            } else {
                None
            }
        },
        None => None,
    }
}

pub fn with_hours_of(s: &[u8], st: &Vec<Stamp>) -> (r: Vec<Stamp>)
    requires
        placed(s@, sview(st@)),
        forall|k: int| 0 <= k < st@.len() ==> (#[trigger] st@[k]).days == 0,
        forall|k: int| 0 <= k < st@.len() ==> plain_ends(s@, (#[trigger] st@[k]).start as int, st@[k].end as int),
    ensures
        sview(r@) == with_hours(s@, sview(st@), st@.len() as int),
        placed(s@, sview(r@)),
        forall|k: int| 0 <= k < r@.len() ==> (#[trigger] r@[k]).days == 0,
        forall|k: int| 0 <= k < r@.len() ==> plain_ends(s@, (#[trigger] r@[k]).start as int, r@[k].end as int),
{
    let ghost sv = sview(st@);
    let mut out: Vec<Stamp> = Vec::new();
    let mut pe: usize = 0;
    let mut k: usize = 0;
    while k < st.len()
        invariant
            k <= st@.len(),
            sv == sview(st@),
            placed(s@, sv),
            forall|j: int| 0 <= j < st@.len() ==> (#[trigger] st@[j]).days == 0,
            pe == prev_end(sv, k as int),
            sview(out@) == with_hours(s@, sv, k as int),
            placed(s@, sview(out@)),
            out@.len() > 0 ==> out@.last().end <= pe,
            forall|j: int| 0 <= j < out@.len() ==> (#[trigger] out@[j]).days == 0,
            forall|j: int| 0 <= j < st@.len() ==> plain_ends(s@, (#[trigger] st@[j]).start as int, st@[j].end as int),
            forall|j: int| 0 <= j < out@.len() ==> plain_ends(s@, (#[trigger] out@[j]).start as int, out@[j].end as int),
        decreases st.len() - k,
    {
        assert(sv[k as int] == st@[k as int]@);
        let h = hour_stamp_of(s, st, k, pe);
        let ghost before = out@;
        match h {
            Some(x) => {
                out.push(x);
            },
            None => {},
        }
        let ghost mid = out@;
        assert(sview(mid) =~= match hour_stamp(s@, sv, k as int) {
            Some(hh) => sview(before).push(hh),
            None => sview(before),
        });
        assert(placed(s@, sview(mid))) by {
            if mid.len() > before.len() && before.len() > 0 {
                assert(sview(mid)[before.len() - 1] == sview(before)[before.len() - 1]);
            }
        }
        let c = copy_stamp(&st[k]);
        out.push(c);
        assert(sview(out@) =~= sview(mid).push(sv[k as int]));
        assert(placed(s@, sview(out@))) by {
            if mid.len() > 0 {
                assert(sview(out@)[mid.len() - 1] == sview(mid)[mid.len() - 1]);
                assert(mid.last().end <= sv[k as int].start) by {
                    if mid.len() > before.len() {
                    } else {
                        if k > 0 {
                            assert(sv[k - 1].end <= sv[k as int].start);
                        }
                    }
                }
            }
        }
        pe = st[k].end;
        k += 1;
    }
    out
}

/// A reading's clock, after its date and separator if it has one.
pub open spec fn clock_of(t: Seq<u8>) -> Seq<u8> {
    t.subrange(date_prefix(t), t.len() as int)
}

/// How two neighbouring timestamps are joined: `1` into a range, `2` into
/// a list, `0` not at all. Only time-only readings join, the first after
/// its date if it has one.
pub open spec fn join_kind(s: Seq<u8>, h: StampV, t: StampV) -> int {
    if time_parts(clock_of(h.effective)) is Some && time_parts(t.effective) is Some {
        let g = s.subrange(h.end, t.start);
        if range_join(g) {
            1
        } else if list_join(g) {
            2
        } else {
            0
        }
    } else {
        0
    }
}

/// The join after each stamp but the last.
pub open spec fn joins(s: Seq<u8>, st: Seq<StampV>) -> Seq<int> {
    Seq::new(
        if st.len() > 0 {
            (st.len() - 1) as nat
        } else {
            0
        },
        |i: int| join_kind(s, st[i], st[i + 1]),
    )
}

pub open spec fn jview(v: Seq<u8>) -> Seq<int> {
    Seq::new(v.len(), |i: int| v[i] as int)
}

fn join_kind_of(s: &[u8], h: &Stamp, t: &Stamp) -> (r: u8)
    requires
        h@.end <= t@.start <= s.len(),
    ensures
        r == join_kind(s@, h@, t@),
{
    let e = h.effective.as_slice();
    let d = date_prefix_at(e);
    let clock = slice_subrange(e, d, e.len());
    if time_parts_at(clock).is_some() && time_parts_at(t.effective.as_slice()).is_some() {
        let g = slice_subrange(s, h.end, t.start);
        if range_join_at(g) {
            1
        } else if list_join_at(g) {
            2
        } else {
            0
        }
    } else {
        0
    }
}

pub fn joins_of(s: &[u8], st: &Vec<Stamp>) -> (r: Vec<u8>)
    requires
        placed(s@, sview(st@)),
    ensures
        jview(r@) == joins(s@, sview(st@)),
        r@.len() + 1 == st@.len() || (st@.len() == 0 && r@.len() == 0),
        forall|i: int| 0 <= i < r@.len() ==> r@[i] <= 2,
{
    let ghost sv = sview(st@);
    let mut out: Vec<u8> = Vec::new();
    if st.len() == 0 {
        assert(jview(out@) =~= joins(s@, sv));
        return out;
    }
    let mut i: usize = 0;
    while i + 1 < st.len()
        invariant
            i + 1 <= st@.len(),
            sv == sview(st@),
            placed(s@, sv),
            out@.len() == i,
            forall|j: int| 0 <= j < i ==> out@[j] as int == join_kind(s@, sv[j], sv[j + 1]),
            forall|j: int| 0 <= j < i ==> out@[j] <= 2,
        decreases st.len() - i,
    {
        assert(sv[i + 1] == st@[i + 1]@ && sv[i as int] == st@[i as int]@);
        assert(sv[i + 1].start >= sv[i as int].end);
        let k = join_kind_of(s, &st[i], &st[i + 1]);
        out.push(k);
        i += 1;
    }
    assert(jview(out@) =~= joins(s@, sv));
    out
}

/// What the `i`th stamp is read as once each member of a range or list has
/// taken the zone and meridiem written after the one it joins, walked from
/// the end so a chain passes them all the way down.
pub open spec fn back_eff(st: Seq<StampV>, js: Seq<int>, i: int) -> Seq<u8>
    decreases st.len() - i,
{
    if i < 0 || i >= st.len() {
        seq![]
    } else if i + 1 < st.len() && js[i] != 0 {
        let e = st[i].effective;
        let d = date_prefix(e);
        e.subrange(0, d) + range_start(e.subrange(d, e.len() as int), back_eff(st, js, i + 1))
    } else {
        st[i].effective
    }
}

#[verifier::rlimit(80)]
#[verifier::spinoff_prover]
pub fn back_pass(st: &Vec<Stamp>, js: &Vec<u8>) -> (r: Vec<Vec<u8>>)
    requires
        js@.len() + 1 == st@.len() || (st@.len() == 0 && js@.len() == 0),
    ensures
        r@.len() == st@.len(),
        forall|i: int| 0 <= i < r@.len() ==> (#[trigger] r@[i])@ == back_eff(sview(st@), jview(js@), i),
{
    let ghost sv = sview(st@);
    let ghost jv = jview(js@);
    let n = st.len();
    let mut effs: Vec<Vec<u8>> = Vec::new();
    let mut k: usize = 0;
    while k < n
        invariant
            k <= n == st@.len(),
            effs@.len() == k,
            sv == sview(st@),
            forall|l: int| 0 <= l < k ==> (#[trigger] effs@[l])@ == sv[l].effective,
        decreases n - k,
    {
        let e = &st[k].effective;
        let c = copy_range(e.as_slice(), 0, e.len());
        assert(c@ =~= sv[k as int].effective);
        effs.push(c);
        k += 1;
    }
    if n == 0 {
        return effs;
    }
    let mut i: usize = n - 1;
    assert(back_eff(sv, jv, (n - 1) as int) == sv[n - 1].effective);
    while i > 0
        invariant
            0 <= i < n == st@.len(),
            effs@.len() == n,
            sv == sview(st@),
            jv == jview(js@),
            js@.len() + 1 == n,
            forall|l: int| 0 <= l < i ==> (#[trigger] effs@[l])@ == sv[l].effective,
            forall|l: int| i <= l < n ==> (#[trigger] effs@[l])@ == back_eff(sv, jv, l),
        decreases i,
    {
        let j = i - 1;
        assert(jv[j as int] == js@[j as int] as int);
        if js[j] != 0 {
            let e = st[j].effective.as_slice();
            assert(e@ == sv[j as int].effective);
            let d = date_prefix_at(e);
            let clock = slice_subrange(e, d, e.len());
            let rs = range_start_at(clock, effs[i].as_slice());
            let mut v = copy_range(e, 0, d);
            let mut w = rs;
            v.append(&mut w);
            assert(v@ =~= back_eff(sv, jv, j as int));
            effs.set(j, v);
        } else {
            assert(effs@[j as int]@ == back_eff(sv, jv, j as int));
        }
        i = j;
    }
    effs
}

/// The date `rolls` days after the one a dated reading starts with, written
/// as `YYYY-MM-DD`.
pub open spec fn next_day(he: Seq<u8>, rolls: int) -> Option<Seq<u8>> {
    let y = digits_value(he, 0, 4);
    let m = digits_value(he, 5, 2);
    let d = digits_value(he, 8, 2);
    match date_plus_days(y, m, d, rolls) {
        Some((y2, m2, d2)) => if 0 <= y2 <= 9999 && 1 <= m2 <= 12 && 1 <= d2 <= 31 {
            Some(pad4(y2) + seq!['-' as u8] + pad2(m2) + seq!['-' as u8] + pad2(d2))
        } else {
            None
        },
        None => None,
    }
}

/// One member taking its date from the one before it: the reading and days
/// of the member before (`he`, `hd`), this member's reading, and the join
/// between them.
#[verifier::opaque]
pub open spec fn fwd_step(he: Seq<u8>, hd: int, te: Seq<u8>, join: int) -> (Seq<u8>, int) {
    if join == 0 || detected_zone(he) != detected_zone(te) {
        (te, 0)
    } else {
        let d = date_prefix(he);
        let rolls: int = if minute_of_day(te) < minute_of_day(he.subrange(d, he.len() as int)) {
            1
        } else {
            0
        };
        if d == 0 {
            (te, hd + rolls)
        } else {
            match next_day(he, rolls) {
                Some(day) => (day + seq![' ' as u8] + te, 0),
                None => (te, 0),
            }
        }
    }
}

/// What the `i`th stamp is read as, and how many days after the reference
/// date it falls, once each member in the same zone as the one before it has
/// taken that one's date, and the next day if it is earlier on the clock:
/// 11:30 PM to 12:30 AM ends tomorrow.
pub open spec fn fwd(effs: Seq<Seq<u8>>, js: Seq<int>, i: int) -> (Seq<u8>, int)
    decreases i,
{
    if i <= 0 {
        (effs[0], 0)
    } else {
        let (he, hd) = fwd(effs, js, i - 1);
        fwd_step(he, hd, effs[i], js[i - 1])
    }
}

fn next_day_of(he: &[u8], rolls: u64) -> (r: Option<Vec<u8>>)
    requires
        date_prefix(he@) == 11,
        rolls <= 1,
    ensures
        match next_day(he@, rolls as int) {
            Some(d) => r matches Some(v) && v@ == d,
            None => r is None,
        },
{
    assert(crate::scan::isodate(he@, 0));
    assert(crate::text::digits_at(he@, 0, 4));
    assert(crate::text::digits_at(he@, 5, 2));
    assert(crate::text::digits_at(he@, 8, 2));
    let y = digits_num(he, 0, 4);
    let m = digits_num(he, 5, 2);
    let d = digits_num(he, 8, 2);
    match add_days(y as i16, m as i8, d as i8, rolls as i64) {
        Some((y2, m2, d2)) => if 0 <= y2 && y2 <= 9999 && 1 <= m2 && m2 <= 12 && 1 <= d2 && d2 <= 31 {
            let mut v: Vec<u8> = Vec::new();
            push_pad4(&mut v, y2 as u32);
            v.push('-' as u8);
            push_pad2(&mut v, m2 as u32);
            v.push('-' as u8);
            push_pad2(&mut v, d2 as u32);
            assert(v@ =~= pad4(y2 as int) + seq!['-' as u8] + pad2(m2 as int) + seq!['-' as u8] + pad2(
                d2 as int,
            ));
            Some(v)
        } else {
            None
        },
        None => None,
    }
}

pub open spec fn effs_view(v: Seq<Vec<u8>>) -> Seq<Seq<u8>> {
    Seq::new(v.len(), |i: int| v[i]@)
}


fn fwd_step_of(he: &[u8], hd: u64, te: &[u8], join: u8) -> (r: (Option<Vec<u8>>, u64))
    requires
        hd < u64::MAX,
    ensures
        match r.0 {
            Some(v) => v@ == fwd_step(he@, hd as int, te@, join as int).0,
            None => te@ == fwd_step(he@, hd as int, te@, join as int).0,
        },
        r.1 as int == fwd_step(he@, hd as int, te@, join as int).1,
        r.1 <= hd + 1,
{
    reveal(fwd_step);
    let zh = detected_zone_of(he);
    let zt = detected_zone_of(te);
    let same_zone = match (&zh, &zt) {
        (Some(a), Some(b)) => crate::zones::bytes_eq(a.as_slice(), b.as_slice()),
        (None, None) => true,
        _ => false,
    };
    if join == 0 || !same_zone {
        return (None, 0);
    }
    let d = date_prefix_at(he);
    let clock = slice_subrange(he, d, he.len());
    let rolls: u64 = if minute_of_day_at(te) < minute_of_day_at(clock) {
        1
    } else {
        0
    };
    if d == 0 {
        return (None, hd + rolls);
    }
    match next_day_of(he, rolls) {
        Some(day) => {
            let mut v = day;
            v.push(' ' as u8);
            let mut w = copy_range(te, 0, te.len());
            v.append(&mut w);
            assert(v@ =~= fwd_step(he@, hd as int, te@, join as int).0);
            (Some(v), 0)
        },
        None => (None, 0),
    }
}

pub fn fwd_pass(effs: Vec<Vec<u8>>, js: &Vec<u8>) -> (r: (Vec<Vec<u8>>, Vec<u64>))
    requires
        js@.len() + 1 == effs@.len() || (effs@.len() == 0 && js@.len() == 0),
    ensures
        r.0@.len() == effs@.len(),
        r.1@.len() == effs@.len(),
        forall|i: int|
            0 <= i < effs@.len() ==> (#[trigger] r.0@[i])@ == fwd(effs_view(effs@), jview(js@), i).0 && r.1@[i]
                as int == fwd(effs_view(effs@), jview(js@), i).1,
{
    let ghost ev = effs_view(effs@);
    let ghost jv = jview(js@);
    let n = effs.len();
    let mut out = effs;
    let mut days: Vec<u64> = Vec::new();
    if n == 0 {
        return (out, days);
    }
    days.push(0);
    let mut i: usize = 1;
    while i < n
        invariant
            1 <= i <= n == out@.len() == ev.len(),
            days@.len() == i,
            js@.len() + 1 == n,
            jv == jview(js@),
            forall|l: int| 0 <= l < i ==> (#[trigger] out@[l])@ == fwd(ev, jv, l).0 && days@[l] as int == fwd(
                ev,
                jv,
                l,
            ).1,
            forall|l: int| 0 <= l < i ==> days@[l] <= l,
            forall|l: int| i <= l < n ==> (#[trigger] out@[l])@ == ev[l],
        decreases n - i,
    {
        let j = i - 1;
        assert(jv[j as int] == js@[j as int] as int);
        let (v, dd) = fwd_step_of(out[j].as_slice(), days[j], out[i].as_slice(), js[j]);
        match v {
            Some(v) => {
                out.set(i, v);
            },
            None => {},
        }
        days.push(dd);
        i += 1;
    }
    (out, days)
}

/// The indices below `k` whose readings are not bare clocks.
pub open spec fn kept_upto(effs: Seq<Seq<u8>>, k: int) -> Seq<int>
    decreases k,
{
    if k <= 0 || k > effs.len() {
        seq![]
    } else {
        let p = kept_upto(effs, k - 1);
        if !is_bare_time(effs[k - 1]) {
            p.push(k - 1)
        } else {
            p
        }
    }
}

/// The stamps that stay: a bare clock beside one that names a date, zone or
/// meridiem is most likely a duration ("took 0:05") and is left out, unless
/// nothing on the line is more specific.
pub open spec fn kept_idx(effs: Seq<Seq<u8>>) -> Seq<int> {
    let k = kept_upto(effs, effs.len() as int);
    if k.len() == 0 {
        Seq::new(effs.len(), |i: int| i)
    } else {
        k
    }
}

/// The stamps of a line before they are read together.
#[verifier::opaque]
pub open spec fn line_stamps(s: Seq<u8>) -> Seq<StampV> {
    let sc = scan_stamps(s);
    with_hours(s, sc, sc.len() as int)
}

#[verifier::opaque]
pub open spec fn line_joins(s: Seq<u8>) -> Seq<int> {
    joins(s, line_stamps(s))
}

#[verifier::opaque]
pub open spec fn line_backed(s: Seq<u8>) -> Seq<Seq<u8>> {
    Seq::new(line_stamps(s).len(), |i: int| back_eff(line_stamps(s), line_joins(s), i))
}

/// What the `i`th stamp of a line is read as, and its days.
#[verifier::opaque]
pub open spec fn line_read(s: Seq<u8>, i: int) -> (Seq<u8>, int) {
    fwd(line_backed(s), line_joins(s), i)
}

#[verifier::opaque]
pub open spec fn line_kept(s: Seq<u8>) -> Seq<int> {
    kept_idx(Seq::new(line_stamps(s).len(), |i: int| line_read(s, i).0))
}

/// The `i`th stamp of a line, read with the others.
pub open spec fn read_stamp(s: Seq<u8>, i: int) -> StampV {
    let st = line_stamps(s)[i];
    StampV {
        start: st.start,
        end: st.end,
        text: st.text,
        effective: line_read(s, i).0,
        days: line_read(s, i).1,
    }
}

/// The timestamps of a line, in order, as they are read.
pub open spec fn timestamps(s: Seq<u8>) -> Seq<StampV> {
    Seq::new(line_kept(s).len(), |q: int| read_stamp(s, line_kept(s)[q]))
}

/// A line read: its stamps before the bare clocks are left out, the joins
/// between them, and which stay.
pub struct Lined {
    pub stamps: Vec<Stamp>,
    pub joins: Vec<u8>,
    pub kept: Vec<usize>,
}

pub open spec fn kview(v: Seq<usize>) -> Seq<int> {
    Seq::new(v.len(), |i: int| v[i] as int)
}

pub open spec fn lined_ok(s: Seq<u8>, l: Lined) -> bool {
    &&& l.stamps@.len() == line_stamps(s).len()
    &&& forall|i: int| 0 <= i < l.stamps@.len() ==> (#[trigger] l.stamps@[i])@ == read_stamp(s, i)
    &&& jview(l.joins@) == line_joins(s)
    &&& (l.joins@.len() + 1 == l.stamps@.len() || (l.stamps@.len() == 0 && l.joins@.len() == 0))
    &&& kview(l.kept@) == line_kept(s)
    &&& forall|q: int| 0 <= q < l.kept@.len() ==> (#[trigger] l.kept@[q]) < l.stamps@.len()
    &&& forall|a: int, b: int| 0 <= a < b < l.kept@.len() ==> l.kept@[a] < l.kept@[b]
    &&& placed(s, line_stamps(s))
}

fn kept_of(effs: &Vec<Vec<u8>>) -> (r: Vec<usize>)
    ensures
        kview(r@) == kept_idx(effs_view(effs@)),
        forall|q: int| 0 <= q < r@.len() ==> (#[trigger] r@[q]) < effs@.len(),
        forall|a: int, b: int| 0 <= a < b < r@.len() ==> r@[a] < r@[b],
{
    let ghost ev = effs_view(effs@);
    let mut out: Vec<usize> = Vec::new();
    let mut k: usize = 0;
    while k < effs.len()
        invariant
            k <= effs@.len() == ev.len(),
            ev == effs_view(effs@),
            kview(out@) == kept_upto(ev, k as int),
            forall|q: int| 0 <= q < out@.len() ==> (#[trigger] out@[q]) < k,
            forall|a: int, b: int| 0 <= a < b < out@.len() ==> out@[a] < out@[b],
        decreases effs.len() - k,
    {
        assert(ev[k as int] == effs@[k as int]@);
        if !bare_time(effs[k].as_slice()) {
            let ghost before = out@;
            out.push(k);
            assert(kview(out@) =~= kview(before).push(k as int));
        }
        k += 1;
    }
    if out.len() == 0 {
        let mut all: Vec<usize> = Vec::new();
        let mut i: usize = 0;
        while i < effs.len()
            invariant
                i <= effs@.len(),
                all@.len() == i,
                forall|q: int| 0 <= q < i ==> (#[trigger] all@[q]) == q,
                forall|a: int, b: int| 0 <= a < b < all@.len() ==> all@[a] < all@[b],
            decreases effs.len() - i,
        {
            all.push(i);
            i += 1;
        }
        assert(kview(all@) =~= Seq::new(ev.len(), |i: int| i));
        return all;
    }
    out
}

/// Reads every timestamp of a line together.
pub fn read_line(s: &[u8]) -> (r: Lined)
    ensures
        lined_ok(s@, r),
        forall|i: int|
            0 <= i < line_stamps(s@).len() ==> plain_ends(s@, (#[trigger] line_stamps(s@)[i]).start, line_stamps(s@)[i].end),
{
    reveal(line_stamps);
    reveal(line_joins);
    reveal(line_backed);
    reveal(line_read);
    reveal(line_kept);
    let sc = scan_stamps_of(s);
    let a = with_hours_of(s, &sc);
    let ghost av = sview(a@);
    assert forall|i: int| 0 <= i < av.len() implies plain_ends(s@, (#[trigger] av[i]).start, av[i].end) by {
        assert(av[i] == a@[i]@);
    }
    let js = joins_of(s, &a);
    let backed = back_pass(&a, &js);
    assert(effs_view(backed@) =~= line_backed(s@));
    let (effs, days) = fwd_pass(backed, &js);
    let kept = kept_of(&effs);
    assert(effs_view(effs@) =~= Seq::new(line_stamps(s@).len(), |i: int| line_read(s@, i).0));
    let mut stamps: Vec<Stamp> = Vec::new();
    let mut i: usize = 0;
    while i < a.len()
        invariant
            i <= a@.len() == effs@.len() == days@.len(),
            av == sview(a@),
            av == line_stamps(s@),
            stamps@.len() == i,
            forall|l: int|
                0 <= l < effs@.len() ==> (#[trigger] effs@[l])@ == line_read(s@, l).0 && days@[l] as int
                    == line_read(s@, l).1,
            forall|l: int| 0 <= l < i ==> (#[trigger] stamps@[l])@ == read_stamp(s@, l),
        decreases a.len() - i,
    {
        assert(av[i as int] == a@[i as int]@);
        let e = &effs[i];
        let st = Stamp {
            start: a[i].start,
            end: a[i].end,
            text: copy_range(a[i].text.as_slice(), 0, a[i].text.len()),
            effective: copy_range(e.as_slice(), 0, e.len()),
            days: days[i],
        };
        assert(st.text@ =~= a@[i as int].text@);
        assert(st.effective@ =~= e@);
        stamps.push(st);
        i += 1;
    }
    Lined { stamps, joins: js, kept }
}

/// The timestamps of a line, in order, as they are read.
pub fn timestamps_of(s: &[u8]) -> (r: Vec<Stamp>)
    ensures
        sview(r@) == timestamps(s@),
{
    let l = read_line(s);
    let mut out: Vec<Stamp> = Vec::new();
    let mut q: usize = 0;
    while q < l.kept.len()
        invariant
            lined_ok(s@, l),
            q <= l.kept@.len(),
            out@.len() == q,
            forall|p: int| 0 <= p < q ==> (#[trigger] out@[p])@ == read_stamp(s@, line_kept(s@)[p]),
        decreases l.kept.len() - q,
    {
        let j = l.kept[q];
        assert(kview(l.kept@)[q as int] == j as int);
        out.push(copy_stamp(&l.stamps[j]));
        q += 1;
    }
    assert(sview(out@) =~= timestamps(s@));
    out
}

/// The group the `k`th stamp belongs to: a new one after every stamp not
/// joined to the next.
pub open spec fn gid(js: Seq<int>, k: int) -> int
    decreases k,
{
    if k <= 0 {
        0
    } else {
        gid(js, k - 1) + if js[k - 1] != 0 {
            0int
        } else {
            1
        }
    }
}

/// The first `q` kept stamps that are in group `g`.
pub open spec fn members_upto(js: Seq<int>, kept: Seq<int>, g: int, q: int) -> Seq<int>
    decreases q,
{
    if q <= 0 || q > kept.len() {
        seq![]
    } else {
        let p = members_upto(js, kept, g, q - 1);
        if gid(js, kept[q - 1]) == g {
            p.push(kept[q - 1])
        } else {
            p
        }
    }
}

/// A range or list: whether every member but the last is joined to the next
/// as a range, and every member's text, in order.
pub struct GroupV {
    pub range: bool,
    pub members: Seq<Seq<u8>>,
}

pub struct GroupAt {
    pub range: bool,
    pub members: Vec<Vec<u8>>,
}

impl View for GroupAt {
    type V = GroupV;

    open spec fn view(&self) -> GroupV {
        GroupV { range: self.range, members: Seq::new(self.members@.len(), |k: int| self.members@[k]@) }
    }
}

pub open spec fn all_range(js: Seq<int>, ms: Seq<int>) -> bool {
    forall|k: int| 0 <= k < ms.len() - 1 ==> js[#[trigger] ms[k]] == 1
}

/// The range or list the `q`th timestamp of a line belongs to, if any: its
/// kept stamps in the same group, when there are two or more.
pub open spec fn line_group(s: Seq<u8>, q: int) -> Option<GroupV> {
    let js = line_joins(s);
    let kept = line_kept(s);
    let ms = members_upto(js, kept, gid(js, kept[q]), kept.len() as int);
    if ms.len() >= 2 {
        Some(
            GroupV {
                range: all_range(js, ms),
                members: Seq::new(ms.len(), |k: int| line_stamps(s)[ms[k]].text),
            },
        )
    } else {
        None
    }
}

pub fn gids_of(js: &Vec<u8>, n: usize) -> (r: Vec<usize>)
    requires
        js@.len() + 1 == n || (n == 0 && js@.len() == 0),
    ensures
        r@.len() == n,
        forall|k: int| 0 <= k < n ==> (#[trigger] r@[k]) as int == gid(jview(js@), k),
{
    let ghost jv = jview(js@);
    let mut out: Vec<usize> = Vec::new();
    if n == 0 {
        return out;
    }
    out.push(0);
    let mut k: usize = 1;
    while k < n
        invariant
            1 <= k <= n,
            js@.len() + 1 == n,
            jv == jview(js@),
            out@.len() == k,
            forall|l: int| 0 <= l < k ==> (#[trigger] out@[l]) as int == gid(jv, l),
            forall|l: int| 0 <= l < k ==> (#[trigger] out@[l]) <= l,
        decreases n - k,
    {
        assert(jv[k - 1] == js@[k - 1] as int);
        let g = out[k - 1];
        let next = if js[k - 1] != 0 {
            g
        } else {
            g + 1
        };
        out.push(next);
        k += 1;
    }
    out
}


fn all_range_of(joins: &Vec<u8>, ms: &Vec<usize>, n: usize) -> (r: bool)
    requires
        joins@.len() + 1 == n,
        ms@.len() >= 2,
        forall|i: int| 0 <= i < ms@.len() ==> (#[trigger] ms@[i]) < n,
        forall|a: int, b: int| 0 <= a < b < ms@.len() ==> ms@[a] < ms@[b],
    ensures
        r == all_range(jview(joins@), kview(ms@)),
{
    let ghost js = jview(joins@);
    let ghost msv = kview(ms@);
    let mut range = true;
    let mut k: usize = 0;
    while k < ms.len() - 1
        invariant
            joins@.len() + 1 == n,
            js == jview(joins@),
            msv == kview(ms@),
            ms@.len() >= 2,
            k + 1 <= ms@.len(),
            forall|i: int| 0 <= i < ms@.len() ==> (#[trigger] ms@[i]) < n,
            forall|a: int, b: int| 0 <= a < b < ms@.len() ==> ms@[a] < ms@[b],
            range == (forall|i: int| 0 <= i < k ==> js[#[trigger] msv[i]] == 1),
        decreases ms.len() - k,
    {
        let m = ms[k];
        assert(msv[k as int] == m as int);
        assert(ms@[k as int] < ms@[k + 1]);
        assert(js[m as int] == joins@[m as int] as int);
        if joins[m] != 1 {
            range = false;
        }
        k += 1;
    }
    range
}

fn members_of(l: &Lined, gids: &Vec<usize>, g: usize, s: Ghost<Seq<u8>>) -> (r: Vec<usize>)
    requires
        lined_ok(s@, *l),
        gids@.len() == l.stamps@.len(),
        forall|k: int| 0 <= k < gids@.len() ==> (#[trigger] gids@[k]) as int == gid(line_joins(s@), k),
    ensures
        kview(r@) == members_upto(line_joins(s@), line_kept(s@), g as int, line_kept(s@).len() as int),
        forall|k: int| 0 <= k < r@.len() ==> (#[trigger] r@[k]) < l.stamps@.len(),
        forall|a: int, b: int| 0 <= a < b < r@.len() ==> r@[a] < r@[b],
{
    let ghost js = line_joins(s@);
    let ghost kept = line_kept(s@);
    let mut ms: Vec<usize> = Vec::new();
    let mut p: usize = 0;
    while p < l.kept.len()
        invariant
            lined_ok(s@, *l),
            js == line_joins(s@),
            kept == line_kept(s@),
            gids@.len() == l.stamps@.len(),
            forall|k: int| 0 <= k < gids@.len() ==> (#[trigger] gids@[k]) as int == gid(js, k),
            p <= l.kept@.len(),
            kview(ms@) == members_upto(js, kept, g as int, p as int),
            forall|k: int| 0 <= k < ms@.len() ==> (#[trigger] ms@[k]) < l.stamps@.len(),
            forall|a: int, b: int| 0 <= a < b < ms@.len() ==> ms@[a] < ms@[b],
            ms@.len() > 0 ==> p > 0 && ms@.last() <= l.kept@[p - 1],
        decreases l.kept.len() - p,
    {
        let j = l.kept[p];
        assert(kview(l.kept@)[p as int] == j as int);
        if gids[j] == g {
            let ghost before = ms@;
            ms.push(j);
            assert(kview(ms@) =~= kview(before).push(j as int));
        }
        p += 1;
    }
    ms
}

fn member_texts(l: &Lined, ms: &Vec<usize>, s: Ghost<Seq<u8>>) -> (r: Vec<Vec<u8>>)
    requires
        lined_ok(s@, *l),
        forall|t: int| 0 <= t < ms@.len() ==> (#[trigger] ms@[t]) < l.stamps@.len(),
    ensures
        Seq::new(r@.len(), |k: int| r@[k]@) == Seq::new(
            ms@.len(),
            |k: int| line_stamps(s@)[kview(ms@)[k]].text,
        ),
{
    let ghost msv = kview(ms@);
    let mut members: Vec<Vec<u8>> = Vec::new();
    let mut i: usize = 0;
    while i < ms.len()
        invariant
            lined_ok(s@, *l),
            msv == kview(ms@),
            i <= ms@.len(),
            members@.len() == i,
            forall|t: int| 0 <= t < ms@.len() ==> (#[trigger] ms@[t]) < l.stamps@.len(),
            forall|t: int| 0 <= t < i ==> (#[trigger] members@[t])@ == line_stamps(s@)[msv[t]].text,
        decreases ms.len() - i,
    {
        let j = ms[i];
        assert(msv[i as int] == j as int);
        let t = &l.stamps[j].text;
        assert(l.stamps@[j as int]@ == read_stamp(s@, j as int));
        members.push(copy_range(t.as_slice(), 0, t.len()));
        assert(members@[i as int]@ =~= line_stamps(s@)[j as int].text);
        i += 1;
    }
    assert(Seq::new(members@.len(), |k: int| members@[k]@) =~= Seq::new(
        ms@.len(),
        |k: int| line_stamps(s@)[msv[k]].text,
    ));
    members
}

/// The range or list the `q`th kept stamp belongs to.
pub fn group_of(l: &Lined, gids: &Vec<usize>, q: usize, s: Ghost<Seq<u8>>) -> (r: Option<GroupAt>)
    requires
        lined_ok(s@, *l),
        gids@.len() == l.stamps@.len(),
        forall|k: int| 0 <= k < gids@.len() ==> (#[trigger] gids@[k]) as int == gid(line_joins(s@), k),
        q < l.kept@.len(),
    ensures
        match line_group(s@, q as int) {
            Some(g) => r matches Some(x) && x@ == g,
            None => r is None,
        },
{
    assert(kview(l.kept@)[q as int] == l.kept@[q as int] as int);
    let g = gids[l.kept[q]];
    let ms = members_of(l, gids, g, s);
    if ms.len() < 2 {
        return None;
    }
    let range = all_range_of(&l.joins, &ms, l.stamps.len());
    let members = member_texts(l, &ms, s);
    let r = GroupAt { range, members };
    assert(r@.members == Seq::new(members@.len(), |k: int| members@[k]@));
    Some(r)
}

/// Stamps that lie in order lie in order pairwise: each ends before any
/// later one starts.
pub proof fn lemma_placed_order(s: Seq<u8>, st: Seq<StampV>)
    requires
        placed(s, st),
    ensures
        forall|i: int, j: int| 0 <= i < j < st.len() ==> st[i].end <= st[j].start,
{
    assert forall|i: int, j: int| 0 <= i < j < st.len() implies st[i].end <= st[j].start by {
        lemma_order_from(s, st, i, j);
    }
}

proof fn lemma_order_from(s: Seq<u8>, st: Seq<StampV>, i: int, j: int)
    requires
        placed(s, st),
        0 <= i < j < st.len(),
    ensures
        st[i].end <= st[j].start,
    decreases j - i,
{
    assert(st[j - 1].end <= st[j].start);
    if i < j - 1 {
        lemma_order_from(s, st, i, j - 1);
        assert(st[j - 1].start < st[j - 1].end);
    }
}

} // verus!
