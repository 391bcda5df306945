//! Timezone translation of the timestamps found in a line of text.
//!
//! Every timestamp on a line is found, whatever its format, read together
//! with the ones it forms a range or list with, converted to the output zone
//! and written back in the shape it was written in. Every other byte of the
//! line comes out exactly as it went in.

pub mod text;
pub mod zones;
pub mod scan;
pub mod words;
pub mod found;
pub mod reading;
pub mod parts;
pub mod gaps;
pub mod civil;
pub mod stamps;
pub mod comps;
pub mod strs;
pub mod format;
pub mod convert;
pub mod tz;
pub mod notes;
pub mod cli;
pub mod lines;
pub mod args;
pub mod config;
pub mod plain;

pub use crate::format::Format;
pub use crate::tz::{resolve_tz, timezone_aliases, TzError};
pub use crate::notes::{assumed_date, assumptions, ignored_zones, today_in_zone, Assumptions};

use vstd::prelude::*;
use vstd::utf8::{encode_utf8, valid_utf8};
use vstd::string::StringSliceAdditionalSpecFns;
use crate::civil::{local_ok, LocalTime};
use crate::comps::components;
use crate::convert::{convert, converts_owed, dated_reading, days_on, opt_bytes, opt_zone, reads_as, unreadable};
use crate::civil::{zoned_time, Zone};
use crate::convert::Reading;
use crate::tz::{resolve_zone, resolved_zone};
use crate::format::format_time;
use crate::stamps::{
    gids_of, group_of, line_group, line_kept, line_stamps, placed, read_line, read_stamp,
    timestamps, Lined, Stamp, StampV, lined_ok, kview, lemma_placed_order,
};
use crate::strs::{ascii_string, is_ascii_bytes, utf8_string};
use crate::text::{copy_range, push_range};
use crate::parts::{detected_zone, detected_zone_of, format_kind, format_kind_of, time_only, time_only_at};
use crate::reading::{reading, reading_of};
use crate::plain::{cut, lemma_ascii_cuts, lemma_between_cuts, lemma_format_valid, plain_ends};
use vstd::utf8::valid_utf8_concat;

verus! {

/// Where the gap before the `k`th timestamp starts.
pub open spec fn gap_start(ts: Seq<StampV>, k: int) -> int {
    if k <= 0 {
        0
    } else {
        ts[k - 1].end
    }
}

/// The line up to the end of the `k`th timestamp, each replaced by its
/// replacement.
pub open spec fn spliced(s: Seq<u8>, ts: Seq<StampV>, reps: Seq<Seq<u8>>, k: int) -> Seq<u8>
    decreases k,
{
    if k <= 0 {
        seq![]
    } else {
        spliced(s, ts, reps, k - 1) + s.subrange(gap_start(ts, k - 1), ts[k - 1].start) + reps[k - 1]
    }
}

/// The line with each timestamp replaced, every other byte as it was.
pub open spec fn splice(s: Seq<u8>, ts: Seq<StampV>, reps: Seq<Seq<u8>>) -> Seq<u8> {
    spliced(s, ts, reps, ts.len() as int) + s.subrange(gap_start(ts, ts.len() as int), s.len() as int)
}

/// What a timestamp may be written as, `to` being the output zone and
/// `from` the source zone: converted, as `format_time` writes the local
/// time in `to` of the instant it names, when it parses; as it was written
/// otherwise. A timestamp owed a conversion is always converted.
pub open spec fn converts_to(
    st: StampV,
    rep: Seq<u8>,
    fmt: Option<Format>,
    date: Option<Seq<u8>>,
    from: Option<Zone>,
    to: Zone,
) -> bool {
    &&& (unreadable(dated_reading(st.effective, date)) ==> rep == st.text)
    &&& (rep == st.text || written_as(st, rep, fmt, date, from, to))
    &&& (converts_owed(dated_reading(st.effective, date), days_on(st.days)) ==> written_as(st, rep, fmt, date, from, to))
}

/// `rep` is a timestamp converted: `format_time` of the local time in `to`
/// of the instant it names.
pub open spec fn written_as(
    st: StampV,
    rep: Seq<u8>,
    fmt: Option<Format>,
    date: Option<Seq<u8>>,
    from: Option<Zone>,
    to: Zone,
) -> bool {
    exists|l: Reading|
        local_ok(zoned_time(l.time)) && reads_as(dated_reading(st.effective, date), days_on(st.days), l, from, to) && rep
            == #[trigger] format_time(zoned_time(l.time), fmt, st.text)
}

/// `out` is `s` with each of its timestamps replaced by what it converts
/// to, every other byte as it was.
pub open spec fn translation_of(
    s: Seq<u8>,
    out: Seq<u8>,
    fmt: Option<Format>,
    date: Option<Seq<u8>>,
    from: Option<Zone>,
    to: Zone,
) -> bool {
    exists|reps: Seq<Seq<u8>>|
        #![trigger splice(s, timestamps(s), reps)]
        reps.len() == timestamps(s).len() && (forall|k: int|
            0 <= k < reps.len() ==> converts_to(#[trigger] timestamps(s)[k], reps[k], fmt, date, from, to))
            && out == splice(s, timestamps(s), reps)
}

/// A source zone's text, if there is one.
pub open spec fn str_chars(o: Option<&str>) -> Option<Seq<char>> {
    match o {
        Some(x) => Some(x@),
        None => None,
    }
}

/// `to` and `from` are the zones the texts `to_text` and `from_text`
/// resolve to.
pub open spec fn zones_for(to_text: Seq<char>, from_text: Option<Seq<char>>, to: Zone, from: Option<Zone>) -> bool {
    &&& resolved_zone(to_text, to)
    &&& match from_text {
        None => from is None,
        Some(f) => from matches Some(z) && resolved_zone(f, z),
    }
}

/// `out` is `s` translated into the zone `to_text` resolves to, naive
/// timestamps read in the one `from_text` resolves to.
pub open spec fn translated(
    s: Seq<u8>,
    out: Seq<u8>,
    fmt: Option<Format>,
    date: Option<Seq<u8>>,
    to_text: Seq<char>,
    from_text: Option<Seq<char>>,
) -> bool {
    exists|to: Zone, from: Option<Zone>|
        #[trigger] translation_of(s, out, fmt, date, from, to) && zones_for(to_text, from_text, to, from)
}

pub open spec fn str_bytes(d: Option<&str>) -> Option<Seq<u8>> {
    match d {
        Some(s) => Some(s.spec_bytes()),
        None => None,
    }
}

fn date_bytes(date: Option<&str>) -> (r: Option<&[u8]>)
    ensures
        opt_bytes(r) == str_bytes(date),
{
    match date {
        Some(d) => Some(d.as_bytes()),
        None => None,
    }
}

/// What each timestamp is written as: what converting it gave, or its own
/// text where converting gave nothing.
pub open spec fn written(ts: Seq<StampV>, results: Seq<Option<Vec<u8>>>) -> Seq<Seq<u8>> {
    Seq::new(
        ts.len(),
        |k: int|
            match results[k] {
                Some(v) => v@,
                None => ts[k].text,
            },
    )
}

/// Converting a timestamp gave nothing, or its local time in `to` written
/// as `format_time` writes it; nothing for a reading that names no instant,
/// and something for one owed a conversion.
pub open spec fn converted(
    st: StampV,
    result: Option<Vec<u8>>,
    fmt: Option<Format>,
    date: Option<Seq<u8>>,
    from: Option<Zone>,
    to: Zone,
) -> bool {
    &&& (unreadable(dated_reading(st.effective, date)) ==> result is None)
    &&& (result matches Some(v) ==> written_as(st, v@, fmt, date, from, to))
    &&& (converts_owed(dated_reading(st.effective, date), days_on(st.days)) ==> result is Some)
}

proof fn lemma_laid_out(line: Seq<u8>, l: Lined)
    requires
        lined_ok(line, l),
        forall|i: int|
            0 <= i < line_stamps(line).len() ==> plain_ends(line, (#[trigger] line_stamps(line)[i]).start, line_stamps(line)[i].end),
    ensures
        laid_out(line, timestamps(line)),
{
    let ts = timestamps(line);
    let ls = line_stamps(line);
    lemma_placed_order(line, ls);
    assert forall|q: int| 0 <= q < ts.len() implies 0 <= (#[trigger] ts[q]).start < ts[q].end
        <= line.len() && plain_ends(line, ts[q].start, ts[q].end) && ts[q].text == line.subrange(
        ts[q].start,
        ts[q].end,
    ) by {
        let j = l.kept@[q] as int;
        assert(kview(l.kept@)[q] == j);
        assert(ts[q] == read_stamp(line, j));
        assert(0 <= j < ls.len());
    }
    assert forall|a: int, b: int| 0 <= a < b < ts.len() implies ts[a].end <= ts[b].start by {
        let ja = l.kept@[a] as int;
        let jb = l.kept@[b] as int;
        assert(kview(l.kept@)[a] == ja);
        assert(kview(l.kept@)[b] == jb);
        assert(ts[a] == read_stamp(line, ja));
        assert(ts[b] == read_stamp(line, jb));
        assert(ja < jb);
    }
}

/// The line with each timestamp written as converting it gave, or as it
/// was where converting gave nothing; every other byte as it was.
pub fn write_converted(line: &[u8], results: &Vec<Option<Vec<u8>>>) -> (r: Vec<u8>)
    requires
        results@.len() == timestamps(line@).len(),
    ensures
        r@ == splice(line@, timestamps(line@), written(timestamps(line@), results@)),
{
    let l = read_line(line);
    let ghost ts = timestamps(line@);
    let ghost ls = line_stamps(line@);
    let ghost reps = written(ts, results@);
    proof {
        lemma_placed_order(line@, ls);
    }
    let mut out: Vec<u8> = Vec::new();
    let mut pos: usize = 0;
    let mut q: usize = 0;
    while q < l.kept.len()
        invariant
            lined_ok(line@, l),
            ts == timestamps(line@),
            ls == line_stamps(line@),
            reps == written(ts, results@),
            forall|i: int, j: int| 0 <= i < j < ls.len() ==> ls[i].end <= ls[j].start,
            q <= l.kept@.len() == ts.len() == results@.len(),
            pos == gap_start(ts, q as int),
            pos <= line@.len(),
            q < l.kept@.len() ==> pos <= ts[q as int].start,
            out@ == spliced(line@, ts, reps, q as int),
        decreases l.kept.len() - q,
    {
        let j = l.kept[q];
        assert(kview(l.kept@)[q as int] == j as int);
        assert(ts[q as int] == read_stamp(line@, j as int));
        let st = &l.stamps[j];
        assert(st@ == ts[q as int]);
        assert(0 <= ls[j as int].start < ls[j as int].end <= line@.len() && ls[j as int].text
            == line@.subrange(ls[j as int].start, ls[j as int].end));
        push_range(&mut out, line, pos, st.start);
        let mut rep = match &results[q] {
            Some(v) => copy_range(v.as_slice(), 0, v.len()),
            None => copy_range(st.text.as_slice(), 0, st.text.len()),
        };
        proof {
            match results@[q as int] {
                Some(v) => assert(v@.subrange(0, v@.len() as int) =~= v@),
                None => assert(st.text@.subrange(0, st.text@.len() as int) =~= st.text@),
            }
        }
        assert(rep@ == reps[q as int]);
        out.append(&mut rep);
        assert(spliced(line@, ts, reps, q + 1) == spliced(line@, ts, reps, q as int) + line@.subrange(
            gap_start(ts, q as int),
            ts[q as int].start,
        ) + reps[q as int]);
        proof {
            if q + 1 < l.kept@.len() {
                let j2 = l.kept@[q + 1];
                assert(kview(l.kept@)[q + 1] == j2 as int);
                assert(ts[q + 1] == read_stamp(line@, j2 as int));
                assert(j < j2);
            }
        }
        pos = st.end;
        q += 1;
    }
    push_range(&mut out, line, pos, line.len());
    out
}

/// The lines of `c` from `i` on, the current one begun at `start`: each
/// line with its `\n`, and a last one without when `c` does not end in one.
pub open spec fn lines_from(c: Seq<u8>, i: int, start: int) -> Seq<Seq<u8>>
    decreases c.len() - i,
{
    if i >= c.len() {
        if start < c.len() {
            seq![c.subrange(start, c.len() as int)]
        } else {
            seq![]
        }
    } else if c[i] == '\n' as u8 {
        seq![c.subrange(start, i + 1)] + lines_from(c, i + 1, i + 1)
    } else {
        lines_from(c, i + 1, start)
    }
}

/// The lines of `c`, each with its `\n`.
pub open spec fn content_lines(c: Seq<u8>) -> Seq<Seq<u8>> {
    lines_from(c, 0, 0)
}

/// `out` is `c` with each of its lines translated.
pub open spec fn content_translation(
    c: Seq<u8>,
    out: Seq<u8>,
    fmt: Option<Format>,
    date: Option<Seq<u8>>,
    from: Option<Zone>,
    to: Zone,
) -> bool {
    exists|outs: Seq<Seq<u8>>|
        #![trigger outs.flatten()]
        outs.len() == content_lines(c).len() && (forall|k: int|
            0 <= k < outs.len() ==> translation_of(#[trigger] content_lines(c)[k], outs[k], fmt, date, from, to))
            && out == outs.flatten()
}

/// `out` is `c` with each of its lines translated into the zone `to_text`
/// resolves to, naive timestamps read in the one `from_text` resolves to.
pub open spec fn content_translated(
    c: Seq<u8>,
    out: Seq<u8>,
    fmt: Option<Format>,
    date: Option<Seq<u8>>,
    to_text: Seq<char>,
    from_text: Option<Seq<char>>,
) -> bool {
    exists|to: Zone, from: Option<Zone>|
        #[trigger] content_translation(c, out, fmt, date, from, to) && zones_for(to_text, from_text, to, from)
}

fn same_bytes(a: &[u8], b: &[u8]) -> (r: bool)
    ensures
        r == (a@ == b@),
{
    if a.len() != b.len() {
        return false;
    }
    let mut k: usize = 0;
    while k < a.len()
        invariant
            a@.len() == b@.len(),
            k <= a@.len(),
            forall|j: int| 0 <= j < k ==> a@[j] == b@[j],
        decreases a.len() - k,
    {
        if a[k] != b[k] {
            return false;
        }
        k += 1;
    }
    assert(a@ =~= b@);
    true
}

/// A file's content with every line translated, as `-i` rewrites it: the
/// new content when it differs from the old, `None` when nothing changed.
pub fn translate_content(
    content: &[u8],
    to: &str,
    from: Option<&str>,
    format: Option<Format>,
    date: Option<&str>,
) -> (r: Option<Vec<u8>>)
    ensures
        r matches Some(v) ==> v@ != content@ && content_translated(content@, v@, format, str_bytes(date), to@, str_chars(from)),
        r is None ==> content_translated(content@, content@, format, str_bytes(date), to@, str_chars(from)),
{
    broadcast use Seq::lemma_flatten_push;
    let (to_z, from_z) = resolve_zones(to, from);
    let ghost c = content@;
    let ghost mut outs: Seq<Seq<u8>> = Seq::empty();
    let mut out: Vec<u8> = Vec::new();
    let mut start: usize = 0;
    let mut i: usize = 0;
    while i < content.len()
        invariant
            c == content@,
            start <= i <= c.len(),
            content_lines(c) == content_lines(c).subrange(0, outs.len() as int) + lines_from(c, i as int, start as int),
            outs.len() <= content_lines(c).len(),
            forall|k: int| 0 <= k < outs.len() ==> translation_of(#[trigger] content_lines(c)[k], outs[k], format, str_bytes(date), from_z, to_z),
            out@ == outs.flatten(),
            zones_for(to@, str_chars(from), to_z, from_z),
        decreases content.len() - i,
    {
        if content[i] == '\n' as u8 {
            let line = copy_range(content, start, i + 1);
            let t = translate_in(line.as_slice(), &to_z, from_z.as_ref(), format, date);
            proof {
                let n = outs.len() as int;
                assert(lines_from(c, i as int, start as int) == seq![c.subrange(start as int, i + 1)] + lines_from(c, i + 1, i + 1));
                assert(content_lines(c)[n] == c.subrange(start as int, i + 1));
                assert(content_lines(c).subrange(0, n + 1) =~= content_lines(c).subrange(0, n).push(c.subrange(start as int, i + 1)));
                assert(content_lines(c) =~= content_lines(c).subrange(0, n + 1) + lines_from(c, i + 1, i + 1));
                outs.lemma_flatten_push(t@);
                outs = outs.push(t@);
            }
            let mut tt = t;
            out.append(&mut tt);
            assert(out@ =~= outs.flatten());
            start = i + 1;
        } else {
            assert(lines_from(c, i as int, start as int) == lines_from(c, i + 1, start as int));
        }
        i += 1;
    }
    if start < content.len() {
        let line = copy_range(content, start, content.len());
        let t = translate_in(line.as_slice(), &to_z, from_z.as_ref(), format, date);
        proof {
            let n = outs.len() as int;
            assert(lines_from(c, i as int, start as int) == seq![c.subrange(start as int, c.len() as int)]);
            assert(content_lines(c)[n] == c.subrange(start as int, c.len() as int));
            assert(content_lines(c).len() == n + 1);
            outs.lemma_flatten_push(t@);
            outs = outs.push(t@);
        }
        let mut tt = t;
        out.append(&mut tt);
        assert(out@ =~= outs.flatten());
    } else {
        assert(lines_from(c, i as int, start as int) =~= Seq::<Seq<u8>>::empty());
        assert(content_lines(c) =~= content_lines(c).subrange(0, outs.len() as int));
    }
    assert(outs.len() == content_lines(c).len());
    assert(content_translation(c, out@, format, str_bytes(date), from_z, to_z));
    if same_bytes(out.as_slice(), content) {
        None
    } else {
        Some(out)
    }
}

/// A timestamp converted, as [`convert`] converts it.
#[verifier::rlimit(60)]
#[verifier::spinoff_prover]
fn convert_stamp(
    st: &Stamp,
    from: Option<&Zone>,
    to: &Zone,
    format: Option<Format>,
    date: Option<&[u8]>,
) -> (r: Option<Vec<u8>>)
    ensures
        converted(st@, r, format, opt_bytes(date), opt_zone(from), *to),
{
    let r = convert(st.effective.as_slice(), st.text.as_slice(), st.days, from, to, format, date);
    proof {
        if r is Some {
            let v = r->0;
            let l = choose|l: Reading|
                local_ok(zoned_time(l.time)) && reads_as(dated_reading(st.effective@, opt_bytes(date)), days_on(st.days as int), l, opt_zone(from), *to)
                    && v@ == #[trigger] format_time(zoned_time(l.time), format, st.text@);
            assert(local_ok(zoned_time(l.time)) && reads_as(dated_reading(st@.effective, opt_bytes(date)), days_on(st@.days), l, opt_zone(from), *to)
                && v@ == format_time(zoned_time(l.time), format, st@.text));
            assert(written_as(st@, v@, format, opt_bytes(date), opt_zone(from), *to));
        }
    }
    r
}

/// The zones `to` and `from` resolve to.
fn resolve_zones(to: &str, from: Option<&str>) -> (r: (Zone, Option<Zone>))
    ensures
        zones_for(to@, str_chars(from), r.0, r.1),
{
    let to_z = resolve_zone(to);
    let from_z = match from {
        Some(f) => Some(resolve_zone(f)),
        None => None,
    };
    (to_z, from_z)
}

/// A line translated into the zone `to`, naive timestamps read in `from`
/// when there is one: every timestamp converted as [`convert`] converts it,
/// every other byte as it was.
pub fn translate_in(
    line: &[u8],
    to: &Zone,
    from: Option<&Zone>,
    format: Option<Format>,
    date: Option<&str>,
) -> (r: Vec<u8>)
    ensures
        translation_of(line@, r@, format, str_bytes(date), opt_zone(from), *to),
        valid_utf8(line@) ==> valid_utf8(r@),
{
    let db = date_bytes(date);
    let l = read_line(line);
    let ghost ts = timestamps(line@);
    let mut results: Vec<Option<Vec<u8>>> = Vec::new();
    let mut q: usize = 0;
    while q < l.kept.len()
        invariant
            lined_ok(line@, l),
            ts == timestamps(line@),
            opt_bytes(db) == str_bytes(date),
            q <= l.kept@.len() == ts.len(),
            results@.len() == q,
            forall|k: int| 0 <= k < q ==> converted(#[trigger] ts[k], results@[k], format, str_bytes(date), opt_zone(from), *to),
        decreases l.kept.len() - q,
    {
        let j = l.kept[q];
        assert(kview(l.kept@)[q as int] == j as int);
        assert(ts[q as int] == read_stamp(line@, j as int));
        let st = &l.stamps[j];
        assert(st@ == ts[q as int]);
        let c = convert_stamp(st, from, to, format, db);
        results.push(c);
        q += 1;
    }
    let out = write_converted(line, &results);
    let ghost reps = written(ts, results@);
    assert forall|k: int| 0 <= k < reps.len() implies converts_to(#[trigger] ts[k], reps[k], format, str_bytes(date), opt_zone(from), *to) by {
        assert(converted(ts[k], results@[k], format, str_bytes(date), opt_zone(from), *to));
    }
    assert(translation_of(line@, out@, format, str_bytes(date), opt_zone(from), *to));
    proof {
        if valid_utf8(line@) {
            lemma_laid_out(line@, l);
            lemma_translation_valid(line@, ts, reps, format, str_bytes(date), opt_zone(from), *to);
        }
    }
    out
}

/// [`translate`] for input that may not be valid UTF-8 — a log line with a
/// stray byte in it. Timestamps still convert; every other byte, valid or
/// not, comes out exactly as it went in.
pub fn translate_bytes(
    line: &[u8],
    to: &str,
    from: Option<&str>,
    format: Option<Format>,
    date: Option<&str>,
) -> (r: Vec<u8>)
    ensures
        translated(line@, r@, format, str_bytes(date), to@, str_chars(from)),
        valid_utf8(line@) ==> valid_utf8(r@),
{
    let (to_z, from_z) = resolve_zones(to, from);
    let r = translate_in(line, &to_z, from_z.as_ref(), format, date);
    assert(translation_of(line@, r@, format, str_bytes(date), from_z, to_z));
    r
}

/// Every timestamp on a line converts, whatever its format: in a
/// translation into `to`, each timestamp owed a conversion (dated, at a
/// fixed offset of its own or naming no zone, its instant within `jiff`'s
/// range) is written as the local time in `to` of the instant it names,
/// and every byte around the timestamps is kept.
pub proof fn law_every_timestamp_converts(
    s: Seq<u8>,
    out: Seq<u8>,
    fmt: Option<Format>,
    date: Option<Seq<u8>>,
    from: Option<Zone>,
    to: Zone,
)
    requires
        translation_of(s, out, fmt, date, from, to),
    ensures
        exists|reps: Seq<Seq<u8>>|
            #![trigger splice(s, timestamps(s), reps)]
            reps.len() == timestamps(s).len() && out == splice(s, timestamps(s), reps) && forall|k: int|
                0 <= k < reps.len() && converts_owed(
                    dated_reading(timestamps(s)[k].effective, date),
                    days_on(timestamps(s)[k].days),
                ) ==> written_as(#[trigger] timestamps(s)[k], reps[k], fmt, date, from, to),
{
    let reps = choose|reps: Seq<Seq<u8>>|
        #![trigger splice(s, timestamps(s), reps)]
        reps.len() == timestamps(s).len() && (forall|k: int|
            0 <= k < reps.len() ==> converts_to(#[trigger] timestamps(s)[k], reps[k], fmt, date, from, to))
            && out == splice(s, timestamps(s), reps);
    assert forall|k: int|
        0 <= k < reps.len() && converts_owed(
            dated_reading(timestamps(s)[k].effective, date),
            days_on(timestamps(s)[k].days),
        ) implies written_as(#[trigger] timestamps(s)[k], reps[k], fmt, date, from, to) by {
        assert(converts_to(timestamps(s)[k], reps[k], fmt, date, from, to));
    }
}

/// A line with no timestamp in it comes out exactly as it went in.
pub proof fn law_no_timestamps_no_change(
    s: Seq<u8>,
    out: Seq<u8>,
    fmt: Option<Format>,
    date: Option<Seq<u8>>,
    from: Option<Zone>,
    to: Zone,
)
    requires
        timestamps(s).len() == 0,
        translation_of(s, out, fmt, date, from, to),
    ensures
        out == s,
{
    let reps = choose|reps: Seq<Seq<u8>>|
        #![trigger splice(s, timestamps(s), reps)]
        reps.len() == timestamps(s).len() && (forall|k: int|
            0 <= k < reps.len() ==> converts_to(#[trigger] timestamps(s)[k], reps[k], fmt, date, from, to))
            && out == splice(s, timestamps(s), reps);
    assert(spliced(s, timestamps(s), reps, 0) == Seq::<u8>::empty());
    assert(out =~= s);
}

/// Timestamps that lie in order in a line, each its own text and starting
/// and ending on an ASCII byte.
pub open spec fn laid_out(s: Seq<u8>, ts: Seq<StampV>) -> bool {
    &&& forall|k: int|
        0 <= k < ts.len() ==> 0 <= (#[trigger] ts[k]).start < ts[k].end <= s.len() && plain_ends(
            s,
            ts[k].start,
            ts[k].end,
        ) && ts[k].text == s.subrange(ts[k].start, ts[k].end)
    &&& forall|i: int, j: int| 0 <= i < j < ts.len() ==> ts[i].end <= ts[j].start
}

proof fn lemma_stamp_cuts(s: Seq<u8>, st: StampV)
    requires
        valid_utf8(s),
        0 <= st.start < st.end <= s.len(),
        plain_ends(s, st.start, st.end),
    ensures
        cut(s, st.start),
        cut(s, st.end),
{
    assert(s[st.start] == crate::text::byte(s, st.start));
    assert(s[st.end - 1] == crate::text::byte(s, st.end - 1));
    lemma_ascii_cuts(s, st.start);
    lemma_ascii_cuts(s, st.end - 1);
}

#[verifier::spinoff_prover]
proof fn lemma_spliced_valid(s: Seq<u8>, ts: Seq<StampV>, reps: Seq<Seq<u8>>, k: int)
    requires
        valid_utf8(s),
        laid_out(s, ts),
        reps.len() == ts.len(),
        forall|j: int| 0 <= j < reps.len() ==> valid_utf8(#[trigger] reps[j]),
        0 <= k <= ts.len(),
    ensures
        valid_utf8(spliced(s, ts, reps, k)),
        cut(s, gap_start(ts, k)),
        0 <= gap_start(ts, k) <= s.len(),
        k < ts.len() ==> gap_start(ts, k) <= ts[k].start,
    decreases k,
{
    if k > 0 {
        lemma_spliced_valid(s, ts, reps, k - 1);
        let st = ts[k - 1];
        lemma_stamp_cuts(s, st);
        let g = s.subrange(gap_start(ts, k - 1), st.start);
        lemma_between_cuts(s, gap_start(ts, k - 1), st.start);
        valid_utf8_concat(spliced(s, ts, reps, k - 1), g);
        valid_utf8_concat(spliced(s, ts, reps, k - 1) + g, reps[k - 1]);
        if k < ts.len() {
            assert(ts[k - 1].end <= ts[k].start);
        }
    }
}

/// Whatever a line's timestamps are written as, the line with them written
/// in is valid UTF-8 when the line was.
#[verifier::spinoff_prover]
proof fn lemma_translation_valid(
    s: Seq<u8>,
    ts: Seq<StampV>,
    reps: Seq<Seq<u8>>,
    fmt: Option<Format>,
    date: Option<Seq<u8>>,
    from: Option<Zone>,
    to: Zone,
)
    requires
        valid_utf8(s),
        laid_out(s, ts),
        reps.len() == ts.len(),
        forall|k: int| 0 <= k < reps.len() ==> converts_to(#[trigger] ts[k], reps[k], fmt, date, from, to),
    ensures
        valid_utf8(splice(s, ts, reps)),
{
    assert forall|j: int| 0 <= j < reps.len() implies valid_utf8(#[trigger] reps[j]) by {
        assert(converts_to(ts[j], reps[j], fmt, date, from, to));
        if reps[j] == ts[j].text {
            lemma_stamp_cuts(s, ts[j]);
            lemma_between_cuts(s, ts[j].start, ts[j].end);
        } else {
            let l = choose|l: Reading| local_ok(zoned_time(l.time)) && reads_as(dated_reading(ts[j].effective, date), days_on(ts[j].days), l, from, to) && reps[j] == #[trigger] format_time(zoned_time(l.time), fmt, ts[j].text);
            lemma_format_valid(zoned_time(l.time), fmt, ts[j].text);
        }
    }
    lemma_spliced_valid(s, ts, reps, ts.len() as int);
    lemma_between_cuts(s, gap_start(ts, ts.len() as int), s.len() as int);
    valid_utf8_concat(
        spliced(s, ts, reps, ts.len() as int),
        s.subrange(gap_start(ts, ts.len() as int), s.len() as int),
    );
}

/// Text as a `String`: the bytes themselves when they are UTF-8, as every
/// timestamp is.
fn text_string(v: Vec<u8>) -> (r: String)
    ensures
        valid_utf8(v@) ==> encode_utf8(r@) == v@,
{
    match utf8_string(v) {
        Some(s) => s,
        None => String::new(),
    }
}

/// Translate every detected timestamp in `line`, preserving surrounding
/// text. `to`/`from` accept aliases; `from` is the assumed input zone for
/// naive timestamps; `date` supplies a reference date for time-only inputs.
pub fn translate(line: &str, to: &str, from: Option<&str>, format: Option<Format>, date: Option<&str>) -> (r: String)
    ensures
        translated(line.spec_bytes(), encode_utf8(r@), format, str_bytes(date), to@, str_chars(from)),
{
    proof {
        vstd::utf8::encode_utf8_valid_utf8(line@);
    }
    let out = translate_bytes(line.as_bytes(), to, from, format, date);
    match utf8_string(out) {
        Some(s) => s,
        // Never: the translation of UTF-8 is UTF-8.
        None => line.to_owned(),
    }
}

/// The range or list a timestamp belongs to, as `-j` reports it.
#[derive(Clone, Debug, PartialEq, Eq)]
pub struct Group {
    /// `"range"` or `"list"`.
    pub kind: String,
    /// Every member's original text, in order.
    pub members: Vec<String>,
}

/// One detected timestamp and its analysis, as emitted by [`matches`].
#[derive(Clone, Debug, PartialEq, Eq)]
pub struct Match {
    pub original: String,
    pub detected_format: String,
    pub detected_tz: Option<String>,
    /// `None` when detecting only, or when the timestamp failed to parse.
    pub translated: Option<String>,
    /// The range or list this timestamp belongs to, if any.
    pub group: Option<Group>,
}

/// `iso`, `datetime` or `time`.
pub open spec fn format_name(k: int) -> Seq<u8> {
    if k == 0 {
        seq!['i' as u8, 's' as u8, 'o' as u8]
    } else if k == 1 {
        seq!['d' as u8, 'a' as u8, 't' as u8, 'e' as u8, 't' as u8, 'i' as u8, 'm' as u8, 'e' as u8]
    } else {
        seq!['t' as u8, 'i' as u8, 'm' as u8, 'e' as u8]
    }
}

/// `range` or `list`.
pub open spec fn group_kind(range: bool) -> Seq<u8> {
    if range {
        seq!['r' as u8, 'a' as u8, 'n' as u8, 'g' as u8, 'e' as u8]
    } else {
        seq!['l' as u8, 'i' as u8, 's' as u8, 't' as u8]
    }
}

/// A `String` holds the bytes, when they are UTF-8.
pub open spec fn holds(x: String, b: Seq<u8>) -> bool {
    valid_utf8(b) ==> encode_utf8(x@) == b
}

/// The `q`th match of a line reports its timestamp: its text, the format
/// its reading has, the zone it is read in, its conversion unless detecting,
/// and its range or list.
pub open spec fn match_of(
    s: Seq<u8>,
    q: int,
    m: Match,
    fmt: Option<Format>,
    detect: bool,
    date: Option<Seq<u8>>,
    from: Option<Zone>,
    to: Zone,
) -> bool {
    let st = timestamps(s)[q];
    &&& holds(m.original, st.text)
    &&& encode_utf8(m.detected_format@) == format_name(format_kind(reading(st.text)))
    &&& match detected_zone(st.effective) {
        Some(z) => m.detected_tz matches Some(t) && holds(t, z),
        None => m.detected_tz is None,
    }
    &&& (detect ==> m.translated is None)
    &&& (unreadable(dated_reading(st.effective, date)) ==> m.translated is None)
    &&& (m.translated matches Some(t) ==> exists|l: Reading|
        local_ok(zoned_time(l.time)) && reads_as(dated_reading(st.effective, date), days_on(st.days), l, from, to) && holds(
            t,
            #[trigger] format_time(zoned_time(l.time), fmt, st.text),
        ))
    &&& (!detect && converts_owed(dated_reading(st.effective, date), days_on(st.days))
        ==> m.translated is Some)
    &&& match line_group(s, q) {
        Some(g) => m.group matches Some(gr) && encode_utf8(gr.kind@) == group_kind(g.range)
            && gr.members@.len() == g.members.len() && forall|k: int|
            0 <= k < g.members.len() ==> holds(#[trigger] gr.members@[k], g.members[k]),
        None => m.group is None,
    }
}

/// Detecting changes only what a match reports as translated: the same
/// timestamp with and without `--detect`, whatever zones each call
/// resolved, has the same text, format, zone and group, members included,
/// and with it nothing translated.
pub proof fn law_detect_changes_only_translated(
    s: Seq<u8>,
    q: int,
    m1: Match,
    m2: Match,
    fmt: Option<Format>,
    date: Option<Seq<u8>>,
    from1: Option<Zone>,
    to1: Zone,
    from2: Option<Zone>,
    to2: Zone,
)
    requires
        0 <= q < timestamps(s).len(),
        match_of(s, q, m1, fmt, true, date, from1, to1),
        match_of(s, q, m2, fmt, false, date, from2, to2),
    ensures
        m1.translated is None,
        m1.detected_format@ == m2.detected_format@,
        m1.detected_tz is Some <==> m2.detected_tz is Some,
        m1.group is Some <==> m2.group is Some,
        valid_utf8(timestamps(s)[q].text) ==> m1.original@ == m2.original@,
        valid_utf8(timestamps(s)[q].text) && m1.detected_tz is Some && m2.detected_tz is Some ==> (
        valid_utf8(crate::parts::detected_zone(timestamps(s)[q].effective)->0) ==> m1.detected_tz->0@
            == m2.detected_tz->0@),
        m1.group is Some && m2.group is Some ==> m1.group->0.kind@ == m2.group->0.kind@
            && m1.group->0.members@.len() == m2.group->0.members@.len(),
        m1.group is Some && m2.group is Some ==> forall|i: int|
            0 <= i < m1.group->0.members@.len() && valid_utf8(line_group(s, q)->0.members[i])
                ==> (#[trigger] m1.group->0.members@[i])@ == m2.group->0.members@[i]@,
{
    vstd::utf8::encode_utf8_decode_utf8(m1.detected_format@);
    vstd::utf8::encode_utf8_decode_utf8(m2.detected_format@);
    vstd::utf8::encode_utf8_decode_utf8(m1.original@);
    vstd::utf8::encode_utf8_decode_utf8(m2.original@);
    if m1.detected_tz is Some && m2.detected_tz is Some {
        vstd::utf8::encode_utf8_decode_utf8(m1.detected_tz->0@);
        vstd::utf8::encode_utf8_decode_utf8(m2.detected_tz->0@);
    }
    if m1.group is Some && m2.group is Some {
        vstd::utf8::encode_utf8_decode_utf8(m1.group->0.kind@);
        vstd::utf8::encode_utf8_decode_utf8(m2.group->0.kind@);
        let g1 = m1.group->0;
        let g2 = m2.group->0;
        assert forall|i: int|
            0 <= i < g1.members@.len() && valid_utf8(line_group(s, q)->0.members[i]) implies (
            #[trigger] g1.members@[i])@ == g2.members@[i]@ by {
            assert(holds(g1.members@[i], line_group(s, q)->0.members[i]));
            assert(holds(g2.members@[i], line_group(s, q)->0.members[i]));
            vstd::utf8::encode_utf8_decode_utf8(g1.members@[i]@);
            vstd::utf8::encode_utf8_decode_utf8(g2.members@[i]@);
        }
    }
}

fn name_of_kind(k: u8) -> (r: String)
    ensures
        encode_utf8(r@) == format_name(k as int),
{
    let v = if k == 0 {
        vec!['i' as u8, 's' as u8, 'o' as u8]
    } else if k == 1 {
        vec!['d' as u8, 'a' as u8, 't' as u8, 'e' as u8, 't' as u8, 'i' as u8, 'm' as u8, 'e' as u8]
    } else {
        vec!['t' as u8, 'i' as u8, 'm' as u8, 'e' as u8]
    };
    assert(v@ == format_name(k as int));
    assert(is_ascii_bytes(v@));
    ascii_string(v)
}

fn group_string(g: crate::stamps::GroupAt) -> (r: Group)
    ensures
        encode_utf8(r.kind@) == group_kind(g@.range),
        r.members@.len() == g@.members.len(),
        forall|k: int| 0 <= k < g@.members.len() ==> holds(#[trigger] r.members@[k], g@.members[k]),
{
    let v = if g.range {
        vec!['r' as u8, 'a' as u8, 'n' as u8, 'g' as u8, 'e' as u8]
    } else {
        vec!['l' as u8, 'i' as u8, 's' as u8, 't' as u8]
    };
    assert(v@ == group_kind(g.range));
    assert(is_ascii_bytes(v@));
    let kind = ascii_string(v);
    let mut members: Vec<String> = Vec::new();
    let mut k: usize = 0;
    while k < g.members.len()
        invariant
            k <= g.members@.len(),
            members@.len() == k,
            forall|i: int| 0 <= i < k ==> holds(#[trigger] members@[i], g@.members[i]),
        decreases g.members.len() - k,
    {
        let m = &g.members[k];
        let c = copy_range(m.as_slice(), 0, m.len());
        assert(c@ =~= g@.members[k as int]);
        members.push(text_string(c));
        k += 1;
    }
    Group { kind, members }
}

/// What a timestamp is reported as translated to: nothing when detecting,
/// else what [`convert`] gives, as text.
#[verifier::rlimit(60)]
#[verifier::spinoff_prover]
fn translated_text(
    st: &Stamp,
    from: Option<&Zone>,
    to: &Zone,
    format: Option<Format>,
    date: Option<&[u8]>,
    detect: bool,
) -> (r: Option<String>)
    ensures
        detect ==> r is None,
        unreadable(dated_reading(st@.effective, opt_bytes(date))) ==> r is None,
        r matches Some(t) ==> exists|l: Reading|
            local_ok(zoned_time(l.time)) && reads_as(dated_reading(st@.effective, opt_bytes(date)), days_on(st@.days), l, opt_zone(from), *to)
                && holds(t, #[trigger] format_time(zoned_time(l.time), format, st@.text)),
        !detect && converts_owed(dated_reading(st@.effective, opt_bytes(date)), days_on(st@.days)) ==> r is Some,
{
    if detect {
        return None;
    }
    match convert(st.effective.as_slice(), st.text.as_slice(), st.days, from, to, format, date) {
        Some(v) => {
            let ghost vv = v@;
            let t = text_string(v);
            proof {
                let l = choose|l: Reading|
                    local_ok(zoned_time(l.time)) && reads_as(dated_reading(st.effective@, opt_bytes(date)), days_on(st.days as int), l, opt_zone(from), *to)
                        && vv == #[trigger] format_time(zoned_time(l.time), format, st.text@);
                assert(holds(t, format_time(zoned_time(l.time), format, st@.text)));
            }
            Some(t)
        },
        None => None,
    }
}

/// Every match of a line reports its timestamp, converted into the zone
/// `to_text` resolves to, naive timestamps read in the one `from_text`
/// resolves to.
pub open spec fn matched(
    s: Seq<u8>,
    ms: Seq<Match>,
    fmt: Option<Format>,
    detect: bool,
    date: Option<Seq<u8>>,
    to_text: Seq<char>,
    from_text: Option<Seq<char>>,
) -> bool {
    exists|to: Zone, from: Option<Zone>|
        #[trigger] zones_for(to_text, from_text, to, from) && forall|q: int|
            0 <= q < ms.len() ==> match_of(s, q, #[trigger] ms[q], fmt, detect, date, from, to)
}

/// [`matches`] for input that may not be valid UTF-8. Every match is
/// ASCII, so the `Match` fields are text either way.
pub fn matches_bytes(
    line: &[u8],
    to: &str,
    from: Option<&str>,
    format: Option<Format>,
    detect: bool,
    date: Option<&str>,
) -> (r: Vec<Match>)
    ensures
        r@.len() == timestamps(line@).len(),
        matched(line@, r@, format, detect, str_bytes(date), to@, str_chars(from)),
        valid_utf8(line@) ==> forall|q: int|
            0 <= q < r@.len() ==> encode_utf8((#[trigger] r@[q]).original@) == timestamps(line@)[q].text,
{
    let (to_tz, from_tz) = resolve_zones(to, from);
    let db = date_bytes(date);
    let l = read_line(line);
    let gids = gids_of(&l.joins, l.stamps.len());
    let ghost ts = timestamps(line@);
    let mut out: Vec<Match> = Vec::new();
    let mut q: usize = 0;
    while q < l.kept.len()
        invariant
            lined_ok(line@, l),
            ts == timestamps(line@),
            opt_bytes(db) == str_bytes(date),
            gids@.len() == l.stamps@.len(),
            forall|k: int| 0 <= k < gids@.len() ==> (#[trigger] gids@[k]) as int == crate::stamps::gid(
                crate::stamps::line_joins(line@),
                k,
            ),
            q <= l.kept@.len() == ts.len(),
            out@.len() == q,
            forall|p: int| 0 <= p < q ==> match_of(line@, p, #[trigger] out@[p], format, detect, str_bytes(date), from_tz, to_tz),
            zones_for(to@, str_chars(from), to_tz, from_tz),
            forall|i: int| 0 <= i < line_stamps(line@).len() ==> plain_ends(line@, (#[trigger] line_stamps(line@)[i]).start, line_stamps(line@)[i].end),
            valid_utf8(line@) ==> forall|p: int|
                0 <= p < q ==> encode_utf8((#[trigger] out@[p]).original@) == ts[p].text,
        decreases l.kept.len() - q,
    {
        let j = l.kept[q];
        assert(kview(l.kept@)[q as int] == j as int);
        assert(ts[q as int] == read_stamp(line@, j as int));
        let st = &l.stamps[j];
        assert(st@ == ts[q as int]);
        let translated = translated_text(st, from_tz.as_ref(), &to_tz, format, db, detect);
        assert(st.text@.subrange(0, st.text@.len() as int) =~= st.text@);
        proof {
            if valid_utf8(line@) {
                let ls = line_stamps(line@);
                assert(ls[j as int].start == st@.start && ls[j as int].end == st@.end);
                assert(0 <= ls[j as int].start < ls[j as int].end <= line@.len() && ls[j as int].text
                    == line@.subrange(ls[j as int].start, ls[j as int].end));
                lemma_stamp_cuts(line@, st@);
                lemma_between_cuts(line@, st@.start, st@.end);
            }
        }
        let original = text_string(copy_range(st.text.as_slice(), 0, st.text.len()));
        let kind = format_kind_of(reading_of(st.text.as_slice()).as_slice());
        let detected_format = name_of_kind(kind);
        let detected_tz = match detected_zone_of(st.effective.as_slice()) {
            Some(z) => Some(text_string(z)),
            None => None,
        };
        let group = match group_of(&l, &gids, q, Ghost(line@)) {
            Some(g) => Some(group_string(g)),
            None => None,
        };
        let m = Match { original, detected_format, detected_tz, translated, group };
        assert(match_of(line@, q as int, m, format, detect, str_bytes(date), from_tz, to_tz));
        let ghost before = out@;
        out.push(m);
        assert(valid_utf8(line@) ==> encode_utf8(out@[q as int].original@) == ts[q as int].text);
        q += 1;
    }
    assert(matched(line@, out@, format, detect, str_bytes(date), to@, str_chars(from)));
    out
}

/// Per-match structured analysis of a line. With `detect`, translation is
/// skipped and [`Match::translated`] is `None`.
pub fn matches(
    line: &str,
    to: &str,
    from: Option<&str>,
    format: Option<Format>,
    detect: bool,
    date: Option<&str>,
) -> (r: Vec<Match>)
    ensures
        r@.len() == timestamps(line.spec_bytes()).len(),
        matched(line.spec_bytes(), r@, format, detect, str_bytes(date), to@, str_chars(from)),
        forall|q: int|
            0 <= q < r@.len() ==> encode_utf8((#[trigger] r@[q]).original@) == timestamps(line.spec_bytes())[q].text,
{
    proof {
        vstd::utf8::encode_utf8_valid_utf8(line@);
    }
    matches_bytes(line.as_bytes(), to, from, format, detect, date)
}

/// Label the format a reading has: `iso`, `datetime` or `time`.
pub fn detect_format(s: &str) -> (r: &'static str)
    ensures
        format_kind(s.spec_bytes()) == 0 ==> r@ == "iso"@,
        format_kind(s.spec_bytes()) == 1 ==> r@ == "datetime"@,
        format_kind(s.spec_bytes()) == 2 ==> r@ == "time"@,
{
    let k = format_kind_of(s.as_bytes());
    if k == 0 {
        "iso"
    } else if k == 1 {
        "datetime"
    } else {
        "time"
    }
}

/// The literal timezone token a reading ends with, if any.
pub fn detect_zone(s: &str) -> (r: Option<String>)
    ensures
        match detected_zone(s.spec_bytes()) {
            Some(z) => r matches Some(t) && holds(t, z),
            None => r is None,
        },
{
    match detected_zone_of(s.as_bytes()) {
        Some(z) => Some(text_string(z)),
        None => None,
    }
}

} // verus!
