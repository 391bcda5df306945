//! One line of input on its way out: what is written for it in each mode,
//! and what `-v` says of it that no earlier line has said.

use vstd::prelude::*;
use vstd::string::StringExecFns;
use vstd::utf8::{decode_utf8, encode_utf8};
use crate::format::Format;
use crate::notes::{
    assumed_date, assumed_minus, assumed_union, assumes_any, assumes_date, assumes_zone, assumptions,
    date_text, dated_today, ignored, ignored_zones, Assumptions,
};
use crate::parts::{detected_zone, detected_zone_of, format_kind, format_kind_of};
use crate::reading::{reading, reading_of};
use crate::stamps::{sview, timestamps, timestamps_of, StampV};
use crate::text::push_all;
use crate::civil::valid_date;
use crate::{format_name, matched, matches_bytes, translate_bytes, translated, Match};

verus! {

/// What the command line was asked to do.
pub struct Options {
    /// The source zone, resolved.
    pub from: Option<String>,
    /// `from` was defaulted from `$TZ` rather than chosen with `-f`.
    pub from_is_implicit: bool,
    /// The output zone, resolved.
    pub to: String,
    pub format: Option<Format>,
    /// The reference date, as `YYYY-MM-DD`.
    pub date: Option<String>,
    pub inplace: bool,
    pub json: bool,
    pub ndjson: bool,
    pub detect: bool,
    pub verbose: bool,
    pub files: Vec<String>,
}

pub open spec fn opt_str_bytes(o: Option<String>) -> Option<Seq<u8>> {
    match o {
        Some(s) => Some(encode_utf8(s@)),
        None => None,
    }
}

fn opt_str(o: &Option<String>) -> (r: Option<&str>)
    ensures
        crate::str_bytes(r) == opt_str_bytes(*o),
        crate::str_chars(r) == crate::args::opt_chars(*o),
{
    match o {
        Some(s) => Some(s.as_str()),
        None => None,
    }
}

/// What one line comes to on the way out.
pub enum LineOutput {
    /// `-J`: each match its own JSON object, one per line.
    EachMatch(Vec<Match>),
    /// `-j`: the matches, for the one array written at the end.
    Collect(Vec<Match>),
    /// Bytes to write as they are: the translated line, or the rows of
    /// `--detect`.
    Bytes(Vec<u8>),
}

/// Every match of a line is reported as `matches` reports it.
pub open spec fn reports(
    s: Seq<u8>,
    ms: Seq<Match>,
    fmt: Option<Format>,
    detect: bool,
    date: Option<Seq<u8>>,
    to: Seq<char>,
    from: Option<Seq<char>>,
) -> bool {
    ms.len() == timestamps(s).len() && matched(s, ms, fmt, detect, date, to, from)
}

/// A `--detect` row: the timestamp, its format and its zone, tab-separated.
pub open spec fn detect_row(st: StampV) -> Seq<u8> {
    st.text + seq!['\t' as u8] + format_name(format_kind(reading(st.text))) + seq!['\t' as u8] + (
    match detected_zone(st.effective) {
        Some(z) => z,
        None => seq![],
    }) + seq!['\n' as u8]
}

/// The rows of the first `k` timestamps.
pub open spec fn detect_rows(ts: Seq<StampV>, k: int) -> Seq<u8>
    decreases k,
{
    if k <= 0 {
        seq![]
    } else {
        detect_rows(ts, k - 1) + detect_row(ts[k - 1])
    }
}

fn push_format_name(out: &mut Vec<u8>, k: u8)
    ensures
        final(out)@ == old(out)@ + format_name(k as int),
{
    if k == 0 {
        out.push('i' as u8);
        out.push('s' as u8);
        out.push('o' as u8);
    } else if k == 1 {
        out.push('d' as u8);
        out.push('a' as u8);
        out.push('t' as u8);
        out.push('e' as u8);
        out.push('t' as u8);
        out.push('i' as u8);
        out.push('m' as u8);
        out.push('e' as u8);
    } else {
        out.push('t' as u8);
        out.push('i' as u8);
        out.push('m' as u8);
        out.push('e' as u8);
    }
    assert(out@ =~= old(out)@ + format_name(k as int));
}

/// The `--detect` rows of a line.
pub fn detect_rows_of(line: &[u8]) -> (r: Vec<u8>)
    ensures
        r@ == detect_rows(timestamps(line@), timestamps(line@).len() as int),
{
    let ts = timestamps_of(line);
    let ghost tv = timestamps(line@);
    let mut out: Vec<u8> = Vec::new();
    let mut k: usize = 0;
    while k < ts.len()
        invariant
            sview(ts@) == tv,
            k <= ts@.len(),
            out@ == detect_rows(tv, k as int),
        decreases ts.len() - k,
    {
        let st = &ts[k];
        assert(tv[k as int] == st@);
        let ghost before = out@;
        push_all(&mut out, st.text.as_slice());
        out.push('\t' as u8);
        push_format_name(&mut out, format_kind_of(reading_of(st.text.as_slice()).as_slice()));
        out.push('\t' as u8);
        match detected_zone_of(st.effective.as_slice()) {
            Some(z) => push_all(&mut out, z.as_slice()),
            None => {},
        }
        out.push('\n' as u8);
        assert(out@ =~= before + detect_row(tv[k as int]));
        k += 1;
    }
    out
}

/// What one line of input comes to: with `-J`, each match to be written
/// on its own; with `-j`, the matches to be collected; with `--detect`, a
/// row per timestamp; else the translated line.
pub fn handle_line(opts: &Options, json_mode: bool, line: &[u8]) -> (r: LineOutput)
    ensures
        json_mode && opts.ndjson ==> (r matches LineOutput::EachMatch(ms) && reports(
            line@,
            ms@,
            opts.format,
            opts.detect,
            opt_str_bytes(opts.date),
            opts.to@,
            crate::args::opt_chars(opts.from),
        )),
        json_mode && !opts.ndjson ==> (r matches LineOutput::Collect(ms) && reports(
            line@,
            ms@,
            opts.format,
            opts.detect,
            opt_str_bytes(opts.date),
            opts.to@,
            crate::args::opt_chars(opts.from),
        )),
        !json_mode && opts.detect ==> (r matches LineOutput::Bytes(b) && b@ == detect_rows(
            timestamps(line@),
            timestamps(line@).len() as int,
        )),
        !json_mode && !opts.detect ==> (r matches LineOutput::Bytes(b) && translated(
            line@,
            b@,
            opts.format,
            opt_str_bytes(opts.date),
            opts.to@,
            crate::args::opt_chars(opts.from),
        )),
{
    let from = opt_str(&opts.from);
    let date = opt_str(&opts.date);
    if json_mode {
        let ms = matches_bytes(line, opts.to.as_str(), from, opts.format, opts.detect, date);
        if opts.ndjson {
            LineOutput::EachMatch(ms)
        } else {
            LineOutput::Collect(ms)
        }
    } else if opts.detect {
        LineOutput::Bytes(detect_rows_of(line))
    } else {
        LineOutput::Bytes(translate_bytes(line, opts.to.as_str(), from, opts.format, date))
    }
}

/// What `-v` has already said, so each thing is said once.
pub struct Disclosed {
    pub assumed: Assumptions,
    pub ignored: Vec<String>,
}

impl Disclosed {
    /// Nothing said yet.
    pub fn new() -> (r: Self)
        ensures
            !assumes_any(r.assumed),
            r.ignored@.len() == 0,
    {
        Disclosed { assumed: Assumptions { date: false, zone: false }, ignored: Vec::new() }
    }
}

pub open spec fn strings_view(v: Seq<String>) -> Seq<Seq<char>> {
    Seq::new(v.len(), |k: int| v[k]@)
}

/// The zone abbreviations of a line ignored for their case, as text.
pub open spec fn ignored_text(s: Seq<u8>) -> Seq<Seq<char>> {
    Seq::new(ignored(s).len(), |k: int| decode_utf8(ignored(s)[k]))
}

/// Among the first `k` of `ig`, the ones neither in `seen` nor earlier
/// among them.
pub open spec fn fresh_upto(seen: Seq<Seq<char>>, ig: Seq<Seq<char>>, k: int) -> Seq<Seq<char>>
    decreases k,
{
    if k <= 0 {
        seq![]
    } else {
        let f = fresh_upto(seen, ig, k - 1);
        if (seen + f).contains(ig[k - 1]) {
            f
        } else {
            f.push(ig[k - 1])
        }
    }
}

/// Each zone ignored for its case is named once in a run: what a line
/// newly names was not named before and is not named twice, and by the end
/// of the line every zone it ignored has been named.
pub proof fn law_ignored_named_once(seen: Seq<Seq<char>>, ig: Seq<Seq<char>>, k: int)
    requires
        0 <= k <= ig.len(),
    ensures
        forall|i: int| 0 <= i < fresh_upto(seen, ig, k).len() ==> !seen.contains(#[trigger] fresh_upto(seen, ig, k)[i]),
        forall|i: int, j: int|
            0 <= i < j < fresh_upto(seen, ig, k).len() ==> fresh_upto(seen, ig, k)[i] != fresh_upto(seen, ig, k)[j],
        forall|i: int| 0 <= i < k ==> (seen + fresh_upto(seen, ig, k)).contains(#[trigger] ig[i]),
    decreases k,
{
    if k > 0 {
        law_ignored_named_once(seen, ig, k - 1);
        let f = fresh_upto(seen, ig, k - 1);
        let x = ig[k - 1];
        if !(seen + f).contains(x) {
            let g = f.push(x);
            assert(fresh_upto(seen, ig, k) == g);
            assert forall|i: int| 0 <= i < g.len() implies !seen.contains(#[trigger] g[i]) by {
                if i < f.len() {
                    assert(g[i] == f[i]);
                } else {
                    if seen.contains(x) {
                        let w = choose|w: int| 0 <= w < seen.len() && seen[w] == x;
                        assert((seen + f)[w] == x);
                    }
                }
            }
            assert forall|i: int, j: int| 0 <= i < j < g.len() implies g[i] != g[j] by {
                if j == f.len() {
                    assert((seen + f)[seen.len() + i] == f[i]);
                } else {
                    assert(g[i] == f[i] && g[j] == f[j]);
                }
            }
            assert forall|i: int| 0 <= i < k implies (seen + g).contains(#[trigger] ig[i]) by {
                if i < k - 1 {
                    assert((seen + f).contains(ig[i]));
                    let w = choose|w: int| 0 <= w < (seen + f).len() && (seen + f)[w] == ig[i];
                    assert((seen + g)[w] == ig[i]);
                } else {
                    assert((seen + g)[(seen.len() + f.len()) as int] == x);
                }
            }
        } else {
            assert(fresh_upto(seen, ig, k) == f);
        }
    }
}

/// What `-v` has said after the first `k` lines of a run, as
/// [`disclose`] records it from a fresh [`Disclosed`]: the zones named for
/// their case, and the assumptions disclosed.
pub open spec fn run_said(opts: Options, lines: Seq<Seq<u8>>, k: int) -> (Seq<Seq<char>>, Assumptions)
    decreases k,
{
    if k <= 0 {
        (seq![], Assumptions { date: false, zone: false })
    } else {
        let prev = run_said(opts, lines, k - 1);
        if speaks(opts) {
            let ig = ignored_text(lines[k - 1]);
            (
                prev.0 + fresh_upto(prev.0, ig, ig.len() as int),
                assumed_union(prev.1, new_assumed(lines[k - 1], prev.1)),
            )
        } else {
            prev
        }
    }
}

/// What the first `k` lines of a run assume, together.
pub open spec fn run_assumed(lines: Seq<Seq<u8>>, k: int) -> Assumptions {
    Assumptions {
        date: exists|i: int| 0 <= i < k && #[trigger] assumes_date(lines[i]),
        zone: exists|i: int| 0 <= i < k && #[trigger] assumes_zone(lines[i]),
    }
}

/// Over a run, `-v` says each thing once: with `-v` off or with
/// `--detect`, nothing is recorded; otherwise what is recorded as assumed
/// after `k` lines is what those lines assume, each zone ignored for its
/// case is named once, and the `$TZ` and the assumed-date notices each
/// come at most once.
pub proof fn law_run_says_each_once(opts: Options, lines: Seq<Seq<u8>>, k: int)
    requires
        0 <= k <= lines.len(),
    ensures
        !speaks(opts) ==> run_said(opts, lines, k) == (Seq::<Seq<char>>::empty(), Assumptions { date: false, zone: false }),
        speaks(opts) ==> run_said(opts, lines, k).1 == run_assumed(lines, k),
        forall|i: int, j: int|
            0 <= i < j < run_said(opts, lines, k).0.len() ==> run_said(opts, lines, k).0[i] != run_said(opts, lines, k).0[j],
        forall|i: int, j: int|
            speaks(opts) && 0 <= i < j < k && #[trigger] new_assumed(lines[i], run_said(opts, lines, i).1).zone ==> !(
            #[trigger] new_assumed(lines[j], run_said(opts, lines, j).1)).zone,
        forall|i: int, j: int|
            speaks(opts) && 0 <= i < j < k && #[trigger] new_assumed(lines[i], run_said(opts, lines, i).1).date ==> !(
            #[trigger] new_assumed(lines[j], run_said(opts, lines, j).1)).date,
    decreases k,
{
    if k > 0 {
        law_run_says_each_once(opts, lines, k - 1);
        let prev = run_said(opts, lines, k - 1);
        if speaks(opts) {
            let ig = ignored_text(lines[k - 1]);
            let f = fresh_upto(prev.0, ig, ig.len() as int);
            law_ignored_named_once(prev.0, ig, ig.len() as int);
            let all = prev.0 + f;
            assert forall|i: int, j: int| 0 <= i < j < all.len() implies all[i] != all[j] by {
                if j >= prev.0.len() && i < prev.0.len() {
                    assert(all[j] == f[j - prev.0.len()]);
                    assert(prev.0.contains(all[i]));
                } else if i >= prev.0.len() {
                    assert(all[i] == f[i - prev.0.len()] && all[j] == f[j - prev.0.len()]);
                }
            }
            assert(run_said(opts, lines, k).1 =~= run_assumed(lines, k)) by {
                if assumes_date(lines[k - 1]) {
                    assert(run_assumed(lines, k).date);
                }
                if assumes_zone(lines[k - 1]) {
                    assert(run_assumed(lines, k).zone);
                }
                if run_assumed(lines, k).date && !assumes_date(lines[k - 1]) {
                    let w = choose|w: int| 0 <= w < k && #[trigger] assumes_date(lines[w]);
                    assert(run_assumed(lines, k - 1).date);
                }
                if run_assumed(lines, k).zone && !assumes_zone(lines[k - 1]) {
                    let w = choose|w: int| 0 <= w < k && #[trigger] assumes_zone(lines[w]);
                    assert(run_assumed(lines, k - 1).zone);
                }
            }
        }
        assert forall|i: int, j: int|
            speaks(opts) && 0 <= i < j < k && #[trigger] new_assumed(lines[i], run_said(opts, lines, i).1).zone implies !(
            #[trigger] new_assumed(lines[j], run_said(opts, lines, j).1)).zone by {
            if j == k - 1 {
                law_run_says_each_once(opts, lines, j);
                assert(assumes_zone(lines[i]));
                assert(run_assumed(lines, j).zone);
            }
        }
        assert forall|i: int, j: int|
            speaks(opts) && 0 <= i < j < k && #[trigger] new_assumed(lines[i], run_said(opts, lines, i).1).date implies !(
            #[trigger] new_assumed(lines[j], run_said(opts, lines, j).1)).date by {
            if j == k - 1 {
                law_run_says_each_once(opts, lines, j);
                assert(assumes_date(lines[i]));
                assert(run_assumed(lines, j).date);
            }
        }
    }
}

pub open spec fn ignored_msg(t: Seq<char>) -> Seq<char> {
    "ignored \""@ + t + "\": a zone abbreviation is matched in all uppercase or all lowercase"@
}

pub open spec fn from_msg(from: Seq<char>, to: Seq<char>) -> Seq<char> {
    "from="@ + from + " (implicit, from $TZ) to="@ + to
}

pub open spec fn date_msg(d: Seq<char>) -> Seq<char> {
    "no -d given, assuming "@ + d + " for DST resolution"@
}

/// What a line assumes.
pub open spec fn line_assumes(s: Seq<u8>) -> Assumptions {
    Assumptions { date: assumes_date(s), zone: assumes_zone(s) }
}

/// The assumptions a line makes that were not said before.
pub open spec fn new_assumed(s: Seq<u8>, said: Assumptions) -> Assumptions {
    assumed_minus(line_assumes(s), said)
}

/// Whether `-v` speaks of lines at all.
pub open spec fn speaks(opts: Options) -> bool {
    opts.verbose && !opts.detect
}

/// What `-v` says of a line, given what it has said before (`seen`,
/// `said`) and the date it says it assumed (`d`): each zone ignored for
/// its case not named before, then the source zone taken from `$TZ` and
/// the date assumed for DST, each the first time a timestamp makes it an
/// assumption.
pub open spec fn notices(opts: Options, s: Seq<u8>, seen: Seq<Seq<char>>, said: Assumptions, d: Seq<char>) -> Seq<
    Seq<char>,
> {
    if !speaks(opts) {
        seq![]
    } else {
        let ig = ignored_text(s);
        let f = fresh_upto(seen, ig, ig.len() as int);
        let ims = Seq::new(f.len(), |k: int| ignored_msg(f[k]));
        let new = new_assumed(s, said);
        if !assumes_any(new) {
            ims
        } else {
            ims + (if new.zone && opts.from_is_implicit && opts.from is Some {
                seq![from_msg(opts.from->0@, opts.to@)]
            } else {
                seq![]
            }) + (if new.date && opts.date is None {
                seq![date_msg(d)]
            } else {
                seq![]
            })
        }
    }
}

/// A date as `-v` writes it: `YYYY-MM-DD`, or nothing when it has none.
pub open spec fn date_said(d: Seq<char>) -> bool {
    d.len() == 0 || exists|y: int, m: int, dd: int| valid_date(y, m, dd) && d == decode_utf8(date_text(y, m, dd))
}

fn contains_string(v: &Vec<String>, t: &String) -> (r: bool)
    ensures
        r == strings_view(v@).contains(t@),
{
    let mut k: usize = 0;
    while k < v.len()
        invariant
            k <= v@.len(),
            forall|j: int| 0 <= j < k ==> v@[j]@ != t@,
        decreases v.len() - k,
    {
        if v[k] == *t {
            assert(strings_view(v@)[k as int] == t@);
            return true;
        }
        k += 1;
    }
    assert(!strings_view(v@).contains(t@)) by {
        if strings_view(v@).contains(t@) {
            let j = choose|j: int| 0 <= j < v@.len() && strings_view(v@)[j] == t@;
            assert(v@[j]@ == t@);
        }
    }
    false
}

/// The messages for the zones of a line ignored for their case that
/// `seen` does not name yet, each added to it.
fn ignored_notices(line: &[u8], seen: &mut Vec<String>) -> (r: Vec<String>)
    ensures
        ({
            let f = fresh_upto(strings_view(old(seen)@), ignored_text(line@), ignored_text(line@).len() as int);
            &&& strings_view(final(seen)@) == strings_view(old(seen)@) + f
            &&& strings_view(r@) == Seq::new(f.len(), |j: int| ignored_msg(f[j]))
        }),
{
    let ghost s0 = strings_view(seen@);
    let mut out: Vec<String> = Vec::new();
    let tokens = ignored_zones(line);
    let ghost ig = ignored_text(line@);
    assert forall|k: int| 0 <= k < tokens@.len() implies (#[trigger] tokens@[k])@ == ig[k] by {
        vstd::utf8::encode_utf8_decode_utf8(tokens@[k]@);
    }
    let mut k: usize = 0;
    while k < tokens.len()
        invariant
            k <= tokens@.len() == ig.len(),
            ig == ignored_text(line@),
            forall|j: int| 0 <= j < tokens@.len() ==> (#[trigger] tokens@[j])@ == ig[j],
            strings_view(seen@) == s0 + fresh_upto(s0, ig, k as int),
            strings_view(out@) == Seq::new(
                fresh_upto(s0, ig, k as int).len(),
                |j: int| ignored_msg(fresh_upto(s0, ig, k as int)[j]),
            ),
        decreases tokens.len() - k,
    {
        let t = &tokens[k];
        let ghost f = fresh_upto(s0, ig, k as int);
        assert(t@ == ig[k as int]);
        if !contains_string(seen, t) {
            let mut m = String::from_str("ignored \"");
            m.append(t.as_str());
            m.append("\": a zone abbreviation is matched in all uppercase or all lowercase");
            assert(m@ == ignored_msg(ig[k as int]));
            let ghost before = out@;
            out.push(m);
            assert(strings_view(out@) =~= Seq::new(
                f.push(ig[k as int]).len(),
                |j: int| ignored_msg(f.push(ig[k as int])[j]),
            )) by {
                assert(out@ == before.push(m));
                assert(strings_view(before) == Seq::new(f.len(), |j: int| ignored_msg(f[j])));
                assert(strings_view(before).len() == before.len());
                assert(before.len() == f.len());
                assert(out@.len() == f.len() + 1);
                assert forall|j: int| 0 <= j < f.len() implies strings_view(out@)[j] == ignored_msg(
                    f.push(ig[k as int])[j],
                ) by {
                    assert(strings_view(out@)[j] == out@[j]@);
                    assert(out@[j] == before[j]);
                    assert(strings_view(before)[j] == before[j]@);
                }
                assert(strings_view(out@)[f.len() as int] == m@);
            }
            let c = t.clone();
            let ghost sb = seen@;
            seen.push(c);
            assert(strings_view(seen@) =~= strings_view(sb).push(c@));
            assert(fresh_upto(s0, ig, k + 1) == f.push(ig[k as int]));
        } else {
            assert(fresh_upto(s0, ig, k + 1) == f);
        }
        k += 1;
    }
    out
}

/// The messages for what a line newly assumes: the source zone taken from
/// `$TZ` and the date assumed for DST.
fn assumed_notices(opts: &Options, line: &[u8], new: Assumptions) -> (r: Vec<String>)
    ensures
        exists|d: Seq<char>|
            date_said(d) && (new.date && opts.date is None && dated_today(line@) ==> d.len() > 0) && strings_view(r@) == (if new.zone && opts.from_is_implicit && opts.from is Some {
                seq![from_msg(opts.from->0@, opts.to@)]
            } else {
                Seq::<Seq<char>>::empty()
            }) + (if new.date && opts.date is None {
                seq![date_msg(d)]
            } else {
                Seq::<Seq<char>>::empty()
            }),
{
    let mut out: Vec<String> = Vec::new();
    if new.zone && opts.from_is_implicit {
        match &opts.from {
            Some(from) => {
                let mut m = String::from_str("from=");
                m.append(from.as_str());
                m.append(" (implicit, from $TZ) to=");
                m.append(opts.to.as_str());
                out.push(m);
            },
            None => {},
        }
    }
    let ghost zm = strings_view(out@);
    let ghost mut d: Seq<char> = Seq::empty();
    if new.date && opts.date.is_none() {
        let from = opt_str(&opts.from);
        let day = match assumed_date(line, from, opts.to.as_str()) {
            Some(x) => x,
            None => String::new(),
        };
        proof {
            d = day@;
            if d.len() > 0 {
                let (y, m, dd) = choose|y: int, m: int, dd: int|
                    valid_date(y, m, dd) && encode_utf8(day@) == date_text(y, m, dd);
                vstd::utf8::encode_utf8_decode_utf8(day@);
                assert(d == decode_utf8(date_text(y, m, dd)));
            }
        }
        let mut m = String::from_str("no -d given, assuming ");
        m.append(day.as_str());
        m.append(" for DST resolution");
        out.push(m);
        assert(strings_view(out@) =~= zm + seq![date_msg(d)]);
    } else {
        assert(strings_view(out@) =~= zm + Seq::<Seq<char>>::empty());
    }
    assert(date_said(d));
    out
}

/// What `-v` says of `line` that no earlier line has said, each message
/// without the program's name; `disclosed` keeps what has been said.
pub fn disclose(opts: &Options, line: &[u8], disclosed: &mut Disclosed) -> (r: Vec<String>)
    ensures
        exists|d: Seq<char>|
            date_said(d) && (speaks(*opts) && new_assumed(line@, old(disclosed).assumed).date && opts.date is None
                && dated_today(line@) ==> d.len() > 0) && strings_view(r@) == notices(
                *opts,
                line@,
                strings_view(old(disclosed).ignored@),
                old(disclosed).assumed,
                d,
            ),
        !speaks(*opts) ==> strings_view(final(disclosed).ignored@) == strings_view(old(disclosed).ignored@),
        !speaks(*opts) ==> final(disclosed).assumed == old(disclosed).assumed,
        speaks(*opts) ==> strings_view(final(disclosed).ignored@) == strings_view(old(disclosed).ignored@)
            + fresh_upto(
            strings_view(old(disclosed).ignored@),
            ignored_text(line@),
            ignored_text(line@).len() as int,
        ),
        speaks(*opts) ==> final(disclosed).assumed == assumed_union(
            old(disclosed).assumed,
            new_assumed(line@, old(disclosed).assumed),
        ),
{
    let ghost seen = strings_view(disclosed.ignored@);
    let ghost said = disclosed.assumed;
    if !opts.verbose || opts.detect {
        let out: Vec<String> = Vec::new();
        assert(strings_view(out@) =~= notices(*opts, line@, seen, said, Seq::empty()));
        assert(date_said(Seq::<char>::empty()));
        return out;
    }
    let mut out = ignored_notices(line, &mut disclosed.ignored);
    let ghost ims = strings_view(out@);
    let new = assumptions(line).minus(disclosed.assumed);
    assert(new == new_assumed(line@, said));
    if !new.any() {
        assert(strings_view(out@) =~= notices(*opts, line@, seen, said, Seq::empty()));
        assert(date_said(Seq::<char>::empty()));
        return out;
    }
    disclosed.assumed = disclosed.assumed.union(new);
    let mut more = assumed_notices(opts, line, new);
    let ghost mv = strings_view(more@);
    let ghost ov = out@;
    let ghost mo = more@;
    out.append(&mut more);
    assert(strings_view(out@) =~= ims + mv) by {
        assert(out@ == ov + mo);
    }
    out
}

} // verus!
