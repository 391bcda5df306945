//! What a run is set up with: the zones the arguments and `$TZ` name,
//! resolved, and the reference date normalized. Help and the early exits
//! come before this.

use vstd::prelude::*;
use vstd::string::{StringExecFns, StringSliceAdditionalSpecFns};
use vstd::utf8::{decode_utf8, encode_utf8};
use crate::args::{opt_chars, strings_chars, Parsed, ParsedV};
use crate::civil::valid_date;
use crate::cli::{date_read, normalize_date};
use crate::format::Format;
use crate::lines::Options;
use crate::notes::date_text;
use crate::tz::{resolution, resolve_tz, TzError};

verus! {

pub struct OptionsV {
    pub from: Option<Seq<char>>,
    pub from_is_implicit: bool,
    pub to: Seq<char>,
    pub format: Option<Format>,
    pub date: Option<Seq<char>>,
    pub inplace: bool,
    pub json: bool,
    pub ndjson: bool,
    pub detect: bool,
    pub verbose: bool,
    pub files: Seq<Seq<char>>,
}

impl View for Options {
    type V = OptionsV;

    open spec fn view(&self) -> OptionsV {
        OptionsV {
            from: opt_chars(self.from),
            from_is_implicit: self.from_is_implicit,
            to: self.to@,
            format: self.format,
            date: opt_chars(self.date),
            inplace: self.inplace,
            json: self.json,
            ndjson: self.ndjson,
            detect: self.detect,
            verbose: self.verbose,
            files: strings_chars(self.files@),
        }
    }
}

/// `$TZ`, when it is set to something.
pub open spec fn env_zone(tz_env: Option<Seq<char>>) -> Option<Seq<char>> {
    match tz_env {
        Some(s) => if s.len() > 0 {
            Some(s)
        } else {
            None
        },
        None => None,
    }
}

/// The output zone asked for: `-t`, else `$TZ`, else UTC.
pub open spec fn to_input(p: ParsedV, local: Option<Seq<char>>) -> Seq<char> {
    match p.to {
        Some(t) => t,
        None => match local {
            Some(l) => l,
            None => "UTC"@,
        },
    }
}

/// The source zone asked for: `-f`, else `$TZ`, else none.
pub open spec fn from_input(p: ParsedV, local: Option<Seq<char>>) -> Option<Seq<char>> {
    match p.from {
        Some(f) => Some(f),
        None => local,
    }
}

/// The message for a zone that does not resolve.
pub open spec fn tz_message(e: TzError) -> Seq<char> {
    match e {
        TzError::Unknown(s) => "unknown timezone: "@ + s@,
        TzError::OffsetOutOfRange(s) => "offset out of range: "@ + s@ + " (expected -12..14)"@,
    }
}

pub open spec fn tz_view(r: Result<String, TzError>) -> Result<Seq<char>, Seq<char>> {
    match r {
        Ok(s) => Ok(s@),
        Err(e) => Err(tz_message(e)),
    }
}

pub open spec fn opt_tz_view(r: Option<Result<String, TzError>>) -> Option<Result<Seq<char>, Seq<char>>> {
    match r {
        Some(x) => Some(tz_view(x)),
        None => None,
    }
}

/// A `-d` value as `YYYY-MM-DD`, when it is one of the forms and a date.
pub open spec fn normalized_date(d: Seq<char>) -> Option<Seq<char>> {
    match date_read(encode_utf8(d)) {
        Some((y, m, dd)) => if valid_date(y, m, dd) {
            Some(decode_utf8(date_text(y, m, dd)))
        } else {
            None
        },
        None => None,
    }
}

pub open spec fn conflict_message() -> Seq<char> {
    "-i cannot be combined with --json/--ndjson/--detect"@
}

/// What a run is set up with, given what resolving the output zone (`rt`)
/// and the source zone (`rf`, if one is asked for) gave: the first error in
/// that order, then an unreadable date, then `-i` with an output it cannot
/// write into a file.
pub open spec fn settled(p: ParsedV, implicit: bool, rt: Result<Seq<char>, Seq<char>>, rf: Option<
    Result<Seq<char>, Seq<char>>,
>) -> Result<OptionsV, Seq<char>> {
    match rt {
        Err(e) => Err(e),
        Ok(to) => match rf {
            Some(Err(e)) => Err(e),
            _ => {
                let from = match rf {
                    Some(Ok(f)) => Some(f),
                    _ => None,
                };
                match p.date {
                    Some(d) if normalized_date(d) is None => Err("invalid date: "@ + d),
                    _ => if p.inplace && (p.json || p.ndjson || p.detect) {
                        Err(conflict_message())
                    } else {
                        Ok(
                            OptionsV {
                                from,
                                from_is_implicit: implicit,
                                to,
                                format: p.format,
                                date: match p.date {
                                    Some(d) => normalized_date(d),
                                    None => None,
                                },
                                inplace: p.inplace,
                                json: p.json,
                                ndjson: p.ndjson,
                                detect: p.detect,
                                verbose: p.verbose,
                                files: p.files,
                            },
                        )
                    },
                }
            },
        },
    }
}

pub open spec fn settled_view(r: Result<Options, String>) -> Result<OptionsV, Seq<char>> {
    match r {
        Ok(o) => Ok(o@),
        Err(e) => Err(e@),
    }
}

fn tz_result(r: Result<String, TzError>) -> (v: Result<String, String>)
    ensures
        match r {
            Ok(s) => v matches Ok(x) && x@ == s@,
            Err(e) => v matches Err(m) && m@ == tz_message(e),
        },
{
    match r {
        Ok(s) => Ok(s),
        Err(e) => Err(e.to_string()),
    }
}

/// A run set up from what resolving its zones gave, as [`settled`] says.
pub fn settle(p: Parsed, implicit: bool, rt: Result<String, TzError>, rf: Option<Result<String, TzError>>) -> (r: Result<
    Options,
    String,
>)
    ensures
        settled_view(r) == settled(
            p@,
            implicit,
            tz_view(rt),
            opt_tz_view(rf),
        ),
{
    let to = match tz_result(rt) {
        Ok(t) => t,
        Err(e) => return Err(e),
    };
    let from = match rf {
        Some(x) => match tz_result(x) {
            Ok(f) => Some(f),
            Err(e) => return Err(e),
        },
        None => None,
    };
    let date = match &p.date {
        Some(d) => match normalize_date(d.as_str()) {
            Some(x) => {
                proof {
                    let (y, m, dd) = date_read(encode_utf8(d@))->0;
                    vstd::utf8::encode_utf8_decode_utf8(x@);
                }
                Some(x)
            },
            None => {
                let mut m = String::from_str("invalid date: ");
                m.append(d.as_str());
                return Err(m);
            },
        },
        None => None,
    };
    if p.inplace && (p.json || p.ndjson || p.detect) {
        return Err(String::from_str("-i cannot be combined with --json/--ndjson/--detect"));
    }
    Ok(
        Options {
            from,
            from_is_implicit: implicit,
            to,
            format: p.format,
            date,
            inplace: p.inplace,
            json: p.json,
            ndjson: p.ndjson,
            detect: p.detect,
            verbose: p.verbose,
            files: p.files,
        },
    )
}

/// Sets a run up: resolves the output zone (`-t`, else `$TZ`, else UTC),
/// then the source zone (`-f`, else `$TZ`), normalizes the date and checks
/// `-i` against the output asked for. What resolving a name gives rests on
/// the system tz database: the result is what [`settled`] makes of some
/// outcome of each resolution that [`resolution`] allows.
pub fn configure(p: Parsed, tz_env: Option<String>) -> (r: Result<Options, String>)
    ensures
        exists|rt: Result<String, TzError>, rf: Option<Result<String, TzError>>|
            #![trigger resolution(to_input(p@, env_zone(opt_chars(tz_env))), rt), opt_tz_view(rf)]
            resolution(to_input(p@, env_zone(opt_chars(tz_env))), rt) && (rt is Ok ==> match from_input(
                p@,
                env_zone(opt_chars(tz_env)),
            ) {
                Some(f) => rf matches Some(x) && resolution(f, x),
                None => rf is None,
            }) && settled_view(r) == settled(
                p@,
                p@.from is None && env_zone(opt_chars(tz_env)) is Some,
                tz_view(rt),
                opt_tz_view(rf),
            ),
{
    let local: Option<String> = match tz_env {
        Some(s) => if s.as_str().unicode_len() > 0 {
            Some(s)
        } else {
            None
        },
        None => None,
    };
    let ghost lv = env_zone(opt_chars(tz_env));
    assert(opt_chars(local) == lv);
    let implicit = p.from.is_none() && local.is_some();
    let rt = match &p.to {
        Some(t) => resolve_tz(t.as_str()),
        None => match &local {
            Some(l) => resolve_tz(l.as_str()),
            None => resolve_tz("UTC"),
        },
    };
    let ghost rt0 = rt;
    if rt.is_err() {
        let r = settle(p, implicit, rt, None);
        assert(resolution(to_input(p@, lv), rt0) && opt_tz_view(None::<Result<String, TzError>>) is None);
        return r;
    }
    let rf = match &p.from {
        Some(f) => Some(resolve_tz(f.as_str())),
        None => match &local {
            Some(l) => Some(resolve_tz(l.as_str())),
            None => None,
        },
    };
    let ghost rf0 = rf;
    let ghost pv = p@;
    let r = settle(p, implicit, rt, rf);
    assert(resolution(to_input(pv, lv), rt0) && opt_tz_view(rf0) == opt_tz_view(rf0));
    r
}

/// What `-v` says before the first line, unless the source zone came from
/// `$TZ`, which it discloses once a line leans on it.
pub fn startup_notice(opts: &Options) -> (r: Option<String>)
    ensures
        !opts.verbose || opts.from_is_implicit ==> r is None,
        opts.verbose && !opts.from_is_implicit ==> (r matches Some(m) && m@ == "from="@ + (match opts.from {
            Some(f) => f@,
            None => "auto"@,
        }) + " to="@ + opts.to@),
{
    if !opts.verbose || opts.from_is_implicit {
        return None;
    }
    let mut m = String::from_str("from=");
    match &opts.from {
        Some(f) => m.append(f.as_str()),
        None => m.append("auto"),
    }
    m.append(" to=");
    m.append(opts.to.as_str());
    Some(m)
}

} // verus!
