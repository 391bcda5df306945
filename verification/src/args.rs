//! The command line's arguments read into what was asked: `--name=value`,
//! bundled short flags (`-vj`, `-tsf` for `-t sf`), `--` ending the flags,
//! and the files named.

use vstd::prelude::*;
use vstd::string::{StrSliceExecFns, StringExecFns, StringSliceAdditionalSpecFns};
use vstd::utf8::encode_utf8;
use crate::cli::{format_named, is_value_short, parse_format};
use crate::format::Format;

verus! {

/// What the arguments ask for, the flags and values as given.
pub struct Parsed {
    pub from: Option<String>,
    pub to: Option<String>,
    pub format: Option<Format>,
    pub date: Option<String>,
    pub inplace: bool,
    pub json: bool,
    pub ndjson: bool,
    pub detect: bool,
    pub verbose: bool,
    pub help: bool,
    pub files: Vec<String>,
}

pub struct ParsedV {
    pub from: Option<Seq<char>>,
    pub to: Option<Seq<char>>,
    pub format: Option<Format>,
    pub date: Option<Seq<char>>,
    pub inplace: bool,
    pub json: bool,
    pub ndjson: bool,
    pub detect: bool,
    pub verbose: bool,
    pub help: bool,
    pub files: Seq<Seq<char>>,
}

pub open spec fn opt_chars(o: Option<String>) -> Option<Seq<char>> {
    match o {
        Some(s) => Some(s@),
        None => None,
    }
}

pub open spec fn strings_chars(v: Seq<String>) -> Seq<Seq<char>> {
    Seq::new(v.len(), |k: int| v[k]@)
}

impl View for Parsed {
    type V = ParsedV;

    open spec fn view(&self) -> ParsedV {
        ParsedV {
            from: opt_chars(self.from),
            to: opt_chars(self.to),
            format: self.format,
            date: opt_chars(self.date),
            inplace: self.inplace,
            json: self.json,
            ndjson: self.ndjson,
            detect: self.detect,
            verbose: self.verbose,
            help: self.help,
            files: strings_chars(self.files@),
        }
    }
}

/// What the arguments come to: the alias list, the version, or a run.
pub enum Action {
    List,
    Version,
    Run(Parsed),
}

pub enum ActionV {
    List,
    Version,
    Run(ParsedV),
}

pub open spec fn action_view(a: Action) -> ActionV {
    match a {
        Action::List => ActionV::List,
        Action::Version => ActionV::Version,
        Action::Run(p) => ActionV::Run(p@),
    }
}

/// Nothing asked for yet.
pub open spec fn nothing_parsed() -> ParsedV {
    ParsedV {
        from: None,
        to: None,
        format: None,
        date: None,
        inplace: false,
        json: false,
        ndjson: false,
        detect: false,
        verbose: false,
        help: false,
        files: seq![],
    }
}

/// An argument read as a flag's name, the value written inside it, and
/// the rest of a bundle of short flags, to be read next.
pub struct Token {
    pub name: Seq<char>,
    pub inline: Option<Seq<char>>,
    pub requeue: Option<Seq<char>>,
}

/// Where the first `=` is, from `from` on.
pub open spec fn first_eq(a: Seq<char>, from: int) -> Option<int>
    decreases a.len() - from,
{
    if from < 0 || from >= a.len() {
        None
    } else if a[from] == '=' {
        Some(from)
    } else {
        first_eq(a, from + 1)
    }
}

pub open spec fn value_short(c: char) -> bool {
    c == 'f' || c == 't' || c == 'd' || c == 'F'
}

/// `--name=value` splits at its first `=`. A short flag with more after it
/// is a bundle: a flag that takes a value takes the rest as its value, one
/// that does not leaves the rest to be read as flags of their own.
pub open spec fn split_arg(a: Seq<char>) -> Token {
    if a.len() >= 2 && a[0] == '-' && a[1] == '-' {
        match first_eq(a, 0) {
            Some(i) => Token { name: a.subrange(0, i), inline: Some(a.subrange(i + 1, a.len() as int)), requeue: None },
            None => Token { name: a, inline: None, requeue: None },
        }
    } else if a.len() >= 2 && a[0] == '-' && encode_utf8(a).len() > 2 {
        let rest = a.subrange(2, a.len() as int);
        if value_short(a[1]) {
            Token {
                name: a.subrange(0, 2),
                inline: if rest.len() == 0 {
                    None
                } else {
                    Some(rest)
                },
                requeue: None,
            }
        } else {
            Token {
                name: a.subrange(0, 2),
                inline: None,
                requeue: if rest.len() == 0 {
                    None
                } else {
                    Some(seq!['-'] + rest)
                },
            }
        }
    } else {
        Token { name: a, inline: None, requeue: None }
    }
}

/// The flags, by what they do.
#[derive(Clone, Copy, PartialEq, Eq, Structural)]
pub enum Flag {
    From,
    To,
    Date,
    FormatFlag,
    List,
    InPlace,
    Json,
    Ndjson,
    Detect,
    Verbose,
    Version,
    Help,
}

/// The flag a name spells, short or long.
pub open spec fn flag_of(n: Seq<char>) -> Option<Flag> {
    if n == "-f"@ || n == "--from"@ {
        Some(Flag::From)
    } else if n == "-t"@ || n == "--to"@ {
        Some(Flag::To)
    } else if n == "-d"@ || n == "--date"@ {
        Some(Flag::Date)
    } else if n == "-F"@ || n == "--format"@ {
        Some(Flag::FormatFlag)
    } else if n == "-l"@ || n == "--list"@ {
        Some(Flag::List)
    } else if n == "-i"@ || n == "--in-place"@ {
        Some(Flag::InPlace)
    } else if n == "-j"@ || n == "--json"@ {
        Some(Flag::Json)
    } else if n == "-J"@ || n == "--ndjson"@ {
        Some(Flag::Ndjson)
    } else if n == "--detect"@ {
        Some(Flag::Detect)
    } else if n == "-v"@ || n == "--verbose"@ {
        Some(Flag::Verbose)
    } else if n == "-V"@ || n == "--version"@ {
        Some(Flag::Version)
    } else if n == "-h"@ || n == "--help"@ {
        Some(Flag::Help)
    } else {
        None
    }
}

pub open spec fn takes_value(f: Flag) -> bool {
    f == Flag::From || f == Flag::To || f == Flag::Date || f == Flag::FormatFlag
}

/// A flag that takes no value, set.
pub open spec fn set_flag(f: Flag, st: ParsedV) -> ParsedV {
    match f {
        Flag::InPlace => ParsedV { inplace: true, ..st },
        Flag::Json => ParsedV { json: true, ..st },
        Flag::Ndjson => ParsedV { ndjson: true, ..st },
        Flag::Detect => ParsedV { detect: true, ..st },
        Flag::Verbose => ParsedV { verbose: true, ..st },
        Flag::Help => ParsedV { help: true, ..st },
        _ => st,
    }
}

/// A flag that takes a value, given it.
pub open spec fn set_value(f: Flag, v: Seq<char>, st: ParsedV) -> Result<ParsedV, Seq<char>> {
    match f {
        Flag::From => Ok(ParsedV { from: Some(v), ..st }),
        Flag::To => Ok(ParsedV { to: Some(v), ..st }),
        Flag::Date => Ok(ParsedV { date: Some(v), ..st }),
        _ => match format_named(encode_utf8(v)) {
            Some(fm) => Ok(ParsedV { format: Some(fm), ..st }),
            None => Err("invalid format: "@ + v + " (expected iso, short, time)"@),
        },
    }
}

pub open spec fn head_len(q: Seq<Seq<char>>) -> nat {
    if q.len() > 0 {
        q[0].len()
    } else {
        0
    }
}

/// The arguments `q` read after `st`, as the command line reads them in
/// turn: `--` makes the rest files; `-l` and `-V` end the reading; a flag
/// that takes a value takes the one written inside it, else the next
/// argument; one that takes none refuses one written inside it; any other
/// flag is refused, and anything else is a file.
pub open spec fn parse_from(q: Seq<Seq<char>>, st: ParsedV) -> Result<ActionV, Seq<char>>
    decreases q.len(), head_len(q),
{
    if q.len() == 0 {
        Ok(ActionV::Run(st))
    } else if q[0] == "--"@ {
        Ok(ActionV::Run(ParsedV { files: st.files + q.drop_first(), ..st }))
    } else {
        let t = split_arg(q[0]);
        let rest = q.drop_first();
        match flag_of(t.name) {
            Some(f) => if takes_value(f) {
                match t.inline {
                    Some(v) => match set_value(f, v, st) {
                        Ok(st2) => parse_from(rest, st2),
                        Err(e) => Err(e),
                    },
                    None => if rest.len() == 0 {
                        Err("missing argument for "@ + t.name)
                    } else {
                        match set_value(f, rest[0], st) {
                            Ok(st2) => parse_from(rest.drop_first(), st2),
                            Err(e) => Err(e),
                        }
                    },
                }
            } else if t.inline is Some {
                Err(t.name + " takes no argument"@)
            } else if f == Flag::List {
                Ok(ActionV::List)
            } else if f == Flag::Version {
                Ok(ActionV::Version)
            } else {
                let q2 = match t.requeue {
                    Some(x) => seq![x] + rest,
                    None => rest,
                };
                parse_from(q2, set_flag(f, st))
            },
            None => if t.name.len() > 0 && t.name[0] == '-' && t.name != "-"@ {
                Err("invalid option: "@ + t.name)
            } else {
                let q2 = match t.requeue {
                    Some(x) => seq![x] + rest,
                    None => rest,
                };
                parse_from(q2, ParsedV { files: st.files.push(q[0]), ..st })
            },
        }
    }
}

/// Whether `s` is the text `lit`.
fn same(s: &str, lit: &str) -> (r: bool)
    ensures
        r == (s@ == lit@),
{
    let n = s.unicode_len();
    if n != lit.unicode_len() {
        return false;
    }
    let mut k: usize = 0;
    while k < n
        invariant
            n == s@.len() == lit@.len(),
            k <= n,
            forall|j: int| 0 <= j < k ==> s@[j] == lit@[j],
        decreases n - k,
    {
        if s.get_char(k) != lit.get_char(k) {
            return false;
        }
        k += 1;
    }
    assert(s@ =~= lit@);
    true
}

fn first_eq_at(a: &str) -> (r: Option<usize>)
    ensures
        match first_eq(a@, 0) {
            Some(i) => r == Some(i as usize) && 0 <= i < a@.len(),
            None => r is None,
        },
{
    let n = a.unicode_len();
    let mut k: usize = 0;
    while k < n
        invariant
            n == a@.len(),
            k <= n,
            first_eq(a@, 0) == first_eq(a@, k as int),
        decreases n - k,
    {
        if a.get_char(k) == '=' {
            return Some(k);
        }
        k += 1;
    }
    None
}

pub struct TokenAt {
    pub name: String,
    pub inline: Option<String>,
    pub requeue: Option<String>,
}

/// An argument split as `split_arg` says.
fn split_arg_of(a: &str) -> (r: TokenAt)
    ensures
        r.name@ == split_arg(a@).name,
        opt_chars(r.inline) == split_arg(a@).inline,
        opt_chars(r.requeue) == split_arg(a@).requeue,
{
    let n = a.unicode_len();
    if n >= 2 && a.get_char(0) == '-' && a.get_char(1) == '-' {
        match first_eq_at(a) {
            Some(i) => TokenAt {
                name: String::from_str(a.substring_char(0, i)),
                inline: Some(String::from_str(a.substring_char(i + 1, n))),
                requeue: None,
            },
            None => TokenAt { name: String::from_str(a), inline: None, requeue: None },
        }
    } else if n >= 2 && a.get_char(0) == '-' && a.as_bytes().len() > 2 {
        let rest = a.substring_char(2, n);
        let name = String::from_str(a.substring_char(0, 2));
        if is_value_short(a.get_char(1)) {
            let inline = if rest.unicode_len() == 0 {
                None
            } else {
                Some(String::from_str(rest))
            };
            TokenAt { name, inline, requeue: None }
        } else {
            let requeue = if rest.unicode_len() == 0 {
                None
            } else {
                let mut x = String::from_str("-");
                x.append(rest);
                proof {
                    reveal_strlit("-");
                }
                assert(x@ =~= seq!['-'] + rest@);
                Some(x)
            };
            TokenAt { name, inline: None, requeue }
        }
    } else {
        TokenAt { name: String::from_str(a), inline: None, requeue: None }
    }
}

/// The flag a name spells.
fn flag_of_name(n: &str) -> (r: Option<Flag>)
    ensures
        r == flag_of(n@),
{
    if same(n, "-f") || same(n, "--from") {
        Some(Flag::From)
    } else if same(n, "-t") || same(n, "--to") {
        Some(Flag::To)
    } else if same(n, "-d") || same(n, "--date") {
        Some(Flag::Date)
    } else if same(n, "-F") || same(n, "--format") {
        Some(Flag::FormatFlag)
    } else if same(n, "-l") || same(n, "--list") {
        Some(Flag::List)
    } else if same(n, "-i") || same(n, "--in-place") {
        Some(Flag::InPlace)
    } else if same(n, "-j") || same(n, "--json") {
        Some(Flag::Json)
    } else if same(n, "-J") || same(n, "--ndjson") {
        Some(Flag::Ndjson)
    } else if same(n, "--detect") {
        Some(Flag::Detect)
    } else if same(n, "-v") || same(n, "--verbose") {
        Some(Flag::Verbose)
    } else if same(n, "-V") || same(n, "--version") {
        Some(Flag::Version)
    } else if same(n, "-h") || same(n, "--help") {
        Some(Flag::Help)
    } else {
        None
    }
}

fn set_flag_of(f: Flag, st: Parsed) -> (r: Parsed)
    ensures
        r@ == set_flag(f, st@),
{
    let mut st = st;
    match f {
        Flag::InPlace => st.inplace = true,
        Flag::Json => st.json = true,
        Flag::Ndjson => st.ndjson = true,
        Flag::Detect => st.detect = true,
        Flag::Verbose => st.verbose = true,
        Flag::Help => st.help = true,
        _ => {},
    }
    st
}

fn set_value_of(f: Flag, v: String, st: Parsed) -> (r: Result<Parsed, String>)
    requires
        takes_value(f),
    ensures
        match set_value(f, v@, st@) {
            Ok(x) => r matches Ok(p) && p@ == x,
            Err(e) => r matches Err(m) && m@ == e,
        },
{
    let mut st = st;
    match f {
        Flag::From => {
            st.from = Some(v);
            Ok(st)
        },
        Flag::To => {
            st.to = Some(v);
            Ok(st)
        },
        Flag::Date => {
            st.date = Some(v);
            Ok(st)
        },
        _ => match parse_format(v.as_str()) {
            Ok(fm) => {
                st.format = Some(fm);
                Ok(st)
            },
            Err(e) => Err(e),
        },
    }
}

pub open spec fn result_view(r: Result<Action, String>) -> Result<ActionV, Seq<char>> {
    match r {
        Ok(a) => Ok(action_view(a)),
        Err(e) => Err(e@),
    }
}

/// The arguments still to read: one requeued from a bundle, if any, then
/// the ones from `i` on.
pub open spec fn queue(pending: Option<String>, args: Seq<String>, i: int) -> Seq<Seq<char>> {
    let tail = strings_chars(args).subrange(i, args.len() as int);
    match pending {
        Some(p) => seq![p@] + tail,
        None => tail,
    }
}

fn parse_rec(pending: Option<String>, args: &Vec<String>, i: usize, st: Parsed) -> (r: Result<Action, String>)
    requires
        i <= args@.len(),
    ensures
        result_view(r) == parse_from(queue(pending, args@, i as int), st@),
    decreases queue(pending, args@, i as int).len(), head_len(queue(pending, args@, i as int)),
{
    let ghost q = queue(pending, args@, i as int);
    let ghost rest = queue(None, args@, i as int);
    let (arg, ni): (String, usize) = match pending {
        Some(p) => (p, i),
        None => if i < args.len() {
            (args[i].clone(), i + 1)
        } else {
            assert(q.len() == 0);
            return Ok(Action::Run(st));
        },
    };
    assert(q.len() > 0 && q[0] == arg@ && q.drop_first() =~= queue(None, args@, ni as int));
    let ghost tail = q.drop_first();
    let mut st = st;
    if same(arg.as_str(), "--") {
        let ghost files0 = st@.files;
        let ghost st0 = st@;
        let mut k = ni;
        while k < args.len()
            invariant
                ni <= k <= args@.len(),
                st@ == (ParsedV { files: st@.files, ..st0 }),
                strings_chars(st.files@) == files0 + strings_chars(args@).subrange(ni as int, k as int),
            decreases args.len() - k,
        {
            let ghost before = st.files@;
            st.files.push(args[k].clone());
            assert(strings_chars(st.files@) =~= strings_chars(before).push(args@[k as int]@));
            assert(strings_chars(args@).subrange(ni as int, k + 1) =~= strings_chars(args@).subrange(
                ni as int,
                k as int,
            ).push(args@[k as int]@));
            k += 1;
        }
        assert(strings_chars(st.files@) =~= files0 + tail);
        assert(st@ == (ParsedV { files: st0.files + tail, ..st0 }));
        return Ok(Action::Run(st));
    }
    let t = split_arg_of(arg.as_str());
    match flag_of_name(t.name.as_str()) {
        Some(f) => {
            if f == Flag::From || f == Flag::To || f == Flag::Date || f == Flag::FormatFlag {
                match t.inline {
                    Some(v) => match set_value_of(f, v, st) {
                        Ok(st2) => parse_rec(None, args, ni, st2),
                        Err(e) => Err(e),
                    },
                    None => {
                        if ni < args.len() {
                            assert(tail[0] == args@[ni as int]@);
                            assert(tail.drop_first() =~= queue(None, args@, ni + 1));
                            match set_value_of(f, args[ni].clone(), st) {
                                Ok(st2) => parse_rec(None, args, ni + 1, st2),
                                Err(e) => Err(e),
                            }
                        } else {
                            let mut m = String::from_str("missing argument for ");
                            m.append(t.name.as_str());
                            Err(m)
                        }
                    },
                }
            } else if t.inline.is_some() {
                let mut m = String::from_str(t.name.as_str());
                m.append(" takes no argument");
                Err(m)
            } else if f == Flag::List {
                Ok(Action::List)
            } else if f == Flag::Version {
                Ok(Action::Version)
            } else {
                proof {
                    if let Some(x) = split_arg(arg@).requeue {
                        assert(x.len() < arg@.len());
                    }
                }
                parse_rec(t.requeue, args, ni, set_flag_of(f, st))
            }
        },
        None => {
            let n = t.name.as_str();
            if n.unicode_len() > 0 && n.get_char(0) == '-' && !same(n, "-") {
                let mut m = String::from_str("invalid option: ");
                m.append(n);
                Err(m)
            } else {
                proof {
                    if let Some(x) = split_arg(arg@).requeue {
                        assert(x.len() < arg@.len());
                    }
                }
                let ghost before = st.files@;
                st.files.push(arg);
                assert(strings_chars(st.files@) =~= strings_chars(before).push(q[0]));
                parse_rec(t.requeue, args, ni, st)
            }
        },
    }
}

/// The command line's arguments, after the program's name, read into what
/// they ask for, or the message saying why they cannot be.
pub fn parse_args(args: Vec<String>) -> (r: Result<Action, String>)
    ensures
        result_view(r) == parse_from(strings_chars(args@), nothing_parsed()),
{
    let st = Parsed {
        from: None,
        to: None,
        format: None,
        date: None,
        inplace: false,
        json: false,
        ndjson: false,
        detect: false,
        verbose: false,
        help: false,
        files: Vec::new(),
    };
    assert(st@.files =~= Seq::<Seq<char>>::empty());
    assert(queue(None, args@, 0) =~= strings_chars(args@));
    parse_rec(None, &args, 0, st)
}

} // verus!
