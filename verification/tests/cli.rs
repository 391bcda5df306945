use tztr::args::{parse_args, Action};
use tztr::config::configure;
use tztr::lines::{handle_line, LineOutput};
use tztr::{timezone_aliases, Match};

/// What a run of the command line comes to for `input`, `args` and `$TZ`:
/// the text written and the matches reported, or the message it fails
/// with. The library does the reading and deciding; this stands in for the
/// program's input and output.
fn run_tz(input: &str, args: &[&str], tz: Option<&str>) -> Result<(String, Vec<Match>), String> {
    let args: Vec<String> = args.iter().map(|a| a.to_string()).collect();
    let parsed = match parse_args(args).map_err(|e| format!("tztr: {e}"))? {
        Action::Run(p) => p,
        _ => panic!("expected a run"),
    };
    let json_mode = parsed.json || parsed.ndjson;
    let opts = configure(parsed, tz.map(|t| t.to_string())).map_err(|e| format!("tztr: {e}"))?;
    let mut out: Vec<u8> = Vec::new();
    let mut reported: Vec<Match> = Vec::new();
    for line in input.as_bytes().split_inclusive(|b| *b == b'\n') {
        match handle_line(&opts, json_mode, line) {
            LineOutput::Bytes(b) => out.extend(b),
            LineOutput::EachMatch(ms) | LineOutput::Collect(ms) => reported.extend(ms),
        }
    }
    Ok((String::from_utf8(out).unwrap(), reported))
}

fn stdout(input: &str, args: &[&str]) -> String {
    let (out, _) = run_tz(input, args, Some("UTC")).expect("expected success");
    out.trim_end().to_string()
}

fn reported(input: &str, args: &[&str]) -> Vec<Match> {
    run_tz(input, args, Some("UTC")).expect("expected success").1
}

fn fails(input: &str, args: &[&str]) -> String {
    match run_tz(input, args, Some("UTC")) {
        Err(e) => e,
        Ok(_) => panic!("expected failure"),
    }
}

#[test]
fn converts_via_stdin() {
    assert_eq!(
        stdout("2026-04-03T12:00:00Z", &["-t", "America/Los_Angeles"]),
        "2026-04-03T05:00:00-07:00"
    );
}

#[test]
fn handles_multiline_input() {
    let out = stdout(
        "first 2026-04-03T12:00:00Z\nsecond 2026-04-03T13:00:00Z\n",
        &["-t", "America/Los_Angeles"],
    );
    let lines: Vec<&str> = out.lines().collect();
    assert_eq!(lines[0], "first 2026-04-03T05:00:00-07:00");
    assert_eq!(lines[1], "second 2026-04-03T06:00:00-07:00");
}

#[test]
fn uses_tz_env_as_default_output() {
    let (o, _) = run_tz("2026-04-03T12:00:00Z\n", &[], Some("America/New_York")).unwrap();
    assert_eq!(o.trim_end(), "2026-04-03T08:00:00-04:00");
}

#[test]
fn accepts_alias_and_numeric_offset() {
    assert_eq!(
        stdout("2026-04-03T12:00:00Z", &["-t", "sf"]),
        "2026-04-03T05:00:00-07:00"
    );
    assert_eq!(
        stdout("2026-04-03T12:00:00Z", &["-t", "-7"]),
        "2026-04-03T05:00:00-07:00"
    );
}

#[test]
fn bundles_short_flags() {
    assert_eq!(
        stdout("2026-04-03T12:00:00Z", &["-tsf"]),
        "2026-04-03T05:00:00-07:00"
    );
    assert_eq!(
        stdout("2026-04-03T12:00:00Z", &["-vtsf"]),
        "2026-04-03T05:00:00-07:00"
    );
    match parse_args(vec!["-hj".to_string()]) {
        Ok(Action::Run(p)) => assert!(p.help && p.json),
        _ => panic!("expected help as JSON"),
    }
}

#[test]
fn emits_ndjson() {
    let ms = reported(
        "2026-04-03T12:00:00Z\n2026-04-03T13:00:00Z\n",
        &["-t", "pst", "-J"],
    );
    let converted: Vec<String> = ms.into_iter().map(|m| m.translated.unwrap()).collect();
    assert_eq!(
        converted,
        vec!["2026-04-03T05:00:00-07:00", "2026-04-03T06:00:00-07:00"]
    );
}

#[test]
fn detect_reports_without_translating() {
    let out = stdout("2026-04-03T12:00:00Z", &["--detect"]);
    assert_eq!(out, "2026-04-03T12:00:00Z\tiso\tZ");

    let ms = reported("2026-04-03T12:00:00Z", &["--detect", "-j"]);
    assert!(ms[0].translated.is_none());
    assert_eq!(ms[0].detected_format, "iso");
}

#[test]
fn applies_reference_date() {
    assert_eq!(
        stdout("15:30 PST", &["-t", "utc", "-d", "2026-01-15"]),
        "23:30 UTC"
    );
    assert_eq!(
        stdout("15:30 PST", &["-t", "utc", "-d", "January 15, 2026"]),
        "23:30 UTC"
    );
}

#[test]
fn rejects_combining_inplace_with_json() {
    assert!(run_tz("15:30 PST\n", &["-i", "-j", "/tmp/whatever.txt"], Some("UTC")).is_err());
}

#[test]
fn aborts_on_unparseable_date() {
    assert!(run_tz("15:30 PST\n", &["-d", "not-a-date"], Some("UTC")).is_err());
}

#[test]
fn short_format_always_labels_the_zone() {
    assert_eq!(
        stdout("2026-04-03T12:00:00Z", &["-F", "short"]),
        "2026-04-03 12:00 UTC"
    );
    let (o, _) = run_tz("2026-04-03T12:00:00Z\n", &["-F", "short"], None).unwrap();
    assert_eq!(o.trim_end(), "2026-04-03 12:00 UTC");
    assert_eq!(
        stdout("2026-04-03T12:00:00Z", &["-F", "short", "-t", "nyc"]),
        "2026-04-03 08:00 EDT"
    );
    let ms = reported("2026-04-03T12:00:00Z", &["-F", "short", "-j"]);
    assert_eq!(ms[0].translated.as_deref(), Some("2026-04-03 12:00 UTC"));
}

#[test]
fn rejects_unknown_timezones() {
    for (args, expected) in [
        (["-t", "Bogus/Zone"], "tztr: unknown timezone: Bogus/Zone"),
        (["-t", ""], "tztr: unknown timezone: "),
        (
            ["-t", "America/New York"],
            "tztr: unknown timezone: America/New York",
        ),
        (["-f", "Bogus/Zone"], "tztr: unknown timezone: Bogus/Zone"),
    ] {
        assert_eq!(fails("2026-04-03T12:00:00Z\n", &args), expected);
    }
}

#[test]
fn rejects_out_of_range_numeric_offsets() {
    for arg in ["15", "-13", "99"] {
        assert_eq!(
            fails("2026-04-03T12:00:00Z\n", &["-t", arg]),
            format!("tztr: offset out of range: {arg} (expected -12..14)")
        );
    }
    assert_eq!(
        stdout("2026-04-03T12:00:00Z", &["-t", "14"]),
        "2026-04-04T02:00:00+14:00"
    );
    assert_eq!(
        stdout("2026-04-03T12:00:00Z", &["-t", "-12"]),
        "2026-04-03T00:00:00-12:00"
    );
}

#[test]
fn rejects_sub_hour_numeric_offsets() {
    assert_eq!(
        fails("2026-04-03T12:00:00Z\n", &["-t", "+5:30"]),
        "tztr: unknown timezone: +5:30"
    );
    assert_eq!(
        stdout("2026-04-03T12:00:00Z", &["-t", "ist"]),
        "2026-04-03T17:30:00+05:30"
    );
}

#[test]
fn rejects_an_unresolvable_tz_env() {
    let e = run_tz("2026-04-03T12:00:00Z\n", &[], Some("Bogus/Zone")).err().unwrap();
    assert_eq!(e, "tztr: unknown timezone: Bogus/Zone");
}

#[test]
fn honors_the_posix_leading_colon_on_tz() {
    let (o, _) = run_tz("2026-04-03T12:00:00Z\n", &[], Some(":America/New_York")).unwrap();
    assert_eq!(o.trim_end(), "2026-04-03T08:00:00-04:00");
}

#[test]
fn treats_an_empty_tz_as_unset() {
    let (o, _) = run_tz("2026-04-03T12:00:00Z\n", &[], Some("")).unwrap();
    assert_eq!(o.trim_end(), "2026-04-03T12:00:00Z");
}

#[test]
fn lists_aliases() {
    let args: Vec<String> = vec!["-l".to_string()];
    assert!(matches!(parse_args(args), Ok(Action::List)));
    let out: String = timezone_aliases()
        .iter()
        .map(|(k, v)| format!("{k:<12} {v}\n"))
        .collect();
    assert!(out.contains("sf"));
    assert!(out.contains("America/Los_Angeles"));
}

/// Whether Los Angeles keeps daylight time at 15:30 UTC today: a time
/// without a date is read on today's date.
fn la_daylight_today() -> bool {
    let utc = jiff::tz::TimeZone::UTC;
    let la = jiff::tz::TimeZone::get("America/Los_Angeles").unwrap();
    let today = jiff::Timestamp::now().to_zoned(utc.clone()).date();
    let at = today.at(15, 30, 0, 0).to_zoned(utc).unwrap();
    la.to_offset(at.timestamp()).seconds() == -7 * 3600
}

#[test]
fn emits_json_array() {
    let ms = reported("from 15:30 UTC to 16:45 UTC", &["-t", "pst", "-j"]);
    if la_daylight_today() {
        assert_eq!(ms[0].translated.as_deref(), Some("08:30 PDT"));
        assert_eq!(ms[1].translated.as_deref(), Some("09:45 PDT"));
    } else {
        assert_eq!(ms[0].translated.as_deref(), Some("07:30 PST"));
        assert_eq!(ms[1].translated.as_deref(), Some("08:45 PST"));
    }
    assert_eq!(ms[0].detected_tz.as_deref(), Some("UTC"));
}
