use tztr::args::{parse_args, Action, Parsed};
use tztr::cli::{file_error, is_value_short, month_number, normalize_date, parse_format};
use tztr::config::{configure, startup_notice};
use tztr::lines::{disclose, handle_line, Disclosed, LineOutput, Options};
use tztr::{
    assumed_date, assumptions, detect_format, detect_zone, ignored_zones, today_in_zone, translate,
    translate_bytes, translate_content, Assumptions, Format,
};

fn strings(v: &[&str]) -> Vec<String> {
    v.iter().map(|s| s.to_string()).collect()
}

fn run_of(args: &[&str]) -> Parsed {
    match parse_args(strings(args)) {
        Ok(Action::Run(p)) => p,
        Ok(_) => panic!("expected a run"),
        Err(e) => panic!("unexpected error: {e}"),
    }
}

fn parse_error(args: &[&str]) -> String {
    match parse_args(strings(args)) {
        Err(e) => e,
        Ok(_) => panic!("expected an error"),
    }
}

fn nothing() -> Parsed {
    run_of(&[])
}

fn options(verbose: bool, from: Option<&str>, implicit: bool) -> Options {
    Options {
        from: from.map(|s| s.to_string()),
        from_is_implicit: implicit,
        to: "UTC".to_string(),
        format: None,
        date: None,
        inplace: false,
        json: false,
        ndjson: false,
        detect: false,
        verbose,
        files: Vec::new(),
    }
}

fn today_utc() -> String {
    let d = jiff::Zoned::now().with_time_zone(jiff::tz::TimeZone::UTC).date();
    format!("{:04}-{:02}-{:02}", d.year(), d.month(), d.day())
}

#[test]
fn each_assumption_is_disclosed_once() {
    let said = Assumptions { date: true, zone: false };
    let line = Assumptions { date: true, zone: true };
    let new = line.minus(said);
    assert_eq!(new, Assumptions { date: false, zone: true });
    let after = said.union(new);
    assert_eq!(after, Assumptions { date: true, zone: true });
    assert!(!line.minus(after).any());
    assert_eq!(new.union(said), line.union(said));
    assert!(!Assumptions::default().any());
}

#[test]
fn assumptions_name_a_missing_date_and_a_missing_zone() {
    assert_eq!(assumptions(b"15:30 UTC"), Assumptions { date: true, zone: false });
    assert_eq!(assumptions(b"15:30"), Assumptions { date: true, zone: true });
    assert_eq!(assumptions(b"2026-04-03T12:00:00Z"), Assumptions { date: false, zone: false });
    // A dated timestamp without a zone assumes nothing: a zone is assumed only
    // with a date.
    assert_eq!(assumptions(b"2026-04-03T12:00:00"), Assumptions { date: false, zone: false });
    assert!(!assumptions(b"no timestamps").any());
}

#[test]
fn ignored_zones_are_listed_once_in_order() {
    assert_eq!(ignored_zones(b"15:30 Pst then 16:00 Est, 17:00 Pst"), ["Pst", "Est"]);
    assert!(ignored_zones(b"15:30 Pstx").is_empty());
    assert!(ignored_zones(b"15:30 Info").is_empty());
}

#[test]
fn the_assumed_date_is_today_where_the_timestamp_was_written() {
    assert_eq!(assumed_date(b"2026-04-03T12:00:00Z", None, "UTC"), None);
    assert_eq!(assumed_date(b"at 15:30 UTC", None, "Asia/Tokyo"), Some(today_utc()));
    assert_eq!(assumed_date(b"at 15:30", Some("UTC"), "Asia/Tokyo"), Some(today_utc()));
    assert_eq!(today_in_zone("utc"), today_utc());
}

#[test]
fn reference_dates_in_the_documented_forms_normalize() {
    for input in [
        "2026-01-15",
        "2026/01/15",
        "20260115",
        "January 15, 2026",
        "Jan 15 2026",
        "Jan. 15, 2026",
        "jan 15, 2026",
        "15 January 2026",
        "15 Jan. 2026",
        "15 Jan, 2026",
    ] {
        assert_eq!(normalize_date(input).as_deref(), Some("2026-01-15"), "{input}");
    }
    assert_eq!(normalize_date("5 Feb 2028").as_deref(), Some("2028-02-05"));
    for input in [
        "2026-02-30",
        "1/15/2026",
        "Sept 15, 2026",
        "2026-1-5",
        "2026-01/15",
        "not-a-date",
        "15 Jan 26",
        " 2026-01-15",
    ] {
        assert_eq!(normalize_date(input), None, "{input}");
    }
}

#[test]
fn a_month_is_its_name_or_its_first_three_letters() {
    assert_eq!(month_number("Sep"), Some(9));
    assert_eq!(month_number("SEPTEMBER"), Some(9));
    assert_eq!(month_number("may"), Some(5));
    assert_eq!(month_number("Sept"), None);
    assert_eq!(month_number("ju"), None);
    assert_eq!(month_number("Décembre"), None);
}

#[test]
fn formats_are_named_exactly() {
    assert_eq!(parse_format("iso"), Ok(Format::Iso));
    assert_eq!(parse_format("short"), Ok(Format::Short));
    assert_eq!(parse_format("time"), Ok(Format::Time));
    assert_eq!(
        parse_format("ISO"),
        Err("invalid format: ISO (expected iso, short, time)".to_string())
    );
}

#[test]
fn a_failed_input_is_named_unless_the_pipe_broke() {
    assert_eq!(file_error("a.log", false, "No such file"), "a.log: No such file");
    assert_eq!(file_error("a.log", true, "Broken pipe"), "Broken pipe");
    assert!(is_value_short('t') && is_value_short('F'));
    assert!(!is_value_short('v') && !is_value_short('T'));
}

#[test]
fn arguments_bundle_split_and_end() {
    let p = run_of(&["-tsf"]);
    assert_eq!(p.to.as_deref(), Some("sf"));
    let p = run_of(&["-vjtsf", "x.log"]);
    assert!(p.verbose && p.json);
    assert_eq!(p.to.as_deref(), Some("sf"));
    assert_eq!(p.files, ["x.log"]);
    let p = run_of(&["--from=pst", "--to", "utc", "-F", "iso", "-d", "2026-01-15"]);
    assert_eq!(p.from.as_deref(), Some("pst"));
    assert_eq!(p.to.as_deref(), Some("utc"));
    assert_eq!(p.format, Some(Format::Iso));
    assert_eq!(p.date.as_deref(), Some("2026-01-15"));
    let p = run_of(&["--", "-v", "-"]);
    assert!(!p.verbose);
    assert_eq!(p.files, ["-v", "-"]);
    let p = run_of(&["-hj", "-"]);
    assert!(p.help && p.json);
    assert_eq!(p.files, ["-"]);
    assert!(matches!(parse_args(strings(&["-l", "-x"])), Ok(Action::List)));
    assert!(matches!(parse_args(strings(&["-vV"])), Ok(Action::Version)));
}

#[test]
fn arguments_that_cannot_be_read_are_refused() {
    assert_eq!(parse_error(&["--json=true"]), "--json takes no argument");
    assert_eq!(parse_error(&["-t"]), "missing argument for -t");
    assert_eq!(parse_error(&["--from"]), "missing argument for --from");
    assert_eq!(parse_error(&["-x"]), "invalid option: -x");
    assert_eq!(parse_error(&["-vx"]), "invalid option: -x");
    assert_eq!(parse_error(&["--bogus"]), "invalid option: --bogus");
    assert_eq!(
        parse_error(&["-Fxml"]),
        "invalid format: xml (expected iso, short, time)"
    );
}

#[test]
fn a_run_resolves_its_zones_and_date() {
    let mut p = nothing();
    p.to = Some("pst".to_string());
    p.date = Some("January 15, 2026".to_string());
    let o = configure(p, None).unwrap();
    assert_eq!(o.to, "America/Los_Angeles");
    assert_eq!(o.from, None);
    assert!(!o.from_is_implicit);
    assert_eq!(o.date.as_deref(), Some("2026-01-15"));

    let o = configure(nothing(), Some("nyc".to_string())).unwrap();
    assert_eq!(o.to, "America/New_York");
    assert_eq!(o.from.as_deref(), Some("America/New_York"));
    assert!(o.from_is_implicit);

    let o = configure(nothing(), Some(String::new())).unwrap();
    assert_eq!(o.to, "UTC");
    assert_eq!(o.from, None);
    assert!(!o.from_is_implicit);
}

#[test]
fn a_run_that_cannot_be_set_up_says_why() {
    let mut p = nothing();
    p.to = Some("Bogus/Zone".to_string());
    assert_eq!(configure(p, None).err().unwrap(), "unknown timezone: Bogus/Zone");
    let mut p = nothing();
    p.from = Some("-13".to_string());
    assert_eq!(
        configure(p, None).err().unwrap(),
        "offset out of range: -13 (expected -12..14)"
    );
    let mut p = nothing();
    p.date = Some("not-a-date".to_string());
    assert_eq!(configure(p, None).err().unwrap(), "invalid date: not-a-date");
    let mut p = nothing();
    p.inplace = true;
    p.detect = true;
    assert_eq!(
        configure(p, None).err().unwrap(),
        "-i cannot be combined with --json/--ndjson/--detect"
    );
}

#[test]
fn verbose_names_the_zones_at_the_start_unless_taken_from_tz() {
    assert_eq!(startup_notice(&options(true, None, false)).as_deref(), Some("from=auto to=UTC"));
    assert_eq!(
        startup_notice(&options(true, Some("Asia/Tokyo"), false)).as_deref(),
        Some("from=Asia/Tokyo to=UTC")
    );
    assert_eq!(startup_notice(&options(true, Some("Asia/Tokyo"), true)), None);
    assert_eq!(startup_notice(&options(false, None, false)), None);
}

#[test]
fn each_line_comes_out_as_its_mode_asks() {
    let mut o = options(false, None, false);
    match handle_line(&o, false, b"at 2026-04-03T12:00:00Z\n") {
        LineOutput::Bytes(b) => assert_eq!(b, b"at 2026-04-03T12:00:00Z\n"),
        _ => panic!("expected bytes"),
    }
    o.to = "Asia/Tokyo".to_string();
    match handle_line(&o, false, b"at 2026-04-03T12:00:00Z\n") {
        LineOutput::Bytes(b) => assert_eq!(b, b"at 2026-04-03T21:00:00+09:00\n"),
        _ => panic!("expected bytes"),
    }
    o.detect = true;
    match handle_line(&o, false, b"2026-04-03T12:00:00Z and 15:30 PST\n") {
        LineOutput::Bytes(b) => assert_eq!(b, b"2026-04-03T12:00:00Z\tiso\tZ\n15:30 PST\ttime\tPST\n"),
        _ => panic!("expected bytes"),
    }
    o.detect = false;
    o.ndjson = true;
    match handle_line(&o, true, b"2026-04-03T12:00:00Z\n") {
        LineOutput::EachMatch(ms) => {
            assert_eq!(ms.len(), 1);
            assert_eq!(ms[0].translated.as_deref(), Some("2026-04-03T21:00:00+09:00"));
        }
        _ => panic!("expected matches"),
    }
    o.ndjson = false;
    match handle_line(&o, true, b"no time\n") {
        LineOutput::Collect(ms) => assert!(ms.is_empty()),
        _ => panic!("expected matches"),
    }
}

#[test]
fn verbose_says_each_thing_once() {
    let o = options(true, Some("UTC"), true);
    let mut d = Disclosed::new();
    let first = disclose(&o, b"15:30 Pst\n", &mut d);
    assert_eq!(
        first,
        [
            "ignored \"Pst\": a zone abbreviation is matched in all uppercase or all lowercase".to_string(),
            "from=UTC (implicit, from $TZ) to=UTC".to_string(),
            format!("no -d given, assuming {} for DST resolution", today_utc()),
        ]
    );
    assert!(disclose(&o, b"16:00 Pst\n", &mut d).is_empty());
    assert_eq!(d.ignored, ["Pst"]);
    assert_eq!(d.assumed, Assumptions { date: true, zone: true });

    let quiet = options(false, Some("UTC"), true);
    let mut d = Disclosed::new();
    assert!(disclose(&quiet, b"15:30 Pst\n", &mut d).is_empty());
    assert!(d.ignored.is_empty());
}

#[test]
fn detection_labels_the_reading() {
    assert_eq!(detect_format("2026-04-03T12:00:00Z"), "iso");
    assert_eq!(detect_format("2026-04-03 12:00:00"), "datetime");
    assert_eq!(detect_format("12:00"), "time");
    assert_eq!(detect_zone("15:30 PST").as_deref(), Some("PST"));
    assert_eq!(detect_zone("12:34:56-05:00").as_deref(), Some("-05:00"));
    assert_eq!(detect_zone("15:30"), None);
}

#[test]
fn bytes_around_timestamps_come_out_as_they_went_in() {
    let line = b"\xff at 2026-04-03T12:00:00Z \xfe\n";
    assert_eq!(
        translate_bytes(line, "Asia/Tokyo", None, None, None),
        b"\xff at 2026-04-03T21:00:00+09:00 \xfe\n"
    );
    assert_eq!(translate("no stamp \u{e9}", "UTC", None, None, None), "no stamp \u{e9}");
}

#[test]
fn a_posix_colon_and_a_lowercase_name_resolve() {
    assert_eq!(tztr::resolve_tz(":utc").as_deref(), Ok("UTC"));
    assert_eq!(tztr::resolve_tz("New York").as_deref(), Ok("America/New_York"));
    assert_eq!(tztr::resolve_tz("+0").as_deref(), Ok("UTC"));
}

#[test]
fn the_documented_library_example() {
    let out = translate("log 2026-04-03T12:00:00Z event", "America/Los_Angeles", None, None, None);
    assert_eq!(out, "log 2026-04-03T05:00:00-07:00 event");
}

#[test]
fn text_around_timestamps_keeps_its_characters() {
    assert_eq!(
        translate("déjà vu à 2026-04-03T12:00:00Z — 東京", "Asia/Tokyo", None, None, None),
        "déjà vu à 2026-04-03T21:00:00+09:00 — 東京"
    );
    assert_eq!(
        translate("é15:30 UTCé", "UTC", None, None, Some("2026-04-03")),
        "é15:30 UTCé"
    );
}

#[test]
fn converted_text_takes_the_place_of_each_timestamp() {
    let line = b"a 12:00 UTC b 2026-04-03T12:00:00Z c\n";
    let results = vec![Some(b"X".to_vec()), None];
    assert_eq!(
        tztr::write_converted(line, &results),
        b"a X b 2026-04-03T12:00:00Z c\n"
    );
    let results = vec![None, Some(b"Y".to_vec())];
    assert_eq!(tztr::write_converted(line, &results), b"a 12:00 UTC b Y c\n");
}

#[test]
fn a_reading_names_a_wall_clock_days_on() {
    let w = tztr::convert::wall_clock(b"2026-04-03 12:30:05.25", (1970, 1, 1), 1).unwrap();
    assert_eq!((w.year, w.month, w.day), (2026, 4, 4));
    assert_eq!((w.hour, w.minute, w.second, w.nanos), (12, 30, 5, 250_000_000));
    let w = tztr::convert::wall_clock(b"9:15 PM", (2026, 12, 31), 1).unwrap();
    assert_eq!((w.year, w.month, w.day, w.hour, w.minute), (2027, 1, 1, 21, 15));
    let w = tztr::convert::wall_clock(b"24:00 UTC", (2026, 2, 28), 0).unwrap();
    assert_eq!((w.year, w.month, w.day, w.hour, w.minute), (2026, 2, 28, 24, 0));
    assert!(tztr::convert::wall_clock(b"2026-02-30 10:00", (1970, 1, 1), 0).is_none());
    assert!(tztr::convert::wall_clock(b"12:60", (2026, 1, 1), 0).is_none());
    assert!(tztr::convert::wall_clock(b"no clock", (2026, 1, 1), 0).is_none());
}

#[test]
fn translate_content_rewrites_each_line_and_reports_no_change() {
    let content = b"a 2026-04-03T12:00:00Z\nb 2026-04-03T13:00:00Z\nno stamp";
    let out = translate_content(content, "UTC", None, Some(Format::Iso), None).unwrap();
    assert_eq!(
        String::from_utf8(out).unwrap(),
        "a 2026-04-03 12:00:00Z\nb 2026-04-03 13:00:00Z\nno stamp"
    );
    assert_eq!(translate_content(b"nothing here\nat all\n", "UTC", None, None, None), None);
    assert_eq!(translate_content(b"", "UTC", None, None, None), None);
}
