use tztr::{
    assumptions, ignored_zones, resolve_tz, timezone_aliases, translate, Format, Group, TzError,
};

fn tr(line: &str, to: &str) -> String {
    translate(line, to, None, None, None)
}

#[test]
fn converts_every_timestamp_on_a_line_whatever_their_formats() {
    let line = r#"{"ts":"2026-04-03T12:00:00Z","created":"2026-04-03 13:00:00 UTC","msg":"at 15:30 UTC"}"#;
    assert_eq!(
        translate(line, "America/Los_Angeles", None, None, Some("2026-04-03")),
        r#"{"ts":"2026-04-03T05:00:00-07:00","created":"2026-04-03 06:00:00 PDT","msg":"at 08:30 PDT"}"#
    );
}

#[test]
fn reports_every_timestamp_on_a_line_in_order() {
    let m = tztr::matches(
        "15:30 UTC then 2026-04-03T12:00:00Z",
        "UTC",
        None,
        None,
        true,
        None,
    );
    let formats: Vec<_> = m.iter().map(|m| m.detected_format.as_str()).collect();
    assert_eq!(formats, ["time", "iso"]);

    let m = tztr::matches("2026-04-03 12:00:00 UTC", "UTC", None, None, true, None);
    assert_eq!(
        m.len(),
        1,
        "a shorter format must not match inside a longer one"
    );
}

#[test]
fn leaves_a_bare_time_alone_beside_a_timestamp_with_a_date_or_zone() {
    // Most likely a duration: the zone belongs to the timestamp naming it.
    assert_eq!(
        tr("2026-04-03T12:00:00Z took 0:05", "America/Los_Angeles"),
        "2026-04-03T05:00:00-07:00 took 0:05"
    );
    assert_eq!(
        translate(
            "15:30 UTC, retry in 0:30",
            "America/Los_Angeles",
            None,
            None,
            Some("2026-04-03")
        ),
        "08:30 PDT, retry in 0:30"
    );
    let m = tztr::matches(
        "2026-04-03T12:00:00Z took 0:05",
        "UTC",
        None,
        None,
        true,
        None,
    );
    assert_eq!(m.len(), 1);
    let a = assumptions(b"2026-04-03T12:00:00Z took 0:05");
    assert!(!a.date && !a.zone);
}

#[test]
fn still_converts_bare_times_when_nothing_on_the_line_is_more_specific() {
    assert_eq!(
        translate(
            "from 15:30 to 16:45",
            "UTC",
            Some("America/Los_Angeles"),
            None,
            Some("2026-04-03")
        ),
        "from 22:30 UTC to 23:45 UTC"
    );
}

#[test]
fn a_meridiem_is_specific_enough_to_leave_a_bare_time_alone() {
    assert_eq!(
        tr("meeting 3:30 PM, took 0:05", "UTC"),
        "meeting 15:30 UTC, took 0:05"
    );
}

fn range(line: &str) -> String {
    translate(
        line,
        "UTC",
        Some("America/Los_Angeles"),
        None,
        Some("2026-04-03"),
    )
}

#[test]
fn the_start_of_a_range_takes_the_zone_after_its_end() {
    assert_eq!(
        range("from 15:30 to 16:45 PST"),
        "from 23:30 UTC to 00:45 UTC"
    );
    assert_eq!(range("15:30-16:45 PST"), "23:30 UTC-00:45 UTC");
    assert_eq!(range("15:30 – 16:45 JST"), "06:30 UTC – 07:45 UTC");
}

#[test]
fn the_start_of_a_range_takes_the_meridiem_unless_that_runs_it_backwards() {
    assert_eq!(range("from 3:30 to 4:45 PM"), "from 22:30 UTC to 23:45 UTC");
    assert_eq!(
        range("from 3:30 to 4:45 PM PST"),
        "from 23:30 UTC to 00:45 UTC"
    );
    assert_eq!(range("11:30 to 1:00 PM PST"), "19:30 UTC to 21:00 UTC");
    assert_eq!(
        range("10:00 until 2:00 AM PST"),
        "06:00 UTC until 10:00 UTC"
    );
    assert_eq!(
        range("from 15:30 to 4:45 PM PST"),
        "from 23:30 UTC to 00:45 UTC"
    );
}

#[test]
fn the_start_of_a_range_reports_the_shared_zone() {
    let m = tztr::matches("from 3:30 to 4:45 PM PST", "UTC", None, None, true, None);
    let got: Vec<_> = m
        .iter()
        .map(|m| (m.original.as_str(), m.detected_tz.as_deref()))
        .collect();
    assert_eq!(got, [("3:30", Some("PST")), ("4:45 PM PST", Some("PST"))]);
}

#[test]
fn only_a_range_or_list_shares_not_other_words() {
    assert_eq!(range("15:30, then 16:45 PST"), "15:30, then 00:45 UTC");
}

#[test]
fn a_list_shares_the_trailing_zone_and_meridiem() {
    assert_eq!(
        range("Options at 3:00, 4:00 or 5:00 PM PST"),
        "Options at 23:00 UTC, 00:00 UTC or 01:00 UTC"
    );
    assert_eq!(range("at 3:00 and 4:00 PM"), "at 22:00 UTC and 23:00 UTC");
    assert_eq!(
        range("11:00, 12:00, or 1:00 PM PST"),
        "19:00 UTC, 20:00 UTC, or 21:00 UTC"
    );
}

#[test]
fn every_member_of_a_range_or_list_is_listed() {
    let group = |kind: &str, members: &[&str]| {
        Some(Group {
            kind: kind.to_string(),
            members: members.iter().map(|m| m.to_string()).collect(),
        })
    };
    let groups = |line| -> Vec<Option<Group>> {
        tztr::matches(line, "UTC", None, None, true, None)
            .into_iter()
            .map(|m| m.group)
            .collect()
    };

    let r = group("range", &["3:30", "4:45 PM PST"]);
    assert_eq!(groups("from 3:30 to 4:45 PM PST"), [r.clone(), r]);
    let l = group("list", &["3:00", "4:00", "5:00 PM"]);
    assert_eq!(groups("3:00, 4:00 or 5:00 PM"), [l.clone(), l.clone(), l]);
    assert_eq!(groups("15:30 UTC"), [None]);
    assert_eq!(groups("2026-04-03T12:00:00Z,15:30"), [None]);
}

fn named(line: &str, to: &str) -> String {
    translate(line, to, Some("America/Los_Angeles"), None, None)
}

#[test]
fn date_1_output_converts_as_one_timestamp() {
    let ny = "America/New_York";
    assert_eq!(
        named("Fri Sep 25 22:14:42 PDT 2026", ny),
        "Sat Sep 26 01:14:42 EDT 2026"
    );
    assert_eq!(
        named("Fri Sep 25 22:14:42 2026", ny),
        "Sat Sep 26 01:14:42 EDT 2026"
    );
    assert_eq!(
        named("Sat Sep  5 22:14:42 UTC 2026", "America/Los_Angeles"),
        "Sat Sep  5 15:14:42 PDT 2026"
    );
    assert_eq!(
        named("Mon Feb 30 12:00:00 UTC 2026", ny),
        "Mon Feb 30 12:00:00 UTC 2026"
    );
}

#[test]
fn an_rfc_2822_date_keeps_its_shape() {
    let ny = "America/New_York";
    assert_eq!(
        named("Fri, 25 Sep 2026 22:14:42 -0700", ny),
        "Sat, 26 Sep 2026 01:14:42 -0400"
    );
    assert_eq!(named("25 Sep 2026 22:14 PDT", ny), "26 Sep 2026 01:14 EDT");
    assert_eq!(
        named("Date: Sat, 5 Sep 2026 12:00:00 GMT", "UTC"),
        "Date: Sat, 5 Sep 2026 12:00:00 UTC"
    );
}

#[test]
fn a_named_month_date_is_one_dated_match() {
    let m = tztr::matches(
        "Fri Sep 25 22:14:42 PDT 2026",
        "UTC",
        None,
        None,
        true,
        None,
    );
    assert_eq!(m.len(), 1);
    assert_eq!(m[0].original, "Fri Sep 25 22:14:42 PDT 2026");
    assert_eq!(m[0].detected_format, "datetime");
    assert_eq!(m[0].detected_tz.as_deref(), Some("PDT"));
}

fn log(line: &str, to: &str, from: Option<&str>) -> String {
    translate(line, to, from, None, None)
}

#[test]
fn an_access_log_timestamp_converts_date_and_all() {
    assert_eq!(
        log(
            r#"127.0.0.1 - - [15/Jan/2015:12:31:01 -0700] "GET / HTTP/1.1" 200 1"#,
            "America/New_York",
            None
        ),
        r#"127.0.0.1 - - [15/Jan/2015:14:31:01 -0500] "GET / HTTP/1.1" 200 1"#
    );
    assert_eq!(
        log("[07/Apr/2015:23:31:01 -0700]", "UTC", None),
        "[08/Apr/2015:06:31:01 +0000]"
    );
}

#[test]
fn a_slashed_date_converts() {
    assert_eq!(
        log(
            "2026/09/25 23:14:42 main.go:42: started",
            "UTC",
            Some("Etc/GMT+7")
        ),
        "2026/09/26 06:14:42 UTC main.go:42: started"
    );
    assert_eq!(
        log("2026/09/25 23:14:42 PDT", "UTC", None),
        "2026/09/26 06:14:42 UTC"
    );
}

#[test]
fn ctime_without_a_weekday_or_with_a_numeric_zone_converts() {
    assert_eq!(
        log(
            "staff 100 Sep 25 23:40:39 2026 file.txt",
            "UTC",
            Some("Etc/GMT+7")
        ),
        "staff 100 Sep 26 06:40:39 UTC 2026 file.txt"
    );
    assert_eq!(
        log("Fri Sep 25 23:40:39 -0700 2026", "UTC", None),
        "Sat Sep 26 06:40:39 +0000 2026"
    );
    assert_eq!(
        log("Fri Sep 25 22:14:42 +03 2026", "UTC", None),
        "Fri Sep 25 19:14:42 +0000 2026"
    );
    assert_eq!(
        log("Fri Sep 25 22:14:42 WIB 2026", "UTC", None),
        "Fri Sep 25 22:14:42 WIB 2026"
    );
}

#[test]
fn glibc_locale_date_output_converts() {
    let ny = "America/New_York";
    assert_eq!(
        log("Fri 25 Sep 2026 10:14:42 PM PDT", ny, None),
        "Sat 26 Sep 2026 01:14:42 AM EDT"
    );
    assert_eq!(
        log("Fri 25 Sep 2026 22:14:42 PDT", ny, None),
        "Sat 26 Sep 2026 01:14:42 EDT"
    );
}

#[test]
fn fractions_keep_their_digits_and_separator() {
    assert_eq!(
        log(
            "2026-09-25 22:14:42,123 INFO x",
            "America/New_York",
            Some("UTC")
        ),
        "2026-09-25 18:14:42,123 EDT INFO x"
    );
    assert_eq!(
        log("[2026-04-03 12:00:00,123] ok", "UTC", Some("UTC")),
        "[2026-04-03 12:00:00,123 UTC] ok"
    );
    assert_eq!(
        log("2026-09-25T22:14:42.123456789Z", "America/New_York", None),
        "2026-09-25T18:14:42.123456789-04:00"
    );
    assert_eq!(
        log("2026-09-25 22:14:42.5 UTC", "UTC", None),
        "2026-09-25 22:14:42.5 UTC"
    );
    assert_eq!(
        tr_on("12:34:56.25 UTC", "UTC", "2026-04-03"),
        "12:34:56.25 UTC"
    );
}

#[test]
fn a_time_followed_by_a_unit_is_a_duration() {
    assert_eq!(
        tr(
            "Finished in 1:05 minutes (files took 2.3 seconds to load)",
            "UTC"
        ),
        "Finished in 1:05 minutes (files took 2.3 seconds to load)"
    );
    assert_eq!(tr("took 2:30 hrs", "UTC"), "took 2:30 hrs");
    assert_eq!(
        tr("at 3:05 PM, took 0:30 sec", "UTC"),
        "at 15:05 UTC, took 0:30 sec"
    );
    assert_eq!(
        tr_on("15:30 meeting", "UTC", "2026-04-03"),
        "15:30 UTC meeting"
    );
    assert_eq!(tr_on("10:30 h", "UTC", "2026-04-03"), "10:30 UTC h");
}

#[test]
fn an_hour_with_a_meridiem_is_a_time() {
    assert_eq!(range("Meeting at 9am PST"), "Meeting at 17:00 UTC");
    assert_eq!(range("at 9 PM"), "at 04:00 UTC");
    assert_eq!(range("at 9 p.m. sharp"), "at 04:00 UTC sharp");
}

#[test]
fn a_bare_hour_starts_a_range_whose_end_has_a_meridiem() {
    assert_eq!(range("Standup 9-9:15am PST"), "Standup 17:00 UTC-17:15 UTC");
    assert_eq!(range("9 to 10am PST"), "17:00 UTC to 18:00 UTC");
    assert_eq!(range("11-1pm PST"), "19:00 UTC-21:00 UTC");
    let m = tztr::matches("9-9:15am PST", "UTC", None, None, true, None);
    let originals: Vec<_> = m.iter().map(|m| m.original.as_str()).collect();
    assert_eq!(originals, ["9", "9:15am PST"]);
}

#[test]
fn a_date_or_label_is_not_the_start_of_a_range() {
    assert_eq!(
        range("Deadline: Friday, Apr 3 - 5pm PST"),
        "Deadline: Friday, Apr 3 - 01:00 UTC"
    );
    assert_eq!(range("Due 4/3 - 5pm PST"), "Due 4/3 - 01:00 UTC");
    assert_eq!(range("2026-04-03 - 10am"), "2026-04-03 - 17:00 UTC");
    assert_eq!(range("Oct 1 thru 5pm"), "Oct 1 thru 00:00 UTC");
    assert_eq!(range("Ticket #12 - 9:30am"), "Ticket #12 - 16:30 UTC");
    assert_eq!(range("Room 7 - 3pm"), "Room 7 - 22:00 UTC");
}

#[test]
fn digits_are_ascii_digits() {
    let line = "Fri Sep \u{ff12}\u{ff15} 22:14:42 2026";
    assert_eq!(
        tr(line, "UTC"),
        "Fri Sep \u{ff12}\u{ff15} 22:14:42 UTC 2026"
    );
    let line = "\u{662}\u{665} Sep 2026 22:14 GMT";
    assert_eq!(tr(line, "UTC"), "\u{662}\u{665} Sep 2026 22:14 UTC");
    assert!(tztr::matches("\u{ff11}\u{ff12}:30 UTC", "UTC", None, None, true, None).is_empty());
}

#[test]
fn a_named_month_date_is_not_an_hour() {
    // "15 Apr" and "01 Aug" are not "15 am".
    assert_eq!(
        named("Date: 15 Apr 2026 22:14:42 -0700", "Asia/Tokyo"),
        "Date: 16 Apr 2026 14:14:42 +0900"
    );
    assert_eq!(
        named("01 Aug 2026 10:00 GMT", "Asia/Tokyo"),
        "01 Aug 2026 19:00 JST"
    );
}

#[test]
fn other_bare_numbers_are_left_alone() {
    assert_eq!(range("won 3-10"), "won 3-10");
    assert_eq!(range("page 9, 10am standup"), "page 9, 17:00 UTC standup");
    assert_eq!(range("v1.9-10am"), "v1.9-17:00 UTC");
    assert_eq!(range("item 42-10am"), "item 42-17:00 UTC");
}

#[test]
fn names_a_zone_ignored_for_its_case() {
    assert_eq!(ignored_zones(b"15:30 Pst and 16:00 Pst"), ["Pst"]);
    assert!(ignored_zones(b"a 15:30 est annulee").is_empty());
    assert!(ignored_zones(b"15:30 PST").is_empty());
}

#[test]
fn an_offset_needs_seconds_so_a_hyphenated_range_stays_a_range() {
    let tr = |l| translate(l, "UTC", None, None, Some("2026-04-03"));
    assert_eq!(tr("12:34:56-05:00"), "17:34:56 UTC");
    assert_eq!(tr("15:30-16:45"), "15:30 UTC-16:45 UTC");
    assert_eq!(tr("12:34:56-16:45"), "12:34:56 UTC-16:45 UTC");
}

#[test]
fn passes_through_iso_z_to_utc() {
    assert_eq!(tr("2026-04-03T12:00:00Z", "UTC"), "2026-04-03T12:00:00Z");
}

#[test]
fn converts_iso_z_to_timezone() {
    assert_eq!(
        tr("2026-04-03T12:00:00Z", "America/Los_Angeles"),
        "2026-04-03T05:00:00-07:00"
    );
}

#[test]
fn converts_iso_offset_to_utc() {
    assert_eq!(
        tr("2026-04-03T05:00:00-07:00", "UTC"),
        "2026-04-03T12:00:00Z"
    );
}

#[test]
fn preserves_fractional_seconds() {
    assert_eq!(
        tr("2026-04-03T12:00:00.123Z", "America/Los_Angeles"),
        "2026-04-03T05:00:00.123-07:00"
    );
}

#[test]
fn converts_space_format_with_tz() {
    assert_eq!(
        tr("2026-04-03 12:00:00 UTC", "America/Los_Angeles"),
        "2026-04-03 05:00:00 PDT"
    );
}

/// Whether Los Angeles keeps daylight time at 15:30 UTC today. A time
/// without a date is read on today's date, so the abbreviation it is
/// written with follows the season: these expectations hold in summer.
fn la_daylight_today() -> bool {
    let utc = jiff::tz::TimeZone::UTC;
    let la = jiff::tz::TimeZone::get("America/Los_Angeles").unwrap();
    let today = jiff::Timestamp::now().to_zoned(utc.clone()).date();
    let at = today.at(15, 30, 0, 0).to_zoned(utc).unwrap();
    la.to_offset(at.timestamp()).seconds() == -7 * 3600
}

#[test]
fn converts_time_with_tz() {
    if la_daylight_today() {
        assert_eq!(tr("15:30 UTC", "America/Los_Angeles"), "08:30 PDT");
    } else {
        assert_eq!(tr("15:30 UTC", "America/Los_Angeles"), "07:30 PST");
    }
}

#[test]
fn replaces_multiple_timestamps_on_same_line() {
    if la_daylight_today() {
        assert_eq!(
            tr("from 15:30 UTC to 16:45 UTC", "America/Los_Angeles"),
            "from 08:30 PDT to 09:45 PDT"
        );
    } else {
        assert_eq!(
            tr("from 15:30 UTC to 16:45 UTC", "America/Los_Angeles"),
            "from 07:30 PST to 08:45 PST"
        );
    }
}

#[test]
fn preserves_surrounding_text() {
    assert_eq!(
        tr(
            "log 2026-04-03T12:00:00Z something happened",
            "America/New_York"
        ),
        "log 2026-04-03T08:00:00-04:00 something happened"
    );
}

#[test]
fn formats_as_short_with_abbreviation() {
    assert_eq!(
        translate(
            "2026-04-03T12:00:00Z",
            "America/Los_Angeles",
            None,
            Some(Format::Short),
            None
        ),
        "2026-04-03 05:00 PDT"
    );
}

#[test]
fn formats_as_iso() {
    assert_eq!(
        translate(
            "2026-04-03T12:00:00Z",
            "America/Los_Angeles",
            None,
            Some(Format::Iso),
            None
        ),
        "2026-04-03 05:00:00-07:00"
    );
}

#[test]
fn formats_as_time() {
    assert_eq!(
        translate(
            "2026-04-03T12:00:00Z",
            "America/Los_Angeles",
            None,
            Some(Format::Time),
            None
        ),
        "05:00:00"
    );
}

#[test]
fn applies_from_timezone_to_naive_timestamps() {
    assert_eq!(
        translate(
            "2026-04-03T12:00:00",
            "UTC",
            Some("America/Los_Angeles"),
            None,
            None
        ),
        "2026-04-03T19:00:00Z"
    );
}

#[test]
fn passes_through_lines_without_timestamps() {
    assert_eq!(tr("no timestamps here", "UTC"), "no timestamps here");
}

fn tz(input: &str) -> String {
    resolve_tz(input).expect("resolvable")
}

#[test]
fn resolve_tz_abbreviations_and_cities() {
    for (input, expected) in [
        ("pst", "America/Los_Angeles"),
        ("PST", "America/Los_Angeles"),
        ("sf", "America/Los_Angeles"),
        ("nyc", "America/New_York"),
        ("tokyo", "Asia/Tokyo"),
        ("utc", "UTC"),
    ] {
        assert_eq!(tz(input), expected, "{input}");
    }
}

#[test]
fn alias_table_is_sorted_and_unique() {
    let aliases = timezone_aliases();
    let keys: Vec<&str> = aliases.iter().map(|(k, _)| k.as_str()).collect();
    let mut sorted = keys.clone();
    sorted.sort_unstable();
    sorted.dedup();
    assert_eq!(keys, sorted);
}

#[test]
fn gmt_is_utc_not_london() {
    // Europe/London follows British Summer Time; GMT does not.
    assert_eq!(tz("gmt"), "UTC");
    assert_eq!(tz("bst"), "Europe/London");
    assert_eq!(tz("london"), "Europe/London");
    assert_eq!(
        tr("2026-07-15T12:00:00Z", &tz("gmt")),
        "2026-07-15T12:00:00Z"
    );
}

#[test]
fn resolve_tz_numeric_offsets() {
    assert_eq!(tz("-7"), "Etc/GMT+7");
    assert_eq!(tz("+9"), "Etc/GMT-9");
    assert_eq!(tz("0"), "UTC");
    assert_eq!(tz("-12"), "Etc/GMT+12");
    assert_eq!(tz("14"), "Etc/GMT-14");
}

#[test]
fn resolve_tz_passes_through_iana() {
    assert_eq!(tz("America/Chicago"), "America/Chicago");
    assert_eq!(tz(":America/Chicago"), "America/Chicago");
}

#[test]
fn resolve_tz_rejects_what_it_cannot_resolve() {
    for (input, expected) in [
        ("Bogus/Zone", TzError::Unknown("Bogus/Zone".into())),
        ("", TzError::Unknown("".into())),
        ("America/New York", TzError::Unknown("America/New York".into())),
        ("+5:30", TzError::Unknown("+5:30".into())),
        ("15", TzError::OffsetOutOfRange("15".into())),
        ("-13", TzError::OffsetOutOfRange("-13".into())),
    ] {
        assert_eq!(resolve_tz(input), Err(expected), "{input}");
    }
    assert_eq!(
        resolve_tz("15").unwrap_err().to_string(),
        "offset out of range: 15 (expected -12..14)"
    );
    assert_eq!(
        resolve_tz("Bogus/Zone").unwrap_err().to_string(),
        "unknown timezone: Bogus/Zone"
    );
}

#[test]
fn matches_returns_structured_info() {
    let m = tztr::matches(
        "2026-04-03T12:00:00Z",
        "America/Los_Angeles",
        None,
        None,
        false,
        None,
    );
    assert_eq!(m.len(), 1);
    assert_eq!(m[0].original, "2026-04-03T12:00:00Z");
    assert_eq!(m[0].detected_format, "iso");
    assert_eq!(m[0].detected_tz.as_deref(), Some("Z"));
    assert_eq!(
        m[0].translated.as_deref(),
        Some("2026-04-03T05:00:00-07:00")
    );
}

#[test]
fn matches_detect_omits_translated() {
    let m = tztr::matches("15:30 PST", "UTC", None, None, true, None);
    assert_eq!(m[0].detected_format, "time");
    assert_eq!(m[0].detected_tz.as_deref(), Some("PST"));
    assert_eq!(m[0].translated, None);
}

#[test]
fn reference_date_resolves_dst() {
    // 15:30 in LA on Jan 15 is PST (-08:00) -> 23:30 UTC
    assert_eq!(
        translate(
            "15:30",
            "UTC",
            Some("America/Los_Angeles"),
            None,
            Some("2026-01-15")
        ),
        "23:30 UTC"
    );
    // ...and PDT (-07:00) in July -> 22:30 UTC
    assert_eq!(
        translate(
            "15:30",
            "UTC",
            Some("America/Los_Angeles"),
            None,
            Some("2026-07-15")
        ),
        "22:30 UTC"
    );
}


fn tr_on(line: &str, to: &str, date: &str) -> String {
    translate(line, to, None, None, Some(date))
}

#[test]
fn natively_known_abbreviations_keep_their_fixed_offset() {
    assert_eq!(tr_on("15:30 PST", "UTC", "2026-04-03"), "23:30 UTC");
    assert_eq!(tr_on("15:30 EST", "UTC", "2026-04-03"), "20:30 UTC");
}

#[test]
fn a_standard_or_daylight_abbreviation_is_the_offset_it_names() {
    assert_eq!(tr_on("15:30 JST", "UTC", "2026-04-03"), "06:30 UTC");
    // CEST is +02:00 even in January, CET +01:00 even in July.
    assert_eq!(tr_on("15:30 CET", "UTC", "2026-07-15"), "14:30 UTC");
    assert_eq!(tr_on("15:30 CEST", "UTC", "2026-01-15"), "13:30 UTC");
    assert_eq!(tr_on("15:30 BST", "UTC", "2026-01-15"), "14:30 UTC");
    assert_eq!(tr_on("15:30 AEST", "UTC", "2026-01-15"), "05:30 UTC");
    assert_eq!(tr_on("15:30 NZDT", "UTC", "2026-07-15"), "02:30 UTC");
    assert_eq!(tr_on("15:30 IST", "UTC", "2026-01-15"), "10:00 UTC");
    assert_eq!(tr("2026-07-15 15:30 CET", "UTC"), "2026-07-15 14:30 UTC");
}

#[test]
fn a_generic_abbreviation_follows_dst() {
    assert_eq!(tr_on("15:30 PT", "UTC", "2026-01-15"), "23:30 UTC");
    assert_eq!(tr_on("15:30 PT", "UTC", "2026-07-15"), "22:30 UTC");
}

#[test]
fn a_dated_start_shares_its_date_and_takes_the_ends_zone() {
    assert_eq!(
        tr("2026-04-03 9:00 AM - 10:00 AM PST", "UTC"),
        "2026-04-03 17:00 UTC - 18:00 UTC"
    );
    assert_eq!(
        translate(
            "2026-04-03 15:30 - 16:30",
            "America/Los_Angeles",
            Some("UTC"),
            None,
            None
        ),
        "2026-04-03 08:30 PDT - 09:30 PDT"
    );
    assert_eq!(
        translate(
            "2026-04-03 23:00 - 01:00",
            "UTC",
            Some("UTC"),
            Some(Format::Iso),
            None
        ),
        "2026-04-03 23:00:00Z - 2026-04-04 01:00:00Z"
    );
}

#[test]
fn a_dated_single_digit_hour_keeps_its_date() {
    assert_eq!(
        tr("2026-01-15 9:00 UTC", "Etc/GMT+12"),
        "2026-01-14 21:00 -12"
    );
    assert_eq!(
        tr("2026-01-15T9:00:00Z", "Etc/GMT+12"),
        "2026-01-14T21:00:00-12:00"
    );
}

#[test]
fn a_glued_offset_needs_seconds_and_range() {
    let tr = |l| translate(l, "UTC", None, None, Some("2026-04-03"));
    assert_eq!(tr("15:30-1645"), "15:30 UTC-1645");
    assert_eq!(tr("12:00+0530"), "12:00 UTC+0530");
    assert_eq!(tr("12:00 +0530"), "06:30 UTC");
    assert_eq!(tr("12:00:00-14:59"), "12:00:00 UTC-14:59 UTC");
    assert_eq!(tr("12:00:00+14:00"), "22:00:00 UTC");
    assert_eq!(
        translate("2026-04-03 12:00:00 -1645", "UTC", None, None, None),
        "2026-04-03 12:00:00 UTC -1645"
    );
}

#[test]
fn impossible_clocks_are_left_alone() {
    assert_eq!(
        tr("2026-09-25 99:14:42 PDT", "UTC"),
        "2026-09-25 99:14:42 PDT"
    );
    assert_eq!(tr_on("99am", "UTC", "2026-04-03"), "99am");
    assert_eq!(
        tr("Fri Sep 25 25:14:42 PDT 2026", "UTC"),
        "Fri Sep 25 25:14:42 PDT 2026"
    );
}

#[test]
fn a_range_past_midnight_is_an_hour_long_whatever_today_is_where() {
    for to in ["Etc/GMT-14", "Etc/GMT+12", "Asia/Tokyo"] {
        let out = translate(
            "11:30 PM to 12:30 AM PST",
            to,
            None,
            Some(Format::Iso),
            None,
        );
        let (start, end) = out.split_once(" to ").unwrap();
        let parse = |t: &str| {
            jiff::fmt::strtime::parse("%Y-%m-%d %H:%M:%S%:z", t)
                .unwrap()
                .to_timestamp()
                .unwrap()
        };
        let hour = parse(end).duration_since(parse(start));
        assert_eq!(hour.as_secs(), 3600, "{to}: {out}");
    }
}

#[test]
fn log_levels_are_not_timezones() {
    assert_eq!(
        tr_on("15:30 INFO server started", "UTC", "2026-04-03"),
        "15:30 UTC INFO server started"
    );
    assert_eq!(
        tr_on("15:30 WARN disk low", "UTC", "2026-04-03"),
        "15:30 UTC WARN disk low"
    );
    assert_eq!(
        tr("2026-04-03 12:00:00 ERROR db failed", "UTC"),
        "2026-04-03 12:00:00 UTC ERROR db failed"
    );
}


#[test]
fn ambiguous_wall_clock_takes_the_earlier_occurrence() {
    // A repeated hour resolves to the first (daylight) occurrence: jiff's
    // `compatible` disambiguation, which is also macOS date(1), Temporal,
    // RFC 5545 and ICU. Pinned so a jiff default change cannot move it by
    // an hour, twice a year, in every DST zone, without a test failing.
    let from = Some("America/New_York");
    assert_eq!(
        translate("2026-11-01 01:30:00", "UTC", from, None, None),
        "2026-11-01 05:30:00 UTC" // EDT (-4), not EST (-5)
    );
    assert_eq!(
        translate("01:30", "UTC", from, None, Some("2026-11-01")),
        "05:30 UTC"
    );
    assert_eq!(
        translate(
            "2026-10-25 02:30:00",
            "UTC",
            Some("Europe/Berlin"),
            None,
            None
        ),
        "2026-10-25 00:30:00 UTC" // CEST (+2), not CET (+1)
    );
}

#[test]
fn nonexistent_wall_clock_springs_forward() {
    assert_eq!(
        translate(
            "2026-03-08 02:30:00",
            "UTC",
            Some("America/New_York"),
            None,
            None
        ),
        "2026-03-08 07:30:00 UTC"
    );
}


#[test]
fn legal_but_overflowing_times_normalize() {
    assert_eq!(tr("24:00 UTC", "UTC"), "00:00 UTC");
    assert_eq!(tr("23:59:60 UTC", "UTC"), "00:00:00 UTC");
}

#[test]
fn genuinely_out_of_range_times_are_left_alone() {
    for input in ["25:00 UTC", "12:60 UTC", "24:00:01 UTC"] {
        assert_eq!(tr(input, "UTC"), input, "{input}");
    }
}

#[test]
fn impossible_dates_pass_through_untouched() {
    // Rewriting 2026-02-30 to 2026-03-02 moves a logged event to another
    // day with no signal. Leave it exactly as found.
    for input in [
        "2026-02-30T12:00:00Z",
        "2026-02-29T12:00:00Z",
        "2026-13-03T12:00:00Z",
    ] {
        assert_eq!(tr(input, "America/Los_Angeles"), input, "{input}");
    }
    // ...and a real leap day still converts.
    assert_eq!(
        tr("2028-02-29T12:00:00Z", "UTC"),
        "2028-02-29T12:00:00Z",
        "2028 is a leap year"
    );
}


#[test]
fn applies_the_meridiem() {
    for (input, expected) in [
        ("11:30:00 PM", "23:30:00 UTC"),
        ("12:30:00 AM", "00:30:00 UTC"),
        ("12:30:00 PM", "12:30:00 UTC"),
        ("1:00:00 PM", "13:00:00 UTC"),
        ("11:59:59 PM", "23:59:59 UTC"),
        ("12:00 AM", "00:00 UTC"),
        ("12:00 PM", "12:00 UTC"),
    ] {
        assert_eq!(tr(input, "UTC"), expected, "{input}");
    }
    assert_eq!(
        tr("2026-04-03 03:45:00 PM", "UTC"),
        "2026-04-03 15:45:00 UTC"
    );
}

#[test]
fn a_twelve_hour_time_may_carry_a_zone() {
    assert_eq!(tr("3:45 PM PST", "UTC"), "23:45 UTC");
    assert_eq!(tr("3:45 pm pst", "UTC"), "23:45 UTC");
    assert_eq!(
        tr("2026-04-03 03:45:00 PM PST", "UTC"),
        "2026-04-03 23:45:00 UTC"
    );
}

#[test]
fn a_dated_12_hour_time_may_drop_its_seconds() {
    // The date has to be part of the match: matching only `3:45 PM` leaves
    // the timestamp resolving its DST against *today* instead of the date
    // sitting right next to it.
    assert_eq!(tr("2026-04-03 3:45 PM", "UTC"), "2026-04-03 15:45 UTC");
    assert_eq!(tr("2026-04-03 03:45 PM", "UTC"), "2026-04-03 15:45 UTC");
}

#[test]
fn a_dated_timestamp_without_seconds_keeps_its_date() {
    assert_eq!(
        translate(
            "2026-01-15 23:30",
            "America/Los_Angeles",
            Some("UTC"),
            None,
            None
        ),
        "2026-01-15 15:30 PST"
    );
    assert_eq!(
        tr("2026-01-15 23:30 UTC", "America/Los_Angeles"),
        "2026-01-15 15:30 PST"
    );
}

#[test]
fn minute_precision_iso_converts() {
    assert_eq!(
        tr("2026-12-31T23:30+05:30", "Pacific/Auckland"),
        "2027-01-01T07:00+13:00"
    );
    assert_eq!(
        tr("2026-12-31T23:30Z", "Pacific/Auckland"),
        "2027-01-01T12:30+13:00"
    );
    assert_eq!(
        translate("2026-12-31T23:30", "UTC", Some("UTC"), None, None),
        "2026-12-31T23:30Z"
    );
}

#[test]
fn a_range_crossing_midnight_ends_the_next_day() {
    let iso = |l| translate(l, "UTC", None, Some(Format::Iso), Some("2026-04-03"));
    assert_eq!(
        iso("11:30 PM to 12:30 AM PST"),
        "2026-04-04 07:30:00Z to 2026-04-04 08:30:00Z"
    );
    assert_eq!(
        iso("11:30 PM, 12:15 AM or 1:00 AM PST"),
        "2026-04-04 07:30:00Z, 2026-04-04 08:15:00Z or 2026-04-04 09:00:00Z"
    );
    assert_eq!(
        iso("22:00-02:00 UTC"),
        "2026-04-03 22:00:00Z-2026-04-04 02:00:00Z"
    );
    assert_eq!(
        iso("9:00 to 17:00 UTC"),
        "2026-04-03 09:00:00Z to 2026-04-03 17:00:00Z"
    );
}

#[test]
fn meridiem_dots_are_stripped_not_parsed() {
    assert_eq!(tr("11:30 p.m.", "UTC"), "23:30 UTC");
    assert_eq!(tr("11:30 P.M", "UTC"), "23:30 UTC");
    assert_eq!(tr("at 11:30 A.M. sharp", "UTC"), "at 11:30 UTC sharp");
    assert_eq!(tr("3:45 P.M. PST", "UTC"), "23:45 UTC");
}

#[test]
fn an_undotted_meridiem_leaves_the_full_stop_to_the_sentence() {
    assert_eq!(
        tr("It starts at 11:30 PM.", "UTC"),
        "It starts at 23:30 UTC."
    );
}

#[test]
fn a_lowercase_abbreviation_resolves_as_the_uppercase_one() {
    assert_eq!(tr("15:30 jst", "UTC"), "06:30 UTC");
    // pdt is a fixed -07:00 like PDT, even in January.
    assert_eq!(
        translate("12:00 pdt", "UTC", None, None, Some("2026-01-15")),
        "19:00 UTC"
    );
    let m = tztr::matches("12:00 pst", "UTC", None, None, true, None);
    assert_eq!(m[0].detected_tz.as_deref(), Some("pst"));
}

#[test]
fn a_lowercase_abbreviation_that_is_also_a_word_is_left_alone() {
    // French "is" / "this", German "is": reading them as zones is a
    // silent wrong answer.
    assert_eq!(tr("à 15:30 est annulée", "UTC"), "à 15:30 UTC est annulée");
    assert_eq!(
        tr("à 15:30 cet après-midi", "UTC"),
        "à 15:30 UTC cet après-midi"
    );
    assert_eq!(tr("um 15:30 ist es", "UTC"), "um 15:30 UTC ist es");
    assert_eq!(tr("15:30 Pst", "UTC"), "15:30 UTC Pst");
}

#[test]
fn meridiem_is_not_read_as_a_zone() {
    let m = tztr::matches("11:30:00 PM", "UTC", None, None, true, None);
    assert_eq!(m[0].original, "11:30:00 PM");
    assert_eq!(m[0].detected_tz, None);
}

#[test]
fn detected_zone_is_the_one_that_converted() {
    let m = tztr::matches("15:30 JST", "UTC", None, None, false, None);
    assert_eq!(m[0].detected_tz.as_deref(), Some("JST"));
    let m = tztr::matches("15:30 INFO", "UTC", None, None, false, None);
    assert_eq!(m[0].original, "15:30");
    assert_eq!(m[0].detected_tz, None);
}

#[test]
fn dateless_input_anchors_date_to_embedded_zone() {
    // "15:30 UTC" carries no date; the missing date is "today" in the
    // embedded zone (UTC), independent of the output zone. Rendered to a
    // fixed -05:00 offset (no DST, so the assertion holds year-round);
    // 15:30Z -> 10:30 on the same UTC date.
    let today = jiff::Zoned::now().with_time_zone(jiff::tz::TimeZone::UTC).date();
    let expected = format!(
        "{:04}-{:02}-{:02} 10:30:00-05:00",
        today.year(),
        today.month(),
        today.day()
    );
    assert_eq!(
        translate("15:30 UTC", "Etc/GMT+5", None, Some(Format::Iso), None),
        expected
    );
}

#[test]
fn zone_abbreviations_are_the_documented_union() {
    let table = tztr::zones::abbreviation_table();
    assert_eq!(table.len(), 30);
    for a in &table {
        let resolves = tztr::zones::find_alias(&a.to_ascii_lowercase()).map_or(false, |name| {
            jiff::tz::TimeZone::get(std::str::from_utf8(&name).unwrap()).is_ok()
        });
        assert!(
            tztr::zones::zone_offset(a).is_some() || resolves,
            "{} is detected but resolves to nothing",
            String::from_utf8_lossy(a)
        );
    }
    for junk in ["INFO", "WARN", "ERROR", "PM", "AM", "TODO"] {
        assert!(!tztr::zones::zone_listed(junk.as_bytes()), "{junk} is not a zone");
    }
}
