use egi_rs::timestamp::{CivilDate, Timestamp};
use egi_rs::utils::pattern_replacement::{
    render_daily_pattern, render_met_script_arg_pattern, render_postproc_script_pattern,
    PatternError,
};

fn instant(text: &str) -> Timestamp {
    let t = chrono::DateTime::parse_from_rfc3339(text).unwrap();
    Timestamp { utc_millis: t.timestamp_millis(), offset_secs: t.offset().local_minus_utc() }
}

#[test]
fn daily_test_date_pattern() {
    let date = CivilDate { year: 2024, month: 4, day: 1 };
    let pattern = "/data/{DATE}";
    let rendered = render_daily_pattern(pattern, date, "").unwrap();
    assert_eq!(rendered, "/data/2024-04-01");

    let pattern = "/data/{DATE:%Y}/{DATE:%m}/{DATE:%d}";
    let rendered = render_daily_pattern(pattern, date, "").unwrap();
    assert_eq!(rendered, "/data/2024/04/01");

    let pattern = "/data/{date}";
    let e = render_daily_pattern(pattern, date, "");
    assert!(e.is_err());

    let pattern = "/data/{DATE}/igms/";
    let rendered = render_daily_pattern(pattern, date, "").unwrap();
    assert_eq!(rendered, "/data/2024-04-01/igms/");

    let pattern = "/data/{DATE:4.1}";
    let rendered = render_daily_pattern(pattern, date, "").unwrap();
    assert_eq!(rendered, "/data/4.1");
}

#[test]
fn patterns_test_date_pattern() {
    let date = CivilDate { year: 2024, month: 4, day: 1 };
    let pattern = "/data/{DATE}";
    let rendered = render_daily_pattern(pattern, date, "xx").unwrap();
    assert_eq!(rendered, "/data/2024-04-01");

    let pattern = "/data/{DATE:%Y}/{DATE:%m}/{DATE:%d}";
    let rendered = render_daily_pattern(pattern, date, "xx").unwrap();
    assert_eq!(rendered, "/data/2024/04/01");

    let pattern = "/data/{date}";
    let e = render_daily_pattern(pattern, date, "xx");
    assert!(e.is_err());

    let pattern = "/data/{DATE}/igms/";
    let rendered = render_daily_pattern(pattern, date, "xx").unwrap();
    assert_eq!(rendered, "/data/2024-04-01/igms/");

    let pattern = "/data/{DATE:4.1}";
    let rendered = render_daily_pattern(pattern, date, "xx").unwrap();
    assert_eq!(rendered, "/data/4.1");
}

#[test]
fn test_site_id_pattern() {
    let date = CivilDate { year: 2024, month: 4, day: 1 };
    let sid = "xx";
    let pattern = "/data/{SITE_ID}";
    let rendered = render_daily_pattern(pattern, date, sid).unwrap();
    assert_eq!(rendered, "/data/xx");

    let pattern = "/data/{SITE_ID}/originals/";
    let rendered = render_daily_pattern(pattern, date, sid).unwrap();
    assert_eq!(rendered, "/data/xx/originals/");
}

#[test]
fn test_default_time_patterns() {
    let t1 = instant("2025-03-01T06:00:00Z");
    let t2 = instant("2025-03-01T18:00:00Z");

    let rendered = render_met_script_arg_pattern("-s{FIRST_IGRAM_TIME}", t1, t2).unwrap();
    assert_eq!(rendered, "-s2025-03-01T06:00:00+0000");
    let rendered = render_met_script_arg_pattern("-e{LAST_IGRAM_TIME}", t1, t2).unwrap();
    assert_eq!(rendered, "-e2025-03-01T18:00:00+0000");
}

#[test]
fn test_custom_time_patterns() {
    let t1 = instant("2025-03-01T06:00:00Z");
    let t2 = instant("2025-03-01T18:00:00Z");

    let rendered = render_met_script_arg_pattern(
        "{FIRST_IGRAM_TIME:%y/%m/%d/%H/%M%:::z},{LAST_IGRAM_TIME:%y/%m/%d/%H/%M%:::z}",
        t1,
        t2,
    )
    .unwrap();
    assert_eq!(rendered, "25/03/01/06/00+00,25/03/01/18/00+00");
}

#[test]
fn times_are_written_under_their_own_offset() {
    let t1 = instant("2025-03-01T09:01:02-07:00");
    let rendered = render_met_script_arg_pattern("--start={FIRST_IGRAM_TIME}", t1, t1).unwrap();
    assert_eq!(rendered, "--start=2025-03-01T09:01:02-0700");
    let rendered = render_met_script_arg_pattern("--start={FIRST_IGRAM_TIME:%Y%m%d}", t1, t1).unwrap();
    assert_eq!(rendered, "--start=20250301");
}

#[test]
fn unknown_keys_are_reported_by_name() {
    let date = CivilDate { year: 2024, month: 4, day: 1 };
    assert_eq!(
        render_daily_pattern("/data/{date}", date, ""),
        Err(PatternError::UnknownKey("date".to_string()))
    );
    assert_eq!(
        render_daily_pattern("{DATE}{NOPE:%Y}", date, ""),
        Err(PatternError::UnknownKey("NOPE".to_string()))
    );
    let t = instant("2025-03-01T06:00:00Z");
    assert_eq!(
        render_met_script_arg_pattern("{DATE}", t, t),
        Err(PatternError::UnknownKey("DATE".to_string()))
    );
}

#[test]
fn formats_that_cannot_be_written_are_reported() {
    let date = CivilDate { year: 2024, month: 4, day: 1 };
    assert_eq!(
        render_daily_pattern("{DATE:%Q}", date, ""),
        Err(PatternError::InvalidFormat("%Q".to_string()))
    );
    let impossible = CivilDate { year: 2024, month: 2, day: 30 };
    assert_eq!(
        render_daily_pattern("{DATE}", impossible, ""),
        Err(PatternError::InvalidFormat("%Y-%m-%d".to_string()))
    );
}

#[test]
fn braces_that_are_no_placeholder_are_kept() {
    let date = CivilDate { year: 2024, month: 4, day: 1 };
    assert_eq!(render_daily_pattern("a{}b", date, "xx").unwrap(), "a{}b");
    assert_eq!(render_daily_pattern("a{b", date, "xx").unwrap(), "a{b");
    assert_eq!(render_daily_pattern("a}b{", date, "xx").unwrap(), "a}b{");
    assert_eq!(render_daily_pattern("{}{SITE_ID}", date, "xx").unwrap(), "{}xx");
    assert_eq!(render_daily_pattern("", date, "xx").unwrap(), "");
    assert_eq!(render_daily_pattern("é{SITE_ID}ü", date, "xx").unwrap(), "éxxü");
    // A placeholder runs from its brace to the next closing brace.
    assert_eq!(
        render_daily_pattern("{{SITE_ID}", date, "xx"),
        Err(PatternError::UnknownKey("{SITE_ID".to_string()))
    );
}

#[test]
fn postproc_script_pattern() {
    let script = "export GGGPATH={GGGPATH}\nrunlog={RUNLOG:ignored}\nsite={SITE_ID}\n";
    let rendered = render_postproc_script_pattern(script, "/opt/ggg", "xx20240401", "xx").unwrap();
    assert_eq!(rendered, "export GGGPATH=/opt/ggg\nrunlog=xx20240401\nsite=xx\n");
    assert_eq!(
        render_postproc_script_pattern("{DATE}", "/opt/ggg", "r", "xx"),
        Err(PatternError::UnknownKey("DATE".to_string()))
    );
}
