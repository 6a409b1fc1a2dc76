use egi_rs::header::{HeaderBlock, HeaderParam, HeaderValue, IgramHeader};
use egi_rs::header_time::{read_gmt_offset, resolve_header_time, FormatCause, GmtOffset, ZpdTime};
use egi_rs::i2s_catalog::{get_zpd_time, EntryProblem};
use egi_rs::timestamp::{CivilDate, Timestamp};

fn header(dat: Option<HeaderValue>, tim: Option<HeaderValue>) -> IgramHeader {
    IgramHeader { dat, tim, tsc: None, ins: None, npt: None }
}

fn text(s: &str) -> Option<HeaderValue> {
    Some(HeaderValue::Text(s.to_string()))
}

#[test]
fn header_time_resolves_with_its_offset() {
    let zpd = resolve_header_time("01/04/2024", "09:30:15.500 (GMT-7)").unwrap();
    let expected = chrono::DateTime::parse_from_rfc3339("2024-04-01T09:30:15.500-07:00").unwrap();
    assert_eq!(
        zpd,
        ZpdTime {
            instant: Timestamp { utc_millis: expected.timestamp_millis(), offset_secs: -7 * 3600 },
            date: CivilDate { year: 2024, month: 4, day: 1 },
        }
    );
    assert_eq!(zpd.instant.utc_millis, 1_711_989_015_500);
}

#[test]
fn header_time_east_of_utc() {
    let zpd = resolve_header_time("31/12/2023", "23:59:59.999\t(GMT+9)").unwrap();
    let expected = chrono::DateTime::parse_from_rfc3339("2023-12-31T23:59:59.999+09:00").unwrap();
    assert_eq!(zpd.instant.utc_millis, expected.timestamp_millis());
    assert_eq!(zpd.instant.offset_secs, 9 * 3600);
    assert_eq!(zpd.date, CivilDate { year: 2023, month: 12, day: 31 });
    let zpd = resolve_header_time("01/04/2024", "  09:30:15.500   (GMT+0) \t").unwrap();
    assert_eq!(zpd.instant.offset_secs, 0);
}

#[test]
fn the_time_field_holds_exactly_two_fragments() {
    let expected = resolve_header_time("01/04/2024", "09:30:15.500 (GMT-7)").unwrap();
    for tim in [" 09:30:15.500 (GMT-7)", "09:30:15.500 \t (GMT-7)", "09:30:15.500 (GMT-7) ", "09:30:15.500\n(GMT-7)\r\n"] {
        assert_eq!(resolve_header_time("01/04/2024", tim), Ok(expected), "{tim:?}");
    }
    for tim in [
        "09:30:15.500 (GMT-7) extra",
        "09:30:15.500 extra (GMT-7)",
        "09:30:15.500 x (GMT-7)",
        "09:30:15.500 (GMT-7) (GMT+2)",
        "09:30:15.500 (GMT -7)",
    ] {
        assert_eq!(
            resolve_header_time("01/04/2024", tim),
            Err((HeaderParam::Tim, FormatCause::ExtraText)),
            "{tim:?}"
        );
    }
    for tim in ["", "   ", "09:30:15.500", "09:30:15.500 \t", "09:30:15.500\u{a0}(GMT-7)"] {
        assert_eq!(
            resolve_header_time("01/04/2024", tim),
            Err((HeaderParam::Tim, FormatCause::NoWhitespace)),
            "{tim:?}"
        );
    }
}

#[test]
fn the_offset_fragment_is_the_group_and_nothing_else() {
    for tim in [
        "09:30:15.500 x(GMT-7)y",
        "09:30:15.500 x(GMT-7)",
        "09:30:15.500 (GMT-7)y",
        "09:30:15.500 ((GMT-7)",
        "09:30:15.500 (GMT-7))",
        "09:30:15.500 (GMT-7)(GMT-7)",
        "09:30:15.500 (GMT--7)",
        "09:30:15.500 (GMT-٧)",
    ] {
        assert_eq!(
            resolve_header_time("01/04/2024", tim),
            Err((HeaderParam::Tim, FormatCause::NoOffset)),
            "{tim:?}"
        );
    }
}

#[test]
fn time_without_offset_group_fails() {
    for tim in [
        "09:30:15.500",
        "09:30:15.500 ",
        "",
        "09:30:15.500 GMT-7",
        "09:30:15.500 (GMT7)",
        "09:30:15.500 (GMT-)",
        "09:30:15.500 (GMT-7",
        "09:30:15.500 (UTC-7)",
        "09:30:15.500 (GMT -7)",
        "09:30:15.500 (gmt-7)",
        "09:30:15.500 (GMT-7.5)",
        "09:30:15.500(GMT-7)",
    ] {
        assert!(resolve_header_time("01/04/2024", tim).is_err(), "{tim:?}");
    }
    assert_eq!(
        resolve_header_time("01/04/2024", "09:30:15.500"),
        Err((HeaderParam::Tim, FormatCause::NoWhitespace))
    );
    assert_eq!(
        resolve_header_time("01/04/2024", "09:30:15.500 (GMT7)"),
        Err((HeaderParam::Tim, FormatCause::NoOffset))
    );
    assert_eq!(
        resolve_header_time("01/04/2024", "09:30:15.500 (GMT -7)"),
        Err((HeaderParam::Tim, FormatCause::ExtraText))
    );
}

#[test]
fn offsets_of_a_day_or_more_fail() {
    assert_eq!(
        resolve_header_time("01/04/2024", "09:30:15.500 (GMT+24)"),
        Err((HeaderParam::Tim, FormatCause::OffsetOutOfBounds))
    );
    assert_eq!(
        resolve_header_time("01/04/2024", "09:30:15.500 (GMT-99999999999999999999)"),
        Err((HeaderParam::Tim, FormatCause::OffsetOutOfBounds))
    );
    assert!(resolve_header_time("01/04/2024", "09:30:15.500 (GMT+23)").is_ok());
    assert!(resolve_header_time("01/04/2024", "09:30:15.500 (GMT-23)").is_ok());
}

#[test]
fn malformed_dates_and_clocks_fail() {
    assert_eq!(
        resolve_header_time("2024-04-01", "09:30:15.500 (GMT-7)"),
        Err((HeaderParam::Dat, FormatCause::BadDate))
    );
    assert_eq!(
        resolve_header_time("31/02/2024", "09:30:15.500 (GMT-7)"),
        Err((HeaderParam::Dat, FormatCause::BadDate))
    );
    assert_eq!(
        resolve_header_time("01/04/2024", "09:30:15 (GMT-7)"),
        Err((HeaderParam::Tim, FormatCause::BadClock))
    );
    assert_eq!(
        resolve_header_time("01/04/2024", "25:30:15.500 (GMT-7)"),
        Err((HeaderParam::Tim, FormatCause::BadClock))
    );
    // The split of the time field is checked before the date.
    assert_eq!(
        resolve_header_time("nonsense", "09:30:15.500"),
        Err((HeaderParam::Tim, FormatCause::NoWhitespace))
    );
}

#[test]
fn offset_groups_are_read_whole() {
    let read = |text: &str| {
        let cs: Vec<char> = text.chars().collect();
        read_gmt_offset(&cs)
    };
    assert_eq!(read("(GMT-7)"), GmtOffset::Hours(-7));
    assert_eq!(read("(GMT+07)"), GmtOffset::Hours(7));
    assert_eq!(read("(GMT+0)"), GmtOffset::Hours(0));
    assert_eq!(read("(GMT-23)"), GmtOffset::Hours(-23));
    assert_eq!(read("(GMT+24)"), GmtOffset::OutOfBounds);
    assert_eq!(read("(GMT+30)"), GmtOffset::OutOfBounds);
    assert_eq!(read("(GMT-99999999999999999999)"), GmtOffset::OutOfBounds);
    for text in ["", "(GMT", "(GMT+)", "(GMT7)", "x(GMT-7)", "(GMT-7)y", "(GMT-7", "(gmt-7)", "(GMT-7.5)", "(GMT- 7)", "(UTC-7)"] {
        assert_eq!(read(text), GmtOffset::Absent, "{text:?}");
    }
}

#[test]
fn missing_and_mistyped_fields_are_told_apart() {
    assert_eq!(
        get_zpd_time(&header(None, text("09:30:15.500 (GMT-7)"))),
        Err(EntryProblem::MissingHeaderParameter(HeaderBlock::IgramPrimaryStatus, HeaderParam::Dat))
    );
    assert_eq!(
        get_zpd_time(&header(text("01/04/2024"), None)),
        Err(EntryProblem::MissingHeaderParameter(HeaderBlock::IgramPrimaryStatus, HeaderParam::Tim))
    );
    assert_eq!(
        get_zpd_time(&header(Some(HeaderValue::Integer(1)), None)),
        Err(EntryProblem::UnexpectedParameterType(HeaderBlock::IgramPrimaryStatus, HeaderParam::Dat))
    );
    assert_eq!(
        get_zpd_time(&header(text("01/04/2024"), Some(HeaderValue::Integer(9)))),
        Err(EntryProblem::UnexpectedParameterType(HeaderBlock::IgramPrimaryStatus, HeaderParam::Tim))
    );
    assert_eq!(
        get_zpd_time(&header(text("01/04/2024"), text("09:30:15.500 (GMT7)"))),
        Err(EntryProblem::UnexpectedParameterFormat {
            block: HeaderBlock::IgramPrimaryStatus,
            param: HeaderParam::Tim,
            cause: FormatCause::NoOffset,
        })
    );
    assert!(get_zpd_time(&header(text("01/04/2024"), text("09:30:15.500 (GMT-7)"))).is_ok());
}
