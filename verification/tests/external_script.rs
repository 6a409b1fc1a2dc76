use egi_rs::decimal::Decimal;
use egi_rs::meteorology::external_script::{
    check_script_status, collect_script_entries, join_args, render_script_args, script_time_span,
    split_script_output, ScriptLine, ScriptMetError, ScriptRecord,
};
use egi_rs::meteorology::{read_met_file, MetEntry, MetErrorType, MetInput, MetSource, StackedProblem};
use egi_rs::timestamp::Timestamp;
use egi_rs::utils::pattern_replacement::PatternError;

fn instant(text: &str) -> Timestamp {
    let t = chrono::DateTime::parse_from_rfc3339(text).unwrap();
    Timestamp { utc_millis: t.timestamp_millis(), offset_secs: t.offset().local_minus_utc() }
}

fn number(value: &serde_json::Value) -> Result<Decimal, String> {
    let x = value.as_f64().ok_or("not a number")?;
    Ok(Decimal { billionths: (x * 1e9).round() as i64 })
}

fn optional(value: Option<&serde_json::Value>) -> Result<Option<Decimal>, String> {
    match value {
        None | Some(serde_json::Value::Null) => Ok(None),
        Some(v) => number(v).map(Some),
    }
}

fn decode(line: &[u8]) -> Result<MetEntry, String> {
    let value: serde_json::Value = serde_json::from_slice(line).map_err(|e| e.to_string())?;
    let datetime = value.get("datetime").and_then(|d| d.as_str()).ok_or("missing field `datetime`")?;
    let datetime: chrono::DateTime<chrono::FixedOffset> =
        datetime.parse().map_err(|e: chrono::ParseError| e.to_string())?;
    Ok(MetEntry {
        datetime: Timestamp {
            utc_millis: datetime.timestamp_millis(),
            offset_secs: datetime.offset().local_minus_utc(),
        },
        temperature: optional(value.get("temperature"))?,
        pressure: number(value.get("pressure").ok_or("missing field `pressure`")?)?,
        humidity: optional(value.get("humidity"))?,
    })
}

fn records(stdout: &[u8]) -> Vec<ScriptRecord> {
    split_script_output(stdout)
        .into_iter()
        .map(|l| ScriptRecord { line: l.number, decoded: decode(&l.text), raw: l.text })
        .collect()
}

fn dec(text: &str) -> Decimal {
    Decimal::parse(text).unwrap()
}

#[test]
fn test_ext_met_script() {
    let stdout = b"{\"datetime\": \"2025-03-01T12:00:00+0000\", \"pressure\": 1013.25}\n{\"datetime\": \"2025-03-01T15:00:00+0000\", \"pressure\": 1013.25, \"temperature\": 25.0}\n{\"datetime\": \"2025-03-01T18:00:00+0000\", \"pressure\": 1013.25, \"humidity\": 50.0}\n{\"datetime\": \"2025-03-01T21:00:00+0000\", \"pressure\": 1013.25, \"temperature\": -10.0, \"humidity\": 0.0}\n";
    let entries = collect_script_entries(&records(stdout)).unwrap();
    let expected = vec![
        MetEntry {
            datetime: instant("2025-03-01T12:00:00Z"),
            pressure: dec("1013.25"),
            temperature: None,
            humidity: None,
        },
        MetEntry {
            datetime: instant("2025-03-01T15:00:00Z"),
            pressure: dec("1013.25"),
            temperature: Some(dec("25.0")),
            humidity: None,
        },
        MetEntry {
            datetime: instant("2025-03-01T18:00:00Z"),
            pressure: dec("1013.25"),
            temperature: None,
            humidity: Some(dec("50.0")),
        },
        MetEntry {
            datetime: instant("2025-03-01T21:00:00Z"),
            pressure: dec("1013.25"),
            temperature: Some(dec("-10.0")),
            humidity: Some(dec("0.0")),
        },
    ];
    assert_eq!(entries.len(), expected.len());
    for (a, b) in entries.into_iter().zip(expected) {
        assert_eq!(a, b);
    }
}

#[test]
fn test_met_entry_de() {
    let entries = collect_script_entries(&records(
        br#"{"datetime": "2025-03-01T12:00:00+0000", "pressure": 1013.25}"#,
    ))
    .unwrap();
    assert_eq!(
        entries,
        vec![MetEntry {
            datetime: instant("2025-03-01T12:00:00Z"),
            pressure: dec("1013.25"),
            temperature: None,
            humidity: None,
        }]
    );
}

fn lines(items: &[(usize, &[u8])]) -> Vec<ScriptLine> {
    items.iter().map(|(number, text)| ScriptLine { number: *number, text: text.to_vec() }).collect()
}

#[test]
fn mixed_line_endings_give_one_record_per_line() {
    let stdout = b"one\r\ntwo\n\n  three \t\r\r\n\x0cfour\rfive";
    assert_eq!(
        split_script_output(stdout),
        lines(&[(1, b"one"), (2, b"two"), (4, b"three"), (6, b"four"), (7, b"five")])
    );
    assert_eq!(split_script_output(b""), vec![]);
    assert_eq!(split_script_output(b"\r\n \n\t\r"), vec![]);
    assert_eq!(split_script_output(b"a b"), lines(&[(1, b"a b")]));
    assert_eq!(split_script_output(b"\na\n"), lines(&[(2, b"a")]));
    assert_eq!(split_script_output(b"\r\na\r\n"), lines(&[(2, b"a")]));
    assert_eq!(split_script_output(b"\n\ra"), lines(&[(3, b"a")]));
    assert_eq!(split_script_output(b"a\rb\nc\r\nd"), lines(&[(1, b"a"), (2, b"b"), (3, b"c"), (4, b"d")]));
}

#[test]
fn crlf_and_lf_outputs_agree() {
    let lf = b"{\"datetime\": \"2025-03-01T12:00:00Z\", \"pressure\": 1000}\n{\"datetime\": \"2025-03-01T13:00:00-07:00\", \"pressure\": 999.5}\n";
    let mixed = b"{\"datetime\": \"2025-03-01T12:00:00Z\", \"pressure\": 1000}\r\n\r\n{\"datetime\": \"2025-03-01T13:00:00-07:00\", \"pressure\": 999.5}";
    let a = collect_script_entries(&records(lf)).unwrap();
    let b = collect_script_entries(&records(mixed)).unwrap();
    assert_eq!(a, b);
    assert_eq!(a.len(), 2);
    assert_eq!(a[1].datetime, instant("2025-03-01T13:00:00-07:00"));
}

#[test]
fn a_malformed_line_is_reported_with_its_number_and_text() {
    let stdout = b"{\"datetime\": \"2025-03-01T12:00:00Z\", \"pressure\": 1000}\r\n\n{\"pressure\": 1\xff}\nnot json\n";
    let recs = records(stdout);
    assert_eq!(recs.len(), 3);
    match collect_script_entries(&recs) {
        Err(ScriptMetError::EntryParseError { entry_num, error, entry_str }) => {
            assert_eq!(entry_num, 3);
            assert_eq!(entry_str, "{\"pressure\": 1\u{fffd}}");
            assert_eq!(Err(error), recs[1].decoded);
        }
        other => panic!("{other:?}"),
    }
    assert_eq!(collect_script_entries(&[]), Ok(vec![]));
    match collect_script_entries(&records(b"\nnot json\n")) {
        Err(ScriptMetError::EntryParseError { entry_num, entry_str, .. }) => {
            assert_eq!(entry_num, 2);
            assert_eq!(entry_str, "not json");
        }
        other => panic!("{other:?}"),
    }
}

#[test]
fn arguments_are_rendered() {
    let first = instant("2025-03-01T06:00:00-07:00");
    let last = instant("2025-03-01T18:00:00-07:00");
    let args: Vec<String> =
        ["--site", "xx", "-s{FIRST_IGRAM_TIME}", "--end={LAST_IGRAM_TIME:%H}"].iter().map(|a| a.to_string()).collect();
    assert_eq!(
        render_script_args(&args, first, last),
        Ok(vec![
            "--site".to_string(),
            "xx".to_string(),
            "-s2025-03-01T06:00:00-0700".to_string(),
            "--end=18".to_string(),
        ])
    );
    let args = vec!["ok".to_string(), "{SITE_ID}".to_string(), "{OTHER}".to_string()];
    assert_eq!(
        render_script_args(&args, first, last),
        Err(ScriptMetError::ArgPatternError(PatternError::UnknownKey("SITE_ID".to_string())))
    );
    assert_eq!(render_script_args(&[], first, last), Ok(vec![]));
}

#[test]
fn a_failed_program_is_reported() {
    let args = vec!["a".to_string(), "b c".to_string()];
    assert_eq!(check_script_status("./met.py", &args, true, Some(0)), Ok(()));
    assert_eq!(
        check_script_status("./met.py", &args, false, Some(3)),
        Err(ScriptMetError::ScriptFailedError {
            script: "./met.py".to_string(),
            args: "a b c".to_string(),
            exit_code: 3,
        })
    );
    assert_eq!(
        ScriptMetError::script_failed_error("./met.py", &[], None),
        ScriptMetError::ScriptFailedError {
            script: "./met.py".to_string(),
            args: String::new(),
            exit_code: -999,
        }
    );
    assert_eq!(
        ScriptMetError::script_run_error("./met.py", "not found"),
        ScriptMetError::ScriptRunError {
            script: "./met.py".to_string(),
            error: "not found".to_string()
        }
    );
    assert_eq!(
        ScriptMetError::entry_parse_error(4, "bad", b"x\xf0y"),
        ScriptMetError::EntryParseError {
            entry_num: 4,
            error: "bad".to_string(),
            entry_str: "x\u{fffd}y".to_string(),
        }
    );
    assert_eq!(join_args(&args), "a b c");
    assert_eq!(join_args(&args[..1]), "a");
}

#[test]
fn time_span_for_the_arguments() {
    let epoch = Timestamp { utc_millis: 0, offset_secs: 0 };
    assert_eq!(script_time_span(&[]), (epoch, epoch));
    let a = instant("2025-03-01T06:00:00-07:00");
    let b = instant("2025-03-01T05:00:00-07:00");
    assert_eq!(script_time_span(&[a, b]), (b, a));
}

#[test]
fn script_output_through_the_dispatcher() {
    let source = MetSource::ExtScriptV1 {
        script: "./met.py".to_string(),
        args: vec![],
        working_dir: ".".to_string(),
    };
    let input = MetInput::ScriptOutput(records(
        b"{\"datetime\": \"2025-03-01T12:00:00Z\", \"pressure\": 1000}\r\n",
    ));
    let entries = read_met_file(&source, &input, &[]).unwrap();
    assert_eq!(entries.len(), 1);
    let input = MetInput::ScriptOutput(records(b"{}\n"));
    let e = read_met_file(&source, &input, &[]).unwrap_err();
    assert!(matches!(
        e.reason,
        MetErrorType::Stack(StackedProblem::Script(ScriptMetError::EntryParseError { entry_num: 1, .. }))
    ));
}
