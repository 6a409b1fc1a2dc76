use egi_rs::decimal::Decimal;
use egi_rs::meteorology::cit_csv::{CitFile, CitMetError};
use egi_rs::meteorology::jpl_vaisala::JplMetError;
use egi_rs::meteorology::legacy::{LegacyMetError, RowProblem};
use egi_rs::meteorology::{
    check_source_offset, get_em27_tz, read_met_file, utc_offset_seconds, ConfigProblem, MetError,
    MetErrorType,
    MetInput, MetSource, MetSourceKind, ParsingProblem, StackedProblem,
};
use egi_rs::timestamp::Timestamp;

fn dec(text: &str) -> Decimal {
    Decimal::parse(text).unwrap()
}

fn at(ms: i64, hours: i32) -> Timestamp {
    Timestamp { utc_millis: ms, offset_secs: hours * 3600 }
}

const JPL: &str = "YYYYMMDD,HH:MM,Data,Temperature,Humidity,Pressure\n20230826,16:14,0R2,Ta=0.0#,Ua=0.0#,Pa=0.0#\n20230826,16:15,0R2,Ta=26.8C,Ua=39.3P,Pa=972.7H\n";

#[test]
fn offsets_in_hours_are_rounded_to_seconds() {
    assert_eq!(utc_offset_seconds(dec("-7.0")), Some(-25200));
    assert_eq!(utc_offset_seconds(dec("5.5")), Some(19800));
    assert_eq!(utc_offset_seconds(dec("0")), Some(0));
    assert_eq!(utc_offset_seconds(dec("0.000138888")), Some(0));
    assert_eq!(utc_offset_seconds(dec("0.000138889")), Some(1));
    assert_eq!(utc_offset_seconds(dec("-0.000138889")), Some(-1));
    assert_eq!(utc_offset_seconds(dec("23.9997")), Some(86399));
    assert_eq!(utc_offset_seconds(dec("24")), None);
    assert_eq!(utc_offset_seconds(dec("-24")), None);
    assert_eq!(utc_offset_seconds(dec("-23.99986")), Some(-86399));
    assert_eq!(utc_offset_seconds(Decimal { billionths: i64::MAX }), None);
    assert_eq!(utc_offset_seconds(Decimal { billionths: i64::MIN }), None);
}

#[test]
fn the_offset_of_a_source() {
    let times = [at(0, -7), at(5, -7)];
    assert_eq!(get_em27_tz(None, &times), Ok(-25200));
    assert_eq!(get_em27_tz(Some(dec("1")), &times), Ok(3600));
    assert_eq!(get_em27_tz(None, &[]), Err(MetErrorType::BadTimezoneError(vec![])));
    assert_eq!(
        get_em27_tz(None, &[at(0, -7), at(5, -8), at(6, -7)]),
        Err(MetErrorType::BadTimezoneError(vec![-25200, -28800]))
    );
    assert_eq!(
        get_em27_tz(Some(dec("30")), &times),
        Err(MetErrorType::ConfigError(ConfigProblem::UtcOffsetOutOfRange))
    );
}

#[test]
fn scans_without_a_common_offset_are_found_before_the_file_is_read() {
    let mixed = [at(0, -7), at(5, -8)];
    let shared = [at(0, -7), at(5, -7)];
    let legacy = MetSource::LegacyFileV1 { file: "m.csv".to_string() };
    let failure = MetError {
        met_source_type: MetSourceKind::LegacyFileV1,
        reason: MetErrorType::BadTimezoneError(vec![-25200, -28800]),
    };
    assert_eq!(check_source_offset(&legacy, &mixed), Err(failure.clone()));
    assert_eq!(check_source_offset(&legacy, &shared), Ok(()));
    assert_eq!(
        read_met_file(&legacy, &MetInput::LegacyFile(b"not a table".to_vec()), &mixed),
        Err(failure)
    );

    let logger = |utc_offset| MetSource::JplVaisalaV1 { file: "m.txt".to_string(), utc_offset };
    assert_eq!(
        check_source_offset(&logger(None), &[]),
        Err(MetError {
            met_source_type: MetSourceKind::JplVaisalaV1,
            reason: MetErrorType::BadTimezoneError(vec![]),
        })
    );
    assert_eq!(check_source_offset(&logger(Some(dec("-8"))), &mixed), Ok(()));
    assert_eq!(
        check_source_offset(&logger(Some(dec("24"))), &shared),
        Err(MetError {
            met_source_type: MetSourceKind::JplVaisalaV1,
            reason: MetErrorType::ConfigError(ConfigProblem::UtcOffsetOutOfRange),
        })
    );

    let station = MetSource::CitCsvV1 {
        pres_file: "p.csv".to_string(),
        site: "ci".to_string(),
        temp_file: None,
        humid_file: None,
    };
    assert_eq!(check_source_offset(&station, &mixed), Ok(()));
    let program = MetSource::ExtScriptV1 {
        script: "met".to_string(),
        args: vec![],
        working_dir: ".".to_string(),
    };
    assert_eq!(check_source_offset(&program, &mixed), Ok(()));
}

#[test]
fn each_kind_of_source_is_read() {
    let times = [at(0, -7)];
    let source = MetSource::JplVaisalaV1 { file: "m.txt".to_string(), utc_offset: Some(dec("2")) };
    let entries = read_met_file(&source, &MetInput::JplVaisalaFile(JPL.to_string()), &times).unwrap();
    assert_eq!(entries[0].datetime.offset_secs, 7200);
    let source = MetSource::JplVaisalaV1 { file: "m.txt".to_string(), utc_offset: None };
    let entries = read_met_file(&source, &MetInput::JplVaisalaFile(JPL.to_string()), &times).unwrap();
    assert_eq!(entries[0].datetime.offset_secs, -25200);

    let source = MetSource::LegacyFileV1 { file: "m.csv".to_string() };
    let input = MetInput::LegacyFile(b"CompDate,CompTime,Pout\n2015/02/10,17:31:44,985.9\n".to_vec());
    let entries = read_met_file(&source, &input, &times).unwrap();
    assert_eq!(entries[0].datetime, at(1_423_614_704_000, -7));

    let source = MetSource::CitCsvV1 {
        pres_file: "p.csv".to_string(),
        site: "ci".to_string(),
        temp_file: None,
        humid_file: None,
    };
    let input = MetInput::CitCsvFiles {
        pressure: "Time,\"Pressure (mb)\"\n\"2023-06-23 03:05:14\",986.8\n".to_string(),
        temperature: None,
        humidity: None,
    };
    let entries = read_met_file(&source, &input, &[]).unwrap();
    assert_eq!(entries[0].pressure, dec("986.8"));
}

#[test]
fn failures_name_the_kind_of_source() {
    let times = [at(0, -7), at(1, -6)];
    let source = MetSource::LegacyFileV1 { file: "m.csv".to_string() };
    let input = MetInput::LegacyFile(b"Pout\n1\n".to_vec());
    assert_eq!(
        read_met_file(&source, &input, &times),
        Err(MetError {
            met_source_type: MetSourceKind::LegacyFileV1,
            reason: MetErrorType::BadTimezoneError(vec![-25200, -21600])
        })
    );
    assert_eq!(
        read_met_file(&source, &input, &times[..1]),
        Err(MetError {
            met_source_type: MetSourceKind::LegacyFileV1,
            reason: MetErrorType::Stack(StackedProblem::Legacy(LegacyMetError::CsvError(
                1,
                RowProblem::InvalidTimeFormat
            )))
        })
    );
    let source = MetSource::JplVaisalaV1 { file: "m.txt".to_string(), utc_offset: Some(dec("-24")) };
    assert_eq!(
        read_met_file(&source, &MetInput::JplVaisalaFile(JPL.to_string()), &times),
        Err(MetError {
            met_source_type: MetSourceKind::JplVaisalaV1,
            reason: MetErrorType::ConfigError(ConfigProblem::UtcOffsetOutOfRange)
        })
    );
    let source = MetSource::JplVaisalaV1 { file: "m.txt".to_string(), utc_offset: Some(dec("0")) };
    assert_eq!(
        read_met_file(&source, &MetInput::JplVaisalaFile(String::new()), &times),
        Err(MetError {
            met_source_type: MetSourceKind::JplVaisalaV1,
            reason: MetErrorType::ParsingError(ParsingProblem::Jpl(JplMetError::HeaderLineMissing))
        })
    );
    assert_eq!(
        read_met_file(&source, &input, &times),
        Err(MetError {
            met_source_type: MetSourceKind::JplVaisalaV1,
            reason: MetErrorType::ConfigError(ConfigProblem::InputMismatch)
        })
    );
    let cit = |site: &str| MetSource::CitCsvV1 {
        pres_file: "p.csv".to_string(),
        site: site.to_string(),
        temp_file: None,
        humid_file: None,
    };
    let files = MetInput::CitCsvFiles { pressure: String::new(), temperature: None, humidity: None };
    assert_eq!(
        read_met_file(&cit("zz"), &files, &times).unwrap_err().reason,
        MetErrorType::ConfigError(ConfigProblem::UnknownSite)
    );
    assert_eq!(
        read_met_file(&cit("ci"), &files, &times).unwrap_err().reason,
        MetErrorType::ParsingError(ParsingProblem::Cit(CitMetError::HeaderLineMissing(
            CitFile::Pressure
        )))
    );
}

#[test]
fn kinds_have_names() {
    let source = MetSource::LegacyFileV1 { file: "m.csv".to_string() };
    assert_eq!(source.kind(), MetSourceKind::LegacyFileV1);
    assert_eq!(source.kind().name(), "LegacyFileV1");
    assert_eq!(MetSourceKind::JplVaisalaV1.name(), "JplVaisalaV1");
    assert_eq!(MetSourceKind::CitCsvV1.name(), "CitCsvV1");
    assert_eq!(MetSourceKind::ExtScriptV1.name(), "ExtScriptV1");
}
