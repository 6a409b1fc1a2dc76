use egi_rs::decimal::Decimal;
use egi_rs::meteorology::jpl_vaisala::{
    header_to_inds, parse_line_datetime, parse_line_numeric_part, read_jpl_vaisala_met,
    read_reading, Col, ColInds, JplMetError, LineProblem, MissingColumns, ParseProblem,
};
use egi_rs::meteorology::MetEntry;
use egi_rs::timestamp::{CivilDate, ClockTime, Timestamp};

fn dec(text: &str) -> Decimal {
    Decimal::parse(text).unwrap()
}

fn instant(text: &str) -> Timestamp {
    let t = chrono::DateTime::parse_from_rfc3339(text).unwrap();
    Timestamp { utc_millis: t.timestamp_millis(), offset_secs: t.offset().local_minus_utc() }
}

fn chars(items: &[&str]) -> Vec<Vec<char>> {
    items.iter().map(|s| s.chars().collect()).collect()
}

const FILE: &str = "YYYYMMDD,HH:MM,Data,Temperature,Humidity,Pressure\n20230826,16:14,0R2,Ta=0.0#,Ua=0.0#,Pa=0.0#\n20230826,16:15,0R2,Ta=26.8C,Ua=39.3P,Pa=972.7H\r\n20230826,16:16,0R2,Ta=26.9C,Ua=40.3P,Pa=972.6H\n";

#[test]
fn a_logger_file_is_read() {
    let entries = read_jpl_vaisala_met(FILE, -7 * 3600).unwrap();
    assert_eq!(
        entries,
        vec![
            MetEntry {
                datetime: instant("2023-08-26T16:15:00-07:00"),
                temperature: Some(dec("26.8")),
                pressure: dec("972.7"),
                humidity: Some(dec("39.3")),
            },
            MetEntry {
                datetime: instant("2023-08-26T16:16:00-07:00"),
                temperature: Some(dec("26.9")),
                pressure: dec("972.6"),
                humidity: Some(dec("40.3")),
            },
        ]
    );
    let entries = read_jpl_vaisala_met(FILE, 3600).unwrap();
    assert_eq!(entries[0].datetime, instant("2023-08-26T16:15:00+01:00"));
}

#[test]
fn columns_may_stand_anywhere() {
    let text = "Pressure,extra,HH:MM,Humidity,Temperature,YYYYMMDD,Pressure\nunits\nPa=1000.5H,x,01:02,Ua=1.0P,Ta=2.0C,20240229,Pa=1.0H\n";
    let entries = read_jpl_vaisala_met(text, 0).unwrap();
    assert_eq!(
        entries,
        vec![MetEntry {
            datetime: instant("2024-02-29T01:02:00Z"),
            temperature: Some(dec("2.0")),
            pressure: dec("1000.5"),
            humidity: Some(dec("1.0")),
        }]
    );
}

#[test]
fn the_second_line_holds_no_observation() {
    let head = "YYYYMMDD,HH:MM,Data,Temperature,Humidity,Pressure\n";
    let line = "20230826,16:15,0R2,Ta=26.8C,Ua=39.3P,Pa=972.7H\n";
    assert_eq!(read_jpl_vaisala_met(head, 0), Ok(vec![]));
    assert_eq!(read_jpl_vaisala_met(&format!("{head}{line}"), 0), Ok(vec![]));
    assert_eq!(read_jpl_vaisala_met(&format!("{head}not even a line of data"), 0), Ok(vec![]));
    assert_eq!(read_jpl_vaisala_met(&format!("{head}{line}{line}{line}"), 0).unwrap().len(), 2);
}

#[test]
fn test_header_to_inds() {
    let header = chars(&["YYYYMMDD", "HH:MM", "Data", "Temperature", "Humidity", "Pressure"]);
    assert_eq!(
        header_to_inds(&header),
        Ok(ColInds { date: 0, time: 1, pres: 5, temp: 3, rh: 4 })
    );
    let header = chars(&["YYYYMMDD", "Data", "Temperature", " Humidity", "pressure"]);
    assert_eq!(
        header_to_inds(&header),
        Err(JplMetError::HeaderMissingFields(MissingColumns {
            date: false,
            time: true,
            temperature: false,
            humidity: true,
            pressure: true,
        }))
    );
    assert!(header_to_inds(&[]).is_err());
}

#[test]
fn readings_are_found_in_their_tokens() {
    let cs: Vec<char> = "Ta=26.8C".chars().collect();
    assert_eq!(read_reading(&cs, Col::Temp), Ok(dec("26.8")));
    let cs: Vec<char> = "xxTa=Ta=1.C Ta=007.250C Ta=1.0C".chars().collect();
    assert_eq!(read_reading(&cs, Col::Temp), Ok(dec("7.25")));
    let cs: Vec<char> = "Pa=972.7H".chars().collect();
    assert_eq!(read_reading(&cs, Col::Pres), Ok(dec("972.7")));
    assert_eq!(
        read_reading(&cs, Col::RH),
        Err(LineProblem::ParsingError(Col::RH, ParseProblem::NoMatch))
    );
    let cs: Vec<char> = "Ta=-5.0C".chars().collect();
    assert_eq!(read_reading(&cs, Col::Temp), Ok(dec("-5.0")));
    let cs: Vec<char> = "Ta=+0.5C".chars().collect();
    assert_eq!(read_reading(&cs, Col::Temp), Ok(dec("0.5")));
    let cs: Vec<char> = "Ta=-.5C Ta=--1.0C Ta=-12.25C".chars().collect();
    assert_eq!(read_reading(&cs, Col::Temp), Ok(dec("-12.25")));
    for bad in ["", "Ta=", "Ta=26C", "Ta=.8C", "Ta=26.C", "Ta=26.8", "Ta=--1.0C", "Ta=-C", "Ta=- 1.0C", "ta=26.8C", "Ta=26.8c", "Ta=2 6.8C"] {
        let cs: Vec<char> = bad.chars().collect();
        assert_eq!(
            read_reading(&cs, Col::Temp),
            Err(LineProblem::ParsingError(Col::Temp, ParseProblem::NoMatch)),
            "{bad:?}"
        );
    }
    let cs: Vec<char> = "Ua=99999999999.0P".chars().collect();
    assert_eq!(
        read_reading(&cs, Col::RH),
        Err(LineProblem::ParsingError(Col::RH, ParseProblem::BadNumber))
    );
}

#[test]
fn errors_of_a_logger_file() {
    assert_eq!(read_jpl_vaisala_met("", 0), Err(JplMetError::HeaderLineMissing));
    assert!(matches!(
        read_jpl_vaisala_met("a,b\n", 0),
        Err(JplMetError::HeaderMissingFields(_))
    ));
    let head = "YYYYMMDD,HH:MM,Data,Temperature,Humidity,Pressure\n";
    let cases = [
        ("20230826,16:15,0R2,Ta=26.8C,Ua=39.3P\n", LineProblem::LineTooShort(Col::Pres)),
        ("20230826,16:15,0R2\n", LineProblem::LineTooShort(Col::Temp)),
        ("\n", LineProblem::LineTooShort(Col::Temp)),
        (
            "20230826,16:15,0R2,Ta=26.8C,Ua=39.3,Pa=972.7H\n",
            LineProblem::ParsingError(Col::RH, ParseProblem::NoMatch),
        ),
        (
            "2023-08-26,16:15,0R2,Ta=26.8C,Ua=39.3P,Pa=972.7H\n",
            LineProblem::ParsingError(Col::Date, ParseProblem::BadDate),
        ),
        (
            "20230826,16h15,0R2,Ta=26.8C,Ua=39.3P,Pa=972.7H\n",
            LineProblem::ParsingError(Col::Time, ParseProblem::BadTime),
        ),
    ];
    for (line, problem) in cases {
        let good = "20230826,16:14,0R2,Ta=26.8C,Ua=39.3P,Pa=972.7H\n";
        let text = format!("{head}second header line\n{good}20230826,16:14,junk#\n{line}{good}");
        assert_eq!(
            read_jpl_vaisala_met(&text, 0),
            Err(JplMetError::LineError(5, problem)),
            "{line:?}"
        );
    }
    let text = format!("{head}\n20230826,16:14,0R2,Ta=26.8C,Ua=39.3P,Pa=972.7H\n");
    assert_eq!(
        read_jpl_vaisala_met(&text, -86_400),
        Err(JplMetError::LineError(
            3,
            LineProblem::InvalidTime(
                CivilDate { year: 2023, month: 8, day: 26 },
                ClockTime { seconds: 16 * 3600 + 14 * 60, nanos: 0 },
                -86_400
            )
        ))
    );
}

#[test]
fn a_signed_reading_is_read() {
    let inds = ColInds { date: 0, time: 1, pres: 5, temp: 3, rh: 4 };
    let parts = chars(&["20230826", "16:15", "0R2", "Ta=-5.0C", "Ua=39.3P", "Pa=972.7H"]);
    assert_eq!(parse_line_numeric_part(&parts, Col::Temp, &inds), Ok(dec("-5.0")));
    let text = "YYYYMMDD,HH:MM,Data,Temperature,Humidity,Pressure\nunits\n20230126,06:15,0R2,Ta=-5.0C,Ua=39.3P,Pa=972.7H\n";
    let entries = read_jpl_vaisala_met(text, 0).unwrap();
    assert_eq!(entries[0].temperature, Some(dec("-5")));
}

#[test]
fn fields_of_a_line() {
    let inds = ColInds { date: 0, time: 1, pres: 4, temp: 2, rh: 3 };
    let parts = chars(&["20230826", "16:15", "Ta=26.8C", "Ua=39.3P", "Pa=972.7H"]);
    assert_eq!(parse_line_numeric_part(&parts, Col::Pres, &inds), Ok(dec("972.7")));
    assert_eq!(parse_line_numeric_part(&parts, Col::Temp, &inds), Ok(dec("26.8")));
    assert_eq!(parse_line_numeric_part(&parts, Col::RH, &inds), Ok(dec("39.3")));
    assert_eq!(
        parse_line_numeric_part(&parts[..4], Col::Pres, &inds),
        Err(LineProblem::LineTooShort(Col::Pres))
    );
    assert_eq!(
        parse_line_datetime(&parts, &inds, -25200),
        Ok(instant("2023-08-26T16:15:00-07:00"))
    );
    assert_eq!(
        parse_line_datetime(&parts[..1], &inds, 0),
        Err(LineProblem::LineTooShort(Col::Time))
    );
    assert_eq!(parse_line_datetime(&[], &inds, 0), Err(LineProblem::LineTooShort(Col::Date)));
    assert_eq!(
        parse_line_datetime(&parts, &inds, 86_400),
        Err(LineProblem::InvalidTime(
            CivilDate { year: 2023, month: 8, day: 26 },
            ClockTime { seconds: 16 * 3600 + 15 * 60, nanos: 0 },
            86_400
        ))
    );
}
