use egi_rs::decimal::Decimal;
use egi_rs::meteorology::cit_csv::{
    check_times, read_cit_csv, read_cit_csv_met, usa_dst, CitFile, CitMetError, TcconMetSite,
    TimeMismatch,
};
use egi_rs::meteorology::MetEntry;
use egi_rs::timestamp::{CivilDate, CivilDateTime, ClockTime, Timestamp};

fn dec(text: &str) -> Decimal {
    Decimal::parse(text).unwrap()
}

fn instant(text: &str) -> Timestamp {
    let t = chrono::DateTime::parse_from_rfc3339(text).unwrap();
    Timestamp { utc_millis: t.timestamp_millis(), offset_secs: t.offset().local_minus_utc() }
}

fn chars(items: &[&str]) -> Vec<Vec<char>> {
    items.iter().map(|s| s.chars().collect()).collect()
}

const PRES: &str = "Time,\"Pressure (mb)\"\n\"2023-06-23 00:00:14\",986.9\n\"2023-06-23 03:05:14\",986.8\r\n\"2023-06-23 12:10:14\",986.7\n";
const TEMP: &str = "Time,\"Temperature (C)\"\n\"2023-06-23 00:00:14\",18.5\n\"2023-06-23 03:05:14\",18.0\n\"2023-06-23 12:10:14\",27.25\n";
const HUMID: &str = "Time,\"Relative Humidity (%)\"\n\"2023-06-23 00:00:14\",80\n\"2023-06-23 03:05:14\",81\n\"2023-06-23 12:10:14\",35\n";

#[test]
fn a_full_set_is_read() {
    let entries = read_cit_csv_met(PRES, "ci", Some(TEMP), Some(HUMID)).unwrap();
    assert_eq!(
        entries,
        vec![
            MetEntry {
                datetime: instant("2023-06-23T03:05:14-07:00"),
                temperature: Some(dec("18.0")),
                pressure: dec("986.8"),
                humidity: Some(dec("81")),
            },
            MetEntry {
                datetime: instant("2023-06-23T12:10:14-07:00"),
                temperature: Some(dec("27.25")),
                pressure: dec("986.7"),
                humidity: Some(dec("35")),
            },
        ]
    );
}

#[test]
fn missing_files_give_no_values() {
    let entries = read_cit_csv_met(PRES, "pa", None, None).unwrap();
    assert_eq!(entries.len(), 2);
    assert_eq!(entries[0].datetime, instant("2023-06-23T03:05:14-05:00"));
    assert_eq!(entries[0].temperature, None);
    assert_eq!(entries[0].humidity, None);
    assert_eq!(entries[1].temperature, None);
    assert_eq!(entries[1].humidity, None);
    let entries = read_cit_csv_met(PRES, "oc", None, Some(HUMID)).unwrap();
    assert_eq!(entries[1].datetime.offset_secs, -5 * 3600);
    assert_eq!(entries[1].humidity, Some(dec("35")));
    assert_eq!(entries[1].temperature, None);
}

#[test]
fn times_of_the_files_must_match() {
    let shorter = "Time,\"Temperature (C)\"\n\"2023-06-23 00:00:14\",18.5\n";
    assert_eq!(
        read_cit_csv_met(PRES, "ci", Some(shorter), Some(HUMID)),
        Err(CitMetError::TimeMismatch {
            file1: CitFile::Pressure,
            file2: CitFile::Temperature,
            cause: TimeMismatch::DifferentCounts,
        })
    );
    let shifted = "Time,\"Relative Humidity (%)\"\n\"2023-06-23 00:00:14\",80\n\"2023-06-23 03:05:14\",81\n\"2023-06-23 12:10:15\",35\n";
    assert_eq!(
        read_cit_csv_met(PRES, "ci", Some(TEMP), Some(shifted)),
        Err(CitMetError::TimeMismatch {
            file1: CitFile::Pressure,
            file2: CitFile::Humidity,
            cause: TimeMismatch::DifferentOnLine(4),
        })
    );
    let first = "Time,\"Temperature (C)\"\n\"2023-06-23 00:00:15\",18.5\n\"2023-06-23 03:05:15\",18.0\n\"2023-06-23 12:10:14\",27.25\n";
    assert_eq!(
        read_cit_csv_met(PRES, "ci", Some(first), None),
        Err(CitMetError::TimeMismatch {
            file1: CitFile::Pressure,
            file2: CitFile::Temperature,
            cause: TimeMismatch::DifferentOnLine(2),
        })
    );
}

#[test]
fn test_check_times() {
    let a = chars(&["t1", "t2", "t3"]);
    assert_eq!(check_times(&a, &a.clone(), CitFile::Pressure, CitFile::Humidity), Ok(()));
    assert_eq!(check_times(&[], &[], CitFile::Pressure, CitFile::Humidity), Ok(()));
    let b = chars(&["t1", "tx", "ty"]);
    assert_eq!(
        check_times(&a, &b, CitFile::Pressure, CitFile::Humidity),
        Err(CitMetError::TimeMismatch {
            file1: CitFile::Pressure,
            file2: CitFile::Humidity,
            cause: TimeMismatch::DifferentOnLine(3),
        })
    );
    assert_eq!(
        check_times(&a, &a[..2], CitFile::Pressure, CitFile::Temperature),
        Err(CitMetError::TimeMismatch {
            file1: CitFile::Pressure,
            file2: CitFile::Temperature,
            cause: TimeMismatch::DifferentCounts,
        })
    );
}

#[test]
fn errors_of_a_csv_set() {
    assert_eq!(read_cit_csv_met(PRES, "df", None, None), Err(CitMetError::UnknownSite));
    assert_eq!(
        read_cit_csv_met("", "ci", None, None),
        Err(CitMetError::HeaderLineMissing(CitFile::Pressure))
    );
    assert_eq!(
        read_cit_csv_met(PRES, "ci", Some(""), None),
        Err(CitMetError::HeaderLineMissing(CitFile::Temperature))
    );
    assert_eq!(
        read_cit_csv_met("When,\"Pressure (mb)\"\n", "ci", None, None),
        Err(CitMetError::UnexpectedColumn { file: CitFile::Pressure, col_index: 1 })
    );
    assert_eq!(
        read_cit_csv_met(PRES, "ci", Some(HUMID), None),
        Err(CitMetError::UnexpectedColumn { file: CitFile::Temperature, col_index: 2 })
    );
    assert_eq!(
        read_cit_csv_met("Time,\"Pressure (mb)\"\n\"2023-06-23 04:00:14\"\n", "ci", None, None),
        Err(CitMetError::LineTooShort(CitFile::Pressure, 2))
    );
    assert_eq!(
        read_cit_csv_met("Time,\"Pressure (mb)\"\n\"2023-06-23 04:00:14\",1\n\n", "ci", None, None),
        Err(CitMetError::LineTooShort(CitFile::Pressure, 3))
    );
    assert_eq!(
        read_cit_csv_met("Time,\"Pressure (mb)\"\nx,1\ny,high\n", "ci", None, None),
        Err(CitMetError::ParsingError { file: CitFile::Pressure, line: 3, col: 2 })
    );
    assert_eq!(
        read_cit_csv_met("Time,\"Pressure (mb)\"\n\"2023-06-23 04:00:14\",1\nnever,2\n", "ci", None, None),
        Err(CitMetError::ParsingError { file: CitFile::Pressure, line: 3, col: 1 })
    );
}

#[test]
fn headers_have_two_columns() {
    let table = read_cit_csv("Time,\"Relative Humidity (%)\"\n\"t\",1.5,ignored\n", CitFile::Humidity).unwrap();
    assert_eq!(table.times, chars(&["t"]));
    assert_eq!(table.values, vec![dec("1.5")]);
    let table = read_cit_csv("Time,\"Pressure (mb)\"", CitFile::Pressure).unwrap();
    assert!(table.times.is_empty() && table.values.is_empty());
    let error = |col_index| CitMetError::UnexpectedColumn { file: CitFile::Pressure, col_index };
    assert_eq!(read_cit_csv("Time\n", CitFile::Pressure).err(), Some(error(2)));
    assert_eq!(read_cit_csv("\n", CitFile::Pressure).err(), Some(error(1)));
    assert_eq!(read_cit_csv("a,b,c\n", CitFile::Pressure).err(), Some(error(1)));
    assert_eq!(read_cit_csv("Time,b,c\n", CitFile::Pressure).err(), Some(error(2)));
    assert_eq!(
        read_cit_csv("Time,\"Pressure (mb)\",c\n\"t\",1\n", CitFile::Pressure).err(),
        Some(error(3))
    );
    assert_eq!(read_cit_csv("Time,\"Pressure (mb)\",\n", CitFile::Pressure).err(), Some(error(3)));
}

#[test]
fn lines_before_three_are_dropped() {
    let text = "Time,\"Pressure (mb)\"\n\"2023-06-23 02:59:59\",1\n\"2023-06-23 03:00:00\",2\n\"2023-06-23 00:00:00\",3\n";
    let entries = read_cit_csv_met(text, "ci", None, None).unwrap();
    assert_eq!(entries.len(), 1);
    assert_eq!(entries[0].pressure, dec("2"));
}

#[test]
fn offsets_follow_the_season() {
    let cases = [
        ("2024-01-15 12:00:00", "ci", -8),
        ("2024-07-15 12:00:00", "ci", -7),
        ("2024-03-09 12:00:00", "ci", -8),
        ("2024-03-10 03:30:00", "ci", -7),
        ("2024-03-31 12:00:00", "ci", -7),
        ("2024-11-02 12:00:00", "ci", -7),
        ("2024-11-03 03:30:00", "ci", -8),
        ("2024-11-30 12:00:00", "ci", -8),
        ("2024-12-25 12:00:00", "oc", -6),
        ("2024-06-01 12:00:00", "oc", -5),
        ("2024-06-01 12:00:00", "pa", -5),
        ("2025-03-08 12:00:00", "pa", -6),
        ("2025-03-09 12:00:00", "pa", -5),
        ("2025-11-01 12:00:00", "pa", -5),
        ("2025-11-02 12:00:00", "pa", -6),
    ];
    for (time, site, hours) in cases {
        let text = format!("Time,\"Pressure (mb)\"\n\"{time}\",1000\n");
        let entries = read_cit_csv_met(&text, site, None, None).unwrap();
        let naive = chrono::NaiveDateTime::parse_from_str(time, "%Y-%m-%d %H:%M:%S").unwrap();
        let utc = naive.and_utc().timestamp_millis() - (hours as i64) * 3_600_000;
        assert_eq!(
            entries[0].datetime,
            Timestamp { utc_millis: utc, offset_secs: hours * 3600 },
            "{time} {site}"
        );
    }
}

#[test]
fn daylight_saving_rule() {
    // 2021-03-14 is a Sunday, the second of March; 2021-11-07 the first of November.
    assert!(usa_dst(&CivilDate { year: 2021, month: 3, day: 14 }, 0));
    assert!(!usa_dst(&CivilDate { year: 2021, month: 3, day: 13 }, 6));
    assert!(!usa_dst(&CivilDate { year: 2021, month: 3, day: 7 }, 0));
    assert!(usa_dst(&CivilDate { year: 2021, month: 3, day: 15 }, 1));
    assert!(usa_dst(&CivilDate { year: 2021, month: 11, day: 6 }, 6));
    assert!(!usa_dst(&CivilDate { year: 2021, month: 11, day: 7 }, 0));
    assert!(!usa_dst(&CivilDate { year: 2021, month: 11, day: 8 }, 1));
    assert!(usa_dst(&CivilDate { year: 2021, month: 11, day: 1 }, 1));
    assert!(!usa_dst(&CivilDate { year: 2021, month: 2, day: 28 }, 0));
    assert!(!usa_dst(&CivilDate { year: 2021, month: 12, day: 1 }, 3));
    assert!(usa_dst(&CivilDate { year: 2021, month: 4, day: 1 }, 4));
}

#[test]
fn sites_by_code() {
    assert_eq!(TcconMetSite::from_str("ci"), Ok(TcconMetSite::Caltech));
    assert_eq!(TcconMetSite::from_str("oc"), Ok(TcconMetSite::Lamont));
    assert_eq!(TcconMetSite::from_str("pa"), Ok(TcconMetSite::ParkFalls));
    assert_eq!(TcconMetSite::from_str("CI"), Err(CitMetError::UnknownSite));
    let local = CivilDateTime {
        date: CivilDate { year: 2024, month: 2, day: 30 },
        clock: ClockTime { seconds: 4 * 3600, nanos: 0 },
    };
    assert_eq!(TcconMetSite::Caltech.add_timezone(&local), None);
    let local = CivilDateTime {
        date: CivilDate { year: 2024, month: 2, day: 29 },
        clock: ClockTime { seconds: 4 * 3600, nanos: 0 },
    };
    assert_eq!(
        TcconMetSite::Caltech.add_timezone(&local),
        Some(instant("2024-02-29T04:00:00-08:00"))
    );
    assert_eq!(local.clock.hour(), 4);
}
