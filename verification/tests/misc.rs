use egi_rs::cli::{gsetup_input, utc_offset_text};
use egi_rs::coordinates::{CoordinateError, CoordinateFileType, PathExtension};
use egi_rs::decimal::Decimal;
use egi_rs::header_time::{resolve_header_time, FormatCause};
use egi_rs::header::HeaderParam;
use egi_rs::init::{
    create_file_action, file_status, make_dir_action, tally, CreateFileAction, DirState,
    FileStatus, MakeDirAction, OverwriteAnswer, SetupDisplayOutcome, SetupOutcome, SetupTally,
};
use egi_rs::meteorology::cit_csv::{read_cit_csv_met, CitMetError};
use egi_rs::meteorology::jpl_vaisala::Col;
use egi_rs::meteorology::{close, MetEntry};
use egi_rs::timestamp::Timestamp;
use egi_rs::utils::{find_menu_index, parse_menu, runlog_stem, site_id_of_runlog};

fn dec(text: &str) -> Decimal {
    Decimal::parse(text).unwrap()
}

#[test]
fn input_for_the_set_up_program() {
    assert_eq!(gsetup_input(3, 12), "g\n3\n5\n12\ny\n");
    assert_eq!(gsetup_input(0, 100), "g\n0\n5\n100\ny\n");
}

#[test]
fn offsets_are_written_in_hours() {
    for (secs, text) in [
        (-25200, "7.00"),
        (25200, "-7.00"),
        (0, "0.00"),
        (19800, "-5.50"),
        (-34200, "9.50"),
        (-20700, "5.75"),
        (3600, "-1.00"),
        (-82800, "23.00"),
        (-36, "0.01"),
        (-18, "0.01"),
        (-17, "0.00"),
        (i32::MIN, "596523.24"),
        (i32::MAX, "-596523.24"),
    ] {
        assert_eq!(utc_offset_text(secs), text, "{secs}");
    }
    for hours in -23..=23i32 {
        let x = -(hours * 3600) as f32 / 3600.0;
        assert_eq!(utc_offset_text(hours * 3600), format!("{x:.2}"));
    }
}

#[test]
fn coordinate_files_by_extension() {
    let json = PathExtension::Text("json".to_string());
    assert_eq!(CoordinateFileType::for_extension("c.json", &json), Ok(CoordinateFileType::Json));
    assert_eq!(
        CoordinateFileType::for_extension("c.JSON", &PathExtension::Text("JSON".to_string())),
        Err(CoordinateError::UnknownExtension("c.JSON".to_string()))
    );
    assert_eq!(
        CoordinateFileType::for_extension("c", &PathExtension::Absent),
        Err(CoordinateError::UnknownExtension("c".to_string()))
    );
    assert_eq!(
        CoordinateFileType::for_extension("c.?", &PathExtension::NotUnicode),
        Err(CoordinateError::InvalidExtension("c.?".to_string()))
    );
}

#[test]
fn times_at_the_end_of_the_calendar_do_not_resolve() {
    assert_eq!(
        resolve_header_time("31/12/+262142", "23:59:59.999 (GMT-23)"),
        Err((HeaderParam::Tim, FormatCause::InvalidLocalTime))
    );
    assert!(resolve_header_time("31/12/+262142", "23:59:59.999 (GMT+23)").is_ok());
    let text = "Time,\"Pressure (mb)\"\n\"+262142-12-31 23:59:59\",1\n";
    assert_eq!(
        read_cit_csv_met(text, "ci", None, None),
        Err(CitMetError::TimezoneError { line: 2 })
    );
}

#[test]
fn steps_add_up() {
    let outcomes = vec![
        SetupOutcome::Executed,
        SetupOutcome::NotNeeded,
        SetupOutcome::UserSkipped,
        SetupOutcome::OtherSkip("why".to_string()),
        SetupOutcome::Failed,
    ];
    let shown: Vec<SetupDisplayOutcome> = outcomes.iter().map(|o| o.display()).collect();
    assert_eq!(
        shown,
        vec![
            SetupDisplayOutcome::Done,
            SetupDisplayOutcome::Done,
            SetupDisplayOutcome::Skipped,
            SetupDisplayOutcome::Skipped,
            SetupDisplayOutcome::Failed,
        ]
    );
    assert_eq!(tally(&outcomes), SetupTally { n_skipped: 2, n_failed: 1 });
    assert!(!tally(&outcomes).is_complete());
    assert!(tally(&outcomes[..2]).is_complete());
    assert!(tally(&[]).is_complete());
    assert!(!tally(&outcomes[4..]).is_complete());
}

#[test]
fn files_and_directories_of_the_set_up() {
    assert_eq!(file_status(None, "x"), FileStatus::Missing);
    assert_eq!(file_status(Some("x"), "x"), FileStatus::Extant);
    assert_eq!(file_status(Some("x\n"), "x"), FileStatus::ContentDiffers);
    assert_eq!(create_file_action(FileStatus::Missing, false, OverwriteAnswer::No), CreateFileAction::Write);
    assert_eq!(create_file_action(FileStatus::Extant, true, OverwriteAnswer::Yes), CreateFileAction::NotNeeded);
    assert_eq!(create_file_action(FileStatus::ContentDiffers, true, OverwriteAnswer::No), CreateFileAction::Write);
    assert_eq!(create_file_action(FileStatus::ContentDiffers, false, OverwriteAnswer::Yes), CreateFileAction::Write);
    assert_eq!(create_file_action(FileStatus::ContentDiffers, false, OverwriteAnswer::No), CreateFileAction::UserSkipped);
    assert_eq!(create_file_action(FileStatus::ContentDiffers, false, OverwriteAnswer::Canceled), CreateFileAction::Abort);
    assert_eq!(
        create_file_action(FileStatus::ContentDiffers, false, OverwriteAnswer::NotTty),
        CreateFileAction::SkippedNoTerminal
    );
    assert_eq!(make_dir_action(DirState::IsDir, false), MakeDirAction::NotNeeded);
    assert_eq!(make_dir_action(DirState::IsFile, true), MakeDirAction::SkipIsFile);
    assert_eq!(
        make_dir_action(DirState::Absent { parent_exists: true }, false),
        MakeDirAction::Create
    );
    assert_eq!(
        make_dir_action(DirState::Absent { parent_exists: false }, false),
        MakeDirAction::SkipNoParent
    );
    assert_eq!(
        make_dir_action(DirState::Absent { parent_exists: false }, true),
        MakeDirAction::CreateAll
    );
}

#[test]
fn menus_and_run_logs() {
    let entries = parse_menu("Value Description\nxx20240401.grl A run log\nem27.gnd Windows\nxx20240401.grl again\n");
    assert_eq!(find_menu_index(&entries, "em27.gnd"), Some(2));
    assert_eq!(find_menu_index(&entries, "xx20240401.grl"), Some(1));
    assert_eq!(find_menu_index(&entries, "em27"), None);
    assert_eq!(find_menu_index(&[], "em27.gnd"), None);
    assert_eq!(runlog_stem("xx20240401.grl"), "xx20240401");
    assert_eq!(runlog_stem("a.b.c"), "a.b");
    assert_eq!(runlog_stem("plain"), "plain");
    assert_eq!(runlog_stem(".grl"), "");
    assert_eq!(runlog_stem(""), "");
    assert_eq!(site_id_of_runlog("xx20240401"), Some("xx".to_string()));
    assert_eq!(site_id_of_runlog("éü"), Some("éü".to_string()));
    assert_eq!(site_id_of_runlog("x"), None);
}

#[test]
fn observations_that_are_close() {
    let at = |ms: i64, off: i32| Timestamp { utc_millis: ms, offset_secs: off };
    let a = MetEntry {
        datetime: at(5, 0),
        temperature: Some(dec("19.9")),
        pressure: dec("985.9"),
        humidity: None,
    };
    let mut b = a;
    b.datetime = at(5, -25200);
    b.pressure = dec("985.91");
    b.temperature = Some(dec("19.89"));
    assert!(a.is_close(&b));
    b.pressure = dec("985.910000001");
    assert!(!a.is_close(&b));
    b.pressure = a.pressure;
    b.humidity = Some(dec("0"));
    assert!(!a.is_close(&b));
    b.humidity = None;
    b.datetime = at(6, 0);
    assert!(!a.is_close(&b));
    assert!(close(dec("-0.005"), dec("0.005")));
    assert!(!close(Decimal { billionths: i64::MIN }, Decimal { billionths: i64::MAX }));
}

#[test]
fn columns_have_names() {
    assert_eq!(Col::Date.name(), "YYYYMMDD");
    assert_eq!(Col::Time.name(), "HH:MM");
    assert_eq!(Col::Pres.name(), "Pressure");
    assert_eq!(Col::Temp.name(), "Temperature");
    assert_eq!(Col::RH.name(), "Humidity");
}
