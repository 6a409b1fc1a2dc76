use egi_rs::config::{CommonConfigError, CoreConfig, DailyCommonArgs, DetectorSet};
use egi_rs::header::{HeaderValue, IgramHeader, Scan, ScanFileName};
use egi_rs::i2s::I2SLineType;

fn scan(name: &str, ins: Option<HeaderValue>, npt: Option<HeaderValue>) -> Scan {
    Scan {
        path: format!("/data/{name}"),
        file_name: ScanFileName::Name(name.to_string()),
        header: Some(IgramHeader { dat: None, tim: None, tsc: None, ins, npt }),
    }
}

fn ins(name: &str) -> Option<HeaderValue> {
    Some(HeaderValue::Text(name.to_string()))
}

#[test]
fn detectors_from_one_header() {
    let single = scan("a", ins("EM27/SUN"), Some(HeaderValue::Integer(0)));
    assert_eq!(DetectorSet::infer_from_header(&single), Ok(DetectorSet::Single));
    let single = scan("a", ins("EM27/SUN"), None);
    assert_eq!(DetectorSet::infer_from_header(&single), Ok(DetectorSet::Single));
    let dual = scan("a", ins("EM27/SUN"), Some(HeaderValue::Integer(57344)));
    assert_eq!(DetectorSet::infer_from_header(&dual), Ok(DetectorSet::Dual));
    let mid = scan("a", ins("EM27/SUN MIR"), Some(HeaderValue::Text("x".to_string())));
    assert_eq!(DetectorSet::infer_from_header(&mid), Ok(DetectorSet::MidIR));
    let odd = scan("a", Some(HeaderValue::Integer(3)), Some(HeaderValue::Integer(1)));
    assert_eq!(DetectorSet::infer_from_header(&odd), Ok(DetectorSet::Dual));
}

#[test]
fn detectors_that_cannot_be_told() {
    let no_ins = scan("a", None, None);
    assert_eq!(
        DetectorSet::infer_from_header(&no_ins),
        Err(CommonConfigError::IoError(
            "Could not find instrument name in header of /data/a".to_string()
        ))
    );
    let bad_npt = scan("b", ins("EM27/SUN"), Some(HeaderValue::Text("many".to_string())));
    assert_eq!(
        DetectorSet::infer_from_header(&bad_npt),
        Err(CommonConfigError::IoError(
            "Unexpected type for NPT2 parameter in /data/b, expected integer".to_string()
        ))
    );
    let mut unread = scan("c", None, None);
    unread.header = None;
    assert_eq!(
        DetectorSet::infer_from_header(&unread),
        Err(CommonConfigError::IoError("Error reading interferogram /data/c".to_string()))
    );
}

#[test]
fn detectors_of_a_batch() {
    let dual = Some(HeaderValue::Integer(5));
    let scans = [
        scan("a", ins("EM27/SUN"), dual.clone()),
        scan("b", ins("EM27/SUN"), dual.clone()),
        scan("c", ins("EM27/SUN"), dual.clone()),
    ];
    assert_eq!(DetectorSet::infer_from_multi_headers(&scans), Ok(DetectorSet::Dual));
    assert_eq!(
        DetectorSet::infer_from_multi_headers(&[]),
        Err(CommonConfigError::IoError(
            "No interferograms given, so no detectors to infer".to_string()
        ))
    );
    let mixed = [
        scan("a", ins("EM27/SUN"), dual.clone()),
        scan("b", ins("EM27/SUN"), None),
        scan("c", None, None),
    ];
    assert_eq!(
        DetectorSet::infer_from_multi_headers(&mixed),
        Err(CommonConfigError::UserInputReq(
            "different detector sets found in the given list of interferograms:\n/data/a = extended InGaAs\n/data/b = InGaAs\nEither specify the correct detector set to use, or ensure each interferogram group has the same detector set.".to_string()
        ))
    );
    let broken = [scan("a", ins("EM27/SUN"), dual), scan("c", None, None)];
    assert!(matches!(
        DetectorSet::infer_from_multi_headers(&broken),
        Err(CommonConfigError::IoError(_))
    ));
}

#[test]
fn detector_names_and_files() {
    assert_eq!(DetectorSet::Single.name(), "InGaAs");
    assert_eq!(DetectorSet::Dual.name(), "extended InGaAs");
    assert_eq!(DetectorSet::MidIR.name(), "mid-IR");
    assert_eq!(DetectorSet::Single.get_flimit(), "flimit-dual.i2s");
    assert_eq!(DetectorSet::Dual.get_flimit(), "flimit-dual.i2s");
    assert_eq!(DetectorSet::MidIR.get_flimit(), "flimit-mid-ir.i2s");
}

#[test]
fn detector_changes() {
    let expect = [
        (DetectorSet::Single, "2 2", "AA", "aa"),
        (DetectorSet::Dual, "1 2", "DA", "da"),
        (DetectorSet::MidIR, "2 2", "CC", "cc"),
    ];
    for (set, channels, upper, lower) in expect {
        let changes = set.get_changes();
        assert_eq!(changes.change_line_opt(I2SLineType::HeaderParam(7)), Some(&channels.to_string()));
        assert_eq!(changes.change_line_opt(I2SLineType::HeaderParam(11)), Some(&upper.to_string()));
        assert_eq!(changes.change_line_opt(I2SLineType::HeaderParam(12)), Some(&lower.to_string()));
        assert_eq!(changes.change_line_opt(I2SLineType::HeaderParam(8)), None);
    }
}

#[test]
fn detector_sets_by_name() {
    for (word, set) in [
        ("s", DetectorSet::Single),
        ("Single", DetectorSet::Single),
        ("D", DetectorSet::Dual),
        ("DUAL", DetectorSet::Dual),
        ("m", DetectorSet::MidIR),
        ("MidIR", DetectorSet::MidIR),
    ] {
        assert_eq!(DetectorSet::from_str(word), Ok(set));
    }
    assert_eq!(
        DetectorSet::from_str("Triple"),
        Err(CommonConfigError::CannotConvert("'Triple' is not a valid detector set".to_string()))
    );
    assert!(DetectorSet::from_str("").is_err());
    assert!(DetectorSet::from_str(" s").is_err());
}

#[test]
fn configuration_records() {
    let core = CoreConfig {
        ftp_email: "you@example.com".to_string(),
        priors_request_email: "you@example.com".to_string(),
    };
    assert_eq!(core.clone(), core);
    let args = DailyCommonArgs {
        igram_pattern: "/data/{DATE}/igms".to_string(),
        run_dir_pattern: "/run/{DATE}".to_string(),
        coord_file_pattern: "/data/coords.json".to_string(),
        met_file_pattern: "/data/{DATE}/met.json".to_string(),
        igram_glob_pattern: "*".to_string(),
        detectors: Some(DetectorSet::Dual),
        top_file: None,
        utc_offset: None,
    };
    assert_eq!(args.clone(), args);
}
