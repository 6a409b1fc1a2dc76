use egi_rs::cli::i2s_changes_for_day;
use egi_rs::config::DetectorSet;
use egi_rs::i2s::{modify_i2s_head, I2SHeaderEdit, I2SInputModifications, I2SLine, I2SLineType};

fn template() -> Vec<I2SLine> {
    let lines = [
        (I2SLineType::Other, ": a comment\n"),
        (I2SLineType::HeaderParam(1), "./igms/   Directory of the scans\r\n"),
        (I2SLineType::Other, "\n"),
        (I2SLineType::HeaderParam(2), "./spectra/\n"),
        (I2SLineType::HeaderParam(7), "1 1\n"),
        (I2SLineType::HeaderParam(19), "0.0"),
    ];
    lines.iter().map(|(t, s)| I2SLine { line_type: *t, text: s.to_string() }).collect()
}

fn texts(lines: &[I2SLine]) -> Vec<String> {
    lines.iter().map(|l| l.text.clone()).collect()
}

#[test]
fn no_edits_reproduce_the_template() {
    let top = template();
    let out = modify_i2s_head(&top, &I2SInputModifications::new());
    assert_eq!(out, texts(&top));
    assert_eq!(out.concat(), texts(&top).concat());
    assert_eq!(modify_i2s_head(&[], &I2SInputModifications::new()), Vec::<String>::new());
}

#[test]
fn one_edit_changes_only_its_line() {
    let top = template();
    let mut edits = I2SInputModifications::new();
    edits.set_parameter_change(2, "/out/spec/".to_string());
    let out = modify_i2s_head(&top, &edits);
    let mut expected = texts(&top);
    expected[3] = "/out/spec/\n".to_string();
    assert_eq!(out, expected);
}

#[test]
fn edits_of_parameters_that_the_template_lacks_change_nothing() {
    let top = template();
    let mut edits = I2SInputModifications::new();
    edits.set_parameter_change(5, "x".to_string());
    assert_eq!(modify_i2s_head(&top, &edits), texts(&top));
}

#[test]
fn a_later_edit_replaces_an_earlier_one() {
    let mut edits = I2SInputModifications::from_edits(vec![
        I2SHeaderEdit { parameter: 7, value: "2 2".to_string() },
        I2SHeaderEdit { parameter: 19, value: "7.00".to_string() },
    ]);
    edits.set_parameter_change(7, "1 2".to_string());
    assert_eq!(edits.change_line_opt(I2SLineType::HeaderParam(7)), Some(&"1 2".to_string()));
    assert_eq!(edits.change_line_opt(I2SLineType::HeaderParam(19)), Some(&"7.00".to_string()));
    assert_eq!(edits.change_line_opt(I2SLineType::HeaderParam(1)), None);
    assert_eq!(edits.change_line_opt(I2SLineType::Other), None);
    let out = modify_i2s_head(&template(), &edits);
    assert_eq!(out[4], "1 2\n");
    assert_eq!(out[5], "7.00\n");
    assert_eq!(out[1], "./igms/   Directory of the scans\r\n");
}

#[test]
fn changes_for_a_day() {
    let edits = i2s_changes_for_day(DetectorSet::Dual, "/data/igms/", "spectra/", "xx", "7.00");
    let expect = [
        (1, "/data/igms/"),
        (2, "spectra/"),
        (7, "1 2"),
        (8, "./flimit.i2s"),
        (9, "xxYYYYMMDDS0e00C.RRRR"),
        (11, "DA"),
        (12, "da"),
        (19, "7.00"),
    ];
    for (p, v) in expect {
        assert_eq!(edits.change_line_opt(I2SLineType::HeaderParam(p)), Some(&v.to_string()));
    }
    assert_eq!(edits.change_line_opt(I2SLineType::HeaderParam(3)), None);
}
