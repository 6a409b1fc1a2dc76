use egi_rs::cli::{add_spectrum_dir_to_list, dir_in_commented_line, parallel_line, CliError};

fn list(lines: &[&str]) -> Vec<String> {
    lines.iter().map(|l| l.to_string()).collect()
}

#[test]
fn errors_carry_their_message() {
    assert_eq!(CliError::bad_input("a"), CliError::BadInput("a".to_string()));
    assert_eq!(CliError::missing_input("b"), CliError::MissingInput("b".to_string()));
    assert_eq!(CliError::program_error("c"), CliError::ProgramError("c".to_string()));
    assert_eq!(CliError::other("d"), CliError::Other("d".to_string()));
}

#[test]
fn commented_directories_are_found() {
    let part = list(&["/a/spectra/", ": /b/spectra/", ":/c/spectra/", " :/d/spectra/", ":/b/spectra/"]);
    assert_eq!(dir_in_commented_line(&part, "/b/spectra/"), Some(1));
    assert_eq!(dir_in_commented_line(&part, "/c/spectra/"), Some(2));
    assert_eq!(dir_in_commented_line(&part, "/a/spectra/"), None);
    assert_eq!(dir_in_commented_line(&part, "/d/spectra/"), None);
    assert_eq!(dir_in_commented_line(&part, ""), Some(1));
    assert_eq!(dir_in_commented_line(&[], "/a/"), None);
}

#[test]
fn directories_are_added_once() {
    let part = list(&["/a/spectra/", ":: \t/b/spectra/"]);
    assert_eq!(add_spectrum_dir_to_list(part.clone(), "/a/spectra/"), part);
    assert_eq!(
        add_spectrum_dir_to_list(part.clone(), "/b/spectra/"),
        list(&["/a/spectra/", "/b/spectra/"])
    );
    assert_eq!(
        add_spectrum_dir_to_list(part.clone(), "/c/spectra/"),
        list(&["/a/spectra/", ":: \t/b/spectra/", "/c/spectra/"])
    );
    assert_eq!(add_spectrum_dir_to_list(vec![], "/c/"), list(&["/c/"]));
}

#[test]
fn line_for_the_parallel_file() {
    assert_eq!(
        parallel_line("/run/2024-04-01", "/opt/ggg", "opus-i2s.in"),
        "cd /run/2024-04-01 && /opt/ggg/bin/i2s opus-i2s.in > i2s.log"
    );
}
