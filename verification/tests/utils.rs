use egi_rs::utils::{
    add_menu_entry, ensure_trailing_path_sep, find_nth_word_index, menu_index_bounds, parse_menu,
    path_relative_to_config, resolve_config_path, with_trailing_sep, ConfigPathKind, MenuEntry,
};

#[test]
fn test_nth_word_index() {
    let s = " one two  three";
    let i1 = find_nth_word_index(s, 0);
    assert_eq!(i1, Some(1));
    let i2 = find_nth_word_index(s, 1);
    assert_eq!(i2, Some(5));
    let i3 = find_nth_word_index(s, 2);
    assert_eq!(i3, Some(10));
    let i4 = find_nth_word_index(s, 3);
    assert_eq!(i4, None);
}

#[test]
fn nth_word_index_counts_bytes() {
    // "é" takes two bytes, the no-break space two as well.
    let s = "é\u{a0}b";
    assert_eq!(find_nth_word_index(s, 0), Some(0));
    assert_eq!(find_nth_word_index(s, 1), Some(4));
    assert_eq!(find_nth_word_index("", 0), None);
    assert_eq!(find_nth_word_index("   ", 0), None);
}

#[test]
fn trailing_separator_is_added_once() {
    let sep = std::path::MAIN_SEPARATOR;
    let with = format!("data{sep}igms{sep}");
    let without = format!("data{sep}igms");
    assert_eq!(ensure_trailing_path_sep(&without), Some(with.clone()));
    assert_eq!(ensure_trailing_path_sep(&with), Some(with));
    assert_eq!(ensure_trailing_path_sep(""), Some(sep.to_string()));
}

#[test]
fn trailing_separator_of_any_kind() {
    assert_eq!(with_trailing_sep("data/igms", '/'), "data/igms/");
    assert_eq!(with_trailing_sep("data/igms/", '/'), "data/igms/");
    assert_eq!(with_trailing_sep("data/igms//", '/'), "data/igms//");
    assert_eq!(with_trailing_sep("data/igms/", '\\'), "data/igms/\\");
    assert_eq!(with_trailing_sep("", '/'), "/");
    assert_eq!(with_trailing_sep("é", 'é'), "é");
}

#[test]
fn paths_of_a_configuration_file() {
    let p = || "met/file.csv".to_string();
    assert_eq!(resolve_config_path(p(), ConfigPathKind::Absolute), Some(p()));
    assert_eq!(
        resolve_config_path(p(), ConfigPathKind::FromConfigDir("cfg/met/file.csv".to_string())),
        Some("cfg/met/file.csv".to_string())
    );
    assert_eq!(resolve_config_path(p(), ConfigPathKind::NoConfigDir), None);

    let sep = std::path::MAIN_SEPARATOR;
    let config = format!("{sep}etc{sep}egi{sep}met.json");
    let absolute = format!("{sep}data{sep}met.csv");
    assert_eq!(path_relative_to_config(&config, absolute.clone()), Some(absolute));
    assert_eq!(
        path_relative_to_config(&config, "met.csv".to_string()),
        Some(format!("{sep}etc{sep}egi{sep}met.csv"))
    );
    assert_eq!(path_relative_to_config("met.json", "met.csv".to_string()), Some("met.csv".to_string()));
    assert_eq!(path_relative_to_config("", "met.csv".to_string()), None);
}

#[test]
fn menu_is_parsed_without_heading_and_blank_lines() {
    let contents = "Value   Description\nem27.gnd   Windows for an EM27\n\n  indented\nplain\r\nlast \n";
    let entries = parse_menu(contents);
    assert_eq!(
        entries,
        vec![
            MenuEntry {
                index: 1,
                value: "em27.gnd".to_string(),
                description: Some("Windows for an EM27".to_string()),
            },
            MenuEntry { index: 2, value: "plain".to_string(), description: None },
            MenuEntry { index: 3, value: "last".to_string(), description: Some(String::new()) },
        ]
    );
    assert_eq!(parse_menu(""), vec![]);
    assert_eq!(parse_menu("heading only"), vec![]);
}

#[test]
fn menu_bounds_start_at_one() {
    assert_eq!(menu_index_bounds(&[]), (1, 1));
    let entries = parse_menu("h\na\nb\nc\n");
    assert_eq!(menu_index_bounds(&entries), (1, 3));
}

#[test]
fn menu_entry_is_aligned_with_the_heading() {
    let contents = "Value     Description\nfirst.gnd A window file\n";
    let lines = add_menu_entry(contents, "em27.gnd", Some("EM27 windows"));
    assert_eq!(
        lines,
        vec![
            "Value     Description".to_string(),
            "first.gnd A window file".to_string(),
            "em27.gnd  EM27 windows".to_string(),
        ]
    );
}

#[test]
fn menu_entry_without_description_or_heading() {
    let lines = add_menu_entry("Value\nold", "new", None);
    assert_eq!(lines, vec!["Value".to_string(), "old".to_string(), "new".to_string()]);
    let lines = add_menu_entry("Value\nold\n   ", "a-long-value", Some("d"));
    assert_eq!(lines, vec!["Value".to_string(), "old".to_string(), "a-long-value d".to_string()]);
    let lines = add_menu_entry("", "v", Some("d"));
    assert_eq!(lines, vec!["v d".to_string()]);
}
