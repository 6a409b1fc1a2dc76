use egi_rs::config::to_ascii_lowercase;
use egi_rs::decimal::Decimal;
use egi_rs::text::{
    char_is_ascii_whitespace, char_is_digit, char_is_whitespace, chars_of, contains_chars,
    find_seq, lines_of, split_on, trim, trim_start, write_number, CharClass,
};

fn chars(s: &str) -> Vec<char> {
    s.chars().collect()
}

fn strings(v: Vec<Vec<char>>) -> Vec<String> {
    v.into_iter().map(|p| p.into_iter().collect()).collect()
}

#[test]
fn white_space_is_what_the_standard_library_says() {
    for u in 0..=0x10FFFFu32 {
        if let Some(c) = char::from_u32(u) {
            assert_eq!(char_is_whitespace(c), c.is_whitespace(), "U+{u:04X}");
            assert_eq!(char_is_ascii_whitespace(c), c.is_ascii_whitespace(), "U+{u:04X}");
            assert_eq!(char_is_digit(c), c.is_ascii_digit(), "U+{u:04X}");
        }
    }
}

#[test]
fn lower_case_is_what_the_standard_library_says() {
    let all: String = (0..=0x2FFu32).filter_map(char::from_u32).collect();
    let lowered: String = to_ascii_lowercase(&chars(&all)).into_iter().collect();
    assert_eq!(lowered, all.to_ascii_lowercase());
}

#[test]
fn lines_are_what_the_standard_library_says() {
    for text in ["", "a", "a\n", "a\nb", "a\r\nb\r\n", "\n", "\n\n", "a\r", "a\r\n\r\nb\r", "\r\n", "a\n\rb", "é\nü\r\n"] {
        let expected: Vec<String> = text.lines().map(|l| l.to_string()).collect();
        assert_eq!(strings(lines_of(&chars(text))), expected, "{text:?}");
    }
}

#[test]
fn splitting_is_what_the_standard_library_says() {
    for text in ["", ",", "a", "a,b", ",a,,b,", "a,b,c,d", ",,"] {
        let expected: Vec<String> = text.split(',').map(|l| l.to_string()).collect();
        assert_eq!(strings(split_on(&chars(text), ',')), expected, "{text:?}");
    }
}

#[test]
fn trimming_is_what_the_standard_library_says() {
    for text in ["", " ", "a", "  a b \t", "\u{a0}a\u{2003}", "\"\"", "\"a\"b\"\"", "::: a"] {
        let t: String = trim(&chars(text), CharClass::Whitespace).into_iter().collect();
        assert_eq!(t, text.trim(), "{text:?}");
        let t: String = trim(&chars(text), CharClass::Only('"')).into_iter().collect();
        assert_eq!(t, text.trim_matches('"'), "{text:?}");
        let t: String = trim_start(&chars(text), CharClass::Only(':')).into_iter().collect();
        assert_eq!(t, text.trim_start_matches(':'), "{text:?}");
    }
}

#[test]
fn searching_is_what_the_standard_library_says() {
    let hay = "abcabcabd";
    for needle in ["", "a", "abc", "abd", "abx", "abcabcabd", "abcabcabdx", "d"] {
        assert_eq!(contains_chars(&chars(hay), &chars(needle)), hay.contains(needle), "{needle:?}");
        assert_eq!(find_seq(&chars(hay), &chars(needle), 0), hay.find(needle), "{needle:?}");
        assert_eq!(
            find_seq(&chars(hay), &chars(needle), 4),
            hay.get(4..).and_then(|t| t.find(needle)).map(|i| i + 4),
            "{needle:?}"
        );
    }
    assert_eq!(find_seq(&chars(hay), &chars("a"), 10), None);
    assert_eq!(find_seq(&chars(hay), &chars(""), 9), Some(9));
}

#[test]
fn characters_of_a_string() {
    assert_eq!(chars_of("aé\u{1F600}"), vec!['a', 'é', '\u{1F600}']);
    assert_eq!(chars_of(""), Vec::<char>::new());
}

#[test]
fn numbers_are_written_in_base_ten() {
    for n in [0u64, 1, 9, 10, 11, 99, 100, 12345, 1_000_000, u64::MAX] {
        let written: String = write_number(n).into_iter().collect();
        assert_eq!(written, n.to_string());
        if n < 9_000_000_000 {
            assert_eq!(Decimal::parse(&written).unwrap().billionths, n as i64 * 1_000_000_000);
        }
    }
}

#[test]
fn decimals_agree_with_floats() {
    for text in ["0", "1", "985.9", "19.9", "46", "1013.25", "-10.0", "0.001", "736005.73038", "123456.789012345", ".5", "5.", "+7", "-0.75"] {
        let d = Decimal::parse(text).unwrap();
        let x: f64 = text.parse().unwrap();
        assert!((d.billionths as f64 / 1e9 - x).abs() <= 1e-9 * x.abs().max(1.0), "{text}");
    }
}
