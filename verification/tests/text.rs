use package_review::text::{
    concat_strings, decimal_string, find_char, has_prefix, join_strings, parse_u32, quoted,
    split_at_char, split_words, str_eq, trim_end_matches, trim_start_matches,
};

#[test]
fn writes_numbers_as_std_does() {
    for n in [0u32, 1, 9, 10, 11, 99, 100, 101, 12345, 1000000, 4294967294, 4294967295] {
        assert_eq!(decimal_string(n), n.to_string());
    }
}

#[test]
fn reads_numbers_as_std_does() {
    let samples = [
        "", "0", "7", "42", "007", "+", "+0", "+42", "-1", "-0", "++1", "+-1", "4294967295",
        "4294967296", "42949672950", "99999999999999999999", "00000000000000000000001", "1 ",
        " 1", "1_000", "0x10", "１２", "12a", "a12", "1.0", "+4294967295", "+4294967296",
    ];
    for s in samples {
        assert_eq!(parse_u32(s), s.parse::<u32>().ok(), "{}", s);
    }
    assert_eq!(parse_u32("42"), Some(42));
    assert_eq!(parse_u32("+42"), Some(42));
    assert_eq!(parse_u32("4294967296"), None);
}

#[test]
fn reads_back_what_it_wrote() {
    for n in [0u32, 5, 10, 4096, 4294967295] {
        assert_eq!(parse_u32(&decimal_string(n)), Some(n));
    }
}

#[test]
fn trims_as_std_does() {
    for s in ["", ",", ",,", "a", "a,", "a,,", ",a,", "a,b", "é,,"] {
        assert_eq!(trim_end_matches(s, ','), s.trim_end_matches(','));
    }
    for s in ["", ".", "./", "././", "./a", "././a/./b", "a./", "/./", "../x"] {
        assert_eq!(trim_start_matches(s, "./"), s.trim_start_matches("./"));
    }
    assert_eq!(trim_start_matches("abc", ""), "abc");
}

#[test]
fn finds_and_splits_as_std_does() {
    for s in ["", ":", "a:", ":b", "a:b", "a:b:c", "ab", "é:ü"] {
        assert_eq!(split_at_char(s, ':'), s.split_once(':'));
        assert_eq!(find_char(s, ':'), s.chars().position(|c| c == ':').unwrap_or(s.chars().count()));
    }
    assert_eq!(split_at_char("name:1.0.0", ':'), Some(("name", "1.0.0")));
}

#[test]
fn compares_strings() {
    assert!(str_eq("", ""));
    assert!(str_eq("and", "and"));
    assert!(!str_eq("and", "an"));
    assert!(!str_eq("and", "And"));
    assert!(has_prefix("!x", "!"));
    assert!(has_prefix("x", ""));
    assert!(!has_prefix("", "!"));
    assert!(!has_prefix("x!", "!"));
}

#[test]
fn splits_words_as_std_does() {
    for s in ["", " ", "  ", "a", " a", "a ", " a ", "a b", "a  b", "  a   b  c ", "a\tb c"] {
        let expected: Vec<&str> = s.split(' ').filter(|w| !w.is_empty()).collect();
        assert_eq!(split_words(s), expected);
    }
}

#[test]
fn joins_and_concatenates() {
    let none: Vec<String> = vec![];
    let one = vec!["a".to_string()];
    let three = vec!["a".to_string(), "".to_string(), "c".to_string()];
    assert_eq!(join_strings(&none, "/"), "");
    assert_eq!(join_strings(&one, "/"), "a");
    assert_eq!(join_strings(&three, "/"), "a//c");
    assert_eq!(join_strings(&three, ", "), "a, , c");
    assert_eq!(concat_strings(&one, &three), vec!["a", "a", "", "c"]);
    assert_eq!(concat_strings(&none, &none), none);
    assert_eq!(quoted("unknown `", "x"), "unknown `x`");
}
