use dnote_tui::text::{
    char_is_whitespace, chars_of, find_char, parse_u32, range_ends_with, skip_leading,
    skip_trailing, split_lines, string_of, trim_bounds, trimmed, u32_to_string,
};

fn chars(s: &str) -> Vec<char> {
    s.chars().collect()
}

fn lines_of(s: &str) -> Vec<String> {
    let text = chars(s);
    split_lines(&text).into_iter().map(|(lo, hi)| string_of(&text, lo, hi)).collect()
}

fn number(s: &str) -> Option<u32> {
    let text = chars(s);
    parse_u32(&text, 0, text.len())
}

#[test]
fn whitespace_is_what_the_standard_library_calls_whitespace() {
    let mut count = 0;
    for u in 0..=0x10FFFFu32 {
        if let Some(c) = char::from_u32(u) {
            assert_eq!(char_is_whitespace(c), c.is_whitespace(), "U+{:04X}", u);
            if char_is_whitespace(c) {
                count += 1;
            }
        }
    }
    assert_eq!(count, 25);
}

#[test]
fn trimmed_removes_whitespace_at_both_ends_only() {
    assert_eq!(trimmed("  my notebook \t\r\n"), "my notebook");
    assert_eq!(trimmed("a"), "a");
    assert_eq!(trimmed(""), "");
    assert_eq!(trimmed(" \n\t "), "");
    assert_eq!(trimmed("\u{a0}x y\u{3000}"), "x y");
    assert_eq!(trimmed("  • on book ccu"), "• on book ccu");
    for s in ["", " ", "a ", " a", " a b ", "\n\na\n\nb\n\n", "\u{2003}é\u{2003}"] {
        assert_eq!(trimmed(s), s.trim());
    }
}

#[test]
fn trim_bounds_stay_within_the_given_range() {
    let text = chars("ab  cd  ef");
    assert_eq!(trim_bounds(&text, 2, 8), (4, 6));
    assert_eq!(trim_bounds(&text, 2, 4), (4, 4));
    assert_eq!(trim_bounds(&text, 0, 10), (0, 10));
    assert_eq!(trim_bounds(&text, 3, 3), (3, 3));
}

#[test]
fn chars_of_gives_the_characters_in_order() {
    assert_eq!(chars_of("héllo"), vec!['h', 'é', 'l', 'l', 'o']);
    assert_eq!(chars_of(""), Vec::<char>::new());
    assert_eq!(string_of(&chars_of("héllo"), 1, 4), "éll");
    assert_eq!(string_of(&chars_of("héllo"), 2, 2), "");
}

#[test]
fn lines_end_at_line_feeds() {
    assert_eq!(lines_of(""), Vec::<String>::new());
    assert_eq!(lines_of("a"), vec!["a"]);
    assert_eq!(lines_of("a\n"), vec!["a"]);
    assert_eq!(lines_of("a\nb"), vec!["a", "b"]);
    assert_eq!(lines_of("a\n\nb\n"), vec!["a", "", "b"]);
    assert_eq!(lines_of("\n"), vec![""]);
    assert_eq!(lines_of("\n\n"), vec!["", ""]);
    assert_eq!(lines_of("a\r\nb"), vec!["a\r", "b"]);
}

#[test]
fn find_char_gives_the_first_occurrence_or_the_end() {
    let text = chars("(1) a) b");
    assert_eq!(find_char(&text, 0, text.len(), ')'), 2);
    assert_eq!(find_char(&text, 3, text.len(), ')'), 5);
    assert_eq!(find_char(&text, 6, text.len(), ')'), 8);
    assert_eq!(find_char(&text, 0, 2, ')'), 2);
    assert_eq!(find_char(&text, 4, 4, ')'), 4);
}

#[test]
fn leading_runs_and_trailing_repetitions_are_stripped() {
    let text = chars("((12xx");
    assert_eq!(skip_leading(&text, 0, text.len(), '('), 2);
    assert_eq!(skip_leading(&text, 2, text.len(), '('), 2);
    let text = chars("abcXYXY");
    let pat = chars("XY");
    assert!(range_ends_with(&text, 0, 7, &pat));
    assert!(!range_ends_with(&text, 0, 6, &pat));
    assert!(!range_ends_with(&text, 6, 7, &pat));
    assert!(!range_ends_with(&text, 0, 7, &[]));
    assert_eq!(skip_trailing(&text, 0, 7, &pat), 3);
    assert_eq!(skip_trailing(&text, 4, 7, &pat), 5);
    assert_eq!(skip_trailing(&text, 0, 6, &pat), 6);
    assert_eq!(skip_trailing(&text, 0, 7, &[]), 7);
}

#[test]
fn numbers_are_read_as_decimal() {
    assert_eq!(number("0"), Some(0));
    assert_eq!(number("21"), Some(21));
    assert_eq!(number("007"), Some(7));
    assert_eq!(number("+5"), Some(5));
    assert_eq!(number("4294967295"), Some(u32::MAX));
    assert_eq!(number("4294967296"), None);
    assert_eq!(number("99999999999999999999999"), None);
    assert_eq!(number(""), None);
    assert_eq!(number("+"), None);
    assert_eq!(number("-1"), None);
    assert_eq!(number("1a"), None);
    assert_eq!(number(" 1"), None);
    assert_eq!(number("++1"), None);
    assert_eq!(number("١٢"), None);
    for s in ["", "+", "+0", "-0", "12", "00012", "4294967295", "4294967296", "1_000", "0x10"] {
        assert_eq!(number(s), s.parse::<u32>().ok());
    }
}

#[test]
fn numbers_are_written_as_decimal() {
    assert_eq!(u32_to_string(0), "0");
    assert_eq!(u32_to_string(7), "7");
    assert_eq!(u32_to_string(10), "10");
    assert_eq!(u32_to_string(1234567890), "1234567890");
    assert_eq!(u32_to_string(u32::MAX), "4294967295");
}

#[test]
fn a_number_written_and_read_is_the_same_number() {
    for n in [0u32, 1, 9, 10, 99, 100, 65535, 65536, 4294967294, u32::MAX] {
        assert_eq!(number(&u32_to_string(n)), Some(n));
        assert_eq!(u32_to_string(n), n.to_string());
    }
}
