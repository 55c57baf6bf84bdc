use transcript_search::decimal::parse_i32;
use transcript_search::text::{
    ends_with, from_chars, is_whitespace, precedes_or_equals, same_text, slice, split_lines,
    to_chars, trim, trim_range,
};

fn chars(text: &str) -> Vec<char> {
    text.chars().collect()
}

fn lines_as_strings(text: &str) -> Vec<String> {
    split_lines(&chars(text)).iter().map(|line| line.iter().collect()).collect()
}

#[test]
fn chars_and_strings_convert_both_ways() {
    assert_eq!(to_chars("a\u{e9}\u{1F600}z"), vec!['a', '\u{e9}', '\u{1F600}', 'z']);
    assert_eq!(from_chars(&vec!['h', 'i', '\u{f8}']), "hi\u{f8}".to_string());
    assert_eq!(to_chars(""), Vec::<char>::new());
    assert_eq!(from_chars(&Vec::new()), String::new());
}

#[test]
fn whitespace_is_what_the_standard_library_takes_for_it() {
    for code in 0..=0x10FFFFu32 {
        if let Some(c) = char::from_u32(code) {
            assert_eq!(is_whitespace(c), c.is_whitespace(), "code point {:x}", code);
        }
    }
}

#[test]
fn trim_removes_whitespace_at_both_ends_only() {
    assert_eq!(trim(&chars("  a b \t\n")), chars("a b"));
    assert_eq!(trim(&chars("\u{a0}x\u{3000}")), chars("x"));
    assert_eq!(trim(&chars("   ")), chars(""));
    assert_eq!(trim(&chars("")), chars(""));
    assert_eq!(trim(&chars("word")), chars("word"));
}

#[test]
fn trim_agrees_with_the_standard_library() {
    for text in ["", " ", "a", " a", "a ", " a b ", "\r\n x\u{2003}y \u{85}", "\u{200b} z"] {
        assert_eq!(from_chars(&trim(&chars(text))), text.trim().to_string());
    }
}

#[test]
fn trim_range_trims_a_part() {
    let text = chars("ab  cd  ef");
    assert_eq!(trim_range(&text, 2, 8), chars("cd"));
    assert_eq!(trim_range(&text, 2, 4), chars(""));
    assert_eq!(trim_range(&text, 0, 10), chars("ab  cd  ef"));
}

#[test]
fn slice_copies_a_part() {
    let text = chars("abcdef");
    assert_eq!(slice(&text, 1, 4), chars("bcd"));
    assert_eq!(slice(&text, 3, 3), chars(""));
}

#[test]
fn same_text_compares_characters() {
    assert!(same_text("abc", "abc"));
    assert!(same_text("", ""));
    assert!(!same_text("abc", "abd"));
    assert!(!same_text("abc", "ab"));
    assert!(!same_text("JOHN", "john"));
}

#[test]
fn lines_end_at_line_feeds() {
    assert_eq!(lines_as_strings("a\nb\nc"), vec!["a", "b", "c"]);
    assert_eq!(lines_as_strings("a\nb\n"), vec!["a", "b"]);
    assert_eq!(lines_as_strings("a\r\nb\r\n"), vec!["a", "b"]);
    assert_eq!(lines_as_strings("\n\n"), vec!["", ""]);
    assert_eq!(lines_as_strings(""), Vec::<String>::new());
    assert_eq!(lines_as_strings("last\r"), vec!["last\r"]);
    assert_eq!(lines_as_strings("a\rb\n"), vec!["a\rb"]);
}

#[test]
fn lines_agree_with_the_standard_library() {
    for text in ["", "\n", "x", "x\n", "x\r\n\r\ny", "a\n\nb\r", "\r\n", "one\ntwo\nthree\n"] {
        let expected: Vec<String> = text.lines().map(|line| line.to_string()).collect();
        assert_eq!(lines_as_strings(text), expected, "text {:?}", text);
    }
}

#[test]
fn ends_with_checks_the_suffix() {
    assert!(ends_with(&chars("a.txt"), &chars(".txt")));
    assert!(ends_with(&chars(".txt"), &chars(".txt")));
    assert!(ends_with(&chars("a"), &chars("")));
    assert!(!ends_with(&chars("a.TXT"), &chars(".txt")));
    assert!(!ends_with(&chars("txt"), &chars(".txt")));
    assert!(!ends_with(&chars("a.txt "), &chars(".txt")));
}

#[test]
fn strings_are_ordered_by_code_point() {
    let samples = ["", "a", "A", "ab", "abc", "abd", "b", "\u{e9}", "z\u{1F600}", "Pilot", "Pilots"];
    for a in samples {
        for b in samples {
            assert_eq!(precedes_or_equals(&chars(a), &chars(b)), a <= b, "{:?} and {:?}", a, b);
        }
    }
}

#[test]
fn parse_i32_reads_decimal_numbers() {
    assert_eq!(parse_i32(&chars("0")), Some(0));
    assert_eq!(parse_i32(&chars("007")), Some(7));
    assert_eq!(parse_i32(&chars("42")), Some(42));
    assert_eq!(parse_i32(&chars("+42")), Some(42));
    assert_eq!(parse_i32(&chars("-42")), Some(-42));
    assert_eq!(parse_i32(&chars("2147483647")), Some(i32::MAX));
    assert_eq!(parse_i32(&chars("-2147483648")), Some(i32::MIN));
}

#[test]
fn parse_i32_rejects_what_is_no_number_or_does_not_fit() {
    for text in ["", "+", "-", "1 ", " 1", "1a", "a", "--1", "+-1", "1.0", "2147483648",
        "-2147483649", "99999999999999999999999", "\u{0661}"] {
        assert_eq!(parse_i32(&chars(text)), None, "text {:?}", text);
    }
}

#[test]
fn parse_i32_agrees_with_the_standard_library() {
    for text in ["5", "-5", "+5", "", "x", "0000000000000000000001", "2147483647", "2147483648",
        "-2147483648", "-2147483649", "1_000", "١"] {
        assert_eq!(parse_i32(&chars(text)), text.parse::<i32>().ok(), "text {:?}", text);
    }
}
