use zenity_rs::file_select::matches_pattern;
use zenity_rs::order::{chars_le, sort_indices};
use zenity_rs::strutil::{
    chars_eq, chars_of, contains_chars, decimal_chars, ends_with_chars, eq_ignore_ascii_case,
    find_char, join_strings, push_str, repeat_char, signed_decimal_chars,
    split_lines, split_words, starts_with_chars, string_from_chars, sub_chars,
    trim_chars, trim_end_chars, trim_start_chars, zero_padded,
};

fn cs(s: &str) -> Vec<char> {
    s.chars().collect()
}

fn texts(v: Vec<Vec<char>>) -> Vec<String> {
    v.into_iter().map(|w| w.into_iter().collect()).collect()
}

#[test]
fn lower_casing_and_white_space() {
    assert!(matches_pattern("äbc.txt", "ÄBC.TXT"));
    assert!(!matches_pattern("abc.txt", "ÄBC.TXT"));
    assert_eq!(trim_chars(&cs("\u{3000} x \t")), cs("x"));
    assert_eq!(texts(split_words(&cs("a\u{3000}b  c"))), vec!["a", "b", "c"]);
    assert_eq!(texts(split_words(&cs("axb"))), vec!["axb"]);
    assert_eq!(trim_chars(&cs("\u{85}\u{a0}x\u{200b}\u{2029}")), cs("x\u{200b}"));
    for c in (0u32..0x3100).filter_map(char::from_u32) {
        let t = trim_chars(&[c]);
        assert_eq!(t.is_empty(), c.is_whitespace(), "{c:?}");
    }
}

#[test]
fn char_round_trips() {
    assert_eq!(chars_of("héllo"), cs("héllo"));
    assert_eq!(string_from_chars(&cs("wörld")), "wörld");
    let mut s = "ab".to_string();
    push_str(&mut s, "cd");
    assert_eq!(s, "abcd");
    assert_eq!(repeat_char('*', 3), "***");
    assert_eq!(repeat_char('*', 0), "");
    assert_eq!(sub_chars(&cs("abcdef"), 1, 4), cs("bcd"));
}

#[test]
fn searching_in_characters() {
    assert!(contains_chars(&cs("hello"), &cs("ll")));
    assert!(contains_chars(&cs("hello"), &cs("")));
    assert!(!contains_chars(&cs("hello"), &cs("lo!")));
    assert!(starts_with_chars(&cs("hello"), &cs("he")));
    assert!(!starts_with_chars(&cs("he"), &cs("hello")));
    assert!(ends_with_chars(&cs("hello"), &cs("llo")));
    assert!(chars_eq(&cs("abc"), &cs("abc")));
    assert!(!chars_eq(&cs("abc"), &cs("abd")));
    assert!(eq_ignore_ascii_case(&cs("TrUe"), &cs("true")));
    assert!(!eq_ignore_ascii_case(&cs("Ä"), &cs("ä")));
    assert_eq!(find_char(&cs("a=b=c"), '='), 1);
    assert_eq!(find_char(&cs("abc"), '='), 3);
}

#[test]
fn trimming() {
    assert_eq!(trim_chars(&cs("  a b \t\n")), cs("a b"));
    assert_eq!(trim_start_chars(&cs("  a ")), cs("a "));
    assert_eq!(trim_end_chars(&cs("  a ")), cs("  a"));
    assert_eq!(trim_chars(&cs("   ")), cs(""));
}

#[test]
fn numbers_in_decimal() {
    assert_eq!(decimal_chars(0), cs("0"));
    assert_eq!(decimal_chars(12345), cs("12345"));
    assert_eq!(zero_padded(7, 2), cs("07"));
    assert_eq!(zero_padded(2024, 2), cs("2024"));
    assert_eq!(signed_decimal_chars(-17), cs("-17"));
    assert_eq!(signed_decimal_chars(i32::MIN), cs("-2147483648"));
}

#[test]
fn joining() {
    let parts = vec!["a".to_string(), "b".to_string()];
    assert_eq!(join_strings(&parts, ", "), "a, b");
    assert_eq!(join_strings(&vec![], ", "), "");
}

#[test]
fn words_split_at_white_space() {
    assert_eq!(texts(split_words(&cs("  one two\t three\n"))), vec!["one", "two", "three"]);
    assert!(split_words(&cs(" \t ")).is_empty());
    assert_eq!(texts(split_words(&cs("x"))), vec!["x"]);
}

#[test]
fn lines_split_at_line_feeds() {
    assert_eq!(texts(split_lines(&cs("a\nb\r\nc"))), vec!["a", "b", "c"]);
    assert_eq!(texts(split_lines(&cs("a\n\nb\n"))), vec!["a", "", "b"]);
    assert!(split_lines(&cs("")).is_empty());
    // A carriage return is removed only before a line feed.
    assert_eq!(texts(split_lines(&cs("a\r"))), vec!["a\r"]);
    assert_eq!(texts(split_lines(&cs("\n"))), vec![""]);
}

#[test]
fn code_point_order() {
    assert!(chars_le(&cs("abc"), &cs("abd")));
    assert!(chars_le(&cs("ab"), &cs("abc")));
    assert!(!chars_le(&cs("abc"), &cs("ab")));
    assert!(chars_le(&cs(""), &cs("")));
    assert!(chars_le(&cs("Z"), &cs("a")));
}

#[test]
fn stable_sort_of_indices() {
    let keys: Vec<Vec<char>> = vec![cs("b"), cs("a"), cs("c"), cs("a"), cs("b")];
    assert_eq!(sort_indices(&vec![0, 1, 2, 3, 4], &keys), vec![1, 3, 0, 4, 2]);
    assert_eq!(sort_indices(&vec![2, 4], &keys), vec![4, 2]);
    assert_eq!(sort_indices(&vec![], &keys), Vec::<usize>::new());
}
