use aipartner::numbers::{parse_i64, show_i64};
use aipartner::pattern::matches_like;
use aipartner::text::{
    blank, char_count, clip_chars, contains, ends_with, eq_ignore_ascii_case, flatten_spaces, join,
    le_text, replace_char, split_whitespace, starts_with, text_before_nul, trim,
};

fn strings(list: &[&str]) -> Vec<String> {
    list.iter().map(|s| s.to_string()).collect()
}

#[test]
fn trim_removes_all_white_space() {
    assert_eq!(trim(" \t\u{3000}a b\u{00a0}\n"), "a b");
    assert_eq!(trim(" \u{2003} "), "");
    assert_eq!(trim(&trim("  x y  ")), trim("  x y  "));
    assert!(blank("\u{2028}\r"));
    assert!(!blank(" . "));
}

#[test]
fn trim_agrees_with_std_on_every_scalar() {
    for n in 0..0x11_0000u32 {
        if let Some(c) = char::from_u32(n) {
            if c.is_whitespace() {
                let s = format!("{c}x{c}");
                assert_eq!(trim(&s), "x");
            }
        }
    }
    assert_eq!(trim("\u{200b}x\u{200b}"), "\u{200b}x\u{200b}");
}

#[test]
fn clipping_counts_characters() {
    assert_eq!(clip_chars("你好世界", 2), "你好");
    assert_eq!(clip_chars("abc", 3), "abc");
    assert_eq!(clip_chars("abc", 0), "");
    assert_eq!(char_count("é你"), 2);
}

#[test]
fn words_and_joining() {
    assert_eq!(split_whitespace("  a\n b\tc "), strings(&["a", "b", "c"]));
    assert_eq!(split_whitespace("   "), Vec::<String>::new());
    assert_eq!(join(&strings(&["a", "b", "c"]), ", "), "a, b, c");
    assert_eq!(join(&strings(&[]), ", "), "");
    assert_eq!(flatten_spaces(" a\r\n b  c "), "a b c");
}

#[test]
fn parts_and_replacements() {
    assert!(contains("hello", "ell"));
    assert!(contains("hello", ""));
    assert!(!contains("hello", "elo"));
    assert!(starts_with("hello", "he"));
    assert!(!starts_with("he", "hello"));
    assert!(ends_with("hello", "lo"));
    assert!(!ends_with("lo", "hello"));
    assert_eq!(replace_char("it's", '\'', "''"), "it''s");
    assert!(eq_ignore_ascii_case("TxT", "tXt"));
    assert!(!eq_ignore_ascii_case("É", "é"));
}

#[test]
fn dictionary_order() {
    assert!(le_text("", "a"));
    assert!(le_text("a", "a"));
    assert!(le_text("a", "ab"));
    assert!(!le_text("b", "ab"));
    assert!(le_text("2024-01-01T00:00:00+00:00", "2024-01-02T00:00:00+00:00"));
    assert!(le_text("z", "你"));
}

#[test]
fn numbers_read_back() {
    for n in [0, 7, -7, 10, 4096, i64::MAX, i64::MIN] {
        assert_eq!(show_i64(n), n.to_string());
        assert_eq!(parse_i64(&show_i64(n)), Some(n));
    }
    assert_eq!(parse_i64("+12"), Some(12));
    assert_eq!(parse_i64("007"), Some(7));
    for bad in ["", "-", "+", " 1", "1 ", "1.5", "0x10", "9223372036854775808", "-9223372036854775809"] {
        assert_eq!(parse_i64(bad), None, "{bad}");
    }
}

#[test]
fn patterns_have_wildcards() {
    assert!(matches_like("%", ""));
    assert!(matches_like("%chat%", "New CHAT 1"));
    assert!(matches_like("a_c", "abc"));
    assert!(!matches_like("a_c", "ac"));
    assert!(matches_like("%a%b%", "xxaxxbxx"));
    assert!(!matches_like("%a%b%", "xxbxxaxx"));
    assert!(matches_like("100%", "100"));
    assert!(!matches_like("", "x"));
    assert!(!matches_like("%É%", "é"));
}

#[test]
fn plain_search_finds_parts_in_either_case() {
    for (q, title, found) in [("plan", "My Plan", true), ("plan", "My Pla", false), ("", "x", true)] {
        assert_eq!(matches_like(&format!("%{q}%"), title), found);
        assert_eq!(title.to_lowercase().contains(&q.to_lowercase()), found);
    }
}

#[test]
fn texts_up_to_a_zero() {
    assert_eq!(text_before_nul("one\0two\0"), "one");
    assert_eq!(text_before_nul("\0two"), "");
    assert_eq!(text_before_nul("one"), "one");
}
