//! Tests of the text utilities: search, replacement, trimming, casing and
//! decimal handling.

use rustystatus::text;

#[test]
fn contains_finds_token() {
    assert!(text::str_contains("left {cpu} right", "{cpu}"));
    assert!(text::str_contains("{cpu}", "{cpu}"));
    assert!(!text::str_contains("left right", "{cpu}"));
    assert!(text::str_contains("anything", ""));
    assert!(!text::str_contains("ab", "abc"));
}

#[test]
fn replace_replaces_every_occurrence() {
    let r = text::str_replace("a{cpu}b{cpu}", "{cpu}", "X");
    assert_eq!(r, "aXbX");
}

#[test]
fn replace_leaves_strangers_alone() {
    let r = text::str_replace("no tokens here", "{cpu}", "X");
    assert_eq!(r, "no tokens here");
}

#[test]
fn replace_with_longer_text() {
    let r = text::str_replace("[{bat}]", "{bat}", "87%");
    assert_eq!(r, "[87%]");
}

#[test]
fn trim_strips_both_ends() {
    assert_eq!(text::str_trim("  87\n"), "87");
    assert_eq!(text::str_trim("87"), "87");
    assert_eq!(text::str_trim(" \t\r\n "), "");
    assert_eq!(text::str_trim(""), "");
    assert_eq!(text::str_trim("a b"), "a b");
}

#[test]
fn capitalize_each_word() {
    assert_eq!(text::capitalize_words("light rain"), "Light Rain");
    assert_eq!(text::capitalize_words("mist"), "Mist");
    assert_eq!(text::capitalize_words("  broken   clouds "), "Broken Clouds");
    assert_eq!(text::capitalize_words(""), "");
    assert_eq!(text::capitalize_words("ALREADY"), "ALREADY");
}

#[test]
fn round_decimal_rounds_to_nearest() {
    assert_eq!(text::round_decimal("274.15"), Some(274));
    assert_eq!(text::round_decimal("2.5"), Some(3));
    assert_eq!(text::round_decimal("-2.5"), Some(-3));
    assert_eq!(text::round_decimal("-0.4"), Some(0));
    assert_eq!(text::round_decimal("2"), Some(2));
    assert_eq!(text::round_decimal("-7"), Some(-7));
    assert_eq!(text::round_decimal("0.5"), Some(1));
}

#[test]
fn round_decimal_rejects_non_numerals() {
    assert_eq!(text::round_decimal("1e3"), None);
    assert_eq!(text::round_decimal("abc"), None);
    assert_eq!(text::round_decimal("2."), None);
    assert_eq!(text::round_decimal(".5"), None);
    assert_eq!(text::round_decimal(""), None);
    assert_eq!(text::round_decimal("1.2.3"), None);
}

#[test]
fn decimal_rendering() {
    assert_eq!(text::u64_to_dec(0), "0");
    assert_eq!(text::u64_to_dec(1234), "1234");
    assert_eq!(text::i128_to_dec(-56), "-56");
    assert_eq!(text::pad2_i128(5), "05");
    assert_eq!(text::pad2_i128(75), "75");
    assert_eq!(text::pad2_i128(0), "00");
    assert_eq!(text::pad2_i128(-5), "-5");
    assert_eq!(text::pad2_i128(100), "100");
}

#[test]
fn token_values() {
    assert_eq!(text::token_u64("123", 0, 3), Some(123));
    assert_eq!(text::token_u64("a123", 0, 4), None);
    assert_eq!(text::token_u64("", 0, 0), None);
    assert_eq!(text::token_u64("18446744073709551615", 0, 20), Some(u64::MAX));
    assert_eq!(text::token_u64("18446744073709551616", 0, 20), None);
}

#[test]
fn counters_skip_non_numeric_tokens() {
    let s = "cpu 100 0 x 700";
    let v = text::parse_counters(s, 0, s.chars().count());
    assert_eq!(v, vec![100, 0, 700]);
}

#[test]
fn key_line_takes_first_match() {
    let s = "A: 1\nB: 2\nA: 3";
    match text::find_key_line(s, "B") {
        Some((a, b)) => {
            let line: String = s.chars().skip(a).take(b - a).collect();
            assert_eq!(line, "B: 2");
        },
        None => panic!("line not found"),
    }
    assert_eq!(text::find_key_line(s, "C"), None);
}
