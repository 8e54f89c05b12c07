use ao3_embed::chapters::chapters;
use ao3_embed::text::{parse_u64_commas, str_eq_str, u64_to_dec};

#[test]
fn chapters_parses_with_total() {
    assert_eq!(chapters("5/10"), Some((5, Some(10))));
}

#[test]
fn chapters_parses_open_ended() {
    assert_eq!(chapters("5/"), Some((5, None)));
}

#[test]
fn chapters_rejects_missing_separator() {
    assert_eq!(chapters("5"), None);
}

#[test]
fn chapters_rejects_missing_chapter() {
    assert_eq!(chapters("/10"), None);
}

#[test]
fn chapters_rejects_nonnumeric_chapter() {
    assert_eq!(chapters("a/1"), None);
}

#[test]
fn chapters_rejects_trailing_text() {
    assert_eq!(chapters("5/10x"), None);
}

#[test]
fn chapters_rejects_wrong_separator_position() {
    assert_eq!(chapters("12x/3"), None);
    assert_eq!(chapters(""), None);
    assert_eq!(chapters("5//"), None);
}

#[test]
fn chapters_rejects_overflowing_numbers() {
    assert_eq!(chapters("70000/2"), None);
    assert_eq!(chapters("5/70000"), None);
    assert_eq!(chapters("65535/65535"), Some((65535, Some(65535))));
}

#[test]
fn words_parse_strips_thousands_separators() {
    assert_eq!(parse_u64_commas("12,345"), Some(12345));
    assert_eq!(parse_u64_commas("1,234,567"), Some(1234567));
    assert_eq!(parse_u64_commas("7"), Some(7));
}

#[test]
fn words_parse_rejects_bad_tokens() {
    assert_eq!(parse_u64_commas("12a45"), None);
    assert_eq!(parse_u64_commas(""), None);
    assert_eq!(parse_u64_commas(","), None);
    assert_eq!(parse_u64_commas("-3"), None);
    assert_eq!(parse_u64_commas("18446744073709551615"), Some(u64::MAX));
    assert_eq!(parse_u64_commas("18446744073709551616"), None);
}

#[test]
fn decimal_rendering_is_exact() {
    assert_eq!(u64_to_dec(0), "0");
    assert_eq!(u64_to_dec(7), "7");
    assert_eq!(u64_to_dec(12345), "12345");
    assert_eq!(u64_to_dec(u64::MAX), "18446744073709551615");
}

#[test]
fn str_eq_str_compares_by_characters() {
    assert!(str_eq_str("abc", "abc"));
    assert!(!str_eq_str("abc", "abd"));
    assert!(!str_eq_str("abc", "ab"));
    assert!(str_eq_str("", ""));
}
