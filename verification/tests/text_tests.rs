use didrit_watcher::config::settings::{parse_u64, split_target_urls};
use didrit_watcher::parser::extractor::hex_lower;
use didrit_watcher::text::{
    chars_of, collapse_whitespace, contains_str, ends_with_str, eq_ignore_ascii_case,
    is_whitespace, join, last_piece, split_on, split_whitespace, starts_with_str, trim,
    trim_end_char,
};

#[test]
fn test_trim_removes_unicode_whitespace() {
    assert_eq!(trim("  a b \n\t"), "a b");
    assert_eq!(trim("\u{3000}x\u{a0}"), "x");
    assert_eq!(trim("   "), "");
    assert_eq!(trim(""), "");
}

#[test]
fn test_is_whitespace_matches_std() {
    for code in 0u32..=0x10ffff {
        if let Some(c) = char::from_u32(code) {
            assert_eq!(is_whitespace(c), c.is_whitespace(), "{:?}", c);
        }
    }
}

#[test]
fn test_collapse_whitespace() {
    let v = chars_of("  Lundi\n\n 14/09 :\tCor.  Ex. 1  ");
    assert_eq!(collapse_whitespace(&v), "Lundi 14/09 : Cor. Ex. 1");
    assert_eq!(collapse_whitespace(&chars_of(" \n ")), "");
}

#[test]
fn test_split_whitespace_words() {
    let words = split_whitespace(&chars_of(" a  bc\td "));
    assert_eq!(words, vec!["a".to_string(), "bc".to_string(), "d".to_string()]);
}

#[test]
fn test_join_with_separator() {
    let parts = vec!["a".to_string(), "".to_string(), "c".to_string()];
    assert_eq!(join(&parts, "\n"), "a\n\nc");
    assert_eq!(join(&Vec::new(), ", "), "");
    assert_eq!(join(&vec!["x".to_string()], ", "), "x");
}

#[test]
fn test_substring_search() {
    let v = chars_of("Vendredi 11/09 : Cor. Ch.1");
    assert!(contains_str(&v, "Ch."));
    assert!(contains_str(&v, ""));
    assert!(!contains_str(&v, "Lundi"));
    assert!(starts_with_str(&v, "Vend"));
    assert!(!starts_with_str(&v, "vend"));
    assert!(ends_with_str(&v, "Ch.1"));
    assert!(!ends_with_str(&chars_of("a"), "ab"));
}

#[test]
fn test_last_piece_and_split() {
    assert_eq!(last_piece(&chars_of("https://x.fr/a/b.pdf"), '/'), "b.pdf");
    assert_eq!(last_piece(&chars_of("https://x.fr/a/"), '/'), "");
    assert_eq!(last_piece(&chars_of("plain"), '/'), "plain");
    assert_eq!(
        split_on(&chars_of("a,,b,"), ','),
        vec!["a".to_string(), "".to_string(), "b".to_string(), "".to_string()]
    );
    assert_eq!(split_on(&chars_of(""), ','), vec!["".to_string()]);
}

#[test]
fn test_trim_end_char_and_case() {
    assert_eq!(trim_end_char("https://ntfy.sh//", '/'), "https://ntfy.sh");
    assert!(eq_ignore_ascii_case("TrUe", "true"));
    assert!(!eq_ignore_ascii_case("tru", "true"));
}

#[test]
fn test_parse_u64_like_std() {
    for s in ["42", "+42", "0", "", "+", "-1", " 1", "1a", "18446744073709551615", "18446744073709551616", "0018"] {
        assert_eq!(parse_u64(s), s.parse::<u64>().ok(), "{:?}", s);
    }
}

#[test]
fn test_split_target_urls() {
    assert_eq!(
        split_target_urls(" https://a.fr/x.htm , ,https://b.fr "),
        vec!["https://a.fr/x.htm".to_string(), "https://b.fr".to_string()]
    );
    assert!(split_target_urls(" , ").is_empty());
}

#[test]
fn test_hex_lower() {
    assert_eq!(hex_lower(&vec![0x0f, 0xa0, 0x00, 0xff]), "0fa000ff");
    assert_eq!(hex_lower(&Vec::new()), "");
}
