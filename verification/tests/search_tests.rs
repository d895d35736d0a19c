use hexcore::Searcher;

#[test]
fn test_find_text_basic() {
    let data = b"Hello World Hello";
    let results = Searcher::find_text(data, "Hello", true);
    assert_eq!(results, vec![0, 12]);
}

#[test]
fn test_find_text_not_found() {
    let data = b"Hello World";
    let results = Searcher::find_text(data, "xyz", true);
    assert!(results.is_empty());
}

#[test]
fn test_find_text_case_insensitive() {
    let data = b"hello HELLO Hello";
    let results = Searcher::find_text(data, "hello", false);
    assert_eq!(results, vec![0, 6, 12]);
}

#[test]
fn test_find_text_empty_pattern() {
    let data = b"hello";
    let results = Searcher::find_text(data, "", true);
    assert!(results.is_empty());
}

#[test]
fn test_find_hex_with_wildcard() {
    let data = &[0x48, 0x65, 0x6C, 0x6C, 0x6F];
    let results = Searcher::find_hex(data, "48 65 ?? 6C");
    assert_eq!(results, vec![0]);
}

#[test]
fn test_find_hex_literal() {
    let data = &[0x00, 0xFF, 0xFE, 0x00, 0xFF];
    let results = Searcher::find_hex(data, "FF FE");
    assert_eq!(results, vec![1]);
}

#[test]
fn test_find_hex_not_found() {
    let data = &[0x00, 0x01, 0x02];
    let results = Searcher::find_hex(data, "FF FF");
    assert!(results.is_empty());
}

#[test]
fn test_find_hex_0x_prefix() {
    let data = &[0x48, 0x65, 0x6C];
    let results = Searcher::find_hex(data, "0x48 0x65");
    assert_eq!(results, vec![0]);
}

#[test]
fn test_find_hex_invalid_pattern() {
    let data = &[0x00, 0x01];
    let results = Searcher::find_hex(data, "ZZ");
    assert!(results.is_empty());
}

#[test]
fn test_find_hex_contiguous() {
    let data = &[0x48, 0x65, 0x6C, 0x6C, 0x6F];
    let results = Searcher::find_hex(data, "48656C");
    assert_eq!(results, vec![0]);
}

#[test]
fn test_find_hex_contiguous_with_0x_prefix() {
    let data = &[0x48, 0x65, 0x6C];
    let results = Searcher::find_hex(data, "0x48656C");
    assert_eq!(results, vec![0]);
}

#[test]
fn test_find_hex_contiguous_mixed_whitespace() {
    let data = &[0x48, 0x65, 0x6C, 0x6C, 0x6F];
    let results = Searcher::find_hex(data, "48 656C");
    assert_eq!(results, vec![0]);
}

#[test]
fn test_find_hex_contiguous_odd_length_falls_through() {
    let data = &[0x48, 0x65, 0x6C];
    let results = Searcher::find_hex(data, "4865C");
    assert!(results.is_empty());
}

#[test]
fn test_find_hex_text_abcd_still_falls_through_for_nonhex() {
    let data = b"xyz not hex";
    let results = Searcher::find_hex(data, "xyz");
    assert!(results.is_empty());
}

#[test]
fn test_hex_to_bytes_basic() {
    let bytes = Searcher::hex_to_bytes("48656C").unwrap();
    assert_eq!(bytes, vec![0x48, 0x65, 0x6C]);
}

#[test]
fn test_hex_to_bytes_with_whitespace() {
    let bytes = Searcher::hex_to_bytes("48 65 6C").unwrap();
    assert_eq!(bytes, vec![0x48, 0x65, 0x6C]);
}

#[test]
fn test_hex_to_bytes_rejects_wildcard() {
    let result = Searcher::hex_to_bytes("48 ?? 6C");
    assert!(result.is_none());
}

#[test]
fn test_hex_to_bytes_invalid() {
    let result = Searcher::hex_to_bytes("ZZ");
    assert!(result.is_none());
}

// Additional cases.

#[test]
fn parse_hex_pattern_values() {
    assert_eq!(
        Searcher::parse_hex_pattern("  0x4a\t?? ff\n00aB "),
        Some(vec![Some(0x4A), None, Some(0xFF), Some(0x00), Some(0xAB)])
    );
    assert_eq!(Searcher::parse_hex_pattern(""), None);
    assert_eq!(Searcher::parse_hex_pattern("   "), None);
    assert_eq!(Searcher::parse_hex_pattern("0X41"), None);
    assert_eq!(Searcher::parse_hex_pattern("0x"), None);
    assert_eq!(Searcher::parse_hex_pattern("0x??"), None);
    assert_eq!(Searcher::parse_hex_pattern("+A"), Some(vec![Some(0x0A)]));
    assert_eq!(Searcher::parse_hex_pattern("41+B"), Some(vec![Some(0x41), Some(0x0B)]));
    assert_eq!(Searcher::parse_hex_pattern("-A"), None);
    assert_eq!(Searcher::parse_hex_pattern("41 4"), None);
}

#[test]
fn unicode_whitespace_separates_tokens() {
    assert_eq!(Searcher::parse_hex_pattern("41\u{3000}42"), Some(vec![Some(0x41), Some(0x42)]));
    assert_eq!(Searcher::parse_hex_pattern("41\u{a0}42\u{2028}43"), Some(vec![Some(0x41), Some(0x42), Some(0x43)]));
}

#[test]
fn readability_of_patterns() {
    assert!(Searcher::hex_pattern_is_readable("48 65"));
    assert!(Searcher::hex_pattern_is_readable("é"));
    assert!(Searcher::hex_pattern_is_readable("ZZ aéb"));
    assert!(!Searcher::hex_pattern_is_readable("aéb"));
    assert!(!Searcher::hex_pattern_is_readable("41 aéb"));
    assert_eq!(Searcher::parse_hex_pattern("éé"), None);
}

#[test]
fn find_text_overlapping_and_case() {
    assert_eq!(Searcher::find_text(b"aaaa", "aa", true), vec![0, 1, 2]);
    assert_eq!(Searcher::find_text(b"aAaA", "AA", true), Vec::<u64>::new());
    assert_eq!(Searcher::find_text(b"aAaA", "AA", false), vec![0, 1, 2]);
    assert_eq!(Searcher::find_text(b"ab", "abc", true), Vec::<u64>::new());
    assert_eq!(Searcher::find_text(b"x[y", "[", false), vec![1]);
}

#[test]
fn find_hex_all_wildcards() {
    assert_eq!(Searcher::find_hex(&[1, 2, 3], "?? ??"), vec![0, 1]);
    assert_eq!(Searcher::find_hex(&[1], "?? ??"), Vec::<u64>::new());
}
