use nexspot::text::{
    chars_le, chars_of, contains, ends_with, i64_to_decimal, is_white_space_char, sort_strings,
    starts_with, trim, u64_to_decimal,
};
use nexspot::encoding::png_data_url;

#[test]
fn trim_removes_unicode_white_space_at_both_ends() {
    assert_eq!(trim("  a b \n"), "a b");
    assert_eq!(trim("\u{3000}x\u{00A0}\t"), "x");
    assert_eq!(trim("   "), "");
    assert_eq!(trim(""), "");
    assert_eq!(trim("no-space"), "no-space");
}

#[test]
fn trim_agrees_with_std_trim() {
    let samples = ["\u{2028} mid dle \u{205F}", "\u{85}z\u{1680}", " \u{200B}x ", "\r\n\tword\u{2009}"];
    for s in samples.iter() {
        assert_eq!(trim(s), s.trim());
    }
}

#[test]
fn white_space_matches_std_classification() {
    for code in 0u32..0x3100 {
        if let Some(c) = char::from_u32(code) {
            assert_eq!(is_white_space_char(c), c.is_whitespace(), "U+{:04X}", code);
        }
    }
}

#[test]
fn chars_of_returns_each_character() {
    assert_eq!(chars_of("añ€"), vec!['a', 'ñ', '€']);
}

#[test]
fn prefix_suffix_and_substring_tests() {
    assert!(starts_with("config_en.txt", "config_"));
    assert!(!starts_with("conf", "config_"));
    assert!(ends_with("file.7z", ".7z"));
    assert!(!ends_with("7z", ".7z"));
    assert!(contains("PaddleOCR_windows_x64", "windows"));
    assert!(!contains("PaddleOCR_linux", "windows"));
    assert!(contains("abc", ""));
    assert!(contains("abc", "abc"));
}

#[test]
fn decimal_formatting() {
    assert_eq!(u64_to_decimal(0), "0");
    assert_eq!(u64_to_decimal(1234567890), "1234567890");
    assert_eq!(u64_to_decimal(u64::MAX), u64::MAX.to_string());
    assert_eq!(i64_to_decimal(-42), "-42");
    assert_eq!(i64_to_decimal(7), "7");
    assert_eq!(i64_to_decimal(i64::MIN), "-9223372036854775808");
}

#[test]
fn lexicographic_order_of_characters() {
    assert!(chars_le(&chars_of("chinese"), &chars_of("chinese_cht")));
    assert!(!chars_le(&chars_of("en"), &chars_of("chinese")));
    assert!(chars_le(&chars_of(""), &chars_of("a")));
    assert!(chars_le(&chars_of("same"), &chars_of("same")));
    assert!(chars_le(&chars_of("Z"), &chars_of("a")));
}

#[test]
fn sorting_strings_matches_std_sort() {
    let input: Vec<String> = ["korean", "chinese", "en", "chinese_cht", "japan", "en", "Zulu", "ärger"]
        .iter()
        .map(|s| s.to_string())
        .collect();
    let mut expected = input.clone();
    expected.sort();
    assert_eq!(sort_strings(input), expected);
    assert_eq!(sort_strings(Vec::new()), Vec::<String>::new());
}

#[test]
fn png_data_url_embeds_standard_base64() {
    assert_eq!(png_data_url(&[0, 1, 2, 3]), "data:image/png;base64,AAECAw==");
    assert_eq!(png_data_url(b"hi"), "data:image/png;base64,aGk=");
    assert_eq!(png_data_url(b"abc"), "data:image/png;base64,YWJj");
    assert_eq!(png_data_url(&[]), "data:image/png;base64,");
    assert_eq!(png_data_url(&[0xFB, 0xFF]), "data:image/png;base64,+/8=");
}
