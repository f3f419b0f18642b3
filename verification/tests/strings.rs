use uniffi_swift_helper::text::{append, chars_of, ends_with, split, starts_with, text_eq};
use uniffi_swift_helper::utils::has_extension;

#[test]
fn split_gives_the_fields() {
    assert_eq!(split("aarch64-apple-ios-sim", '-'), vec!["aarch64", "apple", "ios", "sim"]);
    assert_eq!(split("a:b", ':'), vec!["a", "b"]);
}

#[test]
fn split_without_separator_gives_one_field() {
    assert_eq!(split("abc", '-'), vec!["abc"]);
    assert_eq!(split("", '-'), vec![""]);
}

#[test]
fn split_keeps_empty_fields() {
    assert_eq!(split("-a--b-", '-'), vec!["", "a", "", "b", ""]);
    assert_eq!(split(",", ','), vec!["", ""]);
}

#[test]
fn split_works_on_characters_not_bytes() {
    assert_eq!(split("é-ü", '-'), vec!["é", "ü"]);
    assert_eq!(chars_of("é-ü"), vec!['é', '-', 'ü']);
}

#[test]
fn prefixes_and_suffixes() {
    assert!(starts_with("git+https://example.org", "git+"));
    assert!(!starts_with("registry+https://example.org", "git+"));
    assert!(starts_with("abc", ""));
    assert!(starts_with("abc", "abc"));
    assert!(!starts_with("ab", "abc"));
    assert!(ends_with("arm64-apple-ios13.0.0-simulator", "-simulator"));
    assert!(!ends_with("arm64-apple-ios13.0.0", "-simulator"));
    assert!(ends_with("abc", ""));
    assert!(!ends_with("bc", "abc"));
}

#[test]
fn equality_and_concatenation() {
    assert!(text_eq("apple", "apple"));
    assert!(!text_eq("apple", "appl"));
    assert!(!text_eq("apple", "applf"));
    assert!(text_eq("", ""));
    assert_eq!(append("wp_api", ".swift"), "wp_api.swift");
    assert_eq!(append("", ""), "");
}

#[test]
fn extension_is_what_follows_the_last_dot() {
    assert!(has_extension("libfoo.a", "a"));
    assert!(has_extension("a.b.swift", "swift"));
    assert!(!has_extension("a.swift.bak", "swift"));
    assert!(!has_extension("libfoo.a", "h"));
    assert!(has_extension("foo.", ""));
}

#[test]
fn name_without_stem_has_no_extension() {
    assert!(!has_extension(".a", "a"));
    assert!(!has_extension("a", "a"));
    assert!(!has_extension("", ""));
    assert!(has_extension("..a", "a"));
    assert!(has_extension(".hidden.h", "h"));
}

#[test]
fn extension_agrees_with_the_path_rules() {
    for name in
        ["libfoo.a", ".a", "a", "foo.", "..a", ".hidden.h", "x.tar.gz", "noext", "..", ".", "", "...", "a.."]
    {
        let expected = std::path::Path::new(name).extension().and_then(|e| e.to_str());
        for ext in ["a", "h", "gz", "", "tar"] {
            assert_eq!(has_extension(name, ext), expected == Some(ext), "{} {}", name, ext);
        }
    }
}
