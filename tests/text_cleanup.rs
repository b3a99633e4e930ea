use osx_scrobbler::config::CleanupConfig;
use osx_scrobbler::text_cleanup::{trim, TextCleaner};

fn cleaner(enabled: bool, patterns: &[&str]) -> TextCleaner {
    let config = CleanupConfig {
        enabled,
        patterns: patterns.iter().map(|p| p.to_string()).collect(),
    };
    TextCleaner::new(&config)
}

#[test]
fn test_disabled_cleaner_returns_unchanged() {
    let cleaner = cleaner(false, &[r"\s*\[Explicit\]"]);
    assert_eq!(cleaner.clean("Song [Explicit]"), "Song [Explicit]");
}

#[test]
fn test_removes_explicit_tags() {
    let cleaner = cleaner(true, &[r"\s*\[Explicit\]", r"\s*\(Explicit\)"]);
    assert_eq!(cleaner.clean("Song [Explicit]"), "Song");
    assert_eq!(cleaner.clean("Song (Explicit)"), "Song");
    assert_eq!(cleaner.clean("Song [Explicit] (Explicit)"), "Song");
}

#[test]
fn test_removes_clean_tags() {
    let cleaner = cleaner(true, &[r"\s*\[Clean\]"]);
    assert_eq!(cleaner.clean("Song [Clean]"), "Song");
}

#[test]
fn test_trims_whitespace() {
    let cleaner = cleaner(true, &[r"\s*\[Explicit\]"]);
    assert_eq!(cleaner.clean("  Song [Explicit]  "), "Song");
}

#[test]
fn test_multiple_patterns() {
    let cleaner = cleaner(true, &[r"\s*\[Explicit\]", r"\s*- Remastered.*"]);
    assert_eq!(cleaner.clean("Song [Explicit] - Remastered 2020"), "Song");
}

#[test]
fn test_clean_option_with_some() {
    let cleaner = cleaner(true, &[r"\s*\[Explicit\]"]);
    assert_eq!(
        cleaner.clean_option(Some("Song [Explicit]".to_string())),
        Some("Song".to_string())
    );
}

#[test]
fn test_clean_option_with_none() {
    let cleaner = cleaner(true, &[r"\s*\[Explicit\]"]);
    assert_eq!(cleaner.clean_option(None), None);
}

#[test]
fn test_invalid_pattern_is_skipped() {
    let cleaner = cleaner(true, &[r"[invalid(", r"\s*\[Explicit\]"]);
    assert_eq!(cleaner.clean("Song [Explicit]"), "Song");
}

#[test]
fn cleaning_twice_equals_cleaning_once() {
    let cleaner = cleaner(true, &[r"\s*\[Explicit\]", r"\s*\(Clean\)"]);
    for text in ["Song [Explicit] (Clean)", "  Song  ", "Plain", "", "[Explicit]"] {
        let once = cleaner.clean(text);
        assert_eq!(cleaner.clean(&once), once);
    }
}

#[test]
fn removal_that_forms_a_new_match_is_not_idempotent() {
    let cleaner = cleaner(true, &[r"\[x\]"]);
    let once = cleaner.clean("[[x]x]");
    assert_eq!(once, "[x]");
    assert_eq!(cleaner.clean(&once), "");
}

#[test]
fn enabled_cleaner_without_patterns_only_trims() {
    let cleaner = cleaner(true, &[]);
    assert_eq!(cleaner.clean(" \t Song \n"), "Song");
}

#[test]
fn trim_handles_unicode_whitespace_and_blank_text() {
    assert_eq!(trim("\u{3000}Title\u{00A0}"), "Title");
    assert_eq!(trim("   "), "");
    assert_eq!(trim(""), "");
    assert_eq!(trim("a b"), "a b");
}

#[test]
fn default_patterns_remove_all_tags() {
    let cleaner = TextCleaner::new(&CleanupConfig::default());
    assert_eq!(cleaner.clean("Song (Clean) - Explicit"), "Song");
    assert_eq!(cleaner.clean("Song [Clean]"), "Song");
}
