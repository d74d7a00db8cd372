//! Text utilities: truncation and host normalization.

use ref_tools::text::truncate;
use ref_tools::host::normalize_host;

#[test]
fn check_links_test_truncate() {
    assert_eq!(truncate("short", 10), "short");
    assert_eq!(truncate("this is a very long string", 10), "this is...");
}

#[test]
fn fetch_test_truncate() {
    assert_eq!(truncate("short", 10), "short");
    assert_eq!(truncate("this is a long string", 10), "this is...");
}

#[test]
fn test_truncate_exact_fit() {
    assert_eq!(truncate("abcdefghij", 10), "abcdefghij");
    assert_eq!(truncate("abcdefghijk", 10), "abcdefg...");
}

#[test]
fn test_truncate_multibyte() {
    // A three-byte character repeated one hundred times, cut to a budget
    // of twenty characters: the result ends in an ellipsis, stays within
    // the budget, and never splits an encoding unit.
    let s: String = std::iter::repeat('\u{20AC}').take(100).collect();
    let cut = truncate(&s, 20);
    assert!(cut.ends_with("..."));
    assert!(cut.chars().count() <= 23);
    assert_eq!(cut.chars().count(), 20);
    assert!(cut.chars().take(17).all(|c| c == '\u{20AC}'));
}

#[test]
fn test_normalize_host() {
    assert_eq!(normalize_host("www.example.com"), "example.com");
    assert_eq!(normalize_host("example.com"), "example.com");
    assert_eq!(normalize_host("www.www.example.com"), "example.com");
    assert_eq!(normalize_host("wwwexample.com"), "wwwexample.com");
}

#[test]
fn test_normalize_idempotent_example() {
    assert_eq!(
        normalize_host("www.Example.com"),
        normalize_host("Example.com")
    );
    let once = normalize_host("www.www.sub.example.com");
    assert_eq!(normalize_host(&once), once);
}
