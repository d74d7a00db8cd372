//! Data-refresh extractors.

use ref_tools::refresh::{
    get_extractor_type, extract_title, extract_instagram, extract_statista, extract_generic,
    refresh_report, extract_failure,
};

#[test]
fn test_get_extractor_type() {
    assert_eq!(get_extractor_type("https://instagram.com/user"), "instagram");
    assert_eq!(get_extractor_type("https://www.statista.com/stats"), "statista");
    assert_eq!(get_extractor_type("https://example.com"), "generic");
}

#[test]
fn test_extract_title() {
    let html =
        "<html><head><title>Test Page</title></head><body><h1>Main Title</h1></body></html>";
    assert_eq!(extract_title(html), Some("Main Title".to_string()));

    let html_no_h1 = "<html><head><title>Test Page</title></head></html>";
    assert_eq!(extract_title(html_no_h1), Some("Test Page".to_string()));
}

#[test]
fn test_extract_instagram() {
    let content = "Profile has 577K Followers and 100 posts";
    let result = extract_instagram("https://instagram.com/testuser", content);
    assert_eq!(result.followers, Some("577K".to_string()));
    assert_eq!(result.username, Some("testuser".to_string()));
}

#[test]
fn test_extract_statista() {
    let content = "<h1>Market Report</h1> The market hit $33 billion, up 12%";
    let result = extract_statista("https://www.statista.com/report", content);
    assert!(result.success);
    assert_eq!(result.extractor_type, "statista");
    assert_eq!(result.title, Some("Market Report".to_string()));
    let amounts = result.amounts.unwrap();
    assert_eq!(amounts[0].value, "33");
    assert_eq!(result.percentages.unwrap(), vec!["12%".to_string()]);
}

#[test]
fn test_extract_generic_empty() {
    let result = extract_generic("https://example.com", "nothing numeric here");
    assert!(result.success);
    assert_eq!(result.extractor_type, "generic");
    assert!(result.amounts.is_none());
    assert!(result.percentages.is_none());
}

#[test]
fn test_refresh_report_counts() {
    let ok = extract_generic("https://a.example", "x y z");
    let bad = extract_failure("https://b.example", "generic", "boom");
    let report = refresh_report(vec![ok, bad]);
    assert_eq!(report.ok, 1);
    assert_eq!(report.failed, 1);
    assert_eq!(report.results.len(), 2);
    assert_eq!(report.results[1].error, Some("boom".to_string()));
}

#[test]
fn test_extract_extractable_urls() {
    let content = r#"
            Check https://instagram.com/user1 and
            https://www.statista.com/statistics/123
            and https://example.com for more.
        "#;

    let urls = ref_tools::refresh::extract_extractable_urls(content);
    assert_eq!(urls.len(), 2);
    assert!(urls.iter().any(|(u, _)| u.contains("instagram")));
    assert!(urls.iter().any(|(u, _)| u.contains("statista")));
}
