//! Scanners over plain text: URLs, amounts, percentages.

use ref_tools::urls::extract_urls;
use ref_tools::extract::{extract_amounts, extract_percentages};

#[test]
fn test_extract_urls() {
    let content = r#"
            Check out https://example.com and
            [link](https://foo.bar/path?q=1) for more.
            Also http://old.site.org.
        "#;

    let urls = extract_urls(content);
    assert_eq!(urls.len(), 3);
    assert!(urls.contains(&"https://example.com".to_string()));
    assert!(urls.contains(&"https://foo.bar/path?q=1".to_string()));
    assert!(urls.contains(&"http://old.site.org".to_string()));
}

#[test]
fn test_extract_urls_dedup() {
    let content = "https://dup.com https://dup.com https://dup.com";
    let urls = extract_urls(content);
    assert_eq!(urls.len(), 1);
}

#[test]
fn test_extract_urls_empty() {
    let urls = extract_urls("no links in here at all");
    assert_eq!(urls.len(), 0);
}

#[test]
fn test_extract_amounts() {
    let text = "The market is worth $33 billion and growing to $48.2M";
    let amounts = extract_amounts(text);
    assert_eq!(amounts.len(), 2);
    assert_eq!(amounts[0].value, "33");
    assert_eq!(amounts[0].unit, Some("billion".to_string()));
    assert_eq!(amounts[1].value, "48.2");
    assert_eq!(amounts[1].unit, Some("M".to_string()));
}

#[test]
fn test_extract_amounts_no_unit() {
    let text = "priced at $12, a bargain";
    let amounts = extract_amounts(text);
    assert_eq!(amounts.len(), 1);
    assert_eq!(amounts[0].value, "12,");
    assert_eq!(amounts[0].unit, None);
}

#[test]
fn test_extract_percentages() {
    let text = "Growth of 71% with 53% adoption rate";
    let pcts = extract_percentages(text);
    assert_eq!(pcts.len(), 2);
    assert_eq!(pcts[0], "71%");
    assert_eq!(pcts[1], "53%");
}

#[test]
fn test_extract_percentages_spaced() {
    let text = "about 12 % of users";
    let pcts = extract_percentages(text);
    assert_eq!(pcts.len(), 1);
    assert_eq!(pcts[0], "12 %");
}
