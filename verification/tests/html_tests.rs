//! The HTML pipeline: fetch parsing, extraction, link de-duplication.

use ref_tools::fetch::{parse, extract_headings, page_failure, fetch_results};
use ref_tools::html::{extract_page, error_page, build_links, page_title};
use ref_tools::classify::classify_content;
use ref_tools::schema::Status;

#[test]
fn test_parse_basic() {
    let html = r#"
            <html>
            <head><title>Test Page</title></head>
            <body>
                <h1>Main Title</h1>
                <p>Some content here.</p>
            </body>
            </html>
        "#;
    let page = parse(html, "https://test.com", 0);
    assert!(page.ok);
    assert_eq!(page.title, Some("Test Page".to_string()));
    assert!(page.text.unwrap().contains("content"));
}

#[test]
fn test_extract_headings() {
    let html = "<h1>One</h1><h2>Two</h2><h3>Three</h3>";
    let h = extract_headings(html);
    assert_eq!(h.len(), 3);
    assert_eq!(h[0], "One");
}

#[test]
fn test_title_from_graph_tag() {
    let html = "<html><head><meta property='og:title' content='Graph Title'></head><body></body></html>";
    assert_eq!(page_title(html), Some("Graph Title".to_string()));
}

#[test]
fn test_end_to_end_extraction() {
    // A reachable page with a title, one heading, and one paragraph:
    // classification Ok, title from the document title, one section.
    let html = "<title>T</title><main><h1>H</h1><p>enough text to pass the length filter</p></main>";
    assert_eq!(classify_content(html), Status::Okay);
    let page = extract_page("https://example.com/x", Status::Okay, html);
    assert_eq!(page.classification, Status::Okay);
    assert_eq!(page.title, Some("T".to_string()));
    assert_eq!(page.sections.len(), 1);
    assert_eq!(page.sections[0].level, 1);
    assert_eq!(page.sections[0].heading, "H");
    assert_eq!(
        page.sections[0].content,
        "enough text to pass the length filter"
    );
    assert!(page.chars > 0);
}

#[test]
fn test_link_dedup() {
    // The same resolved URL under three different anchor texts yields
    // exactly one link, under the first text.
    let anchors = vec![
        ("https://example.com/page".to_string(), "first text".to_string()),
        ("https://example.com/page".to_string(), "second text".to_string()),
        ("/page".to_string(), "third text".to_string()),
    ];
    let links = build_links("https://example.com/", &anchors);
    assert_eq!(links.len(), 1);
    assert_eq!(links[0].url, "https://example.com/page");
    assert_eq!(links[0].text, "first text");
}

#[test]
fn test_link_filters() {
    let anchors = vec![
        ("#frag".to_string(), "long enough".to_string()),
        ("javascript:void(0)".to_string(), "long enough".to_string()),
        ("".to_string(), "long enough".to_string()),
        ("page.html".to_string(), "ok".to_string()),
        ("page.html".to_string(), "kept link".to_string()),
    ];
    let links = build_links("https://example.com/dir/", &anchors);
    assert_eq!(links.len(), 1);
    assert_eq!(links[0].url, "https://example.com/dir/page.html");
    assert_eq!(links[0].text, "kept link");
}

#[test]
fn test_error_page() {
    let page = error_page("https://gone.example", "boom");
    assert_eq!(page.classification, Status::Dead);
    assert_eq!(page.alerts, vec!["boom".to_string()]);
    assert_eq!(page.chars, 0);
    assert!(page.sections.is_empty());
}

#[test]
fn test_fetch_results_counts() {
    let ok = parse("<title>A</title><p>some body text here</p>", "https://a", 0);
    let bad = page_failure("https://b", "refused", None);
    let results = fetch_results(vec![ok, bad], 2);
    assert_eq!(results.total, 2);
    assert_eq!(results.ok, 1);
    assert_eq!(results.failed, 1);
}

#[test]
fn test_page_links_and_code() {
    let html = "<main><h1>Guide</h1><p>a paragraph that is long enough</p>\
                <a href='/deep/page'>a descriptive link</a>\
                <pre><code class='language-rust'>fn main() { let q = 1; }</code></pre></main>";
    let page = extract_page("https://docs.example/root/", Status::Okay, html);
    assert_eq!(page.links.len(), 1);
    assert_eq!(page.links[0].url, "https://docs.example/deep/page");
    assert_eq!(page.links[0].text, "a descriptive link");
    assert_eq!(page.code.len(), 1);
    assert_eq!(page.code[0].lang, Some("rust".to_string()));
    assert_eq!(page.code[0].source, "fn main() { let q = 1; }");
}
