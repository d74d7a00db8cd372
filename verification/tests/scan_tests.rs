//! Markdown scanning and category inference.

use ref_tools::scan::{extract_markdown_urls, infer_categories};

#[test]
fn test_extract_markdown_urls() {
    let content = r#"
# Test Document

Check out [Example Site](https://example.com) for more info.
Also see [GitHub](https://github.com/foo/bar).

Bare URL: https://bare.example.org/path

Another [link](https://another.com/page?q=1).
        "#;

    let found = extract_markdown_urls(content, "test.md");

    assert_eq!(found.len(), 4);

    let example = found
        .iter()
        .find(|f| f.url == "https://example.com")
        .unwrap();
    assert_eq!(example.title, Some("Example Site".to_string()));

    let bare = found
        .iter()
        .find(|f| f.url == "https://bare.example.org/path")
        .unwrap();
    assert_eq!(bare.title, None);
}

#[test]
fn test_markdown_link_beats_bare() {
    let content = "[Doc](https://example.com/doc) and again https://example.com/doc";
    let found = extract_markdown_urls(content, "a.md");
    assert_eq!(found.len(), 1);
    assert_eq!(found[0].title, Some("Doc".to_string()));
    assert_eq!(found[0].source_file, "a.md");
}

#[test]
fn test_infer_categories() {
    assert!(infer_categories("docs/adr/ADR-001.md").contains(&"architecture".to_string()));
    assert!(infer_categories("research/topic.md").contains(&"research".to_string()));
    assert!(infer_categories("README.md").contains(&"readme".to_string()));
    assert!(infer_categories("random.md").contains(&"general".to_string()));
}

#[test]
fn test_infer_categories_order() {
    let cats = infer_categories("docs/adr/ADR-001.md");
    assert_eq!(
        cats,
        vec!["documentation".to_string(), "architecture".to_string()]
    );
    assert_eq!(infer_categories("misc.txt"), vec!["general".to_string()]);
}

#[test]
fn test_build_references() {
    let found = extract_markdown_urls(
        "[One](https://a.example/one) and https://b.example/two",
        "docs/guide.md",
    );
    let refs = ref_tools::scan::build_references(&found);
    assert_eq!(refs.len(), 2);
    assert_eq!(refs[0].url, "https://a.example/one");
    assert_eq!(refs[0].title, "One");
    assert_eq!(refs[0].cited_in, vec!["docs/guide.md".to_string()]);
    assert_eq!(refs[0].categories, vec!["documentation".to_string()]);
    assert_eq!(refs[1].title, "https://b.example/two");
}

#[test]
fn test_build_references_dedup_and_title() {
    let mut found = extract_markdown_urls("https://a.example/one", "x.md");
    found.extend(extract_markdown_urls("[Better](https://a.example/one)", "y.md"));
    let refs = ref_tools::scan::build_references(&found);
    assert_eq!(refs.len(), 1);
    assert_eq!(refs[0].title, "Better");
    assert_eq!(
        refs[0].cited_in,
        vec!["x.md".to_string(), "y.md".to_string()]
    );
}

#[test]
fn test_merge_references() {
    let found = extract_markdown_urls("https://a.example/one", "x.md");
    let mut existing = ref_tools::scan::build_references(&found);

    let mut incoming_found = extract_markdown_urls("https://a.example/one", "y.md");
    incoming_found.extend(extract_markdown_urls("https://new.example/z", "y.md"));
    let incoming = ref_tools::scan::build_references(&incoming_found);

    let (new_count, updated_count) =
        ref_tools::scan::merge_references(&mut existing, &incoming);
    assert_eq!(new_count, 1);
    assert_eq!(updated_count, 1);
    assert_eq!(existing.len(), 2);
    assert_eq!(
        existing[0].cited_in,
        vec!["x.md".to_string(), "y.md".to_string()]
    );
    assert_eq!(existing[1].url, "https://new.example/z");
}
