//! Document-text extraction: identifiers, links, language detection,
//! sections, and code blocks.

use ref_tools::pdftext::{extract_doi, extract_links, extract_title, extract_author, extract_date, page_from_text};
use ref_tools::codeblocks::{detect_language, extract_code};
use ref_tools::sections::parse_sections;
use ref_tools::schema::Status;

#[test]
fn test_extract_doi() {
    let text = "This paper (DOI: 10.1234/abc.123) presents...";
    assert_eq!(extract_doi(text), Some("10.1234/abc.123".to_string()));
}

#[test]
fn test_extract_doi_resolver() {
    let text = "See https://doi.org/10.5555/xyz for details";
    assert_eq!(extract_doi(text), Some("10.5555/xyz".to_string()));
    assert_eq!(extract_doi("no identifier here"), None);
}

#[test]
fn test_extract_links() {
    let text = "See https://example.com and https://foo.bar/path for details.";
    let links = extract_links(text);
    assert_eq!(links.len(), 2);
}

#[test]
fn test_extract_links_fields() {
    let text = "Start https://example.com/a, then https://example.com/a again.";
    let links = extract_links(text);
    assert_eq!(links.len(), 1);
    assert_eq!(links[0].url, "https://example.com/a");
    assert_eq!(links[0].text, "https://example.com/a");
}

#[test]
fn test_detect_language() {
    assert_eq!(detect_language("fn main() -> i32 { 42 }"), Some("rust".to_string()));
    assert_eq!(detect_language("def foo(): pass"), Some("python".to_string()));
}

#[test]
fn test_pdf_title() {
    let text = "A Study of Things\n\nbody text follows";
    assert_eq!(extract_title(text, Some("fallback")), Some("A Study of Things".to_string()));
    assert_eq!(extract_title("\n\n", Some("fallback")), Some("fallback".to_string()));
    assert_eq!(extract_title("ab\nrest", None), None);
}

#[test]
fn test_pdf_author_and_date() {
    let text = "Author: Jane Roe\nPublished: 2023-04-05\n";
    assert_eq!(extract_author(text), Some("Jane Roe".to_string()));
    assert_eq!(extract_date(text), Some("2023-04-05".to_string()));
    assert_eq!(extract_date("no dates at all"), None);
}

#[test]
fn test_section_flushing() {
    // Two marked headings, each with one paragraph: exactly two sections.
    let sections = parse_sections("# A\n\npara1\n\n# B\n\npara2");
    assert_eq!(sections.len(), 2);
    assert_eq!(sections[0].level, 1);
    assert_eq!(sections[0].heading, "A");
    assert_eq!(sections[0].content, "para1");
    assert_eq!(sections[1].level, 1);
    assert_eq!(sections[1].heading, "B");
    assert_eq!(sections[1].content, "para2");
}

#[test]
fn test_uppercase_heading() {
    let sections = parse_sections("INTRODUCTION\n\nSome opening paragraph text.\n");
    assert_eq!(sections.len(), 1);
    assert_eq!(sections[0].heading, "INTRODUCTION");
    assert_eq!(sections[0].content, "Some opening paragraph text.");
}

#[test]
fn test_extract_code_block() {
    let text = "intro\n    let a = 1;\n    let b = 2;\n    let c = a + b;\nplain prose again\n";
    let blocks = extract_code(text);
    assert_eq!(blocks.len(), 1);
    assert_eq!(blocks[0].lang, Some("javascript".to_string()));
    assert!(blocks[0].source.contains("let a = 1;"));
}

#[test]
fn test_page_from_text() {
    let text = "The Big Title\n\npara one has enough words\n\nsee https://ref.example/x\n";
    let page = page_from_text(text, "file:///tmp/doc", Some("doc"));
    assert_eq!(page.classification, Status::Okay);
    assert_eq!(page.title, Some("The Big Title".to_string()));
    assert_eq!(page.links.len(), 1);
    assert_eq!(page.links[0].url, "https://ref.example/x");
    assert!(page.chars > 0);
    assert!(page.alerts.is_empty());
}

#[test]
fn test_chapter_heading() {
    let sections = parse_sections("Chapter 2\n\nThe body of the chapter.\n");
    assert_eq!(sections.len(), 1);
    assert_eq!(sections[0].heading, "Chapter 2");
}

#[test]
fn test_sections_empty_text() {
    assert!(parse_sections("").is_empty());
    assert!(parse_sections("\n \n\t\n").is_empty());
}
