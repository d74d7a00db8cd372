//! Statuses, summaries, filtering, the template, and link reports.

use ref_tools::schema::{
    Status, Reference, summarize, reference_selected, filter_indices,
};
use ref_tools::init::build_template;
use ref_tools::check_links::{assess_link, check_links};
use ref_tools::nav::PageResult;

#[test]
fn test_status_display() {
    assert_eq!(Status::Pending.as_str(), "pending");
    assert_eq!(Status::Okay.as_str(), "ok");
    assert_eq!(Status::Dead.as_str(), "dead");
    assert_eq!(Status::Redirect.as_str(), "redirect");
    assert_eq!(Status::Paywall.as_str(), "paywall");
    assert_eq!(Status::Login.as_str(), "login");
}

#[test]
fn test_summarize_counts() {
    let statuses = vec![
        Status::Okay,
        Status::Dead,
        Status::Okay,
        Status::Paywall,
        Status::Login,
        Status::Redirect,
    ];
    let summary = summarize(&statuses, 8, 2);
    assert_eq!(summary.total, 8);
    assert_eq!(summary.skipped, 2);
    assert_eq!(summary.verified, 6);
    assert_eq!(summary.ok, 2);
    assert_eq!(summary.dead, 1);
    assert_eq!(summary.redirect, 1);
    assert_eq!(summary.paywall, 1);
    assert_eq!(summary.login, 1);
}

fn reference(url: &str, cats: Vec<&str>) -> Reference {
    Reference {
        url: url.to_string(),
        title: url.to_string(),
        categories: cats.into_iter().map(|c| c.to_string()).collect(),
        cited_in: Vec::new(),
        status: Status::Pending,
        verified: None,
        notes: None,
    }
}

#[test]
fn test_category_filter() {
    let refs = vec![
        reference("https://a", vec!["research"]),
        reference("https://b", vec!["readme"]),
        reference("https://c", vec!["research", "api"]),
    ];
    let filter = Some(vec!["research".to_string()]);
    assert!(reference_selected(&refs[0], &filter));
    assert!(!reference_selected(&refs[1], &filter));
    let picked = filter_indices(&refs, &filter);
    assert_eq!(picked, vec![0, 2]);
    let all = filter_indices(&refs, &None);
    assert_eq!(all, vec![0, 1, 2]);
}

#[test]
fn test_build_template() {
    let file = build_template("2025-12-15");
    assert_eq!(file.meta.created, "2025-12-15");
    assert_eq!(file.meta.tool, "ref");
    assert_eq!(file.meta.total_links, 1);
    assert_eq!(file.references.len(), 1);
    assert_eq!(file.references[0].url, "https://example.com");
    assert_eq!(file.references[0].status, Status::Pending);
}

#[test]
fn test_assess_link_redirect() {
    let nav = PageResult { status: 200, title: None, error: None };
    let verdict = assess_link(
        "https://example.com/a",
        nav,
        Some("https://other.example/b".to_string()),
    );
    assert_eq!(verdict.status, 200);
    assert_eq!(verdict.redirect_to, Some("https://other.example/b".to_string()));

    let nav2 = PageResult { status: 200, title: None, error: None };
    let same = assess_link(
        "https://example.com/a",
        nav2,
        Some("https://www.example.com/a".to_string()),
    );
    assert_eq!(same.redirect_to, None);
}

#[test]
fn test_check_links_report() {
    let nav_ok = PageResult { status: 200, title: None, error: None };
    let good = assess_link("https://a.example", nav_ok, None);
    let nav_bad = PageResult {
        status: 0,
        title: None,
        error: Some("TIMEOUT".to_string()),
    };
    let bad = assess_link("https://b.example", nav_bad, None);
    let report = check_links(vec![good, bad]);
    assert_eq!(report.ok, 1);
    assert_eq!(report.failed, 1);
    assert_eq!(report.results.len(), 2);
}
