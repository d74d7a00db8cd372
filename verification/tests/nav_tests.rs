//! Navigation outcomes, error parsing, classification precedence, and the
//! retry rule.

use ref_tools::nav::{parse_error, infer_status, NavigationOutcome, ErrorKind, should_retry};
use ref_tools::classify::{classify_content, is_paywall, is_login_wall, verify_outcome};
use ref_tools::schema::Status;

#[test]
fn test_parse_error() {
    assert_eq!(parse_error("net::ERR_NAME_NOT_RESOLVED").1, "DNS_FAILED");
    assert_eq!(parse_error("ERR_CONNECTION_REFUSED").1, "CONNECTION_REFUSED");
    assert_eq!(parse_error("random error").1, "NETWORK_ERROR");
}

#[test]
fn test_parse_error_all_kinds() {
    assert_eq!(parse_error("ERR_CONNECTION_TIMED_OUT").1, "TIMEOUT");
    assert_eq!(parse_error("ERR_CERT_AUTHORITY_INVALID").1, "SSL_ERROR");
    assert_eq!(parse_error("SSL handshake failed").1, "SSL_ERROR");
    assert_eq!(parse_error("net::ERR_NAME_NOT_RESOLVED").0, 0);
}

#[test]
fn test_infer_status() {
    assert_eq!(infer_status(&Some("404 Not Found".to_string())), 404);
    assert_eq!(infer_status(&Some("Access Denied".to_string())), 403);
    assert_eq!(infer_status(&Some("Internal Server Error".to_string())), 500);
    assert_eq!(infer_status(&Some("Welcome".to_string())), 200);
    assert_eq!(infer_status(&None), 200);
}

#[test]
fn test_is_paywall() {
    assert!(is_paywall("<div>Subscribe to continue reading</div>"));
    assert!(is_paywall("<div class='paywall-overlay'>content</div>"));
    assert!(!is_paywall("<div>Normal content here</div>"));
}

#[test]
fn test_is_login_wall() {
    assert!(is_login_wall("<div>Please sign in to continue</div>"));
    assert!(is_login_wall("<div class='login-wall'>content</div>"));
    assert!(!is_login_wall("<div>Normal content here</div>"));
}

#[test]
fn test_paywall_selector_only() {
    // No paywall phrase occurs; only the selector table can find this.
    let html = "<div class='subscription-wall'>more</div>";
    assert!(is_paywall(html));
}

#[test]
fn test_paywall_beats_login() {
    // Both a paywall phrase and a login phrase: the paywall check runs
    // first, so the page classifies as Paywall, never as Login.
    let html = "<div>Subscribe to continue. Please sign in.</div>";
    assert!(is_paywall(html));
    assert!(is_login_wall(html));
    assert_eq!(classify_content(html), Status::Paywall);
}

#[test]
fn test_redirect_beats_paywall() {
    // A cross-host navigation whose landing page shows paywall text still
    // classifies as Redirect.
    let outcome = NavigationOutcome::from_success(
        Some("Fine Title".to_string()),
        Some("https://other.example.net/landing".to_string()),
        120,
    );
    assert_eq!(outcome.status_guess, 200);
    let html = Some("<div>Subscribe to continue reading</div>".to_string());
    let verdict = verify_outcome("https://example.com/article", &outcome, &html);
    assert_eq!(verdict.status, Status::Redirect);
    assert_eq!(
        verdict.notes,
        Some("https://other.example.net/landing".to_string())
    );
}

#[test]
fn test_same_host_paywall() {
    let outcome = NavigationOutcome::from_success(
        Some("Fine Title".to_string()),
        Some("https://www.example.com/article".to_string()),
        120,
    );
    let html = Some("<div>Subscribe to continue reading</div>".to_string());
    let verdict = verify_outcome("https://example.com/article", &outcome, &html);
    assert_eq!(verdict.status, Status::Paywall);
    assert_eq!(verdict.notes, Some("Paywall detected".to_string()));
}

#[test]
fn test_dead_status_note() {
    let outcome =
        NavigationOutcome::from_success(Some("404 not found".to_string()), None, 50);
    assert_eq!(outcome.status_guess, 404);
    let verdict = verify_outcome("https://example.com", &outcome, &None);
    assert_eq!(verdict.status, Status::Dead);
    assert_eq!(verdict.notes, Some("HTTP 404".to_string()));
}

#[test]
fn test_server_error_dead() {
    let outcome = NavigationOutcome::from_success(
        Some("500 Internal Server Error".to_string()),
        None,
        50,
    );
    let verdict = verify_outcome("https://example.com", &outcome, &None);
    assert_eq!(verdict.status, Status::Dead);
    assert_eq!(verdict.notes, Some("HTTP 500".to_string()));
}

#[test]
fn test_timeout_retried_once() {
    // An unreachable host: the first attempt times out, is retried exactly
    // once, and the final report is Dead with a timeout diagnostic and a
    // zero status guess.
    let timeout_ms = 5000u64;
    let retries = 1u8;
    let mut attempts = 0u32;
    let mut retries_left = retries;
    let mut outcome = NavigationOutcome::from_timeout(timeout_ms);
    attempts += 1;
    while should_retry(&outcome, retries_left) {
        retries_left -= 1;
        outcome = NavigationOutcome::from_timeout(timeout_ms);
        attempts += 1;
    }
    assert_eq!(attempts, 2);
    assert_eq!(outcome.status_guess, 0);
    assert_eq!(outcome.error_kind, Some(ErrorKind::Timeout));
    let verdict = verify_outcome("https://unreachable.invalid", &outcome, &None);
    assert_eq!(verdict.status, Status::Dead);
    assert_eq!(verdict.notes, Some("TIMEOUT".to_string()));
}

#[test]
fn test_engine_error_outcome() {
    let outcome = NavigationOutcome::from_engine_error("net::ERR_NAME_NOT_RESOLVED", 30);
    assert_eq!(outcome.status_guess, 0);
    assert_eq!(outcome.error_kind, Some(ErrorKind::DnsFailed));
    let verdict = verify_outcome("https://gone.example", &outcome, &None);
    assert_eq!(verdict.status, Status::Dead);
    assert_eq!(verdict.notes, Some("DNS_FAILED".to_string()));
}
