//! Page classification: paywall and login detection over the final HTML,
//! and the fixed precedence Dead > Redirect > Paywall > Login > Ok.

use vstd::prelude::*;
use crate::text::{contains_seq, lower_seq, str_chars, lowercase_chars, contains_pattern};
use crate::schema::Status;
use crate::nav::{ErrorKind, NavigationOutcome, error_code_spec};
use crate::host::{normalize_spec, host_of, host_of_spec, hosts_differ};

verus! {

/// The ordered paywall phrase table, matched case-insensitively.
pub open spec fn paywall_phrases_spec() -> Seq<Seq<char>> {
    seq![
        "subscribe to continue"@,
        "subscription required"@,
        "premium content"@,
        "paywall"@,
        "member-only"@,
        "members only"@,
        "unlock this article"@,
        "purchase to read"@,
        "buy now to read"@,
        "paid subscribers"@,
    ]
}

/// The ordered paywall selector table.
pub open spec fn paywall_selectors_spec() -> Seq<Seq<char>> {
    seq![
        "[class*='paywall']"@,
        "[id*='paywall']"@,
        "[class*='subscription-wall']"@,
        "[class*='piano-offer']"@,
        "[class*='premium-wall']"@,
    ]
}

/// The ordered login phrase table, matched case-insensitively.
pub open spec fn login_phrases_spec() -> Seq<Seq<char>> {
    seq![
        "sign in to continue"@,
        "log in to continue"@,
        "login to continue"@,
        "please sign in"@,
        "please log in"@,
        "create an account"@,
        "sign up to view"@,
        "register to view"@,
        "authentication required"@,
    ]
}

/// The ordered login selector table.
pub open spec fn login_selectors_spec() -> Seq<Seq<char>> {
    seq![
        "[class*='login-wall']"@,
        "[class*='auth-wall']"@,
        "[class*='signup-wall']"@,
        "[id*='login-modal']"@,
        "[class*='gate-content']"@,
    ]
}

/// Some phrase of the table occurs in the text.
pub open spec fn any_phrase_in(hay: Seq<char>, phrases: Seq<Seq<char>>) -> bool {
    exists|i: int| 0 <= i < phrases.len() && contains_seq(hay, phrases[i])
}

/// Whether the selector matches anywhere in the document `html` parses to;
/// an unparsable selector matches nothing.
pub uninterp spec fn selector_found_spec(html: Seq<char>, sel: Seq<char>) -> bool;

/// Relies on `scraper::Selector::parse` and `scraper::Html::parse_document`:
/// whether a CSS selector matches somewhere in a parsed document is a
/// function of the two texts alone.
#[verifier::external_body]
pub(crate) fn selector_found(html: &str, sel: &str) -> (r: bool)
    ensures
        r == selector_found_spec(html@, sel@),
{
    match scraper::Selector::parse(sel) {
        Ok(s) => scraper::Html::parse_document(html).select(&s).next().is_some(),
        Err(_) => false,
    }
}

/// Some selector of the table matches the document.
pub open spec fn any_selector_in(html: Seq<char>, sels: Seq<Seq<char>>) -> bool {
    exists|i: int| 0 <= i < sels.len() && selector_found_spec(html, sels[i])
}

/// The page is behind a paywall: a paywall phrase occurs in the lowered
/// HTML, or a paywall selector matches.
pub open spec fn is_paywall_spec(html: Seq<char>) -> bool {
    any_phrase_in(lower_seq(html), paywall_phrases_spec()) || any_selector_in(
        html,
        paywall_selectors_spec(),
    )
}

/// The page demands a login: a login phrase occurs in the lowered HTML, or
/// a login selector matches.
pub open spec fn is_login_spec(html: Seq<char>) -> bool {
    any_phrase_in(lower_seq(html), login_phrases_spec()) || any_selector_in(
        html,
        login_selectors_spec(),
    )
}

/// Scan the lowered HTML against each phrase of a fixed table.
fn scan_phrases(lower: &Vec<char>, phrases: &Vec<&'static str>) -> (r: bool)
    ensures
        r == any_phrase_in(lower@, phrases.deep_view()),
{
    let mut i: usize = 0;
    while i < phrases.len()
        invariant
            i <= phrases@.len(),
            forall|k: int| 0 <= k < i ==> !contains_seq(lower@, phrases.deep_view()[k]),
        decreases phrases@.len() - i,
    {
        if contains_pattern(lower, phrases[i]) {
            proof {
                assert(contains_seq(lower@, phrases.deep_view()[i as int]));
            }
            return true;
        }
        i += 1;
    }
    false
}

/// Try each selector of a fixed table against the document.
fn scan_selectors(html: &str, sels: &Vec<&'static str>) -> (r: bool)
    ensures
        r == any_selector_in(html@, sels.deep_view()),
{
    let mut i: usize = 0;
    while i < sels.len()
        invariant
            i <= sels@.len(),
            forall|k: int| 0 <= k < i ==> !selector_found_spec(html@, sels.deep_view()[k]),
        decreases sels@.len() - i,
    {
        if selector_found(html, sels[i]) {
            proof {
                assert(selector_found_spec(html@, sels.deep_view()[i as int]));
            }
            return true;
        }
        i += 1;
    }
    false
}

fn paywall_phrases() -> (v: Vec<&'static str>)
    ensures
        v.deep_view() =~= paywall_phrases_spec(),
{
    let mut v: Vec<&'static str> = Vec::new();
    v.push("subscribe to continue");
    v.push("subscription required");
    v.push("premium content");
    v.push("paywall");
    v.push("member-only");
    v.push("members only");
    v.push("unlock this article");
    v.push("purchase to read");
    v.push("buy now to read");
    v.push("paid subscribers");
    v
}

fn paywall_selectors() -> (v: Vec<&'static str>)
    ensures
        v.deep_view() =~= paywall_selectors_spec(),
{
    let mut v: Vec<&'static str> = Vec::new();
    v.push("[class*='paywall']");
    v.push("[id*='paywall']");
    v.push("[class*='subscription-wall']");
    v.push("[class*='piano-offer']");
    v.push("[class*='premium-wall']");
    v
}

fn login_phrases() -> (v: Vec<&'static str>)
    ensures
        v.deep_view() =~= login_phrases_spec(),
{
    let mut v: Vec<&'static str> = Vec::new();
    v.push("sign in to continue");
    v.push("log in to continue");
    v.push("login to continue");
    v.push("please sign in");
    v.push("please log in");
    v.push("create an account");
    v.push("sign up to view");
    v.push("register to view");
    v.push("authentication required");
    v
}

fn login_selectors() -> (v: Vec<&'static str>)
    ensures
        v.deep_view() =~= login_selectors_spec(),
{
    let mut v: Vec<&'static str> = Vec::new();
    v.push("[class*='login-wall']");
    v.push("[class*='auth-wall']");
    v.push("[class*='signup-wall']");
    v.push("[id*='login-modal']");
    v.push("[class*='gate-content']");
    v
}

/// Whether the HTML shows a paywall.
pub fn is_paywall(html: &str) -> (r: bool)
    ensures
        r == is_paywall_spec(html@),
{
    let v = str_chars(html);
    let lower = lowercase_chars(&v);
    let phrases = paywall_phrases();
    if scan_phrases(&lower, &phrases) {
        return true;
    }
    let sels = paywall_selectors();
    scan_selectors(html, &sels)
}

/// Whether the HTML shows a login wall.
pub fn is_login_wall(html: &str) -> (r: bool)
    ensures
        r == is_login_spec(html@),
{
    let v = str_chars(html);
    let lower = lowercase_chars(&v);
    let phrases = login_phrases();
    if scan_phrases(&lower, &phrases) {
        return true;
    }
    let sels = login_selectors();
    scan_selectors(html, &sels)
}

/// Content classification of reachable HTML: the paywall check runs first,
/// the login check second, and anything else is fine.
pub open spec fn classify_content_spec(html: Seq<char>) -> Status {
    if is_paywall_spec(html) {
        Status::Paywall
    } else if is_login_spec(html) {
        Status::Login
    } else {
        Status::Okay
    }
}

/// Classify reachable HTML.
pub fn classify_content(html: &str) -> (s: Status)
    ensures
        s == classify_content_spec(html@),
{
    if is_paywall(html) {
        Status::Paywall
    } else if is_login_wall(html) {
        Status::Login
    } else {
        Status::Okay
    }
}

/// HTML that shows both a paywall and a login wall classifies as Paywall,
/// never as Login: the paywall check takes precedence.
pub proof fn lemma_paywall_precedes_login(html: Seq<char>)
    requires
        is_paywall_spec(html),
        is_login_spec(html),
    ensures
        classify_content_spec(html) == Status::Paywall,
        classify_content_spec(html) != Status::Login,
{
}

/// The status guess marks the page as gone.
pub open spec fn dead_status(status: u16) -> bool {
    status == 404 || (500 <= status && status < 600)
}

/// A navigation landed on another host: both hosts are known and differ
/// after normalization.
pub open spec fn cross_host_spec(orig: Option<Seq<char>>, fin: Option<Seq<char>>) -> bool {
    match (orig, fin) {
        (Some(a), Some(b)) => normalize_spec(a) != normalize_spec(b),
        _ => false,
    }
}

/// The final coarse classification of one fetch attempt, in the fixed
/// precedence Dead > Redirect > Paywall > Login > Ok:
/// a navigation failure or a dead status guess wins; then a cross-host
/// landing, checked only for status guesses in `[200, 400)`; then the
/// content checks on the HTML when any was read.
pub open spec fn classify_outcome_spec(
    error_kind: Option<ErrorKind>,
    status: u16,
    cross_host: bool,
    html: Option<Seq<char>>,
) -> Status {
    if error_kind is Some {
        Status::Dead
    } else if dead_status(status) {
        Status::Dead
    } else if 200 <= status && status < 400 && cross_host {
        Status::Redirect
    } else {
        match html {
            Some(h) => classify_content_spec(h),
            None => Status::Okay,
        }
    }
}

/// A cross-host navigation classifies as Redirect even when the landing
/// page's HTML would itself classify as Paywall or Login: the redirect
/// check precedes content classification.
pub proof fn lemma_redirect_precedes_content(
    status: u16,
    html: Option<Seq<char>>,
)
    requires
        !dead_status(status),
        200 <= status < 400,
    ensures
        classify_outcome_spec(None, status, true, html) == Status::Redirect,
{
}

/// What one verification of a URL concluded.
pub struct VerifyResult {
    /// The classification recorded for the reference.
    pub status: Status,
    /// Diagnostic text: the error code, the guessed status, the redirect
    /// target, or the wall that was detected.
    pub notes: Option<String>,
}

/// The digit character for a value below ten.
pub open spec fn digit_of(d: int) -> char {
    (48 + d) as char
}

/// The decimal writing of a non-negative number.
pub open spec fn dec_str(n: int) -> Seq<char>
    decreases n,
{
    if n < 10 {
        seq![digit_of(n)]
    } else {
        dec_str(n / 10) + seq![digit_of(n % 10)]
    }
}

fn digit_char(d: u16) -> (c: char)
    requires
        d < 10,
    ensures
        c == digit_of(d as int),
{
    ((48 + d) as u8) as char
}

/// The decimal digits of `n`.
fn u16_digits(n: u16) -> (v: Vec<char>)
    ensures
        v@ == dec_str(n as int),
    decreases n,
{
    if n < 10 {
        let mut v: Vec<char> = Vec::new();
        v.push(digit_char(n));
        proof {
            assert(v@ =~= dec_str(n as int));
        }
        v
    } else {
        let mut v = u16_digits(n / 10);
        v.push(digit_char(n % 10));
        proof {
            assert(v@ =~= dec_str(n as int));
        }
        v
    }
}

/// The diagnostic note that goes with a classification.
pub open spec fn verify_notes_spec(
    error_kind: Option<ErrorKind>,
    status: u16,
    cross_host: bool,
    html: Option<Seq<char>>,
    final_url: Option<Seq<char>>,
) -> Option<Seq<char>> {
    match error_kind {
        Some(k) => Some(error_code_spec(k)),
        None => {
            if dead_status(status) {
                Some("HTTP "@ + dec_str(status as int))
            } else if 200 <= status && status < 400 && cross_host {
                final_url
            } else {
                match html {
                    Some(h) => {
                        if is_paywall_spec(h) {
                            Some("Paywall detected"@)
                        } else if is_login_spec(h) {
                            Some("Login required"@)
                        } else {
                            None
                        }
                    },
                    None => None,
                }
            }
        },
    }
}

/// The cross-host flag for a verification: the requested URL's host against
/// the post-navigation URL's host.
pub open spec fn verify_cross_host_spec(url: Seq<char>, final_url: Option<Seq<char>>) -> bool {
    cross_host_spec(
        host_of_spec(url),
        match final_url {
            Some(u) => host_of_spec(u),
            None => None,
        },
    )
}

/// Verify one URL's outcome: classify it under the fixed precedence and
/// produce the diagnostic note recorded next to the status.
pub fn verify_outcome(url: &str, outcome: &NavigationOutcome, html: &Option<String>) -> (r:
    VerifyResult)
    ensures
        r.status == classify_outcome_spec(
            outcome.error_kind,
            outcome.status_guess,
            verify_cross_host_spec(url@, outcome.final_url.deep_view()),
            html.deep_view(),
        ),
        r.notes.deep_view() == verify_notes_spec(
            outcome.error_kind,
            outcome.status_guess,
            verify_cross_host_spec(url@, outcome.final_url.deep_view()),
            html.deep_view(),
            outcome.final_url.deep_view(),
        ),
{
    match &outcome.error_kind {
        Some(k) => {
            let code: &'static str = match k {
                ErrorKind::DnsFailed => "DNS_FAILED",
                ErrorKind::ConnectionRefused => "CONNECTION_REFUSED",
                ErrorKind::Timeout => "TIMEOUT",
                ErrorKind::SslError => "SSL_ERROR",
                ErrorKind::NetworkError => "NETWORK_ERROR",
            };
            return VerifyResult { status: Status::Dead, notes: Some(code.to_owned()) };
        },
        None => {},
    }
    let status = outcome.status_guess;
    if status == 404 || (500 <= status && status < 600) {
        let digits = u16_digits(status);
        let num = crate::text::chars_to_string(&digits);
        let note = "HTTP ".to_owned().concat(num.as_str());
        proof {
            reveal_strlit("HTTP ");
        }
        return VerifyResult { status: Status::Dead, notes: Some(note) };
    }
    let cross: bool = if 200 <= status && status < 400 {
        match (host_of(url), &outcome.final_url) {
            (Some(orig), Some(fin_url)) => {
                match host_of(fin_url.as_str()) {
                    Some(fin) => hosts_differ(orig.as_str(), fin.as_str()),
                    None => false,
                }
            },
            _ => false,
        }
    } else {
        false
    };
    if 200 <= status && status < 400 && cross {
        let target: Option<String> = match &outcome.final_url {
            Some(u) => Some(u.clone()),
            None => None,
        };
        return VerifyResult { status: Status::Redirect, notes: target };
    }
    match html {
        Some(h) => {
            if is_paywall(h.as_str()) {
                VerifyResult { status: Status::Paywall, notes: Some("Paywall detected".to_owned()) }
            } else if is_login_wall(h.as_str()) {
                VerifyResult { status: Status::Login, notes: Some("Login required".to_owned()) }
            } else {
                VerifyResult { status: Status::Okay, notes: None }
            }
        },
        None => VerifyResult { status: Status::Okay, notes: None },
    }
}

} // verus!
