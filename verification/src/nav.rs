//! Navigation outcomes: engine error parsing, heuristic status inference
//! from page titles, and the fixed retry policy.

use vstd::prelude::*;
use crate::text::{
    contains_seq, lower_seq, str_chars, lowercase_chars, contains_pattern,
};

verus! {

/// Coarse classification of an engine-reported navigation error.
#[derive(Clone, Copy, Debug, PartialEq, Eq, Structural)]
pub enum ErrorKind {
    DnsFailed,
    ConnectionRefused,
    Timeout,
    SslError,
    NetworkError,
}

/// Which `ErrorKind` an engine error message maps to: known substrings are
/// tried in a fixed order, and anything unrecognized is a network error.
pub open spec fn error_kind_spec(e: Seq<char>) -> ErrorKind {
    if contains_seq(e, "ERR_NAME_NOT_RESOLVED"@) {
        ErrorKind::DnsFailed
    } else if contains_seq(e, "ERR_CONNECTION_REFUSED"@) {
        ErrorKind::ConnectionRefused
    } else if contains_seq(e, "ERR_CONNECTION_TIMED_OUT"@) {
        ErrorKind::Timeout
    } else if contains_seq(e, "ERR_CERT"@) || contains_seq(e, "SSL"@) {
        ErrorKind::SslError
    } else {
        ErrorKind::NetworkError
    }
}

/// The diagnostic code printed for each error kind.
pub open spec fn error_code_spec(k: ErrorKind) -> Seq<char> {
    match k {
        ErrorKind::DnsFailed => "DNS_FAILED"@,
        ErrorKind::ConnectionRefused => "CONNECTION_REFUSED"@,
        ErrorKind::Timeout => "TIMEOUT"@,
        ErrorKind::SslError => "SSL_ERROR"@,
        ErrorKind::NetworkError => "NETWORK_ERROR"@,
    }
}

/// Classify an engine error message.
pub fn error_kind_of(error: &str) -> (k: ErrorKind)
    ensures
        k == error_kind_spec(error@),
{
    let v = str_chars(error);
    if contains_pattern(&v, "ERR_NAME_NOT_RESOLVED") {
        ErrorKind::DnsFailed
    } else if contains_pattern(&v, "ERR_CONNECTION_REFUSED") {
        ErrorKind::ConnectionRefused
    } else if contains_pattern(&v, "ERR_CONNECTION_TIMED_OUT") {
        ErrorKind::Timeout
    } else if contains_pattern(&v, "ERR_CERT") || contains_pattern(&v, "SSL") {
        ErrorKind::SslError
    } else {
        ErrorKind::NetworkError
    }
}

/// Map an engine error message to a zero status guess and a diagnostic code.
pub fn parse_error(error: &str) -> (r: (u16, String))
    ensures
        r.0 == 0,
        r.1@ == error_code_spec(error_kind_spec(error@)),
{
    let k = error_kind_of(error);
    let code: String = match k {
        ErrorKind::DnsFailed => String::from_str("DNS_FAILED"),
        ErrorKind::ConnectionRefused => String::from_str("CONNECTION_REFUSED"),
        ErrorKind::Timeout => String::from_str("TIMEOUT"),
        ErrorKind::SslError => String::from_str("SSL_ERROR"),
        ErrorKind::NetworkError => String::from_str("NETWORK_ERROR"),
    };
    (0, code)
}

/// The status guessed from a page title.  No true protocol status is
/// available, so known failure phrases are sniffed case-insensitively and
/// anything else counts as success.
pub open spec fn status_of_title_spec(t: Option<Seq<char>>) -> u16 {
    match t {
        Some(s) => {
            let l = lower_seq(s);
            if contains_seq(l, "404"@) || contains_seq(l, "not found"@) {
                404
            } else if contains_seq(l, "403"@) || contains_seq(l, "forbidden"@) || contains_seq(
                l,
                "access denied"@,
            ) {
                403
            } else if contains_seq(l, "500"@) || contains_seq(l, "internal server error"@) {
                500
            } else {
                200
            }
        },
        None => 200,
    }
}

/// Guess a status from the post-navigation title.
pub fn infer_status(title: &Option<String>) -> (s: u16)
    ensures
        s == status_of_title_spec(title.deep_view()),
{
    match title {
        Some(t) => {
            let v = str_chars(t.as_str());
            let l = lowercase_chars(&v);
            if contains_pattern(&l, "404") || contains_pattern(&l, "not found") {
                404
            } else if contains_pattern(&l, "403") || contains_pattern(&l, "forbidden")
                || contains_pattern(&l, "access denied") {
                403
            } else if contains_pattern(&l, "500") || contains_pattern(&l, "internal server error") {
                500
            } else {
                200
            }
        },
        None => 200,
    }
}

/// What one navigation attempt reported.
pub struct PageResult {
    /// Status guess; 0 means the attempt failed outright.
    pub status: u16,
    /// Page title, when one was read.
    pub title: Option<String>,
    /// Engine error or timeout diagnostic, when the attempt failed.
    pub error: Option<String>,
}

/// One navigation's immutable outcome: a status guess (0 means unknown or
/// failed), the title and final URL when available, the coarse error kind
/// when the attempt failed, and the time it took.
pub struct NavigationOutcome {
    pub status_guess: u16,
    pub title: Option<String>,
    pub final_url: Option<String>,
    pub error_kind: Option<ErrorKind>,
    pub elapsed_ms: u64,
}

impl NavigationOutcome {
    /// The outcome of an attempt whose hard timeout elapsed first.
    pub fn from_timeout(elapsed_ms: u64) -> (r: NavigationOutcome)
        ensures
            r.status_guess == 0,
            r.error_kind == Some(ErrorKind::Timeout),
            r.title is None,
            r.final_url is None,
            r.elapsed_ms == elapsed_ms,
    {
        NavigationOutcome {
            status_guess: 0,
            title: None,
            final_url: None,
            error_kind: Some(ErrorKind::Timeout),
            elapsed_ms,
        }
    }

    /// The outcome of an attempt the engine reported as failed.
    pub fn from_engine_error(message: &str, elapsed_ms: u64) -> (r: NavigationOutcome)
        ensures
            r.status_guess == 0,
            r.error_kind == Some(error_kind_spec(message@)),
            r.title is None,
            r.final_url is None,
            r.elapsed_ms == elapsed_ms,
    {
        NavigationOutcome {
            status_guess: 0,
            title: None,
            final_url: None,
            error_kind: Some(error_kind_of(message)),
            elapsed_ms,
        }
    }

    /// The outcome of an attempt that completed: the status is inferred
    /// from the title, and no error kind is set.
    pub fn from_success(title: Option<String>, final_url: Option<String>, elapsed_ms: u64) -> (r:
        NavigationOutcome)
        ensures
            r.status_guess == status_of_title_spec(title.deep_view()),
            r.error_kind is None,
            r.title == title,
            r.final_url == final_url,
            r.elapsed_ms == elapsed_ms,
    {
        let status = infer_status(&title);
        NavigationOutcome { status_guess: status, title, final_url, error_kind: None, elapsed_ms }
    }
}

/// The fixed retry rule: an attempt is repeated exactly when its status
/// guess is 0 and a retry is still allowed.
pub open spec fn retry_needed(status_guess: u16, retries_left: u8) -> bool {
    status_guess == 0 && retries_left > 0
}

/// Decide whether a failed-looking attempt is retried (after the fixed
/// one-second backoff, which the caller performs).
pub fn should_retry(outcome: &NavigationOutcome, retries_left: u8) -> (r: bool)
    ensures
        r == retry_needed(outcome.status_guess, retries_left),
{
    outcome.status_guess == 0 && retries_left > 0
}

} // verus!
