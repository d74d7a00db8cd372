//! Plain settings and output records for each command of the toolkit.
//! Argument parsing and serialization live with the callers; these are
//! the bare values the library works with.

use vstd::prelude::*;
use crate::schema::VerifySummary;

verus! {

/// Settings of a link-check run.
pub struct CheckLinksArgs {
    /// Markdown file to pull URLs from.
    pub file: Option<String>,
    /// A single URL to check.
    pub url: Option<String>,
    /// Whether URLs come from standard input.
    pub stdin: bool,
    /// Parallel browser tabs, 1 to 20.
    pub concurrency: u8,
    /// Hard timeout per navigation, in milliseconds.
    pub timeout: u64,
    /// Retries after a failed-looking attempt.
    pub retries: u8,
}

/// Settings of a fetch run.
pub struct FetchArgs {
    pub urls: Vec<String>,
    pub format: String,
    pub parallel: usize,
    pub timeout: u64,
    pub max_chars: usize,
}

/// Settings of a record-set initialization.
pub struct InitArgs {
    pub output: String,
    pub force: bool,
}

/// What an initialization reports.
pub struct InitOutput {
    pub created: String,
    pub file: String,
}

/// Settings of a document-text extraction run.
pub struct PdfArgs {
    pub files: Vec<String>,
}

/// Settings of a data-refresh run.
pub struct RefreshDataArgs {
    pub url: Option<String>,
    pub file: Option<String>,
    pub timeout: u64,
}

/// Settings of a scan run.
pub struct ScanArgs {
    pub files: Vec<String>,
    pub output: String,
    pub merge: bool,
}

/// What a scan reports.
pub struct ScanOutput {
    pub file: String,
    pub scanned_files: usize,
    pub total_urls: usize,
    pub new_urls: usize,
    pub updated_urls: usize,
}

/// Settings of a self-update run.
pub struct UpdateArgs {
    pub check: bool,
    pub force: bool,
}

/// Settings of a verification run.
pub struct VerifyRefsArgs {
    pub file: String,
    pub parallel: usize,
    pub category: Option<Vec<String>>,
    pub timeout: u64,
    pub dry_run: bool,
}

/// What a verification run reports.
pub struct VerifyOutput {
    pub summary: VerifySummary,
    pub file: String,
    pub timestamp: String,
}

} // verus!
