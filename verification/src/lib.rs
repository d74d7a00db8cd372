//! Verified core of a reference-checking toolkit: a bounded pool model for
//! browser tabs, a navigation-outcome classifier, and a content-extraction
//! pipeline over HTML and plain text.

pub mod args;
pub mod check_links;
pub mod classify;
pub mod codeblocks;
pub mod extract;
pub mod fetch;
pub mod host;
pub mod html;
pub mod init;
pub mod nav;
pub mod pdftext;
pub mod pool;
pub mod refresh;
pub mod scan;
pub mod schema;
pub mod sections;
pub mod text;
pub mod urls;
