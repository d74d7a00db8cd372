//! The template a fresh reference record set starts from.

use vstd::prelude::*;
use crate::schema::{Meta, Reference, ReferencesFile, Status};

verus! {

/// Build the template record set: the given creation date and one example
/// reference, pending verification.
pub fn build_template(date: &str) -> (r: ReferencesFile)
    ensures
        r.meta.created@ == date@,
        r.meta.last_verified is None,
        r.meta.tool@ == "ref"@,
        r.meta.total_links == 1,
        r.references@.len() == 1,
        r.references@[0].url@ == "https://example.com"@,
        r.references@[0].title@ == "Example Reference"@,
        r.references@[0].categories.deep_view() =~= seq!["example"@],
        r.references@[0].cited_in.deep_view() =~= seq!["README.md"@],
        r.references@[0].status == Status::Pending,
        r.references@[0].verified is None,
        r.references@[0].notes is None,
{
    let mut categories: Vec<String> = Vec::new();
    categories.push("example".to_owned());
    let mut cited_in: Vec<String> = Vec::new();
    cited_in.push("README.md".to_owned());
    let mut references: Vec<Reference> = Vec::new();
    references.push(
        Reference {
            url: "https://example.com".to_owned(),
            title: "Example Reference".to_owned(),
            categories,
            cited_in,
            status: Status::Pending,
            verified: None,
            notes: None,
        },
    );
    ReferencesFile {
        meta: Meta {
            created: date.to_owned(),
            last_verified: None,
            tool: "ref".to_owned(),
            total_links: 1,
        },
        references,
    }
}

} // verus!
