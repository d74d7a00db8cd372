//! Link-health checking: the per-URL verdict and the run's report.

use vstd::prelude::*;
use crate::nav::PageResult;
use crate::host::{host_of, host_of_spec, hosts_differ};
use crate::classify::cross_host_spec;

verus! {

/// Settings for one link-check run.
pub struct CheckLinksConfig {
    /// Parallel browser tabs, 1 to 20.
    pub concurrency: usize,
    /// Hard timeout per navigation.
    pub timeout_ms: u64,
    /// Retries after a failed-looking attempt.
    pub retries: u8,
}

/// The verdict on one checked URL.
pub struct LinkResult {
    pub url: String,
    pub status: u16,
    pub error: Option<String>,
    pub redirect_to: Option<String>,
}

/// The report over a whole run.
pub struct LinkReport {
    pub ok: usize,
    pub failed: usize,
    pub results: Vec<LinkResult>,
}

/// The redirect target recorded for a check: for a successful-looking
/// status guess, the final URL when its host differs from the requested
/// host once both are normalized.
pub open spec fn redirect_target_spec(
    url: Seq<char>,
    status: u16,
    final_url: Option<Seq<char>>,
) -> Option<Seq<char>> {
    if 200 <= status && status < 400 {
        match final_url {
            Some(f) => {
                if cross_host_spec(host_of_spec(url), host_of_spec(f)) {
                    Some(f)
                } else {
                    None
                }
            },
            None => None,
        }
    } else {
        None
    }
}

/// A checked link counts as healthy: a successful-looking status and no
/// cross-host landing.
pub open spec fn link_ok_spec(l: LinkResult) -> bool {
    200 <= l.status && l.status < 400 && l.redirect_to is None
}

/// Judge one navigation: keep the status guess and error, and record the
/// final URL when the navigation crossed hosts.
pub fn assess_link(url: &str, result: PageResult, final_url: Option<String>) -> (r: LinkResult)
    ensures
        r.url@ == url@,
        r.status == result.status,
        r.error == result.error,
        match r.redirect_to {
            Some(t) => redirect_target_spec(
                url@,
                result.status,
                final_url.deep_view(),
            ) == Some(t@),
            None => redirect_target_spec(url@, result.status, final_url.deep_view()) is None,
        },
{
    let redirect_to: Option<String> = if 200 <= result.status && result.status < 400 {
        match &final_url {
            Some(f) => {
                match (host_of(url), host_of(f.as_str())) {
                    (Some(a), Some(b)) => {
                        if hosts_differ(a.as_str(), b.as_str()) {
                            Some(f.clone())
                        } else {
                            None
                        }
                    },
                    _ => None,
                }
            },
            None => None,
        }
    } else {
        None
    };
    LinkResult { url: url.to_owned(), status: result.status, error: result.error, redirect_to }
}

/// How many verdicts of a run are healthy.
pub open spec fn links_ok_count(s: Seq<LinkResult>) -> int
    decreases s.len(),
{
    if s.len() == 0 {
        0
    } else {
        links_ok_count(s.drop_last()) + if link_ok_spec(s.last()) {
            1int
        } else {
            0int
        }
    }
}

/// Check multiple link verdicts into a report.
pub fn check_links(results: Vec<LinkResult>) -> (r: LinkReport)
    ensures
        r.ok == links_ok_count(results@),
        r.ok + r.failed == results@.len(),
        r.results == results,
{
    let mut ok: usize = 0;
    let mut i: usize = 0;
    while i < results.len()
        invariant
            i <= results@.len(),
            ok == links_ok_count(results@.subrange(0, i as int)),
            ok <= i,
        decreases results@.len() - i,
    {
        let ghost pre = results@.subrange(0, i as int);
        let healthy = 200 <= results[i].status && results[i].status < 400
            && results[i].redirect_to.is_none();
        if healthy {
            ok += 1;
        }
        i += 1;
        proof {
            assert(results@.subrange(0, i as int).drop_last() =~= pre);
        }
    }
    proof {
        assert(results@.subrange(0, results@.len() as int) =~= results@);
    }
    let failed = results.len() - ok;
    LinkReport { ok, failed, results }
}

} // verus!
