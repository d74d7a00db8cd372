//! Host names: extraction from URLs, normalization, and cross-host
//! comparison used for redirect detection.

use vstd::prelude::*;
use crate::text::{str_chars, chars_to_string, subrange_chars};

verus! {

/// The `www.` label as a character sequence.
pub open spec fn www_prefix() -> Seq<char> {
    seq!['w', 'w', 'w', '.']
}

/// Host normalization: every leading `www.` label is stripped.
pub open spec fn normalize_spec(s: Seq<char>) -> Seq<char>
    decreases s.len(),
{
    if s.len() >= 4 && s.subrange(0, 4) == www_prefix() {
        normalize_spec(s.subrange(4, s.len() as int))
    } else {
        s
    }
}

/// Normalization is idempotent: stripping leading `www.` labels twice gives
/// the same host as stripping them once.
pub proof fn lemma_normalize_idempotent(s: Seq<char>)
    ensures
        normalize_spec(normalize_spec(s)) == normalize_spec(s),
    decreases s.len(),
{
    if s.len() >= 4 && s.subrange(0, 4) == www_prefix() {
        lemma_normalize_idempotent(s.subrange(4, s.len() as int));
    }
}

/// A host and the same host under a leading `www.` label normalize alike.
pub proof fn lemma_normalize_strips_www(s: Seq<char>)
    ensures
        normalize_spec(www_prefix() + s) == normalize_spec(s),
{
    let t = www_prefix() + s;
    assert(t.subrange(0, 4) =~= www_prefix());
    assert(t.subrange(4, t.len() as int) =~= s);
}

/// Strip every leading `www.` label from a host name.
pub fn normalize_host(host: &str) -> (r: String)
    ensures
        r@ == normalize_spec(host@),
{
    let v = str_chars(host);
    let n = v.len();
    let mut start: usize = 0;
    proof {
        assert(v@.subrange(0, n as int) =~= v@);
    }
    while n - start >= 4 && v[start] == 'w' && v[start + 1] == 'w' && v[start + 2] == 'w' && v[start
        + 3] == '.'
        invariant
            n == v@.len(),
            start <= n,
            normalize_spec(v@) == normalize_spec(v@.subrange(start as int, n as int)),
        decreases n - start,
    {
        let ghost cur = v@.subrange(start as int, n as int);
        start += 4;
        proof {
            assert(cur.subrange(0, 4) =~= www_prefix());
            assert(cur.subrange(4, cur.len() as int) =~= v@.subrange(start as int, n as int));
        }
    }
    let ghost tail = v@.subrange(start as int, n as int);
    proof {
        if tail.len() >= 4 {
            assert(tail.subrange(0, 4) != www_prefix()) by {
                if tail.subrange(0, 4) == www_prefix() {
                    assert(tail[0] == 'w' && tail[1] == 'w' && tail[2] == 'w' && tail[3] == '.');
                }
            }
        }
    }
    let r = subrange_chars(&v, start, n);
    chars_to_string(&r)
}

/// Whether two hosts differ once both are normalized; a difference marks a
/// cross-host redirect.
pub fn hosts_differ(a: &str, b: &str) -> (r: bool)
    ensures
        r == (normalize_spec(a@) != normalize_spec(b@)),
{
    let na = normalize_host(a);
    let nb = normalize_host(b);
    !(na == nb)
}

/// The host component of an absolute URL, as the `url` crate parses it;
/// `None` when the text is not an absolute URL or has no host.
pub uninterp spec fn host_of_spec(s: Seq<char>) -> Option<Seq<char>>;

/// Relies on `url::Url::parse` and `url::Url::host_str`: the host component
/// of a URL is a function of the URL text alone.
#[verifier::external_body]
pub(crate) fn host_of(url: &str) -> (r: Option<String>)
    ensures
        match r {
            Some(h) => host_of_spec(url@) == Some(h@),
            None => host_of_spec(url@) is None,
        },
{
    match url::Url::parse(url) {
        Ok(u) => u.host_str().map(|s| s.to_string()),
        Err(_) => None,
    }
}

/// The absolute URL that `href` resolves to against the page URL `base`;
/// `None` when either text is rejected by the parser.
pub uninterp spec fn resolved_of(base: Seq<char>, href: Seq<char>) -> Option<Seq<char>>;

/// Relies on `url::Url::parse` and `url::Url::join`: resolving a reference
/// against an absolute base URL is a function of the two texts alone.
#[verifier::external_body]
pub(crate) fn resolve_url(base: &str, href: &str) -> (r: Option<String>)
    ensures
        match r {
            Some(u) => resolved_of(base@, href@) == Some(u@),
            None => resolved_of(base@, href@) is None,
        },
{
    match url::Url::parse(base) {
        Ok(b) => match b.join(href) {
            Ok(u) => Some(u.as_str().to_string()),
            Err(_) => None,
        },
        Err(_) => None,
    }
}

} // verus!
