//! The tracked-reference record set: entries, verification statuses, and
//! the summary computed after a verification run.

use vstd::prelude::*;

verus! {

/// Verification status of one tracked reference.
#[derive(Clone, Copy, Debug, PartialEq, Eq, Structural)]
pub enum Status {
    /// Not yet verified.
    Pending,
    /// Reachable, content accessible.
    Okay,
    /// Navigation failed, or the status guess marks the page gone.
    Dead,
    /// Ended up on a different host: a link-rot marker.
    Redirect,
    /// Reachable but blocked by a paywall.
    Paywall,
    /// Reachable but a login is required.
    Login,
}

/// The lower-case name each status is written as.
pub open spec fn status_name_spec(s: Status) -> Seq<char> {
    match s {
        Status::Pending => "pending"@,
        Status::Okay => "ok"@,
        Status::Dead => "dead"@,
        Status::Redirect => "redirect"@,
        Status::Paywall => "paywall"@,
        Status::Login => "login"@,
    }
}

impl Status {
    /// The status's lower-case name.
    pub fn as_str(&self) -> (r: &'static str)
        ensures
            r@ == status_name_spec(*self),
    {
        match self {
            Status::Pending => "pending",
            Status::Okay => "ok",
            Status::Dead => "dead",
            Status::Redirect => "redirect",
            Status::Paywall => "paywall",
            Status::Login => "login",
        }
    }
}

/// Metadata kept alongside the reference list.
#[derive(Clone)]
pub struct Meta {
    /// Date the record set was created.
    pub created: String,
    /// Datetime of the last verification run, if any.
    pub last_verified: Option<String>,
    /// Name of the tool that verifies the set.
    pub tool: String,
    /// Number of references tracked.
    pub total_links: usize,
}

/// A single tracked reference.
#[derive(Clone)]
pub struct Reference {
    /// URL to verify.
    pub url: String,
    /// Human-readable title.
    pub title: String,
    /// Categories used for filtering.
    pub categories: Vec<String>,
    /// Files that cite this reference.
    pub cited_in: Vec<String>,
    /// Verification status.
    pub status: Status,
    /// Datetime of the last verification of this entry, if any.
    pub verified: Option<String>,
    /// Redirect target, diagnostic text, or other notes.
    pub notes: Option<String>,
}

/// The whole record set.
#[derive(Clone)]
pub struct ReferencesFile {
    pub meta: Meta,
    pub references: Vec<Reference>,
}

/// How many entries of `s` carry status `st`.
pub open spec fn count_of(s: Seq<Status>, st: Status) -> int
    decreases s.len(),
{
    if s.len() == 0 {
        0
    } else {
        count_of(s.drop_last(), st) + if s.last() == st {
            1int
        } else {
            0int
        }
    }
}

/// Counts of every status over a verification run.
pub struct VerifySummary {
    pub total: usize,
    pub verified: usize,
    pub ok: usize,
    pub dead: usize,
    pub redirect: usize,
    pub paywall: usize,
    pub login: usize,
    pub skipped: usize,
}

/// Tally the statuses a verification run produced.  `total` and `skipped`
/// are carried through; `verified` is the number of statuses tallied.
pub fn summarize(statuses: &Vec<Status>, total: usize, skipped: usize) -> (r: VerifySummary)
    ensures
        r.total == total,
        r.skipped == skipped,
        r.verified == statuses@.len(),
        r.ok == count_of(statuses@, Status::Okay),
        r.dead == count_of(statuses@, Status::Dead),
        r.redirect == count_of(statuses@, Status::Redirect),
        r.paywall == count_of(statuses@, Status::Paywall),
        r.login == count_of(statuses@, Status::Login),
{
    let mut ok: usize = 0;
    let mut dead: usize = 0;
    let mut redirect: usize = 0;
    let mut paywall: usize = 0;
    let mut login: usize = 0;
    let mut i: usize = 0;
    while i < statuses.len()
        invariant
            i <= statuses@.len(),
            ok == count_of(statuses@.subrange(0, i as int), Status::Okay),
            dead == count_of(statuses@.subrange(0, i as int), Status::Dead),
            redirect == count_of(statuses@.subrange(0, i as int), Status::Redirect),
            paywall == count_of(statuses@.subrange(0, i as int), Status::Paywall),
            login == count_of(statuses@.subrange(0, i as int), Status::Login),
            ok + dead + redirect + paywall + login <= i,
        decreases statuses@.len() - i,
    {
        let ghost pre = statuses@.subrange(0, i as int);
        match statuses[i] {
            Status::Okay => ok += 1,
            Status::Dead => dead += 1,
            Status::Redirect => redirect += 1,
            Status::Paywall => paywall += 1,
            Status::Login => login += 1,
            Status::Pending => (),
        }
        i += 1;
        proof {
            let post = statuses@.subrange(0, i as int);
            assert(post.drop_last() =~= pre);
        }
    }
    proof {
        assert(statuses@.subrange(0, statuses@.len() as int) =~= statuses@);
    }
    VerifySummary {
        total,
        verified: statuses.len(),
        ok,
        dead,
        redirect,
        paywall,
        login,
        skipped,
    }
}

/// Whether two texts are equal.
pub fn str_eq(a: &str, b: &str) -> (r: bool)
    ensures
        r == (a@ == b@),
{
    let av = a.to_owned();
    let bv = b.to_owned();
    av == bv
}

/// Whether one of the texts in `v` is `s`.
pub fn str_vec_contains(v: &Vec<String>, s: &str) -> (b: bool)
    ensures
        b == v.deep_view().contains(s@),
{
    let mut j: usize = 0;
    while j < v.len()
        invariant
            j <= v@.len(),
            forall|y: int| 0 <= y < j ==> v.deep_view()[y] != s@,
        decreases v@.len() - j,
    {
        if str_eq(v[j].as_str(), s) {
            proof {
                assert(v.deep_view()[j as int] == s@);
            }
            return true;
        }
        j += 1;
    }
    false
}

/// A reference is selected when no category filter is given, or when one of
/// its categories appears in the filter.
pub open spec fn selected_spec(cats: Seq<Seq<char>>, filter: Option<Seq<Seq<char>>>) -> bool {
    match filter {
        None => true,
        Some(f) => exists|i: int| 0 <= i < cats.len() && f.contains(cats[i]),
    }
}

/// Whether the reference passes the category filter.
pub fn reference_selected(r: &Reference, filter: &Option<Vec<String>>) -> (b: bool)
    ensures
        b == selected_spec(r.categories.deep_view(), filter.deep_view()),
{
    match filter {
        None => true,
        Some(f) => {
            let mut i: usize = 0;
            while i < r.categories.len()
                invariant
                    filter.deep_view() == Some(f.deep_view()),
                    i <= r.categories@.len(),
                    forall|x: int|
                        0 <= x < i ==> !f.deep_view().contains(r.categories.deep_view()[x]),
                decreases r.categories@.len() - i,
            {
                if str_vec_contains(f, r.categories[i].as_str()) {
                    proof {
                        assert(f.deep_view().contains(r.categories.deep_view()[i as int]));
                    }
                    return true;
                }
                i += 1;
            }
            false
        },
    }
}

/// The indices of the references that pass the category filter, in order.
pub fn filter_indices(refs: &Vec<Reference>, filter: &Option<Vec<String>>) -> (r: Vec<usize>)
    ensures
        forall|k: int| 0 <= k < r@.len() ==> r@[k] < refs@.len(),
        forall|k1: int, k2: int| 0 <= k1 < k2 < r@.len() ==> r@[k1] < r@[k2],
        forall|k: int| #![trigger r@[k]]
            0 <= k < r@.len() ==> selected_spec(
                refs@[r@[k] as int].categories.deep_view(),
                filter.deep_view(),
            ),
        forall|i: int| #![trigger refs@[i]]
            0 <= i < refs@.len() && selected_spec(refs@[i].categories.deep_view(), filter.deep_view())
                ==> r@.contains(i as usize),
{
    let mut r: Vec<usize> = Vec::new();
    let mut i: usize = 0;
    while i < refs.len()
        invariant
            i <= refs@.len(),
            forall|k: int| 0 <= k < r@.len() ==> r@[k] < i,
            forall|k1: int, k2: int| 0 <= k1 < k2 < r@.len() ==> r@[k1] < r@[k2],
            forall|k: int| #![trigger r@[k]]
                0 <= k < r@.len() ==> selected_spec(
                    refs@[r@[k] as int].categories.deep_view(),
                    filter.deep_view(),
                ),
            forall|x: int| #![trigger refs@[x]]
                0 <= x < i && selected_spec(refs@[x].categories.deep_view(), filter.deep_view())
                    ==> r@.contains(x as usize),
        decreases refs@.len() - i,
    {
        let ghost pre = r@;
        if reference_selected(&refs[i], filter) {
            r.push(i);
            proof {
                assert(r@[r@.len() - 1] == i as usize);
                assert(forall|x: int| pre.contains(x as usize) ==> #[trigger] r@.contains(
                    x as usize,
                )) by {
                    assert(forall|k: int| 0 <= k < pre.len() ==> r@[k] == pre[k]);
                }
                assert(r@.contains(i as usize));
            }
        }
        i += 1;
    }
    r
}

} // verus!
