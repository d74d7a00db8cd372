//! The tab-pool capacity model: a counting permit bounds how many page
//! handles are outstanding at once.
//!
//! The engine process and its tabs live outside this crate; every path that
//! opens or closes a tab goes through this model, so the bound proved here
//! is the bound the caller observes.

use vstd::prelude::*;

verus! {

/// Capacity accounting for one pool of browser tabs.
pub struct PagePool {
    limit: usize,
    outstanding: usize,
}

impl PagePool {
    /// The configured ceiling on concurrently open tabs.
    pub closed spec fn limit_spec(&self) -> int {
        self.limit as int
    }

    /// How many handles are currently issued and not yet released.
    pub closed spec fn outstanding_spec(&self) -> int {
        self.outstanding as int
    }

    /// The pool invariant: the limit is in `[1, 20]` and the outstanding
    /// handles never exceed it.
    pub open spec fn wf(&self) -> bool {
        1 <= self.limit_spec() <= 20 && 0 <= self.outstanding_spec() <= self.limit_spec()
    }

    /// A fresh pool with the given ceiling and no handle outstanding.
    pub fn new(limit: usize) -> (r: PagePool)
        requires
            1 <= limit <= 20,
        ensures
            r.wf(),
            r.limit_spec() == limit,
            r.outstanding_spec() == 0,
    {
        PagePool { limit, outstanding: 0 }
    }

    /// Take one permit when a slot is free.  Returns whether a slot was
    /// taken; when none is free the pool is unchanged and full.
    pub fn try_acquire(&mut self) -> (ok: bool)
        requires
            old(self).wf(),
        ensures
            final(self).wf(),
            final(self).limit_spec() == old(self).limit_spec(),
            ok ==> final(self).outstanding_spec() == old(self).outstanding_spec() + 1,
            !ok ==> final(self).outstanding_spec() == old(self).outstanding_spec() && old(
                self,
            ).outstanding_spec() == old(self).limit_spec(),
    {
        if self.outstanding < self.limit {
            self.outstanding = self.outstanding + 1;
            true
        } else {
            false
        }
    }

    /// Return one permit.  Every exit path of a page handle ends here,
    /// exactly once per acquired permit.
    pub fn release(&mut self)
        requires
            old(self).wf(),
            old(self).outstanding_spec() > 0,
        ensures
            final(self).wf(),
            final(self).limit_spec() == old(self).limit_spec(),
            final(self).outstanding_spec() == old(self).outstanding_spec() - 1,
    {
        self.outstanding = self.outstanding - 1;
    }

    /// Whether every handle has been released, the state in which the pool
    /// may shut its engine down.
    pub fn is_idle(&self) -> (r: bool)
        ensures
            r == (self.outstanding_spec() == 0),
    {
        self.outstanding == 0
    }
}

/// A pool with limit `n` never has more than `n` outstanding unreleased
/// handles: the bound follows from the invariant that `new` establishes
/// and `try_acquire` and `release` preserve.
pub proof fn lemma_pool_bounded(p: &PagePool)
    requires
        p.wf(),
    ensures
        p.outstanding_spec() <= p.limit_spec(),
{
}

} // verus!
