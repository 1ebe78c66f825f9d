//! A counting permit pool that bounds how many workers run at once.
//!
//! `try_acquire` grants a permit exactly when fewer than `limit` permits
//! are out; a worker that finished (on any exit path) gives its permit
//! back with `release`. The limit may change at runtime; lowering it
//! never preempts running workers, it only throttles future grants, so
//! no change of the limit can block anyone.

use vstd::prelude::*;

verus! {

pub struct ConcurrencyGate {
    limit: u32,
    active: u32,
}

impl ConcurrencyGate {
    /// The most workers that may hold a permit at once.
    pub closed spec fn limit(&self) -> u32 {
        self.limit
    }

    /// How many permits are currently out.
    pub closed spec fn active(&self) -> u32 {
        self.active
    }

    pub fn new(limit: u32) -> (r: Self)
        ensures
            r.limit() == limit,
            r.active() == 0,
    {
        ConcurrencyGate { limit, active: 0 }
    }

    /// The acquire relation.
    pub open spec fn acquire_step(pre: Self, post: Self, granted: bool) -> bool {
        &&& post.limit() == pre.limit()
        &&& (granted <==> pre.active() < pre.limit())
        &&& post.active() == if granted {
            pre.active() + 1
        } else {
            pre.active() as int
        }
    }

    /// Grants a permit exactly when fewer than `limit` are out. A caller
    /// that must wait calls this again until it is granted.
    pub fn try_acquire(&mut self) -> (granted: bool)
        ensures
            Self::acquire_step(*old(self), *final(self), granted),
    {
        if self.active < self.limit {
            self.active = self.active + 1;
            true
        } else {
            false
        }
    }

    /// Gives a permit back.
    pub fn release(&mut self)
        requires
            old(self).active() > 0,
        ensures
            final(self).limit() == old(self).limit(),
            final(self).active() == old(self).active() - 1,
    {
        self.active = self.active - 1;
    }

    /// Changes the limit. Already-active workers are not preempted:
    /// the count of permits out does not change.
    pub fn set_limit(&mut self, limit: u32)
        ensures
            final(self).limit() == limit,
            final(self).active() == old(self).active(),
    {
        self.limit = limit;
    }

    pub fn active_count(&self) -> (r: u32)
        ensures
            r == self.active(),
    {
        self.active
    }

    pub fn current_limit(&self) -> (r: u32)
        ensures
            r == self.limit(),
    {
        self.limit
    }
}

/// With the limit held at some value, the count of permits out never
/// exceeds it: a grant happens only below the limit, so an acquire
/// preserves the bound, and a release only lowers the count.
pub proof fn lemma_gate_never_exceeds_limit(
    pre: ConcurrencyGate,
    post: ConcurrencyGate,
    granted: bool,
)
    requires
        pre.active() <= pre.limit(),
        ConcurrencyGate::acquire_step(pre, post, granted),
    ensures
        post.active() <= post.limit(),
{
}

} // verus!
