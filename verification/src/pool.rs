//! Accounting model of the bounded connection pool.
//!
//! The pool hands out at most `max_size` connections at a time; a handler
//! that asks while all are checked out must wait until one is released.
//! This module tracks the checked-out count and proves the bound is never
//! exceeded and that a release always makes room for a waiting acquire.

use vstd::prelude::*;

verus! {

/// Checked-out-connection counter of a pool bounded to `max_size`.
pub struct PoolGauge {
    pub max_size: usize,
    pub in_use: usize,
}

impl PoolGauge {
    /// The pool never hands out more connections than its bound.
    pub open spec fn inv(self) -> bool {
        self.in_use <= self.max_size
    }

    /// A freshly built pool with the given bound and no connection out.
    pub fn new(max_size: usize) -> (p: PoolGauge)
        ensures
            p.max_size == max_size,
            p.in_use == 0,
            p.inv(),
    {
        PoolGauge { max_size, in_use: 0 }
    }

    /// Check one connection out if the bound allows it; report whether it
    /// did. A `false` result means the caller must wait for a release.
    pub fn try_acquire(&mut self) -> (ok: bool)
        requires
            old(self).inv(),
        ensures
            final(self).max_size == old(self).max_size,
            ok <==> old(self).in_use < old(self).max_size,
            ok ==> final(self).in_use == old(self).in_use + 1,
            !ok ==> final(self).in_use == old(self).in_use,
            final(self).inv(),
    {
        if self.in_use < self.max_size {
            self.in_use = self.in_use + 1;
            true
        } else {
            false
        }
    }

    /// Return one connection to the pool.
    pub fn release(&mut self)
        requires
            old(self).inv(),
            old(self).in_use > 0,
        ensures
            final(self).max_size == old(self).max_size,
            final(self).in_use == old(self).in_use - 1,
            final(self).inv(),
    {
        self.in_use = self.in_use - 1;
    }
}

/// When the pool is saturated, releasing a connection always lets one
/// waiting acquire succeed: waiters make progress and none is dropped.
pub proof fn lemma_release_unblocks(p: PoolGauge)
    requires
        p.inv(),
        p.in_use == p.max_size,
        p.max_size > 0,
    ensures
        (p.in_use - 1) < p.max_size,
{
}

} // verus!
