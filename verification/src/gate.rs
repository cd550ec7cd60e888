//! The counting gate that bounds how many operations are in flight.
//!
//! Both fan-out phases (the per-user search fan-out and the global download
//! fan-out) must keep at most a fixed number of operations running at once.
//! The bound is backpressure, not a correctness requirement, but it must be
//! enforced by counting: a task may start only after an `acquire` succeeds,
//! and signals `release` when it finishes.  The invariant is that the
//! count of admitted, unreleased tasks never exceeds the width.

use vstd::prelude::*;

verus! {

/// The fixed fan-out width: at most this many search or download
/// operations run at once.
pub const CONCURRENT_REQUESTS: usize = 10;

/// A counting gate: admits at most `limit` holders at a time.
pub struct ConcurrencyGate {
    in_flight: usize,
    limit: usize,
}

impl ConcurrencyGate {
    /// How many admitted tasks have not yet released.
    pub closed spec fn spec_in_flight(&self) -> usize {
        self.in_flight
    }

    /// The width fixed at construction.
    pub closed spec fn spec_limit(&self) -> usize {
        self.limit
    }

    /// Invariant: never more holders than the width allows.
    pub open spec fn wf(&self) -> bool {
        self.spec_in_flight() <= self.spec_limit()
    }

    /// A closed gate of the given width.
    pub fn new(limit: usize) -> (r: ConcurrencyGate)
        requires
            limit > 0,
        ensures
            r.wf(),
            r.spec_limit() == limit,
            r.spec_in_flight() == 0,
    {
        ConcurrencyGate { in_flight: 0, limit }
    }

    /// Admits one task if a slot is free.  Succeeds exactly when fewer than
    /// `limit` tasks are in flight, so no interleaving of acquires and
    /// releases ever drives the count past the width.
    pub fn try_acquire(&mut self) -> (ok: bool)
        requires
            old(self).wf(),
        ensures
            final(self).wf(),
            final(self).spec_limit() == old(self).spec_limit(),
            ok == (old(self).spec_in_flight() < old(self).spec_limit()),
            ok ==> final(self).spec_in_flight() == old(self).spec_in_flight() + 1,
            !ok ==> final(self).spec_in_flight() == old(self).spec_in_flight(),
    {
        if self.in_flight < self.limit {
            self.in_flight = self.in_flight + 1;
            true
        } else {
            false
        }
    }

    /// Returns one admitted task's slot.
    pub fn release(&mut self)
        requires
            old(self).wf(),
            old(self).spec_in_flight() > 0,
        ensures
            final(self).wf(),
            final(self).spec_limit() == old(self).spec_limit(),
            final(self).spec_in_flight() == old(self).spec_in_flight() - 1,
    {
        self.in_flight = self.in_flight - 1;
    }

    /// The current number of holders, for instrumentation.
    pub fn in_flight(&self) -> (n: usize)
        ensures
            n == self.spec_in_flight(),
    {
        self.in_flight
    }

    /// The width, for instrumentation.
    pub fn limit(&self) -> (n: usize)
        ensures
            n == self.spec_limit(),
    {
        self.limit
    }
}

/// Law: a well-formed gate never has more operations in flight than its
/// width, and every operation above keeps it well formed — so at no point
/// do more than `limit` admitted tasks run concurrently.
pub proof fn lemma_gate_bounded(g: ConcurrencyGate)
    requires
        g.wf(),
    ensures
        g.spec_in_flight() <= g.spec_limit(),
{
}

} // verus!
