//! The counting permit pool that bounds how many non-alarm dispatches are
//! in flight at once. The pool is the model the dispatcher is proved
//! against; the process realizes it with a counting semaphore.

use vstd::prelude::*;

verus! {

/// A fixed-size pool of `limit` permits with `in_flight` of them taken.
pub struct PermitPool {
    pub limit: u64,
    pub in_flight: u64,
}

impl PermitPool {
    /// The pool never hands out more permits than it has.
    pub open spec fn wf(self) -> bool {
        self.in_flight <= self.limit
    }

    /// A full pool: no dispatch is in flight.
    pub fn new(limit: u64) -> (p: PermitPool)
        ensures
            p.limit == limit,
            p.in_flight == 0,
            p.wf(),
    {
        PermitPool { limit, in_flight: 0 }
    }

    /// Takes a permit when one is free. A dispatch that is refused waits
    /// and asks again; it never runs without a permit.
    pub fn try_acquire(&mut self) -> (granted: bool)
        requires
            old(self).wf(),
        ensures
            final(self).wf(),
            final(self).limit == old(self).limit,
            granted == (old(self).in_flight < old(self).limit),
            final(self).in_flight == if granted {
                old(self).in_flight + 1
            } else {
                old(self).in_flight as int
            },
    {
        if self.in_flight < self.limit {
            self.in_flight = self.in_flight + 1;
            true
        } else {
            false
        }
    }

    /// Returns a permit once its dispatch has concluded.
    pub fn release(&mut self)
        requires
            old(self).wf(),
            old(self).in_flight > 0,
        ensures
            final(self).wf(),
            final(self).limit == old(self).limit,
            final(self).in_flight == old(self).in_flight - 1,
    {
        self.in_flight = self.in_flight - 1;
    }
}

/// How many of `requests` simultaneous acquisitions succeed against a pool,
/// when none of them releases in between (the worst burst).
pub open spec fn spec_burst_grants(p: PermitPool, requests: nat) -> nat
    decreases requests,
{
    if requests == 0 {
        0
    } else if p.in_flight < p.limit {
        1 + spec_burst_grants(
            PermitPool { limit: p.limit, in_flight: (p.in_flight + 1) as u64 },
            (requests - 1) as nat,
        )
    } else {
        spec_burst_grants(p, (requests - 1) as nat)
    }
}

/// The concurrency bound: of `m` simultaneous submissions against a pool
/// with `free` permits left, exactly `min(m, free)` get inside, so no more
/// than the pool's limit are ever concurrently dispatching.
pub proof fn lemma_burst_bounded(p: PermitPool, m: nat)
    requires
        p.wf(),
    ensures
        spec_burst_grants(p, m) == if m <= p.limit - p.in_flight {
            m as int
        } else {
            p.limit - p.in_flight
        },
        spec_burst_grants(p, m) <= p.limit,
    decreases m,
{
    if m > 0 {
        if p.in_flight < p.limit {
            lemma_burst_bounded(
                PermitPool { limit: p.limit, in_flight: (p.in_flight + 1) as u64 },
                (m - 1) as nat,
            );
        } else {
            lemma_burst_bounded(p, (m - 1) as nat);
        }
    }
}

} // verus!
