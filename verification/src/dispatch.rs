//! The bounded dispatcher's decisions: permit accounting for the shared
//! concurrency ceiling, the pre-request jitter draw, and the HEAD-to-GET
//! fallback rule. The suspension itself (waiting for a permit, sleeping,
//! sending the request) happens outside the library; the rules it follows
//! stand here.

use vstd::prelude::*;
use rand::Rng;

verus! {

/// Accounting for the shared permit pool: one pool bounds the whole
/// frontier, so the number of in-flight probes across every pass never
/// exceeds the ceiling. `wf` is that bound; every operation preserves it.
pub struct PermitPool {
    ceiling: usize,
    in_flight: usize,
}

impl PermitPool {
    /// The number of probes currently holding a permit.
    pub closed spec fn in_flight(self) -> nat {
        self.in_flight as nat
    }

    /// The configured concurrency ceiling.
    pub closed spec fn ceiling(self) -> nat {
        self.ceiling as nat
    }

    /// The global concurrency bound: at every instant, in-flight probes
    /// never exceed the ceiling.
    pub open spec fn wf(self) -> bool {
        self.in_flight() <= self.ceiling()
    }

    pub fn new(ceiling: usize) -> (r: PermitPool)
        ensures
            r.wf(),
            r.ceiling() == ceiling,
            r.in_flight() == 0,
    {
        PermitPool { ceiling, in_flight: 0 }
    }

    /// Grants a permit exactly when one is free; the bound holds afterwards
    /// either way.
    pub fn try_acquire(&mut self) -> (r: bool)
        requires
            old(self).wf(),
        ensures
            final(self).wf(),
            final(self).ceiling() == old(self).ceiling(),
            r == (old(self).in_flight() < old(self).ceiling()),
            r ==> final(self).in_flight() == old(self).in_flight() + 1,
            !r ==> final(self).in_flight() == old(self).in_flight(),
    {
        if self.in_flight < self.ceiling {
            self.in_flight = self.in_flight + 1;
            true
        } else {
            false
        }
    }

    /// Returns a permit; release happens on probe completion, success or
    /// failure alike.
    pub fn release(&mut self)
        requires
            old(self).wf(),
            old(self).in_flight() > 0,
        ensures
            final(self).wf(),
            final(self).ceiling() == old(self).ceiling(),
            final(self).in_flight() == old(self).in_flight() - 1,
    {
        self.in_flight = self.in_flight - 1;
    }
}

/// The one HEAD status that re-issues the probe as GET: method not allowed.
pub open spec fn head_fallback_needed(status: u16) -> bool {
    status == 405
}

/// Decides the HEAD-to-GET fallback for one candidate; it is a two-step
/// retry scoped to that candidate, applied to no other status.
pub fn retry_with_get(head_status: u16) -> (r: bool)
    ensures
        r == head_fallback_needed(head_status),
{
    head_status == 405
}

/// Relies on rand's `Rng::gen_range` over `0..bound`: a value drawn
/// uniformly from `[0, bound)`. The call panics on an empty range, so the
/// bound must be positive.
#[verifier::external_body]
pub(crate) fn random_below(bound: u64) -> (r: u64)
    requires
        bound > 0,
    ensures
        r < bound,
{
    rand::thread_rng().gen_range(0..bound)
}

/// The anti-burst jitter drawn before a request: a random delay strictly
/// below the configured bound, or none when jitter is disabled (bound 0).
pub fn jitter_delay(bound: u64) -> (r: Option<u64>)
    ensures
        r is Some <==> bound > 0,
        r matches Some(d) ==> d < bound,
{
    if bound > 0 {
        Some(random_below(bound))
    } else {
        None
    }
}

} // verus!
