//! The metrics aggregator: a monotonically increasing completed-probe
//! counter and a running latency estimate. The estimate is a cheap
//! exponential-style smoothing, not a true mean: the first latency is taken
//! as-is, every later one is averaged with the prior estimate.

use vstd::prelude::*;

verus! {

/// The smoothed latency estimate after one more probe: the incoming latency
/// when no prior estimate exists (0 stands for none), else the mean of the
/// prior estimate and the incoming latency, rounded down.
pub open spec fn smoothed(prior: u64, incoming: u64) -> int {
    if prior == 0 {
        incoming as int
    } else {
        (prior + incoming) / 2
    }
}

/// Running metrics shared read-write by every pass of the frontier.
#[derive(Clone, Copy, Debug)]
pub struct Metrics {
    pub completed: u64,
    pub avg_latency_ms: u64,
}

impl Metrics {
    pub fn new() -> (r: Metrics)
        ensures
            r.completed == 0,
            r.avg_latency_ms == 0,
    {
        Metrics { completed: 0, avg_latency_ms: 0 }
    }

    /// Records one completed probe, success or failure alike: the counter
    /// grows by one and the latency estimate is smoothed with the incoming
    /// latency.
    pub fn record(&mut self, latency_ms: u64)
        requires
            old(self).completed < u64::MAX,
            old(self).avg_latency_ms + latency_ms <= u64::MAX,
        ensures
            final(self).completed == old(self).completed + 1,
            final(self).avg_latency_ms == smoothed(old(self).avg_latency_ms, latency_ms),
    {
        self.completed = self.completed + 1;
        self.avg_latency_ms = if self.avg_latency_ms == 0 {
            latency_ms
        } else {
            (self.avg_latency_ms + latency_ms) / 2
        };
    }
}

} // verus!
