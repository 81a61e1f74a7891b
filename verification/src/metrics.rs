//! The counters and gauges that the generator reports.

use vstd::prelude::*;

verus! {

/// How many identifiers one worker can issue in one millisecond.
pub const MAX_SEQUENCE_PER_MS: u64 = 4096;

/// One more than `n`; a counter that has reached the largest value stays there.
pub open spec fn bump(n: u64) -> u64 {
    if n < u64::MAX {
        (n + 1) as u64
    } else {
        n
    }
}

/// A counter after `k` increments.
pub open spec fn bump_by(n: u64, k: nat) -> u64 {
    if n + k <= u64::MAX {
        (n + k) as u64
    } else {
        u64::MAX
    }
}

/// What the generator has reported so far. The counters only grow; the gauges
/// hold the last value set.
#[derive(Clone, Copy, Debug, PartialEq, Eq)]
pub struct Metrics {
    /// Counter: identifiers issued.
    pub ids_generated_total: u64,
    /// Counter: requests that found the sequence of their millisecond used up.
    pub sequence_exhausted_total: u64,
    /// Gauge: the sequence number of the identifier issued last.
    pub current_sequence: u64,
    /// Gauge: the worker that the generator runs as.
    pub worker_id: u64,
    /// Gauge: `MAX_SEQUENCE_PER_MS`.
    pub max_sequence_per_ms: u64,
}

impl Metrics {
    /// The metrics after an identifier with the given sequence number was issued.
    pub open spec fn issued(self, sequence: u64) -> Metrics {
        Metrics {
            ids_generated_total: bump(self.ids_generated_total),
            current_sequence: sequence,
            ..self
        }
    }

    /// The metrics after a request found its millisecond used up.
    pub open spec fn exhausted(self) -> Metrics {
        Metrics { sequence_exhausted_total: bump(self.sequence_exhausted_total), ..self }
    }

    /// Fresh metrics for a worker: counters at zero, the two fixed gauges set.
    pub fn new(worker_id: u64) -> (metrics: Metrics)
        ensures
            metrics == (Metrics {
                ids_generated_total: 0,
                sequence_exhausted_total: 0,
                current_sequence: 0,
                worker_id,
                max_sequence_per_ms: MAX_SEQUENCE_PER_MS,
            }),
    {
        Metrics {
            ids_generated_total: 0,
            sequence_exhausted_total: 0,
            current_sequence: 0,
            worker_id,
            max_sequence_per_ms: MAX_SEQUENCE_PER_MS,
        }
    }

    /// Records that an identifier with the given sequence number was issued.
    pub fn record_issued(&mut self, sequence: u64)
        ensures
            *final(self) == old(self).issued(sequence),
    {
        if self.ids_generated_total < u64::MAX {
            self.ids_generated_total = self.ids_generated_total + 1;
        }
        self.current_sequence = sequence;
    }

    /// Records that a request found the sequence of its millisecond used up.
    pub fn record_exhausted(&mut self)
        ensures
            *final(self) == old(self).exhausted(),
    {
        if self.sequence_exhausted_total < u64::MAX {
            self.sequence_exhausted_total = self.sequence_exhausted_total + 1;
        }
    }
}

} // verus!
