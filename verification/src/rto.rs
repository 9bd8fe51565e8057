//! Retransmission-timeout estimation from observed round-trip samples,
//! following the RFC 6298 update rule in integer milliseconds: a smoothed
//! round-trip estimate, a variance estimate, and a timeout floored and
//! capped to avoid pathological values.

use vstd::prelude::*;

verus! {

/// Lower bound on the timeout handed out.
pub const RTO_MIN_MS: u64 = 200;

/// Upper bound on the timeout handed out.
pub const RTO_MAX_MS: u64 = 60_000;

/// Timeout used before the first round-trip sample arrives.
pub const RTO_INITIAL_MS: u64 = 1_000;

/// Clock granularity added on top of the smoothed estimate.
pub const RTO_GRANULARITY_MS: u64 = 1;

/// Largest round-trip sample the estimator accepts, in milliseconds.
pub const RTT_SAMPLE_MAX_MS: u64 = 0x100_0000_0000;

pub open spec fn abs_diff(a: int, b: int) -> int {
    if a >= b {
        a - b
    } else {
        b - a
    }
}

/// Smoothed estimate after a sample: `(7 * srtt + sample) / 8`.
pub open spec fn next_srtt(srtt: int, sample: int) -> int {
    (7 * srtt + sample) / 8
}

/// Variance estimate after a sample: `(3 * rttvar + |srtt - sample|) / 4`.
pub open spec fn next_rttvar(rttvar: int, srtt: int, sample: int) -> int {
    (3 * rttvar + abs_diff(srtt, sample)) / 4
}

/// The raw timeout before clamping: `srtt + max(granularity, 4 * rttvar)`.
pub open spec fn raw_rto(srtt: int, rttvar: int) -> int {
    if 4 * rttvar > RTO_GRANULARITY_MS {
        srtt + 4 * rttvar
    } else {
        srtt + RTO_GRANULARITY_MS
    }
}

/// The raw timeout clamped into `[RTO_MIN_MS, RTO_MAX_MS]`.
pub open spec fn clamp_rto(x: int) -> int {
    if x < RTO_MIN_MS {
        RTO_MIN_MS as int
    } else if x > RTO_MAX_MS {
        RTO_MAX_MS as int
    } else {
        x
    }
}

/// The estimator state after folding in one sample: the first sample seeds
/// `srtt = sample`, `rttvar = sample / 2` as RFC 6298 prescribes; later
/// samples follow the smoothing rules; the timeout is re-derived and
/// clamped either way.
pub open spec fn after_sample(c: RtoCalculator, sample: u64) -> RtoCalculator {
    let srtt = if c.has_sample {
        next_srtt(c.srtt as int, sample as int)
    } else {
        sample as int
    };
    let rttvar = if c.has_sample {
        next_rttvar(c.rttvar as int, c.srtt as int, sample as int)
    } else {
        sample as int / 2
    };
    RtoCalculator {
        srtt: srtt as u64,
        rttvar: rttvar as u64,
        rto: clamp_rto(raw_rto(srtt, rttvar)) as u64,
        has_sample: true,
    }
}

/// Per-connection retransmission-timeout state; owned by the send window
/// and discarded with it at connection teardown.
pub struct RtoCalculator {
    /// Smoothed round-trip-time estimate, milliseconds.
    pub srtt: u64,
    /// Round-trip-time variance estimate, milliseconds.
    pub rttvar: u64,
    /// Current timeout, milliseconds; always within the clamp bounds.
    pub rto: u64,
    /// Whether any sample has been recorded yet.
    pub has_sample: bool,
}

impl RtoCalculator {
    pub open spec fn wf(self) -> bool {
        &&& self.srtt <= RTT_SAMPLE_MAX_MS
        &&& self.rttvar <= RTT_SAMPLE_MAX_MS
        &&& RTO_MIN_MS <= self.rto <= RTO_MAX_MS
    }

    pub fn new() -> (r: RtoCalculator)
        ensures
            r.wf(),
            r.rto == RTO_INITIAL_MS,
            !r.has_sample,
            r.srtt == 0,
            r.rttvar == 0,
    {
        RtoCalculator { srtt: 0, rttvar: 0, rto: RTO_INITIAL_MS, has_sample: false }
    }

    /// Folds one measured round trip into the smoothed estimate and the
    /// variance, then refreshes the clamped timeout. The first sample seeds
    /// the estimator as RFC 6298 prescribes: `srtt = sample`,
    /// `rttvar = sample / 2`.
    pub fn record_sample(&mut self, sample_ms: u64)
        requires
            old(self).wf(),
            sample_ms <= RTT_SAMPLE_MAX_MS,
        ensures
            final(self).wf(),
            *final(self) == after_sample(*old(self), sample_ms),
            final(self).has_sample,
            !old(self).has_sample ==> {
                &&& final(self).srtt == sample_ms
                &&& final(self).rttvar == sample_ms / 2
            },
            old(self).has_sample ==> {
                &&& final(self).srtt == next_srtt(old(self).srtt as int, sample_ms as int)
                &&& final(self).rttvar == next_rttvar(
                    old(self).rttvar as int,
                    old(self).srtt as int,
                    sample_ms as int,
                )
            },
            final(self).rto == clamp_rto(raw_rto(final(self).srtt as int, final(self).rttvar as int)),
    {
        if !self.has_sample {
            self.srtt = sample_ms;
            self.rttvar = sample_ms / 2;
            self.has_sample = true;
        } else {
            let diff: u64 = if self.srtt >= sample_ms {
                self.srtt - sample_ms
            } else {
                sample_ms - self.srtt
            };
            self.rttvar = (3 * self.rttvar + diff) / 4;
            self.srtt = (7 * self.srtt + sample_ms) / 8;
        }
        let raw: u64 = if 4 * self.rttvar > RTO_GRANULARITY_MS {
            self.srtt + 4 * self.rttvar
        } else {
            self.srtt + RTO_GRANULARITY_MS
        };
        self.rto = if raw < RTO_MIN_MS {
            RTO_MIN_MS
        } else if raw > RTO_MAX_MS {
            RTO_MAX_MS
        } else {
            raw
        };
    }

    /// The timeout to apply to the next retransmission deadline.
    pub fn current_timeout(&self) -> (r: u64)
        requires
            self.wf(),
        ensures
            r == self.rto,
            RTO_MIN_MS <= r <= RTO_MAX_MS,
    {
        self.rto
    }
}

} // verus!
