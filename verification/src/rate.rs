//! Rates of change of cumulative counters.

use vstd::prelude::*;

verus! {

/// A throughput in bytes per second. In the status message it is shown in
/// KiB/s: the number of bytes per second over 1024.
#[derive(Debug, Clone, Copy, PartialEq, Eq, Structural)]
pub struct Rate {
    /// Whole bytes per second
    pub bytes_per_second: u64,
}

impl Rate {
    /// The whole KiB in the rate per second.
    pub fn kib_per_second(&self) -> (kib: u64)
        ensures
            kib == self.bytes_per_second / 1024,
    {
        self.bytes_per_second / 1024
    }

    /// The bytes per second that the rate holds beyond its whole KiB.
    pub fn rest_bytes_per_second(&self) -> (rest: u64)
        ensures
            rest == self.bytes_per_second % 1024,
            self.bytes_per_second == 1024 * (self.bytes_per_second / 1024) + rest,
    {
        self.bytes_per_second % 1024
    }
}

/// The rate between the stored value `last` of a counter and its value
/// `current`, read `period` seconds later: none without a stored value, none
/// where the counter went back, else the difference over the period.
pub open spec fn rate_between(last: Option<u64>, current: u64, period: u64) -> Option<Rate> {
    match last {
        None => None,
        Some(baseline) => if current < baseline {
            None
        } else {
            Some(Rate { bytes_per_second: ((current - baseline) / (period as int)) as u64 })
        },
    }
}

/// Turns the values of one cumulative counter into rates.
#[derive(Debug, Clone, Copy, PartialEq, Eq, Structural)]
pub struct RateTracker {
    /// The value of the counter at the last update, if there was one
    pub last_value: Option<u64>,
}

impl RateTracker {
    /// A tracker that has seen no value yet.
    pub open spec fn fresh() -> RateTracker {
        RateTracker { last_value: None }
    }

    /// A tracker whose stored value is `baseline`.
    pub open spec fn at(baseline: u64) -> RateTracker {
        RateTracker { last_value: Some(baseline) }
    }

    /// The tracker after it was given `current`: the value is stored, whatever
    /// rate came out.
    pub open spec fn updated(self, current: u64) -> RateTracker {
        RateTracker { last_value: Some(current) }
    }

    /// The rate that the tracker gives for `current`, read `period` seconds
    /// after the stored value.
    pub open spec fn rate(self, current: u64, period: u64) -> Option<Rate> {
        rate_between(self.last_value, current, period)
    }

    /// Creates a tracker that has seen no value yet.
    pub fn new() -> (tracker: RateTracker)
        ensures
            tracker == RateTracker::fresh(),
    {
        RateTracker { last_value: None }
    }

    /// Stores `current` and returns the rate since the value stored before,
    /// over the `period` seconds that have passed since then.
    pub fn update(&mut self, current: u64, period: u64) -> (rate: Option<Rate>)
        requires
            period >= 1,
        ensures
            rate == old(self).rate(current, period),
            *final(self) == old(self).updated(current),
    {
        let rate = match self.last_value {
            None => None,
            Some(baseline) => if current < baseline {
                None
            } else {
                Some(Rate { bytes_per_second: (current - baseline) / period })
            },
        };
        self.last_value = Some(current);
        rate
    }

    /// The first value given to a tracker yields no rate, whatever the value.
    pub proof fn lemma_first_sample(current: u64, period: u64)
        requires
            period >= 1,
        ensures
            RateTracker::fresh().rate(current, period) is None,
            RateTracker::fresh().updated(current) == RateTracker::at(current),
    {
    }

    /// A value not below the stored one yields the difference over the period.
    pub proof fn lemma_monotonic_rate(baseline: u64, current: u64, period: u64)
        requires
            period >= 1,
            current >= baseline,
        ensures
            RateTracker::at(baseline).rate(current, period) == Some(
                Rate { bytes_per_second: ((current - baseline) / (period as int)) as u64 },
            ),
            (current - baseline) / (period as int) <= current - baseline,
            RateTracker::at(baseline).updated(current) == RateTracker::at(current),
    {
        assert((current - baseline) / (period as int) <= current - baseline) by (nonlinear_arith)
            requires
                current - baseline >= 0,
                period >= 1,
        ;
    }

    /// A value below the stored one yields no rate and becomes the stored
    /// value: the next value is measured against it.
    pub proof fn lemma_regression(baseline: u64, lower: u64, next: u64, period: u64)
        requires
            period >= 1,
            lower < baseline,
            next >= lower,
        ensures
            RateTracker::at(baseline).rate(lower, period) is None,
            RateTracker::at(baseline).updated(lower) == RateTracker::at(lower),
            RateTracker::at(baseline).updated(lower).rate(next, period) == Some(
                Rate { bytes_per_second: ((next - lower) / (period as int)) as u64 },
            ),
    {
    }

    /// No rate is negative and none exceeds the growth of the counter.
    pub proof fn lemma_rate_bounded(self, current: u64, period: u64)
        requires
            period >= 1,
        ensures
            match self.rate(current, period) {
                Some(rate) => self.last_value is Some && self.last_value.unwrap() <= current
                    && rate.bytes_per_second * period <= current - self.last_value.unwrap(),
                None => self.last_value is None || self.last_value.unwrap() > current,
            },
    {
        if self.last_value is Some && self.last_value.unwrap() <= current {
            let d = current - self.last_value.unwrap();
            assert(0 <= d / (period as int) <= d && (d / (period as int)) * period <= d)
                by (nonlinear_arith)
                requires
                    d >= 0,
                    period >= 1,
            ;
        }
    }
}

} // verus!
