//! Rates derived from two samples of a cumulative counter.

use vstd::prelude::*;

verus! {

pub const NANOS_PER_SEC: u64 = 1000000000;

/// The increase of a cumulative counter over an interval, and the length of
/// that interval in nanoseconds. Its value is `delta / elapsed_nanos` bytes
/// per nanosecond; the interval is never zero.
#[derive(Clone, Copy, Debug, PartialEq, Eq, Structural)]
pub struct Rate {
    pub delta: u64,
    pub elapsed_nanos: u64,
}

/// The increase from `prev` to `curr`; a decrease (a counter reset) counts as
/// no increase.
pub open spec fn counter_delta(prev: u64, curr: u64) -> u64 {
    if curr >= prev {
        (curr - prev) as u64
    } else {
        0
    }
}

/// An elapsed time, floored to one nanosecond.
pub open spec fn floored_elapsed(elapsed_nanos: u64) -> u64 {
    if elapsed_nanos == 0 {
        1
    } else {
        elapsed_nanos
    }
}

/// The nanoseconds from `then` to `now`; none if the clock reads earlier.
pub open spec fn elapsed_between(then: u64, now: u64) -> u64 {
    if now >= then {
        (now - then) as u64
    } else {
        0
    }
}

/// The rate of a counter that went from `prev` to `curr` in `elapsed_nanos`.
pub open spec fn rate_of(prev: u64, curr: u64, elapsed_nanos: u64) -> Rate {
    Rate { delta: counter_delta(prev, curr), elapsed_nanos: floored_elapsed(elapsed_nanos) }
}

/// A rate in whole bytes per second, rounded down and capped at `u64::MAX`.
pub open spec fn whole_per_sec(r: Rate) -> u64 {
    let v = (r.delta as nat * NANOS_PER_SEC as nat) / (r.elapsed_nanos as nat);
    if v > u64::MAX {
        u64::MAX
    } else {
        v as u64
    }
}

impl Rate {
    pub open spec fn wf(self) -> bool {
        self.elapsed_nanos >= 1
    }

    /// The rate of a counter that did not move.
    pub fn zero() -> (r: Rate)
        ensures
            r == rate_of(0, 0, 1),
            r.wf(),
    {
        Rate { delta: 0, elapsed_nanos: 1 }
    }

    /// The rate in whole bytes per second, rounded down.
    pub fn bytes_per_sec(&self) -> (r: u64)
        requires
            self.wf(),
        ensures
            r == whole_per_sec(*self),
    {
        let x: u128 = (self.delta as u128) * (NANOS_PER_SEC as u128);
        let v: u128 = x / (self.elapsed_nanos as u128);
        if v > u64::MAX as u128 {
            u64::MAX
        } else {
            v as u64
        }
    }
}

/// The rate of a cumulative counter that read `prev` and, `elapsed_nanos`
/// later, `curr`. A counter that went down yields zero; a zero interval is
/// taken as one nanosecond.
pub fn rate(prev: u64, curr: u64, elapsed_nanos: u64) -> (r: Rate)
    ensures
        r == rate_of(prev, curr, elapsed_nanos),
        r.wf(),
{
    let delta = if curr >= prev {
        curr - prev
    } else {
        0
    };
    let elapsed = if elapsed_nanos == 0 {
        1
    } else {
        elapsed_nanos
    };
    Rate { delta, elapsed_nanos: elapsed }
}

/// For a counter that did not decrease, the rate is the increase over the
/// elapsed time: exactly `curr - prev` bytes in `elapsed_nanos` nanoseconds,
/// a non-negative value with a non-zero divisor.
pub proof fn lemma_rate_of_increase(prev: u64, curr: u64, elapsed_nanos: u64)
    requires
        curr >= prev,
        elapsed_nanos >= 1,
    ensures
        rate_of(prev, curr, elapsed_nanos).delta == curr - prev,
        rate_of(prev, curr, elapsed_nanos).elapsed_nanos == elapsed_nanos,
        rate_of(prev, curr, elapsed_nanos).wf(),
        whole_per_sec(rate_of(prev, curr, elapsed_nanos)) as int == if (curr - prev)
            * NANOS_PER_SEC / (elapsed_nanos as int) > u64::MAX as int {
            u64::MAX as int
        } else {
            (curr - prev) * NANOS_PER_SEC / (elapsed_nanos as int)
        },
{
}

/// A counter that went down (reset or wrapped) yields a rate of zero.
pub proof fn lemma_rate_of_reset(prev: u64, curr: u64, elapsed_nanos: u64)
    requires
        curr < prev,
    ensures
        rate_of(prev, curr, elapsed_nanos).delta == 0,
        whole_per_sec(rate_of(prev, curr, elapsed_nanos)) == 0,
{
}

/// Two equal readings yield a rate of zero however short the interval,
/// a zero interval included: the divisor is never zero.
pub proof fn lemma_rate_of_same_reading(total: u64, elapsed_nanos: u64)
    ensures
        rate_of(total, total, elapsed_nanos).delta == 0,
        rate_of(total, total, elapsed_nanos).elapsed_nanos >= 1,
        whole_per_sec(rate_of(total, total, elapsed_nanos)) == 0,
{
}

} // verus!
