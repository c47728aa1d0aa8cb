//! The random-variate capability a station consumes.
//!
//! The kernel draws one delay per service or inter-arrival event and must
//! tolerate any implementation, so the trait's default promise is nothing at
//! all. An implementation may promise more by overriding `sample_post`: the
//! degenerate source below promises that every draw is its stored value, so
//! simulations built on it are fully deterministic. Each station is handed
//! its own source at construction; nothing ambient is consulted.

use vstd::prelude::*;

verus! {

/// A source of service or inter-arrival delays, measured in clock ticks.
/// Implementations may be stateful (a seeded generator) or constant.
pub trait Distribution: Sized {
    /// What one draw promises: `post` is the source afterwards, `r` the
    /// drawn delay. The default promises nothing, which is all a random
    /// source can say.
    open spec fn sample_post(self, post: Self, r: u64) -> bool {
        true
    }

    /// Draw the next delay, subject to this source's `sample_post` promise.
    fn sample(&mut self) -> (r: u64)
        ensures
            old(self).sample_post(*final(self), r),
    ;
}

/// The degenerate distribution: every draw returns the same delay.
pub struct Deterministic {
    value: u64,
}

impl Deterministic {
    /// A source whose every sample is `value` ticks.
    pub fn new(value: u64) -> (d: Deterministic)
        ensures
            d.value_spec() == value,
    {
        Deterministic { value }
    }

    /// The constant delay this source returns.
    pub closed spec fn value_spec(self) -> u64 {
        self.value
    }
}

impl Distribution for Deterministic {
    /// A deterministic source: the draw is its stored value, and drawing
    /// changes nothing.
    open spec fn sample_post(self, post: Self, r: u64) -> bool {
        r == self.value_spec() && post == self
    }

    fn sample(&mut self) -> (r: u64) {
        self.value
    }
}

} // verus!
