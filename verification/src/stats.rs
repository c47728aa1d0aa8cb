//! Exact rational statistics values.
//!
//! The kernel never divides: a time-weighted average is reported as the pair
//! of its numerator and denominator, so every statistic is exact and a
//! division by zero cannot arise. Callers that want a decimal reading divide
//! outside the kernel.

use vstd::prelude::*;

verus! {

/// An exact non-negative rational, `num / den`.
///
/// A statistic with no meaningful denominator (no samples yet, or an empty
/// observation span) is reported with `den == 1`, never with `den == 0`.
#[derive(Clone, Copy, Debug, PartialEq, Eq, Structural)]
pub struct Ratio {
    pub num: u128,
    pub den: u128,
}

impl Ratio {
    /// The exact value `num / den`.
    pub fn new(num: u128, den: u128) -> (r: Ratio)
        requires
            den > 0,
        ensures
            r.num == num,
            r.den == den,
    {
        Ratio { num, den }
    }

    /// The degenerate statistic: a whole number reported over denominator 1.
    pub fn whole(num: u128) -> (r: Ratio)
        ensures
            r.num == num,
            r.den == 1,
    {
        Ratio { num, den: 1 }
    }
}

/// A statistics counter one higher, capped at the counter type's maximum.
/// Every kernel counter saturates rather than wrapping.
pub open spec fn bump_spec(x: usize) -> usize {
    if x < usize::MAX {
        (x + 1) as usize
    } else {
        x
    }
}

/// Count one more occurrence, saturating at the maximum.
pub fn bump(x: usize) -> (r: usize)
    ensures
        r == bump_spec(x),
{
    if x < usize::MAX {
        x + 1
    } else {
        x
    }
}

} // verus!
