//! The time-weighted statistics engine.
//!
//! Resources record an append-only history of `(time, value)` samples. The
//! value of sample `i` is taken to persist, right-continuously, until the
//! time of sample `i + 1` (step integration). The integral of that step
//! function is the weighted total; dividing it by the observed span gives the
//! time-weighted average, reported as an exact [`Ratio`].

use vstd::prelude::*;

use crate::stats::Ratio;

verus! {

/// True when the sample times never decrease.
pub open spec fn times_sorted(s: Seq<(u64, usize)>) -> bool {
    forall|i: int, j: int| 0 <= i <= j < s.len() ==> s[i].0 <= s[j].0
}

/// The contribution of segment `i`: the value of sample `i`, held from its
/// own time until the time of sample `i + 1`.
pub open spec fn segment(s: Seq<(u64, usize)>, i: int) -> int {
    (s[i + 1].0 - s[i].0) * s[i].1
}

/// The step integral over the first `n` segments of the history.
pub open spec fn step_integral(s: Seq<(u64, usize)>, n: int) -> int
    decreases n,
{
    if n <= 0 {
        0
    } else {
        step_integral(s, n - 1) + segment(s, n - 1)
    }
}

/// The step integral over the whole history: value `i` weighted by the time
/// that passes until sample `i + 1`. The last sample gets no weight.
pub open spec fn weighted_total_spec(s: Seq<(u64, usize)>) -> int {
    step_integral(s, s.len() - 1)
}

/// The time of the last sample, or zero for an empty history: the span over
/// which the history has been observed.
pub open spec fn duration_spec(s: Seq<(u64, usize)>) -> int {
    if s.len() == 0 {
        0
    } else {
        s.last().0 as int
    }
}

/// With sorted times every segment is non-negative, so the step integral can
/// only grow as segments are added.
pub proof fn lemma_step_integral_monotonic(s: Seq<(u64, usize)>, n: int, m: int)
    requires
        times_sorted(s),
        0 <= n <= m,
        m <= s.len() - 1,
    ensures
        0 <= step_integral(s, n) <= step_integral(s, m),
    decreases m,
{
    if m > 0 {
        assert(s[m - 1].0 <= s[m].0);
        assert(segment(s, m - 1) >= 0) by (nonlinear_arith)
            requires
                s[m].0 >= s[m - 1].0,
                s[m - 1].1 >= 0,
        ;
        lemma_step_integral_monotonic(s, 0, m - 1);
        if n <= m - 1 {
            lemma_step_integral_monotonic(s, n, m - 1);
        }
    }
}

/// Every segment weights a `usize` value by a `u64` time difference, and the
/// time differences telescope, so the whole integral fits in `u128`.
pub proof fn lemma_step_integral_bound(s: Seq<(u64, usize)>, n: int)
    requires
        times_sorted(s),
        0 <= n <= s.len() - 1,
    ensures
        step_integral(s, n) <= (s[n].0 - s[0].0) * usize::MAX,
    decreases n,
{
    if n == 0 {
        assert((s[0].0 - s[0].0) * usize::MAX == 0);
    } else {
        lemma_step_integral_bound(s, n - 1);
        assert(s[0].0 <= s[n - 1].0 <= s[n].0);
        assert(segment(s, n - 1) <= (s[n].0 - s[n - 1].0) * usize::MAX) by (nonlinear_arith)
            requires
                segment(s, n - 1) == (s[n].0 - s[n - 1].0) * s[n - 1].1,
                s[n - 1].0 <= s[n].0,
                0 <= s[n - 1].1 <= usize::MAX,
        ;
        assert((s[n - 1].0 - s[0].0) * usize::MAX + (s[n].0 - s[n - 1].0) * usize::MAX == (s[n].0
            - s[0].0) * usize::MAX) by (nonlinear_arith);
    }
}

/// The weighted total of any history with sorted times fits in `u128`.
pub proof fn lemma_weighted_total_fits(s: Seq<(u64, usize)>)
    requires
        times_sorted(s),
    ensures
        0 <= weighted_total_spec(s) <= u128::MAX,
{
    if s.len() <= 1 {
        assert(weighted_total_spec(s) == 0);
    } else {
        let n = s.len() - 1;
        lemma_step_integral_bound(s, n);
        lemma_step_integral_monotonic(s, 0, n);
        assert((s[n].0 - s[0].0) * usize::MAX <= u64::MAX as int * u64::MAX as int)
            by (nonlinear_arith)
            requires
                0 <= s[n].0 - s[0].0 <= u64::MAX,
                usize::MAX <= u64::MAX,
        ;
        assert(u64::MAX as int * u64::MAX as int <= u128::MAX) by (nonlinear_arith);
    }
}

/// The time of the last sample, or zero when there is none.
pub fn duration(samples: &Vec<(u64, usize)>) -> (r: u64)
    ensures
        r == duration_spec(samples@),
{
    if samples.len() == 0 {
        0
    } else {
        samples[samples.len() - 1].0
    }
}

/// The step integral of the whole history, computed exactly.
pub fn weighted_total(samples: &Vec<(u64, usize)>) -> (r: u128)
    requires
        times_sorted(samples@),
    ensures
        r == weighted_total_spec(samples@),
{
    proof {
        lemma_weighted_total_fits(samples@);
    }
    let mut total: u128 = 0;
    if samples.len() == 0 {
        return 0;
    }
    let mut i: usize = 0;
    while i < samples.len() - 1
        invariant
            times_sorted(samples@),
            weighted_total_spec(samples@) <= u128::MAX,
            weighted_total_spec(samples@) == step_integral(samples@, samples@.len() - 1),
            samples@.len() >= 1,
            0 <= i <= samples@.len() - 1,
            total == step_integral(samples@, i as int),
        decreases samples@.len() - 1 - i,
    {
        let (t0, v) = samples[i];
        let (t1, _) = samples[i + 1];
        assert(t0 <= t1);
        let dt: u128 = (t1 - t0) as u128;
        let val: u128 = v as u128;
        assert(dt * val == segment(samples@, i as int)) by (nonlinear_arith)
            requires
                dt == samples@[i as int + 1].0 - samples@[i as int].0,
                val == samples@[i as int].1,
        ;
        assert(dt * val <= u64::MAX as u128 * u64::MAX as u128) by (nonlinear_arith)
            requires
                0 <= dt <= u64::MAX,
                0 <= val <= u64::MAX,
        ;
        proof {
            lemma_step_integral_monotonic(samples@, i as int + 1, samples@.len() - 1);
            lemma_step_integral_monotonic(samples@, i as int, samples@.len() - 1);
        }
        total = total + dt * val;
        i = i + 1;
    }
    total
}

/// The time-weighted average of the history: the weighted total divided by
/// the observed span. A history whose span is empty reports its single known
/// value (or zero with no samples at all) rather than dividing by zero.
pub fn weighted_average(samples: &Vec<(u64, usize)>) -> (r: Ratio)
    requires
        times_sorted(samples@),
    ensures
        samples@.len() == 0 ==> r == (Ratio { num: 0, den: 1 }),
        samples@.len() > 0 && duration_spec(samples@) == 0 ==> r == (Ratio {
            num: samples@.last().1 as u128,
            den: 1,
        }),
        duration_spec(samples@) > 0 ==> r == (Ratio {
            num: weighted_total_spec(samples@) as u128,
            den: duration_spec(samples@) as u128,
        }),
{
    if samples.len() == 0 {
        return Ratio::whole(0);
    }
    let span = duration(samples);
    if span == 0 {
        let (_, last) = samples[samples.len() - 1];
        return Ratio::whole(last as u128);
    }
    proof {
        if samples@.len() >= 2 {
            lemma_step_integral_monotonic(samples@, 0, samples@.len() - 1);
        }
    }
    let total = weighted_total(samples);
    Ratio::new(total, span as u128)
}

} // verus!
