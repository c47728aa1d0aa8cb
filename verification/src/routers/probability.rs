//! The weighted random routing policy.
//!
//! Weights are integers; a draw picks a uniform number below the weight
//! total and a cumulative scan selects the target whose window contains it,
//! so each target is chosen with probability `weight / total`. With a
//! positive total the scan always lands; a zero total routes nowhere.

use vstd::prelude::*;

use rand::Rng;

use crate::BlockId;

verus! {

/// The sum of the first `n` weights.
pub open spec fn cum_weight(s: Seq<(u64, BlockId)>, n: int) -> int
    decreases n,
{
    if n <= 0 {
        0
    } else {
        cum_weight(s, n - 1) + s[n - 1].0
    }
}

/// Weight prefix sums never decrease.
pub proof fn lemma_cum_weight_monotonic(s: Seq<(u64, BlockId)>, n: int, m: int)
    requires
        0 <= n <= m <= s.len(),
    ensures
        0 <= cum_weight(s, n) <= cum_weight(s, m),
    decreases m,
{
    if m > 0 {
        lemma_cum_weight_monotonic(s, if n <= m - 1 {
            n
        } else {
            m - 1
        }, m - 1);
    }
}

/// Routes to one of several weighted targets.
pub struct ProbabilityRouter {
    next: Vec<(u64, BlockId)>,
    total: u64,
}

impl ProbabilityRouter {
    /// The weighted targets, in declaration order.
    pub closed spec fn entries(self) -> Seq<(u64, BlockId)> {
        self.next@
    }

    /// The weight total every draw is taken below.
    pub closed spec fn total_spec(self) -> int {
        self.total as int
    }

    /// Well-formedness: the stored total is the sum of the weights.
    pub open spec fn wf(self) -> bool {
        self.total_spec() == cum_weight(self.entries(), self.entries().len() as int)
    }

    /// A policy over weighted targets. Each target is later drawn with
    /// probability `weight / total`; the weights need not be normalized. The
    /// summed weights must fit the weight type.
    pub fn new(next: Vec<(u64, BlockId)>) -> (r: ProbabilityRouter)
        requires
            cum_weight(next@, next@.len() as int) <= u64::MAX,
        ensures
            r.wf(),
            r.entries() == next@,
            r.total_spec() == cum_weight(next@, next@.len() as int),
    {
        let mut total: u64 = 0;
        let mut i: usize = 0;
        while i < next.len()
            invariant
                0 <= i <= next@.len(),
                total == cum_weight(next@, i as int),
                cum_weight(next@, next@.len() as int) <= u64::MAX,
            decreases next@.len() - i,
        {
            proof {
                lemma_cum_weight_monotonic(next@, i as int + 1, next@.len() as int);
            }
            total = total + next[i].0;
            i = i + 1;
        }
        ProbabilityRouter { next, total }
    }

    /// The target whose cumulative-weight window contains the draw `r`: the
    /// unique `j` with `cum(j) <= r < cum(j) + weight(j)`. A draw at or past
    /// the total falls through to `None`.
    pub fn pick(&self, r: u64) -> (res: Option<BlockId>)
        requires
            self.wf(),
        ensures
            r >= self.total_spec() ==> res is None,
            r < self.total_spec() ==> exists|j: int|
                #![trigger self.entries()[j]]
                {
                    &&& 0 <= j < self.entries().len()
                    &&& cum_weight(self.entries(), j) <= r < cum_weight(self.entries(), j)
                        + self.entries()[j].0
                    &&& res == Some(self.entries()[j].1)
                },
    {
        let mut sum: u64 = 0;
        let mut i: usize = 0;
        while i < self.next.len()
            invariant
                0 <= i <= self.next@.len(),
                sum == cum_weight(self.next@, i as int),
                r >= sum,
                self.wf(),
            decreases self.next@.len() - i,
        {
            proof {
                lemma_cum_weight_monotonic(self.next@, i as int + 1, self.next@.len() as int);
            }
            let (weight, target) = self.next[i];
            if r - sum < weight {
                return Some(target);
            }
            sum = sum + weight;
            i = i + 1;
        }
        None
    }

    /// The next hop: a fresh uniform draw below the weight total, resolved
    /// through `pick`. `None` only when every weight is zero.
    pub fn next(&self) -> (res: Option<BlockId>)
        requires
            self.wf(),
        ensures
            res is None ==> self.total_spec() == 0,
            res is Some ==> exists|j: int|
                0 <= j < self.entries().len() && (#[trigger] self.entries()[j]).1 == res.unwrap()
                    && self.entries()[j].0 > 0,
    {
        if self.total == 0 {
            return None;
        }
        let r = random_below(self.total);
        let res = self.pick(r);
        proof {
            let j = choose|j: int|
                #![trigger self.entries()[j]]
                {
                    &&& 0 <= j < self.entries().len()
                    &&& cum_weight(self.entries(), j) <= r < cum_weight(self.entries(), j)
                        + self.entries()[j].0
                    &&& res == Some(self.entries()[j].1)
                };
            assert(self.entries()[j].0 > 0);
        }
        res
    }
}

/// A uniform random draw in `[0, bound)`.
///
/// Relies on `rand::Rng::random_range` over the standard uniform integer
/// distribution: for a non-empty range it returns a value inside the range
/// and panics only on an empty one, which the precondition rules out.
/// Nothing further is assumed of the value.
#[verifier::external_body]
fn random_below(bound: u64) -> (r: u64)
    requires
        bound > 0,
    ensures
        r < bound,
{
    rand::rng().random_range(0..bound)
}

} // verus!
