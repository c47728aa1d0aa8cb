//! The shortest-queue routing policy.

use vstd::prelude::*;

use crate::blocks::Block;
use crate::distributions::Distribution;
use crate::queues::shared::{first_min, first_min_upto, lemma_first_min_upto, SharedQueuePool};
use crate::BlockId;
use crate::SimError;

verus! {

/// Routes to whichever of a fixed set of service stations currently has the
/// shortest queue, earliest-declared candidate first on ties.
pub struct ShortestQueueRouter {
    routes: Vec<BlockId>,
}

impl ShortestQueueRouter {
    /// The candidate stations, in declaration order.
    pub closed spec fn routes_spec(self) -> Seq<BlockId> {
        self.routes@
    }

    /// A policy over the given candidate stations. Every candidate must be a
    /// service station with a queue; that is checked when the policy is
    /// consulted, since the registry does not exist yet when the policy is
    /// built.
    pub fn new(routes: Vec<BlockId>) -> (r: ShortestQueueRouter)
        ensures
            r.routes_spec() == routes@,
    {
        ShortestQueueRouter { routes }
    }

    /// True when candidate `i` names a registry block that exposes a queue.
    pub open spec fn candidate_ok<D: Distribution>(
        self,
        blocks: Seq<Block<D>>,
        pool: SharedQueuePool,
        i: int,
    ) -> bool {
        &&& self.routes_spec()[i] < blocks.len()
        &&& blocks[self.routes_spec()[i] as int].queue_len_spec(pool) is Some
    }

    /// True when every candidate names a registry block with a queue.
    pub open spec fn candidates_ok<D: Distribution>(
        self,
        blocks: Seq<Block<D>>,
        pool: SharedQueuePool,
    ) -> bool {
        forall|i: int| 0 <= i < self.routes_spec().len() ==> self.candidate_ok(blocks, pool, i)
    }

    /// The candidates' queue lengths, in declaration order.
    pub open spec fn candidate_lens<D: Distribution>(
        self,
        blocks: Seq<Block<D>>,
        pool: SharedQueuePool,
    ) -> Seq<int> {
        Seq::new(
            self.routes_spec().len(),
            |i: int| blocks[self.routes_spec()[i] as int].queue_len_spec(pool).unwrap(),
        )
    }

    /// What `next` returns: with no candidates, no hop; with a bad candidate,
    /// a configuration fault naming it; otherwise the first candidate whose
    /// queue is shortest.
    pub open spec fn next_ensures<D: Distribution>(
        self,
        blocks: Seq<Block<D>>,
        pool: SharedQueuePool,
        r: Result<Option<BlockId>, SimError>,
    ) -> bool {
        if self.routes_spec().len() == 0 {
            r == Result::<Option<BlockId>, SimError>::Ok(None)
        } else if self.candidates_ok(blocks, pool) {
            r == Result::<Option<BlockId>, SimError>::Ok(
                Some(self.routes_spec()[first_min(self.candidate_lens(blocks, pool))]),
            )
        } else {
            exists|i: int|
                0 <= i < self.routes_spec().len() && !self.candidate_ok(blocks, pool, i) && r
                    == Result::<Option<BlockId>, SimError>::Err(
                    SimError::BadRoute(self.routes_spec()[i]),
                )
        }
    }

    /// The next hop: the first candidate station whose queue is currently
    /// shortest. A candidate missing from the registry or without a queue is
    /// a configuration fault.
    pub fn next<D: Distribution>(
        &self,
        blocks: &Vec<Block<D>>,
        pool: &SharedQueuePool,
    ) -> (r: Result<Option<BlockId>, SimError>)
        ensures
            self.next_ensures(blocks@, *pool, r),
    {
        if self.routes.len() == 0 {
            return Ok(None);
        }
        let mut i: usize = 0;
        while i < self.routes.len()
            invariant
                0 <= i <= self.routes_spec().len(),
                forall|j: int| 0 <= j < i ==> self.candidate_ok(blocks@, *pool, j),
            decreases self.routes_spec().len() - i,
        {
            let id = self.routes[i];
            if id >= blocks.len() {
                proof {
                    assert(!self.candidate_ok(blocks@, *pool, i as int));
                }
                return Err(SimError::BadRoute(id));
            }
            if blocks[id].queue_length(pool).is_none() {
                proof {
                    assert(!self.candidate_ok(blocks@, *pool, i as int));
                }
                return Err(SimError::BadRoute(id));
            }
            i = i + 1;
        }
        let ghost lens = self.candidate_lens(blocks@, *pool);
        proof {
            assert(self.candidate_ok(blocks@, *pool, 0));
        }
        let mut best: usize = 0;
        let mut best_len: usize = match blocks[self.routes[0]].queue_length(pool) {
            Some(n) => n,
            None => 0,
        };
        let mut j: usize = 1;
        while j < self.routes.len()
            invariant
                1 <= j <= self.routes_spec().len(),
                0 <= best < j,
                self.candidates_ok(blocks@, *pool),
                lens == self.candidate_lens(blocks@, *pool),
                lens.len() == self.routes_spec().len(),
                best == first_min_upto(lens, j as int),
                best_len == lens[best as int],
            decreases self.routes_spec().len() - j,
        {
            proof {
                assert(self.candidate_ok(blocks@, *pool, j as int));
            }
            let id = self.routes[j];
            let len = match blocks[id].queue_length(pool) {
                Some(n) => n,
                None => 0,
            };
            if len < best_len {
                best = j;
                best_len = len;
            }
            j = j + 1;
        }
        Ok(Some(self.routes[best]))
    }
}

} // verus!
