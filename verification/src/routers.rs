//! Next-hop selection policies, consulted after a station finishes a
//! service: a fixed target, a weighted random choice, or the candidate with
//! the shortest queue.

pub mod direct;
pub mod probability;
pub mod shortest_queue;

use vstd::prelude::*;

use crate::blocks::Block;
use crate::distributions::Distribution;
use crate::queues::shared::SharedQueuePool;
use crate::BlockId;
use crate::SimError;

pub use direct::DirectRouter;
pub use probability::ProbabilityRouter;
pub use shortest_queue::ShortestQueueRouter;

verus! {

/// A station's outbound routing policy. The set of policies is closed, so
/// selection is a pattern match, not dynamic dispatch.
pub enum Router {
    Direct(DirectRouter),
    Probability(ProbabilityRouter),
    ShortestQueue(ShortestQueueRouter),
}

impl Router {
    /// Pick the next hop for a finished work item, reading (never changing)
    /// the block registry and the shared pool. `Ok(None)` means the item
    /// leaves the network. A shortest-queue candidate that is missing from
    /// the registry or lacks a queue is a configuration fault.
    pub fn next<D: Distribution>(
        &self,
        blocks: &Vec<Block<D>>,
        pool: &SharedQueuePool,
    ) -> (r: Result<Option<BlockId>, SimError>)
        requires
            match self {
                Router::Probability(p) => p.wf(),
                _ => true,
            },
        ensures
            match self {
                Router::Direct(d) => r == Result::<Option<BlockId>, SimError>::Ok(
                    Some(d.target_spec()),
                ),
                Router::Probability(p) => {
                    &&& (r is Ok ==> {
                        let hop = r.unwrap();
                        &&& (hop is None ==> p.total_spec() == 0)
                        &&& (hop is Some ==> exists|j: int|
                            0 <= j < p.entries().len() && (#[trigger] p.entries()[j]).1
                                == hop.unwrap() && p.entries()[j].0 > 0)
                    })
                    &&& r is Ok
                },
                Router::ShortestQueue(sq) => sq.next_ensures(blocks@, *pool, r),
            },
    {
        match self {
            Router::Direct(d) => Ok(Some(d.next())),
            Router::Probability(p) => Ok(p.next()),
            Router::ShortestQueue(sq) => sq.next(blocks, pool),
        }
    }
}

} // verus!
