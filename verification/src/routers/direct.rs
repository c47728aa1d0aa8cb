//! The fixed-target routing policy.

use vstd::prelude::*;

use crate::BlockId;

verus! {

/// Always routes to one fixed block.
pub struct DirectRouter {
    next: BlockId,
}

impl DirectRouter {
    /// A policy that always answers `next`.
    pub fn new(next: BlockId) -> (r: DirectRouter)
        ensures
            r.target_spec() == next,
    {
        DirectRouter { next }
    }

    /// The one target this policy answers.
    pub closed spec fn target_spec(self) -> BlockId {
        self.next
    }

    /// The next hop: always the fixed target.
    pub fn next(&self) -> (r: BlockId)
        ensures
            r == self.target_spec(),
    {
        self.next
    }
}

} // verus!
