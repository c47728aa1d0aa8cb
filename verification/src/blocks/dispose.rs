//! The sink station: disposes of work items that leave the network.

use vstd::prelude::*;

use crate::stats::{bump, bump_spec};
use crate::BlockId;

verus! {

/// A station that disposes of arriving work items. It only counts them: it
/// has no queue, no devices, no outbound routing and no departure handling,
/// so it can never reject an arrival.
pub struct DisposeBlock {
    id: BlockId,
    disposed_events: usize,
}

/// The statistics of a sink: how many work items it has disposed of.
#[derive(Clone, Copy, Debug, PartialEq, Eq, Structural)]
pub struct DisposeBlockStats {
    pub disposed_events: usize,
}

impl DisposeBlock {
    /// The station's identifier in the network.
    pub closed spec fn id_spec(self) -> BlockId {
        self.id
    }

    /// How many work items this sink has disposed of.
    pub closed spec fn disposed(self) -> usize {
        self.disposed_events
    }

    /// A sink with its identifier.
    pub fn new(id: BlockId) -> (b: DisposeBlock)
        ensures
            b.id_spec() == id,
            b.disposed() == 0,
    {
        DisposeBlock { id, disposed_events: 0 }
    }

    pub fn id(&self) -> (r: BlockId)
        ensures
            r == self.id_spec(),
    {
        self.id
    }

    /// Handle an arriving work item: dispose of it. A sink always accepts.
    pub fn process_in(&mut self)
        ensures
            final(self).id_spec() == old(self).id_spec(),
            final(self).disposed() == bump_spec(old(self).disposed()),
    {
        self.disposed_events = bump(self.disposed_events);
    }

    /// The sink's statistics: its disposal count.
    pub fn stats(&self) -> (s: DisposeBlockStats)
        ensures
            s.disposed_events == self.disposed(),
    {
        DisposeBlockStats { disposed_events: self.disposed_events }
    }

    /// The sink's per-step snapshot, the same as its statistics.
    pub fn step_stats(&self) -> (s: DisposeBlockStats)
        ensures
            s.disposed_events == self.disposed(),
    {
        self.stats()
    }
}

} // verus!
