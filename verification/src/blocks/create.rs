//! The source station: creates work items on a stochastic schedule.

use vstd::prelude::*;

use crate::distributions::Distribution;
use crate::events::{at_delay, extended_at_or_after, Event, EventQueue, EventType};
use crate::routers::Router;
use crate::stats::{bump, bump_spec};
use crate::BlockId;

verus! {

/// A station that creates work items. On `init` it schedules its own first
/// departure at `first_at`; each departure counts one creation and schedules
/// the next one a freshly drawn inter-arrival delay later. A source has no
/// arrival handling; routing of the created item is the orchestrator's job.
pub struct CreateBlock<D> {
    id: BlockId,
    created_events: usize,
    first_at: u64,
    router: Router,
    distribution: D,
}

/// The statistics of a source: how many work items it has created.
#[derive(Clone, Copy, Debug, PartialEq, Eq, Structural)]
pub struct CreateBlockStats {
    pub created_events: usize,
}

impl<D: Distribution> CreateBlock<D> {
    /// The station's identifier in the network.
    pub closed spec fn id_spec(self) -> BlockId {
        self.id
    }

    /// How many work items this source has created.
    pub closed spec fn created(self) -> usize {
        self.created_events
    }

    /// When the first departure is scheduled.
    pub closed spec fn first_at_spec(self) -> u64 {
        self.first_at
    }

    /// The outbound routing policy.
    pub closed spec fn router_spec(self) -> Router {
        self.router
    }

    /// A source with its identifier, the time of its first departure, its
    /// routing policy and its inter-arrival delay source.
    pub fn new(id: BlockId, first_at: u64, router: Router, distribution: D) -> (b: CreateBlock<D>)
        ensures
            b.id_spec() == id,
            b.created() == 0,
            b.first_at_spec() == first_at,
            b.router_spec() == router,
    {
        CreateBlock { id, created_events: 0, first_at, router, distribution }
    }

    pub fn id(&self) -> (r: BlockId)
        ensures
            r == self.id_spec(),
    {
        self.id
    }

    pub fn router(&self) -> (r: &Router)
        ensures
            *r == self.router_spec(),
    {
        &self.router
    }

    /// Seed the event queue with this source's first departure.
    pub fn init(&self, eq: &mut EventQueue)
        ensures
            final(eq).consumed_spec() == old(eq).consumed_spec(),
            final(eq)@ == old(eq)@.push(
                Event {
                    time: self.first_at_spec(),
                    block: self.id_spec(),
                    kind: EventType::Out,
                    item: 0,
                },
            ),
    {
        eq.push(Event { time: self.first_at, block: self.id, kind: EventType::Out, item: 0 });
    }

    /// Handle this source's own departure at time `t`: count one creation
    /// and schedule the next departure one freshly drawn delay after `t`.
    pub fn process_out(&mut self, eq: &mut EventQueue, t: u64)
        ensures
            final(self).id_spec() == old(self).id_spec(),
            final(self).first_at_spec() == old(self).first_at_spec(),
            final(self).router_spec() == old(self).router_spec(),
            final(self).created() == bump_spec(old(self).created()),
            final(eq)@.len() == old(eq)@.len() + 1,
            final(eq).consumed_spec() == old(eq).consumed_spec(),
            extended_at_or_after(old(eq)@, final(eq)@, t),
            final(eq)@.last().block == old(self).id_spec(),
            final(eq)@.last().kind == EventType::Out,
            final(eq)@.last().item == 0,
            final(eq)@.last().time >= t,
    {
        let delay = self.distribution.sample();
        eq.push(
            Event { time: at_delay(t, delay), block: self.id, kind: EventType::Out, item: 0 },
        );
        self.created_events = bump(self.created_events);
        proof {
            assert(eq@.subrange(0, old(eq)@.len() as int) =~= old(eq)@);
        }
    }

    /// The source's statistics: its creation count.
    pub fn stats(&self) -> (s: CreateBlockStats)
        ensures
            s.created_events == self.created(),
    {
        CreateBlockStats { created_events: self.created_events }
    }

    /// The source's per-step snapshot, the same as its statistics.
    pub fn step_stats(&self) -> (s: CreateBlockStats)
        ensures
            s.created_events == self.created(),
    {
        self.stats()
    }
}

} // verus!
