//! The station kinds and their closed union.
//!
//! The set of station kinds is fixed — Source ("create"), Service
//! ("process"), Sink ("dispose") — so a network stores them as one tagged
//! union and every dispatch is a pattern match.

pub mod create;
pub mod dispose;
pub mod process;

use vstd::prelude::*;

use crate::distributions::Distribution;
use crate::devices::loaded_seq;
use crate::events::{extended_at_or_after, lemma_extended_refl, Event, EventQueue, EventType};
use crate::queues::shared::SharedQueuePool;
use crate::routers::Router;
use crate::stats::bump_spec;
use crate::BlockId;
use crate::SimError;

pub use create::{CreateBlock, CreateBlockStats};
pub use dispose::{DisposeBlock, DisposeBlockStats};
pub use process::{
    ProcessBlock, ProcessBlockStats, ProcessBlockStepStats, ServiceQueue,
};

verus! {

/// A station of the network: a source, a service station, or a sink. `D` is
/// the delay source its stochastic stations draw from.
pub enum Block<D> {
    Create(CreateBlock<D>),
    Process(ProcessBlock<D>),
    Dispose(DisposeBlock),
}

/// The final statistics of a station, by kind.
#[derive(Clone, Copy, Debug, PartialEq, Eq, Structural)]
pub enum BlockStats {
    Create(CreateBlockStats),
    Process(ProcessBlockStats),
    Dispose(DisposeBlockStats),
}

/// The per-step snapshot of a station, by kind.
#[derive(Clone, Copy, Debug, PartialEq, Eq, Structural)]
pub enum BlockStepStats {
    Create(CreateBlockStats),
    Process(ProcessBlockStepStats),
    Dispose(DisposeBlockStats),
}

/// Two blocks of the same kind: dispatch never changes what a station is.
pub open spec fn same_kind<D>(a: Block<D>, b: Block<D>) -> bool {
    match (a, b) {
        (Block::Create(_), Block::Create(_)) => true,
        (Block::Process(_), Block::Process(_)) => true,
        (Block::Dispose(_), Block::Dispose(_)) => true,
        _ => false,
    }
}

impl<D: Distribution> Block<D> {
    /// The station's identifier in the network.
    pub open spec fn id_spec(self) -> BlockId {
        match self {
            Block::Create(b) => b.id_spec(),
            Block::Process(b) => b.id_spec(),
            Block::Dispose(b) => b.id_spec(),
        }
    }

    /// Well-formedness of the station's resources.
    pub open spec fn wf(self) -> bool {
        match self {
            Block::Process(b) => b.wf(),
            _ => true,
        }
    }

    /// The station's outbound routing policy; a sink has none.
    pub open spec fn router_of(self) -> Option<Router> {
        match self {
            Block::Create(b) => Some(b.router_spec()),
            Block::Process(b) => Some(b.router_spec()),
            Block::Dispose(_) => None,
        }
    }

    /// The length of the station's waiting line: `Some` only for a service
    /// station whose line exists and, for a pool member, is known to the
    /// pool.
    pub open spec fn queue_len_spec(self, pool: SharedQueuePool) -> Option<int> {
        match self {
            Block::Process(b) => match b.queue_spec() {
                Option::Some(ServiceQueue::Regular(q)) => Some(q.contents().len() as int),
                Option::Some(ServiceQueue::Shared(m)) => if m < pool.members().len() {
                    Some(pool.members()[m as int].contents().len() as int)
                } else {
                    None
                },
                Option::None => None,
            },
            _ => None,
        }
    }

    pub fn id(&self) -> (r: BlockId)
        ensures
            r == self.id_spec(),
    {
        match self {
            Block::Create(b) => b.id(),
            Block::Process(b) => b.id(),
            Block::Dispose(b) => b.id(),
        }
    }

    /// The station's routing policy, consulted after each of its departures.
    pub fn router(&self) -> (r: Option<&Router>)
        ensures
            match r {
                Some(router) => self.router_of() == Some(*router),
                None => self.router_of() is None,
            },
    {
        match self {
            Block::Create(b) => Some(b.router()),
            Block::Process(b) => Some(b.router()),
            Block::Dispose(_) => None,
        }
    }

    /// The current length of the station's waiting line, if it has one.
    pub fn queue_length(&self, pool: &SharedQueuePool) -> (r: Option<usize>)
        ensures
            r is Some <==> self.queue_len_spec(*pool) is Some,
            r is Some ==> r.unwrap() == self.queue_len_spec(*pool).unwrap(),
    {
        match self {
            Block::Process(b) => b.queue_length(pool),
            _ => None,
        }
    }

    /// How many startup events the station seeds: a source's first
    /// departure, one departure per already-loaded device of a service
    /// station, nothing for a sink.
    pub open spec fn init_count(self) -> int {
        match self {
            Block::Create(_) => 1,
            Block::Process(b) => loaded_seq(b.devices_spec().holders()).len() as int,
            Block::Dispose(_) => 0,
        }
    }

    /// Seed the event queue with the station's startup events: a source's
    /// first departure, a service station's departures for items already on
    /// its devices, nothing for a sink.
    pub fn init(&mut self, eq: &mut EventQueue)
        requires
            old(self).wf(),
        ensures
            final(self).wf(),
            same_kind(*old(self), *final(self)),
            final(self).id_spec() == old(self).id_spec(),
            final(self).router_of() == old(self).router_of(),
            final(self).init_count() == old(self).init_count(),
            extended_at_or_after(old(eq)@, final(eq)@, 0),
            final(eq).consumed_spec() == old(eq).consumed_spec(),
            final(eq)@.len() == old(eq)@.len() + old(self).init_count(),
            *old(self) matches Block::Create(c) ==> *final(self) == *old(self) && final(eq)@
                == old(eq)@.push(
                Event {
                    time: c.first_at_spec(),
                    block: c.id_spec(),
                    kind: EventType::Out,
                    item: 0,
                },
            ),
            *old(self) matches Block::Dispose(_) ==> *final(self) == *old(self) && final(eq)@
                == old(eq)@,
            *old(self) matches Block::Process(p) ==> (*final(self) matches Block::Process(p2)
                && p2.devices_spec() == p.devices_spec() && p2.queue_spec() == p.queue_spec()
                && p2.processed_spec() == p.processed_spec() && p2.rejections_spec()
                == p.rejections_spec()) && (forall|k: int|
                old(eq)@.len() <= k < final(eq)@.len() ==> (#[trigger] final(eq)@[k]).block
                    == p.id_spec() && final(eq)@[k].kind == EventType::Out && final(eq)@[k].item
                    == loaded_seq(p.devices_spec().holders())[k - old(eq)@.len()]),
    {
        match self {
            Block::Create(b) => {
                b.init(eq);
                proof {
                    assert(eq@.subrange(0, old(eq)@.len() as int) =~= old(eq)@);
                }
            },
            Block::Process(b) => b.init(eq),
            Block::Dispose(_) => {
                proof {
                    lemma_extended_refl(old(eq)@, 0);
                }
            },
        }
    }

    /// Dispatch an arrival of `item` at time `t`. A sink disposes of it and
    /// always accepts; a service station serves, seats or rejects it; a
    /// source has no arrival handling and reports the item unaccepted.
    /// Returns whether the station accepted the item.
    pub fn process_in(
        &mut self,
        item: usize,
        pool: &mut SharedQueuePool,
        eq: &mut EventQueue,
        t: u64,
    ) -> (r: Result<bool, SimError>)
        requires
            old(self).wf(),
            old(pool).wf(),
        ensures
            final(self).wf(),
            final(pool).wf(),
            final(pool).members().len() == old(pool).members().len(),
            same_kind(*old(self), *final(self)),
            final(self).id_spec() == old(self).id_spec(),
            final(self).router_of() == old(self).router_of(),
            extended_at_or_after(old(eq)@, final(eq)@, t),
            final(eq).consumed_spec() == old(eq).consumed_spec(),
            *old(self) matches Block::Create(_) ==> r == Ok::<bool, SimError>(false) && *final(self) == *old(self) && *final(pool) == *old(pool) && final(eq)@ == old(eq)@,
            *old(self) matches Block::Dispose(d) ==> r == Ok::<bool, SimError>(true) && *final(pool) == *old(pool) && final(eq)@ == old(eq)@ && (*final(self) matches Block::Dispose(d2)
                && d2.disposed() == bump_spec(d.disposed())),
            r is Err ==> *final(self) == *old(self) && *final(pool) == *old(pool) && final(eq)@
                == old(eq)@,
            *old(self) matches Block::Process(p) ==> (r is Ok ==> (r == Ok::<bool, SimError>(true)
                <==> p.can_serve() || p.queue_admits(*old(pool)))),
            *old(self) matches Block::Process(p) ==> (r is Err <==> p.shared_invalid(*old(pool))
                || !p.ready_at(*old(pool), t)),
            *old(self) matches Block::Process(p) ==> (r == Err::<bool, SimError>(
                SimError::UnknownPoolMember(match p.queue_spec() {
                    Option::Some(ServiceQueue::Shared(m)) => m,
                    _ => 0,
                }),
            ) <==> p.shared_invalid(*old(pool))),
            *old(self) matches Block::Process(p) ==> (!p.shared_invalid(*old(pool)) ==> (r
                == Err::<bool, SimError>(SimError::TimeRegression(p.id_spec())) <==> !p.ready_at(
                *old(pool),
                t,
            ))),
    {
        proof {
            lemma_extended_refl(old(eq)@, t);
        }
        match self {
            Block::Create(_) => Ok(false),
            Block::Process(b) => b.process_in(item, pool, eq, t),
            Block::Dispose(b) => {
                b.process_in();
                Ok(true)
            },
        }
    }

    /// Dispatch a departure of `item` at time `t`. A source counts one
    /// creation and schedules its next departure; a service station
    /// completes the item's service and pulls the next waiting item in; a
    /// sink has no departures and does nothing.
    pub fn process_out(
        &mut self,
        item: usize,
        pool: &mut SharedQueuePool,
        eq: &mut EventQueue,
        t: u64,
    ) -> (r: Result<(), SimError>)
        requires
            old(self).wf(),
            old(pool).wf(),
        ensures
            final(self).wf(),
            final(pool).wf(),
            final(pool).members().len() == old(pool).members().len(),
            same_kind(*old(self), *final(self)),
            final(self).id_spec() == old(self).id_spec(),
            final(self).router_of() == old(self).router_of(),
            extended_at_or_after(old(eq)@, final(eq)@, t),
            final(eq).consumed_spec() == old(eq).consumed_spec(),
            *old(self) matches Block::Create(c) ==> r == Ok::<(), SimError>(()) && *final(pool)
                == *old(pool) && (*final(self) matches Block::Create(c2) && c2.created()
                == bump_spec(c.created())) && final(eq)@.len() == old(eq)@.len() + 1,
            *old(self) matches Block::Dispose(_) ==> r == Ok::<(), SimError>(()) && *final(self)
                == *old(self) && *final(pool) == *old(pool) && final(eq)@ == old(eq)@,
            r is Err ==> *final(self) == *old(self) && *final(pool) == *old(pool) && final(eq)@
                == old(eq)@,
            *old(self) matches Block::Process(p) ==> (r is Err <==> p.shared_invalid(*old(pool))
                || !p.ready_at(*old(pool), t) || !p.devices_spec().contains(item)),
            *old(self) matches Block::Process(p) ==> (r is Ok ==> (*final(self) matches
                Block::Process(p2) && p2.processed_spec() == bump_spec(p.processed_spec()))),
            *old(self) matches Block::Process(p) ==> (r == Err::<(), SimError>(
                SimError::UnknownPoolMember(match p.queue_spec() {
                    Option::Some(ServiceQueue::Shared(m)) => m,
                    _ => 0,
                }),
            ) <==> p.shared_invalid(*old(pool))),
            *old(self) matches Block::Process(p) ==> (!p.shared_invalid(*old(pool)) ==> (r
                == Err::<(), SimError>(SimError::TimeRegression(p.id_spec())) <==> !p.ready_at(
                *old(pool),
                t,
            ))),
            *old(self) matches Block::Process(p) ==> (!p.shared_invalid(*old(pool)) && p.ready_at(
                *old(pool),
                t,
            ) ==> (r == Err::<(), SimError>(SimError::MissingItem(p.id_spec()))
                <==> !p.devices_spec().contains(item))),
    {
        proof {
            lemma_extended_refl(old(eq)@, t);
        }
        match self {
            Block::Create(b) => {
                b.process_out(eq, t);
                Ok(())
            },
            Block::Process(b) => b.process_out(item, pool, eq, t),
            Block::Dispose(_) => Ok(()),
        }
    }

    /// The station's statistics, by kind.
    pub fn stats(&self, pool: &SharedQueuePool) -> (s: BlockStats)
        requires
            self.wf(),
            pool.wf(),
        ensures
            self matches Block::Create(b) ==> s matches BlockStats::Create(cs) && cs.created_events
                == b.created(),
            self matches Block::Dispose(b) ==> s matches BlockStats::Dispose(ds)
                && ds.disposed_events == b.disposed(),
            self matches Block::Process(b) ==> s matches BlockStats::Process(ps) && ps.processed
                == b.processed_spec() && ps.rejections == b.rejections_spec(),
    {
        match self {
            Block::Create(b) => BlockStats::Create(b.stats()),
            Block::Process(b) => BlockStats::Process(b.stats(pool)),
            Block::Dispose(b) => BlockStats::Dispose(b.stats()),
        }
    }

    /// The station's per-step snapshot, by kind.
    pub fn step_stats(&self, pool: &SharedQueuePool) -> (s: BlockStepStats)
        requires
            self.wf(),
            pool.wf(),
        ensures
            self matches Block::Create(b) ==> s matches BlockStepStats::Create(cs)
                && cs.created_events == b.created(),
            self matches Block::Dispose(b) ==> s matches BlockStepStats::Dispose(ds)
                && ds.disposed_events == b.disposed(),
            self matches Block::Process(b) ==> s matches BlockStepStats::Process(ps)
                && ps.processed == b.processed_spec() && ps.rejections == b.rejections_spec(),
    {
        match self {
            Block::Create(b) => BlockStepStats::Create(b.step_stats()),
            Block::Process(b) => BlockStepStats::Process(b.step_stats(pool)),
            Block::Dispose(b) => BlockStepStats::Dispose(b.step_stats()),
        }
    }
}

} // verus!
