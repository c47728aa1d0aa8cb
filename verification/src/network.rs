//! The network orchestrator: owns the stations, the shared queue pool and
//! the event queue, and runs the main simulation loop.
//!
//! The loop pops the earliest pending event; once a popped event's time
//! reaches the horizon, that event is discarded and the run ends. An arrival
//! is dispatched to its block's arrival handler, a departure to its
//! completion handler; after a departure the block's router is consulted and,
//! if it names a next hop, an arrival is scheduled there at the same virtual
//! time. Every dispatched event is appended to a trace, the read-only
//! per-step observation record; dispatching never mutates it otherwise, so
//! observation cannot affect the outcome.

use vstd::prelude::*;

use crate::blocks::{Block, BlockStats};
use crate::distributions::Distribution;
use crate::events::{lemma_extended_keeps_floor, Event, EventQueue, EventType};
use crate::queues::shared::SharedQueuePool;
use crate::routers::Router;
use crate::stats::{bump, Ratio};
use crate::weighted_average::{
    duration, duration_spec, times_sorted, weighted_average, weighted_total_spec,
};
use crate::BlockId;
use crate::SimError;

verus! {

/// The first recorded creation time of a work item, if it was recorded.
pub open spec fn start_of(starts: Seq<(usize, u64)>, item: usize) -> Option<u64>
    decreases starts.len(),
{
    if starts.len() == 0 {
        None
    } else if starts[0].0 == item {
        Some(starts[0].1)
    } else {
        start_of(starts.drop_first(), item)
    }
}

/// The summed sojourn times of the first `n` disposed items whose creation
/// was recorded no later than their disposal.
pub open spec fn total_sojourn(starts: Seq<(usize, u64)>, ends: Seq<(usize, u64)>, n: int) -> int
    decreases n,
{
    if n <= 0 {
        0
    } else {
        total_sojourn(starts, ends, n - 1) + match start_of(starts, ends[n - 1].0) {
            Some(s) => if s <= ends[n - 1].1 {
                ends[n - 1].1 - s
            } else {
                0
            },
            None => 0,
        }
    }
}

/// How many of the first `n` disposed items have a recorded creation no
/// later than their disposal: the completed round trips.
pub open spec fn completed_count(starts: Seq<(usize, u64)>, ends: Seq<(usize, u64)>, n: int) -> int
    decreases n,
{
    if n <= 0 {
        0
    } else {
        completed_count(starts, ends, n - 1) + match start_of(starts, ends[n - 1].0) {
            Some(s) => if s <= ends[n - 1].1 {
                1int
            } else {
                0int
            },
            None => 0int,
        }
    }
}

/// How many startup events the first `n` blocks seed between them.
pub open spec fn seed_count_upto<D: Distribution>(s: Seq<Block<D>>, n: int) -> int
    decreases n,
{
    if n <= 0 {
        0
    } else {
        seed_count_upto(s, n - 1) + s[n - 1].init_count()
    }
}

/// How many startup events the blocks seed between them.
pub open spec fn seed_count<D: Distribution>(s: Seq<Block<D>>) -> int {
    seed_count_upto(s, s.len() as int)
}

/// Why a fault was returned for the popped event `e`: each `SimError`
/// variant holds exactly the condition spec'd for it, read off the network
/// state the failing dispatch left untouched.
pub open spec fn fault_explained<D: Distribution>(
    blocks: Seq<Block<D>>,
    pool: SharedQueuePool,
    e: Event,
    f: SimError,
) -> bool {
    match f {
        SimError::UnknownBlock(id) => e.block == id && id >= blocks.len(),
        SimError::UnknownPoolMember(m) => e.block < blocks.len() && (blocks[
            e.block as int
        ] matches Block::Process(p) && p.queue_spec() == Some(
            crate::blocks::ServiceQueue::Shared(m),
        ) && m >= pool.members().len()),
        SimError::TimeRegression(id) => e.block < blocks.len() && (blocks[
            e.block as int
        ] matches Block::Process(p) && p.id_spec() == id && !p.shared_invalid(pool)
            && !p.ready_at(pool, e.time)),
        SimError::MissingItem(id) => e.block < blocks.len() && e.kind == EventType::Out && (blocks[
            e.block as int
        ] matches Block::Process(p) && p.id_spec() == id && !p.shared_invalid(pool) && p.ready_at(
            pool,
            e.time,
        ) && !p.devices_spec().contains(e.item)),
        SimError::BadRoute(id) => e.block < blocks.len() && e.kind == EventType::Out && (blocks[
            e.block as int
        ].router_of() matches Some(Router::ShortestQueue(sq)) && exists|i: int|
            0 <= i < sq.routes_spec().len() && sq.routes_spec()[i] == id && !sq.candidate_ok(
                blocks,
                pool,
                i,
            )),
    }
}

/// Law: backpressure needs a service station. In a registry without one —
/// sources feeding sinks — no admission fault can arise: the only faults a
/// run can return are configuration faults (an unknown block id, a bad
/// routing candidate). Together with the sink's contract — an arrival at a
/// sink is always accepted and counted — a source-to-sink network never
/// rejects a work item.
pub proof fn lemma_backpressure_needs_a_service_station<D: Distribution>(
    blocks: Seq<Block<D>>,
    pool: SharedQueuePool,
    e: Event,
    f: SimError,
)
    requires
        forall|j: int| 0 <= j < blocks.len() ==> !((#[trigger] blocks[j]) matches Block::Process(
            _,
        )),
        fault_explained(blocks, pool, e, f),
    ensures
        f matches SimError::UnknownBlock(_) || f matches SimError::BadRoute(_),
{
}

/// The network-wide statistics: the time-weighted average number of items in
/// the system, and the mean sojourn time of a disposed item, both exact.
#[derive(Clone, Copy, Debug, PartialEq, Eq, Structural)]
pub struct QueueNetworkStats {
    pub average_event_count: Ratio,
    pub average_event_duration: Ratio,
}

/// A queueing network: the block registry, the shared queue pool, the
/// pending events, and the bookkeeping that feeds the network statistics. A
/// block's identifier is its index in the registry.
pub struct QueueNetwork<D> {
    blocks: Vec<Block<D>>,
    shared: SharedQueuePool,
    event_queue: EventQueue,
    trace: Vec<Event>,
    stopped: Option<Event>,
    event_count: usize,
    event_counts: Vec<(u64, usize)>,
    starts: Vec<(usize, u64)>,
    ends: Vec<(usize, u64)>,
    next_item: usize,
}

impl<D: Distribution> QueueNetwork<D> {
    /// The block registry; a block's id is its index here.
    pub closed spec fn blocks_spec(self) -> Seq<Block<D>> {
        self.blocks@
    }

    /// The shared queue pool the service stations may draw on.
    pub closed spec fn pool_spec(self) -> SharedQueuePool {
        self.shared
    }

    /// The pending events.
    pub closed spec fn pending_spec(self) -> Seq<Event> {
        self.event_queue@
    }

    /// The dispatched events, in dispatch order: the observation record.
    pub closed spec fn trace_spec(self) -> Seq<Event> {
        self.trace@
    }

    /// The popped event the last run ended on: the event the horizon
    /// discarded, or the event whose dispatch faulted; `None` when the run
    /// drained the queue or stopped at the step budget.
    pub closed spec fn stopped_spec(self) -> Option<Event> {
        self.stopped
    }

    /// How many events have ever been popped from the pending queue.
    pub closed spec fn consumed_spec(self) -> int {
        self.event_queue.consumed_spec()
    }

    /// How many events have ever been scheduled on the pending queue.
    pub closed spec fn scheduled_spec(self) -> int {
        self.event_queue.scheduled_spec()
    }

    /// The number of work items currently in the system.
    pub closed spec fn event_count_spec(self) -> usize {
        self.event_count
    }

    /// The `(time, items in system)` history behind the average count.
    pub closed spec fn counts_spec(self) -> Seq<(u64, usize)> {
        self.event_counts@
    }

    /// The recorded `(item, creation time)` pairs.
    pub closed spec fn starts_spec(self) -> Seq<(usize, u64)> {
        self.starts@
    }

    /// The recorded `(item, disposal time)` pairs.
    pub closed spec fn ends_spec(self) -> Seq<(usize, u64)> {
        self.ends@
    }

    /// Well-formedness: every block and the pool are well-formed, every
    /// probability router can be consulted, and the count history is in time
    /// order.
    pub open spec fn wf(self) -> bool {
        &&& forall|j: int| 0 <= j < self.blocks_spec().len() ==> (#[trigger] self.blocks_spec()[j]).wf()
        &&& forall|j: int|
            0 <= j < self.blocks_spec().len() ==> router_wf(
                (#[trigger] self.blocks_spec()[j]).router_of(),
            )
        &&& self.pool_spec().wf()
        &&& times_sorted(self.counts_spec())
    }

    /// An empty network: no blocks, no shared queues, nothing pending.
    pub fn new() -> (n: QueueNetwork<D>)
        ensures
            n.wf(),
            n.blocks_spec() == Seq::<Block<D>>::empty(),
            n.pool_spec().members() == Seq::<crate::queues::regular::RegularQueue>::empty(),
            n.pending_spec() == Seq::<Event>::empty(),
            n.trace_spec() == Seq::<Event>::empty(),
            n.event_count_spec() == 0,
            n.counts_spec() == Seq::<(u64, usize)>::empty(),
    {
        QueueNetwork {
            blocks: Vec::new(),
            shared: SharedQueuePool::new(),
            event_queue: EventQueue::new(),
            trace: Vec::new(),
            stopped: None,
            event_count: 0,
            event_counts: Vec::new(),
            starts: Vec::new(),
            ends: Vec::new(),
            next_item: 0,
        }
    }

    /// Install the shared queue pool the service stations refer to.
    pub fn with_shared_pool(self, pool: SharedQueuePool) -> (n: QueueNetwork<D>)
        requires
            pool.wf(),
        ensures
            n.pool_spec() == pool,
            n.blocks_spec() == self.blocks_spec(),
            n.pending_spec() == self.pending_spec(),
            n.trace_spec() == self.trace_spec(),
            n.event_count_spec() == self.event_count_spec(),
            n.counts_spec() == self.counts_spec(),
            self.wf() ==> n.wf(),
    {
        let mut n = self;
        n.shared = pool;
        n
    }

    /// Register one more station. Its identifier must be the index it will
    /// occupy — the current block count — so that events name it correctly.
    pub fn add_block(self, block: Block<D>) -> (n: QueueNetwork<D>)
        requires
            block.wf(),
            router_wf(block.router_of()),
            block.id_spec() == self.blocks_spec().len(),
        ensures
            n.blocks_spec() == self.blocks_spec().push(block),
            n.pool_spec() == self.pool_spec(),
            n.pending_spec() == self.pending_spec(),
            n.trace_spec() == self.trace_spec(),
            n.event_count_spec() == self.event_count_spec(),
            n.counts_spec() == self.counts_spec(),
            self.wf() ==> n.wf(),
    {
        let mut n = self;
        n.blocks.push(block);
        n
    }

    /// Declare how many work items are already in the system when the run
    /// starts (items pre-seeded into queues and devices).
    pub fn set_event_count(&mut self, count: usize)
        requires
            old(self).wf(),
        ensures
            final(self).wf(),
            final(self).event_count_spec() == count,
            final(self).blocks_spec() == old(self).blocks_spec(),
            final(self).pool_spec() == old(self).pool_spec(),
            final(self).pending_spec() == old(self).pending_spec(),
            final(self).trace_spec() == old(self).trace_spec(),
            final(self).counts_spec() == old(self).counts_spec(),
    {
        self.event_count = count;
    }

    pub fn event_count(&self) -> (n: usize)
        ensures
            n == self.event_count_spec(),
    {
        self.event_count
    }

    pub fn block_count(&self) -> (n: usize)
        ensures
            n == self.blocks_spec().len(),
    {
        self.blocks.len()
    }

    /// The dispatched events in dispatch order: the per-step observation
    /// record, read-only by construction.
    pub fn trace(&self) -> (t: &Vec<Event>)
        ensures
            t@ == self.trace_spec(),
    {
        &self.trace
    }

    /// One station's statistics.
    pub fn block_stats(&self, id: BlockId) -> (s: BlockStats)
        requires
            self.wf(),
            id < self.blocks_spec().len(),
        ensures
            ({
                let b = self.blocks_spec()[id as int];
                match s {
                    BlockStats::Create(cs) => b matches Block::Create(c) && cs.created_events
                        == c.created(),
                    BlockStats::Process(ps) => b matches Block::Process(p) && ps.processed
                        == p.processed_spec() && ps.rejections == p.rejections_spec(),
                    BlockStats::Dispose(ds) => b matches Block::Dispose(d) && ds.disposed_events
                        == d.disposed(),
                }
            }),
    {
        self.blocks[id].stats(&self.shared)
    }

    /// The popped event the last run ended on: the event the horizon
    /// discarded, or the faulting event; `None` after a drained or
    /// budget-stopped run.
    pub fn stopped_at(&self) -> (e: Option<Event>)
        ensures
            e == self.stopped_spec(),
    {
        self.stopped
    }

    /// How many rebalancing transitions the shared pool has made.
    pub fn pool_transitions(&self) -> (n: u64)
        ensures
            n == self.pool_spec().transitions_spec(),
    {
        self.shared.transitions()
    }

    /// Run the simulation: seed every block's startup events, then dispatch
    /// pending events in virtual-time order until a popped event reaches the
    /// `horizon` (that event is discarded and recorded as `stopped_at`), the
    /// queue drains, or `max_steps` events have been dispatched. Returns
    /// whether the run completed within the step budget: `Ok(false)` exactly
    /// when `max_steps` events were dispatched first.
    ///
    /// The contract carries the kernel's core guarantees. Ordering: the
    /// events this call appends to the trace are in non-decreasing time
    /// order, all before the horizon, all naming registry blocks. Accounting:
    /// every event popped was either dispatched to the trace or is the one
    /// recorded stopping event, at least as many events were scheduled as the
    /// blocks seed on startup, and a completed run leaves pending only events
    /// at or past the horizon. Faults: an `Err` names the popped event it
    /// stopped on, and that event exhibits exactly the fault returned.
    pub fn simulate(&mut self, horizon: u64, max_steps: usize) -> (r: Result<bool, SimError>)
        requires
            old(self).wf(),
        ensures
            final(self).wf(),
            final(self).blocks_spec().len() == old(self).blocks_spec().len(),
            final(self).trace_spec().len() >= old(self).trace_spec().len(),
            final(self).trace_spec().subrange(0, old(self).trace_spec().len() as int) == old(self).trace_spec(),
            forall|i: int, j: int|
                old(self).trace_spec().len() <= i <= j < final(self).trace_spec().len()
                    ==> (#[trigger] final(self).trace_spec()[i]).time <= (#[trigger] final(self).trace_spec()[j]).time,
            forall|k: int|
                old(self).trace_spec().len() <= k < final(self).trace_spec().len()
                    ==> (#[trigger] final(self).trace_spec()[k]).time < horizon,
            forall|k: int|
                old(self).trace_spec().len() <= k < final(self).trace_spec().len()
                    ==> (#[trigger] final(self).trace_spec()[k]).block < final(self).blocks_spec().len(),
            r == Ok::<bool, SimError>(true) ==> forall|k: int|
                0 <= k < final(self).pending_spec().len() ==> (#[trigger] final(self).pending_spec()[k]).time >= horizon,
            r == Ok::<bool, SimError>(false) <==> final(self).trace_spec().len() - old(self).trace_spec().len() == max_steps,
            r == Ok::<bool, SimError>(true) && final(self).stopped_spec() is None ==> final(self).pending_spec().len() == 0,
            r == Ok::<bool, SimError>(false) ==> final(self).stopped_spec() is None,
            r == Ok::<bool, SimError>(true) ==> (final(self).stopped_spec() matches Some(e)
                ==> e.time >= horizon),
            r matches Err(f) ==> (final(self).stopped_spec() matches Some(e) && e.time < horizon
                && fault_explained(final(self).blocks_spec(), final(self).pool_spec(), e, f)),
            final(self).consumed_spec() - old(self).consumed_spec() == final(self).trace_spec().len() - old(self).trace_spec().len() + (if final(self).stopped_spec() is Some {
                1int
            } else {
                0int
            }),
            final(self).scheduled_spec() - old(self).scheduled_spec() >= seed_count(
                old(self).blocks_spec(),
            ),
    {
        proof {
            assert(self.trace@.subrange(0, old(self).trace_spec().len() as int) =~= old(self).trace_spec());
        }
        self.stopped = None;
        let mut i: usize = 0;
        while i < self.blocks.len()
            invariant
                self.wf(),
                i <= self.blocks@.len(),
                self.blocks@.len() == old(self).blocks_spec().len(),
                self.trace@ == old(self).trace_spec(),
                self.stopped_spec() is None,
                times_sorted(self.event_counts@),
                forall|j: int|
                    i <= j < self.blocks@.len() ==> self.blocks@[j] == old(self).blocks_spec()[j],
                self.event_queue.consumed_spec() == old(self).consumed_spec(),
                self.event_queue.scheduled_spec() == old(self).scheduled_spec() + seed_count_upto(
                    old(self).blocks_spec(),
                    i as int,
                ),
            decreases self.blocks@.len() - i,
        {
            let b = &mut self.blocks[i];
            b.init(&mut self.event_queue);
            i = i + 1;
        }
        proof {
            assert(self.event_queue.scheduled_spec() == old(self).scheduled_spec() + seed_count(
                old(self).blocks_spec(),
            ));
        }
        let ghost base = old(self).trace_spec().len() as int;
        let mut steps: usize = 0;
        loop
            invariant
                base == old(self).trace_spec().len(),
                self.wf(),
                self.blocks@.len() == old(self).blocks_spec().len(),
                base <= self.trace@.len(),
                self.trace@.subrange(0, base) == old(self).trace_spec(),
                forall|i2: int, j2: int|
                    base <= i2 <= j2 < self.trace@.len() ==> (#[trigger] self.trace@[i2]).time
                        <= (#[trigger] self.trace@[j2]).time,
                forall|k: int|
                    base <= k < self.trace@.len() ==> (#[trigger] self.trace@[k]).time < horizon,
                forall|k: int|
                    base <= k < self.trace@.len() ==> (#[trigger] self.trace@[k]).block
                        < self.blocks@.len(),
                self.trace@.len() > base ==> forall|k: int|
                    0 <= k < self.event_queue@.len() ==> (#[trigger] self.event_queue@[k]).time
                        >= self.trace@.last().time,
                self.stopped_spec() is None,
                steps == self.trace@.len() - base,
                steps <= max_steps,
                self.event_queue.consumed_spec() == old(self).consumed_spec() + self.trace@.len()
                    - base,
                self.event_queue.scheduled_spec() >= old(self).scheduled_spec() + seed_count(
                    old(self).blocks_spec(),
                ),
            decreases max_steps - steps,
        {
            if steps >= max_steps {
                return Ok(false);
            }
            let ghost pre_pop = self.event_queue@;
            let ev = match self.event_queue.pop() {
                Some(ev) => ev,
                None => {
                    return Ok(true);
                },
            };
            proof {
                crate::events::lemma_first_min_index_upto(pre_pop, pre_pop.len() as int);
                if self.trace@.len() > base {
                    assert(pre_pop[crate::events::first_min_index(pre_pop)].time
                        >= self.trace@.last().time);
                }
            }
            if ev.time >= horizon {
                self.stopped = Some(ev);
                return Ok(true);
            }
            if ev.block >= self.blocks.len() {
                self.stopped = Some(ev);
                return Err(SimError::UnknownBlock(ev.block));
            }
            let ghost after_pop = self.event_queue@;
            let ghost blocks_at = self.blocks@;
            match ev.kind {
                EventType::In => {
                    let b = &mut self.blocks[ev.block];
                    let res = b.process_in(ev.item, &mut self.shared, &mut self.event_queue, ev.time);
                    let accepted = match res {
                        Ok(accepted) => accepted,
                        Err(e) => {
                            proof {
                                assert(self.blocks@ =~= blocks_at);
                            }
                            self.stopped = Some(ev);
                            return Err(e);
                        },
                    };
                    let is_dispose = match &self.blocks[ev.block] {
                        Block::Dispose(_) => true,
                        _ => false,
                    };
                    let is_process = match &self.blocks[ev.block] {
                        Block::Process(_) => true,
                        _ => false,
                    };
                    if is_dispose {
                        if self.event_count > 0 {
                            self.event_count = self.event_count - 1;
                        }
                        self.record_count_sample(ev.time);
                        self.ends.push((ev.item, ev.time));
                    } else if accepted && is_process {
                        self.event_count = bump(self.event_count);
                        self.record_count_sample(ev.time);
                    }
                    proof {
                        lemma_extended_keeps_floor(after_pop, self.event_queue@, ev.time, ev.time);
                    }
                },
                EventType::Out => {
                    let hop: Option<BlockId> = match self.blocks[ev.block].router() {
                        Some(router) => {
                            match router.next(&self.blocks, &self.shared) {
                                Ok(h) => h,
                                Err(e) => {
                                    self.stopped = Some(ev);
                                    return Err(e);
                                },
                            }
                        },
                        None => None,
                    };
                    let b = &mut self.blocks[ev.block];
                    let completed = b.process_out(
                        ev.item,
                        &mut self.shared,
                        &mut self.event_queue,
                        ev.time,
                    );
                    match completed {
                        Ok(_) => {},
                        Err(e) => {
                            proof {
                                assert(self.blocks@ =~= blocks_at);
                            }
                            self.stopped = Some(ev);
                            return Err(e);
                        },
                    };
                    let is_create = match &self.blocks[ev.block] {
                        Block::Create(_) => true,
                        _ => false,
                    };
                    let routed_item: usize = if is_create {
                        let fresh = self.next_item;
                        self.next_item = bump(self.next_item);
                        self.starts.push((fresh, ev.time));
                        fresh
                    } else {
                        ev.item
                    };
                    let ghost after_handler = self.event_queue@;
                    proof {
                        lemma_extended_keeps_floor(after_pop, after_handler, ev.time, ev.time);
                    }
                    match hop {
                        Some(next) => {
                            self.event_queue.push(
                                Event {
                                    time: ev.time,
                                    block: next,
                                    kind: EventType::In,
                                    item: routed_item,
                                },
                            );
                            proof {
                                assert forall|k: int|
                                    0 <= k < self.event_queue@.len() implies (
                                #[trigger] self.event_queue@[k]).time >= ev.time by {
                                    if k < after_handler.len() {
                                        assert(self.event_queue@[k] == after_handler[k]);
                                    }
                                }
                            }
                        },
                        None => {},
                    }
                },
            }
            let ghost before_push = self.trace@;
            self.trace.push(ev);
            proof {
                assert forall|ix: int| 0 <= ix < base implies self.trace@[ix] == old(self).trace_spec()[ix] by {
                    assert(self.trace@[ix] == before_push[ix]);
                    assert(before_push.subrange(0, base)[ix] == before_push[ix]);
                }
                assert(self.trace@.subrange(0, base) =~= old(self).trace_spec());
            }
            steps = steps + 1;
        }
    }

    /// Append an `(time, items in system)` sample, keeping the history in
    /// time order (a sample that would step backwards is not recorded).
    fn record_count_sample(&mut self, t: u64)
        requires
            old(self).wf(),
        ensures
            final(self).wf(),
            final(self).blocks_spec() == old(self).blocks_spec(),
            final(self).pool_spec() == old(self).pool_spec(),
            final(self).pending_spec() == old(self).pending_spec(),
            final(self).consumed_spec() == old(self).consumed_spec(),
            final(self).stopped_spec() == old(self).stopped_spec(),
            final(self).trace_spec() == old(self).trace_spec(),
            final(self).event_count_spec() == old(self).event_count_spec(),
            final(self).starts_spec() == old(self).starts_spec(),
            final(self).ends_spec() == old(self).ends_spec(),
            duration_spec(old(self).counts_spec()) <= t ==> final(self).counts_spec() == old(self).counts_spec().push((t, old(self).event_count_spec())),
            duration_spec(old(self).counts_spec()) > t ==> final(self).counts_spec() == old(self).counts_spec(),
            duration_spec(final(self).counts_spec()) <= if duration_spec(old(self).counts_spec())
                > t {
                duration_spec(old(self).counts_spec())
            } else {
                t as int
            },
    {
        let last = duration(&self.event_counts);
        if last <= t {
            self.event_counts.push((t, self.event_count));
        }
    }

    /// The network statistics: the time-weighted average number of items in
    /// the system over the observed span, and the mean sojourn time of the
    /// disposed items whose creation was observed.
    pub fn stats(&self) -> (s: QueueNetworkStats)
        requires
            self.wf(),
        ensures
            duration_spec(self.counts_spec()) > 0 ==> s.average_event_count == (Ratio {
                num: weighted_total_spec(self.counts_spec()) as u128,
                den: duration_spec(self.counts_spec()) as u128,
            }),
            self.counts_spec().len() == 0 ==> s.average_event_count == (Ratio { num: 0, den: 1 }),
            self.counts_spec().len() > 0 && duration_spec(self.counts_spec()) == 0
                ==> s.average_event_count == (Ratio {
                num: self.counts_spec().last().1 as u128,
                den: 1,
            }),
            completed_count(self.starts_spec(), self.ends_spec(), self.ends_spec().len() as int)
                > 0 ==> s.average_event_duration == (Ratio {
                num: total_sojourn(
                    self.starts_spec(),
                    self.ends_spec(),
                    self.ends_spec().len() as int,
                ) as u128,
                den: completed_count(
                    self.starts_spec(),
                    self.ends_spec(),
                    self.ends_spec().len() as int,
                ) as u128,
            }),
            completed_count(self.starts_spec(), self.ends_spec(), self.ends_spec().len() as int)
                == 0 ==> s.average_event_duration == (Ratio { num: 0, den: 1 }),
    {
        let (total, completed) = self.sojourn_totals();
        QueueNetworkStats {
            average_event_count: weighted_average(&self.event_counts),
            average_event_duration: if completed == 0 {
                Ratio::whole(0)
            } else {
                Ratio::new(total, completed as u128)
            },
        }
    }

    /// The creation time first recorded for `item`, if any.
    fn find_start(&self, item: usize) -> (r: Option<u64>)
        ensures
            r == start_of(self.starts_spec(), item),
    {
        let mut i: usize = 0;
        proof {
            assert(self.starts@.subrange(0, self.starts@.len() as int) =~= self.starts@);
        }
        while i < self.starts.len()
            invariant
                i <= self.starts@.len(),
                start_of(self.starts@, item) == start_of(self.starts@.subrange(
                    i as int,
                    self.starts@.len() as int,
                ), item),
            decreases self.starts@.len() - i,
        {
            let (recorded, at) = self.starts[i];
            if recorded == item {
                return Some(at);
            }
            proof {
                assert(self.starts@.subrange(i as int, self.starts@.len() as int).drop_first()
                    =~= self.starts@.subrange(i as int + 1, self.starts@.len() as int));
            }
            i = i + 1;
        }
        proof {
            assert(self.starts@.subrange(
                self.starts@.len() as int,
                self.starts@.len() as int,
            ) =~= Seq::<(usize, u64)>::empty());
        }
        None
    }

    /// The summed sojourn times and the count of completed round trips.
    fn sojourn_totals(&self) -> (r: (u128, usize))
        ensures
            r.0 == total_sojourn(self.starts_spec(), self.ends_spec(), self.ends_spec().len() as int),
            r.1 == completed_count(
                self.starts_spec(),
                self.ends_spec(),
                self.ends_spec().len() as int,
            ),
    {
        let mut total: u128 = 0;
        let mut completed: usize = 0;
        let mut i: usize = 0;
        proof {
            lemma_sojourn_bounds(self.starts@, self.ends@, 0);
        }
        while i < self.ends.len()
            invariant
                i <= self.ends@.len(),
                total == total_sojourn(self.starts@, self.ends@, i as int),
                completed == completed_count(self.starts@, self.ends@, i as int),
            decreases self.ends@.len() - i,
        {
            proof {
                lemma_sojourn_bounds(self.starts@, self.ends@, i as int);
            }
            let (item, end) = self.ends[i];
            match self.find_start(item) {
                Some(start) => {
                    if start <= end {
                        proof {
                            lemma_sojourn_bounds(self.starts@, self.ends@, i as int + 1);
                            assert(total_sojourn(self.starts@, self.ends@, i as int + 1)
                                == total_sojourn(self.starts@, self.ends@, i as int) + (end
                                - start));
                            assert(completed_count(self.starts@, self.ends@, i as int + 1)
                                == completed_count(self.starts@, self.ends@, i as int) + 1);
                            assert(completed_count(self.starts@, self.ends@, i as int + 1)
                                <= self.ends@.len());
                        }
                        total = total + (end - start) as u128;
                        completed = completed + 1;
                    }
                },
                None => {},
            }
            i = i + 1;
        }
        (total, completed)
    }
}

/// A routing policy the orchestrator can always consult: a probability
/// router must carry a consistent weight total.
pub open spec fn router_wf(r: Option<Router>) -> bool {
    match r {
        Some(Router::Probability(p)) => p.wf(),
        _ => true,
    }
}

/// Sojourn sums stay within what `u128` holds: at most one `u64` span per
/// disposed item, and at most one completed trip per disposed item.
pub proof fn lemma_sojourn_bounds(starts: Seq<(usize, u64)>, ends: Seq<(usize, u64)>, n: int)
    requires
        0 <= n <= ends.len(),
    ensures
        0 <= total_sojourn(starts, ends, n) <= n * (u64::MAX as int),
        0 <= completed_count(starts, ends, n) <= n,
    decreases n,
{
    if n > 0 {
        lemma_sojourn_bounds(starts, ends, n - 1);
        assert((n - 1) * (u64::MAX as int) + u64::MAX as int == n * (u64::MAX as int))
            by (nonlinear_arith);
    } else {
        assert(0int * (u64::MAX as int) == 0) by (nonlinear_arith);
    }
}

} // verus!
