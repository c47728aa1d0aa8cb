//! The service station: serves arriving work items on parallel devices,
//! parks them in an optional waiting line, and counts rejections when both
//! are exhausted.

use vstd::prelude::*;

use crate::devices::{
    average_workload_exact, loaded_rel, loaded_seq, unloaded_rel, Devices, DevicesStats,
    DevicesStepStats,
};
use crate::distributions::Distribution;
use crate::events::{at_delay, extended_at_or_after, Event, EventQueue, EventType};
use crate::queues::regular::{
    average_length_exact, dequeue_rel, enqueue_rel, QueueStats, QueueStepStats, RegularQueue,
};
use crate::queues::shared::{
    all_no_later_than, pool_dequeue_rel, pool_enqueue_rel, SharedQueuePool,
};
use crate::routers::Router;
use crate::stats::{bump, bump_spec, Ratio};
use crate::weighted_average::weighted_total_spec;
use crate::BlockId;
use crate::SimError;

verus! {

/// A service station's waiting line: its own bounded queue, or a member of
/// the network's shared pool, named by the member's index.
pub enum ServiceQueue {
    Regular(RegularQueue),
    Shared(usize),
}

/// Waiting lines of the same shape: the same kind, the same capacity, the
/// same pool member.
pub open spec fn queue_same_shape(a: Option<ServiceQueue>, b: Option<ServiceQueue>) -> bool {
    match (a, b) {
        (Option::None, Option::None) => true,
        (
            Option::Some(ServiceQueue::Regular(qa)),
            Option::Some(ServiceQueue::Regular(qb)),
        ) => qb.cap() == qa.cap(),
        (Option::Some(ServiceQueue::Shared(ma)), Option::Some(ServiceQueue::Shared(mb))) => ma
            == mb,
        _ => false,
    }
}

/// A station that serves work items: `count` parallel devices, an optional
/// waiting line, and a service-delay source. An arrival takes an idle device
/// at once, else a seat in the line, else it is rejected and dropped. A
/// completion frees its device and immediately re-occupies it with the next
/// waiting item, if any.
pub struct ProcessBlock<D> {
    id: BlockId,
    devices: Devices,
    queue: Option<ServiceQueue>,
    processed: usize,
    rejections: usize,
    router: Router,
    distribution: D,
}

/// The final statistics of a service station.
#[derive(Clone, Copy, Debug, PartialEq, Eq, Structural)]
pub struct ProcessBlockStats {
    pub processed: usize,
    pub rejections: usize,
    pub devices: DevicesStats,
    pub rejection_probability: Ratio,
    pub queue: Option<QueueStats>,
    pub average_waited_time: Ratio,
}

/// The per-step snapshot of a service station.
#[derive(Clone, Copy, Debug, PartialEq, Eq, Structural)]
pub struct ProcessBlockStepStats {
    pub processed: usize,
    pub rejections: usize,
    pub devices: DevicesStepStats,
    pub rejection_probability: Ratio,
    pub queue: Option<QueueStepStats>,
}

impl<D: Distribution> ProcessBlock<D> {
    /// The station's identifier in the network.
    pub closed spec fn id_spec(self) -> BlockId {
        self.id
    }

    /// The station's device pool.
    pub closed spec fn devices_spec(self) -> Devices {
        self.devices
    }

    /// The station's waiting line, if it has one.
    pub closed spec fn queue_spec(self) -> Option<ServiceQueue> {
        self.queue
    }

    /// How many service completions the station has counted.
    pub closed spec fn processed_spec(self) -> usize {
        self.processed
    }

    /// How many arrivals the station has rejected.
    pub closed spec fn rejections_spec(self) -> usize {
        self.rejections
    }

    /// The outbound routing policy.
    pub closed spec fn router_spec(self) -> Router {
        self.router
    }

    /// Well-formedness: at least one device, a well-formed device pool, and
    /// a well-formed own waiting line.
    pub open spec fn wf(self) -> bool {
        &&& self.devices_spec().count_spec() > 0
        &&& self.devices_spec().wf()
        &&& match self.queue_spec() {
            Option::Some(ServiceQueue::Regular(q)) => q.wf(),
            _ => true,
        }
    }

    /// True when the station's waiting line is a pool member that the pool
    /// does not have: a configuration fault.
    pub open spec fn shared_invalid(self, pool: SharedQueuePool) -> bool {
        match self.queue_spec() {
            Option::Some(ServiceQueue::Shared(m)) => m >= pool.members().len(),
            _ => false,
        }
    }

    /// True when acting at time `t` would not step any resource history
    /// backwards.
    pub open spec fn ready_at(self, pool: SharedQueuePool, t: u64) -> bool {
        &&& self.devices_spec().latest() <= t
        &&& match self.queue_spec() {
            Option::Some(ServiceQueue::Regular(q)) => q.latest() <= t,
            Option::Some(ServiceQueue::Shared(_)) => all_no_later_than(pool.members(), t),
            Option::None => true,
        }
    }

    /// True when an idle device can take an arrival at once.
    pub open spec fn can_serve(self) -> bool {
        self.devices_spec().idle_spec() > 0
    }

    /// True when the waiting line would seat one more arrival.
    pub open spec fn queue_admits(self, pool: SharedQueuePool) -> bool {
        match self.queue_spec() {
            Option::Some(ServiceQueue::Regular(q)) => q.spec_has_room(),
            Option::Some(ServiceQueue::Shared(m)) => m < pool.members().len()
                && pool.members()[m as int].spec_has_room(),
            Option::None => false,
        }
    }

    /// How many work items are waiting in the station's line.
    pub open spec fn backlog(self, pool: SharedQueuePool) -> int {
        match self.queue_spec() {
            Option::Some(ServiceQueue::Regular(q)) => q.contents().len() as int,
            Option::Some(ServiceQueue::Shared(m)) => if m < pool.members().len() {
                pool.members()[m as int].contents().len() as int
            } else {
                0
            },
            Option::None => 0,
        }
    }

    /// The station's configuration is unchanged: identity, routing, device
    /// count and waiting-line shape.
    pub open spec fn same_config(pre: ProcessBlock<D>, post: ProcessBlock<D>) -> bool {
        &&& post.id_spec() == pre.id_spec()
        &&& post.router_spec() == pre.router_spec()
        &&& post.devices_spec().count_spec() == pre.devices_spec().count_spec()
        &&& queue_same_shape(pre.queue_spec(), post.queue_spec())
    }

    /// A service station with its identifier, device pool, optional waiting
    /// line, routing policy and service-delay source. The pool must have at
    /// least one device.
    pub fn new(
        id: BlockId,
        devices: Devices,
        queue: Option<ServiceQueue>,
        router: Router,
        distribution: D,
    ) -> (b: ProcessBlock<D>)
        requires
            devices.wf(),
            devices.count_spec() > 0,
            match queue {
                Option::Some(ServiceQueue::Regular(q)) => q.wf(),
                _ => true,
            },
        ensures
            b.wf(),
            b.id_spec() == id,
            b.devices_spec() == devices,
            b.queue_spec() == queue,
            b.processed_spec() == 0,
            b.rejections_spec() == 0,
            b.router_spec() == router,
    {
        ProcessBlock { id, devices, queue, processed: 0, rejections: 0, router, distribution }
    }

    pub fn id(&self) -> (r: BlockId)
        ensures
            r == self.id_spec(),
    {
        self.id
    }

    pub fn router(&self) -> (r: &Router)
        ensures
            *r == self.router_spec(),
    {
        &self.router
    }

    pub fn processed(&self) -> (r: usize)
        ensures
            r == self.processed_spec(),
    {
        self.processed
    }

    pub fn rejections(&self) -> (r: usize)
        ensures
            r == self.rejections_spec(),
    {
        self.rejections
    }

    /// The current length of the station's waiting line, if it has one that
    /// the pool knows.
    pub fn queue_length(&self, pool: &SharedQueuePool) -> (r: Option<usize>)
        ensures
            match self.queue_spec() {
                Option::Some(ServiceQueue::Regular(q)) => r is Some && r.unwrap()
                    == q.contents().len(),
                Option::Some(ServiceQueue::Shared(m)) => if m < pool.members().len() {
                    r is Some && r.unwrap() == pool.members()[m as int].contents().len()
                } else {
                    r is None
                },
                Option::None => r is None,
            },
    {
        match &self.queue {
            Some(ServiceQueue::Regular(q)) => Some(q.length()),
            Some(ServiceQueue::Shared(m)) => {
                if *m < pool.member_count() {
                    Some(pool.length_of(*m))
                } else {
                    None
                }
            },
            None => None,
        }
    }

    /// True when acting at time `t` steps no resource history backwards.
    fn ready(&self, pool: &SharedQueuePool, t: u64) -> (r: bool)
        ensures
            r == self.ready_at(*pool, t),
    {
        if self.devices.latest_time() > t {
            return false;
        }
        match &self.queue {
            Some(ServiceQueue::Regular(q)) => q.latest_time() <= t,
            Some(ServiceQueue::Shared(_)) => pool.max_latest() <= t,
            None => true,
        }
    }

    /// Seed the event queue with a departure for every work item already
    /// loaded on a device when the simulation starts, each one service delay
    /// into the run: one `Out` event per loaded item, in slot order.
    pub fn init(&mut self, eq: &mut EventQueue)
        requires
            old(self).wf(),
        ensures
            final(self).wf(),
            Self::same_config(*old(self), *final(self)),
            final(self).devices_spec() == old(self).devices_spec(),
            final(self).queue_spec() == old(self).queue_spec(),
            final(self).processed_spec() == old(self).processed_spec(),
            final(self).rejections_spec() == old(self).rejections_spec(),
            extended_at_or_after(old(eq)@, final(eq)@, 0),
            final(eq).consumed_spec() == old(eq).consumed_spec(),
            final(eq)@.len() == old(eq)@.len() + loaded_seq(
                old(self).devices_spec().holders(),
            ).len(),
            forall|k: int|
                old(eq)@.len() <= k < final(eq)@.len() ==> (#[trigger] final(eq)@[k]).block == old(self).id_spec() && final(eq)@[k].kind == EventType::Out && final(eq)@[k].item
                    == loaded_seq(old(self).devices_spec().holders())[k - old(eq)@.len()],
    {
        proof {
            crate::events::lemma_extended_refl(old(eq)@, 0);
        }
        let items = self.devices.loaded_items();
        let mut i: usize = 0;
        while i < items.len()
            invariant
                extended_at_or_after(old(eq)@, eq@, 0),
                eq.consumed_spec() == old(eq).consumed_spec(),
                items@ == loaded_seq(old(self).devices_spec().holders()),
                0 <= i <= items@.len(),
                eq@.len() == old(eq)@.len() + i,
                forall|k: int|
                    old(eq)@.len() <= k < eq@.len() ==> (#[trigger] eq@[k]).block == self.id_spec()
                        && eq@[k].kind == EventType::Out && eq@[k].item == items@[k - old(
                        eq,
                    )@.len()],
                self.wf(),
                self.id_spec() == old(self).id_spec(),
                self.router_spec() == old(self).router_spec(),
                self.devices_spec() == old(self).devices_spec(),
                self.queue_spec() == old(self).queue_spec(),
                self.processed_spec() == old(self).processed_spec(),
                self.rejections_spec() == old(self).rejections_spec(),
            decreases items@.len() - i,
        {
            let delay = self.distribution.sample();
            eq.push(
                Event { time: delay, block: self.id, kind: EventType::Out, item: items[i] },
            );
            proof {
                assert(eq@.subrange(0, old(eq)@.len() as int) =~= old(eq)@);
            }
            i = i + 1;
        }
    }

    /// Handle a work item arriving at time `t`. If a device is idle the item
    /// occupies it at once and its departure is scheduled one freshly drawn
    /// delay later; otherwise, if the waiting line has room, the item joins
    /// it; otherwise the arrival is rejected — counted and dropped, never
    /// retried. Returns whether the item was accepted. Faults: an unknown
    /// pool member, or a time earlier than a resource history.
    pub fn process_in(
        &mut self,
        item: usize,
        pool: &mut SharedQueuePool,
        eq: &mut EventQueue,
        t: u64,
    ) -> (r: Result<bool, SimError>)
        requires
            old(self).wf(),
            old(pool).wf(),
        ensures
            final(self).wf(),
            final(pool).wf(),
            final(pool).members().len() == old(pool).members().len(),
            Self::same_config(*old(self), *final(self)),
            final(self).processed_spec() == old(self).processed_spec(),
            extended_at_or_after(old(eq)@, final(eq)@, t),
            final(eq).consumed_spec() == old(eq).consumed_spec(),
            r == Err::<bool, SimError>(SimError::UnknownPoolMember(match old(self).queue_spec() {
                Option::Some(ServiceQueue::Shared(m)) => m,
                _ => 0,
            })) <==> old(self).shared_invalid(*old(pool)),
            !old(self).shared_invalid(*old(pool)) ==> (r == Err::<bool, SimError>(
                SimError::TimeRegression(old(self).id_spec()),
            ) <==> !old(self).ready_at(*old(pool), t)),
            r is Err ==> *final(self) == *old(self) && *final(pool) == *old(pool) && final(eq)@
                == old(eq)@,
            r is Err <==> old(self).shared_invalid(*old(pool)) || !old(self).ready_at(
                *old(pool),
                t,
            ),
            r is Ok ==> (r == Ok::<bool, SimError>(true) <==> old(self).can_serve() || old(self).queue_admits(*old(pool))),
            r is Ok && old(self).can_serve() ==> {
                &&& loaded_rel(old(self).devices_spec(), final(self).devices_spec(), item, t)
                &&& final(self).queue_spec() == old(self).queue_spec()
                &&& final(self).rejections_spec() == old(self).rejections_spec()
                &&& *final(pool) == *old(pool)
                &&& final(eq)@.len() == old(eq)@.len() + 1
                &&& final(eq)@.last().block == old(self).id_spec()
                &&& final(eq)@.last().kind == EventType::Out
                &&& final(eq)@.last().item == item
                &&& final(eq)@.last().time >= t
            },
            r is Ok && !old(self).can_serve() && old(self).queue_admits(*old(pool)) ==> {
                &&& final(self).devices_spec() == old(self).devices_spec()
                &&& final(self).rejections_spec() == old(self).rejections_spec()
                &&& final(eq)@ == old(eq)@
                &&& match old(self).queue_spec() {
                    Option::Some(ServiceQueue::Regular(qa)) => {
                        &&& *final(pool) == *old(pool)
                        &&& final(self).queue_spec() matches Option::Some(
                            ServiceQueue::Regular(qb),
                        ) && enqueue_rel(qa, qb, item, t)
                    },
                    Option::Some(ServiceQueue::Shared(m)) => {
                        &&& final(self).queue_spec() == old(self).queue_spec()
                        &&& pool_enqueue_rel(*old(pool), *final(pool), m as int, item, t)
                    },
                    Option::None => false,
                }
            },
            r is Ok && !old(self).can_serve() && !old(self).queue_admits(*old(pool)) ==> {
                &&& final(self).devices_spec() == old(self).devices_spec()
                &&& final(self).queue_spec() == old(self).queue_spec()
                &&& final(self).rejections_spec() == bump_spec(old(self).rejections_spec())
                &&& *final(pool) == *old(pool)
                &&& final(eq)@ == old(eq)@
            },
    {
        proof {
            crate::events::lemma_extended_refl(old(eq)@, t);
        }
        if let Some(ServiceQueue::Shared(m)) = &self.queue {
            if *m >= pool.member_count() {
                return Err(SimError::UnknownPoolMember(*m));
            }
        }
        if !self.ready(pool, t) {
            return Err(SimError::TimeRegression(self.id));
        }
        if self.devices.idle() > 0 {
            self.devices.load(item, t);
            let delay = self.distribution.sample();
            eq.push(
                Event { time: at_delay(t, delay), block: self.id, kind: EventType::Out, item },
            );
            proof {
                assert(eq@.subrange(0, old(eq)@.len() as int) =~= old(eq)@);
            }
            return Ok(true);
        }
        match &mut self.queue {
            Some(ServiceQueue::Regular(q)) => {
                if q.has_room() {
                    q.enqueue(item, t);
                    Ok(true)
                } else {
                    self.rejections = bump(self.rejections);
                    Ok(false)
                }
            },
            Some(ServiceQueue::Shared(m)) => {
                if pool.has_room(*m) {
                    pool.enqueue(*m, item, t);
                    Ok(true)
                } else {
                    self.rejections = bump(self.rejections);
                    Ok(false)
                }
            },
            None => {
                self.rejections = bump(self.rejections);
                Ok(false)
            },
        }
    }

    /// Handle a service completion for `item` at time `t`: count it, free
    /// the device serving `item`, and if the waiting line is non-empty, move
    /// its front item onto the freed device at once and schedule that item's
    /// departure one freshly drawn delay later. Faults: an unknown pool
    /// member, a time earlier than a resource history, or a completion for
    /// an item no device is serving.
    #[verifier::rlimit(60)]
    pub fn process_out(
        &mut self,
        item: usize,
        pool: &mut SharedQueuePool,
        eq: &mut EventQueue,
        t: u64,
    ) -> (r: Result<(), SimError>)
        requires
            old(self).wf(),
            old(pool).wf(),
        ensures
            final(self).wf(),
            final(pool).wf(),
            final(pool).members().len() == old(pool).members().len(),
            Self::same_config(*old(self), *final(self)),
            extended_at_or_after(old(eq)@, final(eq)@, t),
            final(eq).consumed_spec() == old(eq).consumed_spec(),
            r == Err::<(), SimError>(SimError::UnknownPoolMember(match old(self).queue_spec() {
                Option::Some(ServiceQueue::Shared(m)) => m,
                _ => 0,
            })) <==> old(self).shared_invalid(*old(pool)),
            !old(self).shared_invalid(*old(pool)) ==> (r == Err::<(), SimError>(
                SimError::TimeRegression(old(self).id_spec()),
            ) <==> !old(self).ready_at(*old(pool), t)),
            !old(self).shared_invalid(*old(pool)) && old(self).ready_at(*old(pool), t) ==> (r
                == Err::<(), SimError>(SimError::MissingItem(old(self).id_spec())) <==> !old(self).devices_spec().contains(item)),
            r is Err ==> *final(self) == *old(self) && *final(pool) == *old(pool) && final(eq)@
                == old(eq)@,
            r is Err <==> old(self).shared_invalid(*old(pool)) || !old(self).ready_at(
                *old(pool),
                t,
            ) || !old(self).devices_spec().contains(item),
            r is Ok ==> {
                &&& old(self).ready_at(*old(pool), t)
                &&& !old(self).shared_invalid(*old(pool))
                &&& old(self).devices_spec().contains(item)
                &&& final(self).processed_spec() == bump_spec(old(self).processed_spec())
                &&& final(self).rejections_spec() == old(self).rejections_spec()
            },
            r is Ok && old(self).backlog(*old(pool)) == 0 ==> {
                &&& unloaded_rel(old(self).devices_spec(), final(self).devices_spec(), item, t)
                &&& final(self).queue_spec() == old(self).queue_spec()
                &&& *final(pool) == *old(pool)
                &&& final(eq)@ == old(eq)@
            },
            r is Ok && old(self).backlog(*old(pool)) > 0 ==> {
                let next = match old(self).queue_spec() {
                    Option::Some(ServiceQueue::Regular(qa)) => qa.contents()[0],
                    Option::Some(ServiceQueue::Shared(m)) => old(pool).members()[
                        m as int
                    ].contents()[0],
                    Option::None => 0,
                };
                &&& exists|freed: Devices|
                    #![trigger unloaded_rel(old(self).devices_spec(), freed, item, t)]
                    {
                        &&& unloaded_rel(old(self).devices_spec(), freed, item, t)
                        &&& loaded_rel(freed, final(self).devices_spec(), next, t)
                    }
                &&& final(eq)@.len() == old(eq)@.len() + 1
                &&& final(eq)@.last().block == old(self).id_spec()
                &&& final(eq)@.last().kind == EventType::Out
                &&& final(eq)@.last().item == next
                &&& final(eq)@.last().time >= t
                &&& match old(self).queue_spec() {
                    Option::Some(ServiceQueue::Regular(qa)) => {
                        &&& *final(pool) == *old(pool)
                        &&& final(self).queue_spec() matches Option::Some(
                            ServiceQueue::Regular(qb),
                        ) && dequeue_rel(qa, qb, t)
                    },
                    Option::Some(ServiceQueue::Shared(m)) => {
                        &&& final(self).queue_spec() == old(self).queue_spec()
                        &&& pool_dequeue_rel(*old(pool), *final(pool), m as int, t)
                    },
                    Option::None => false,
                }
            },
    {
        proof {
            crate::events::lemma_extended_refl(old(eq)@, t);
        }
        if let Some(ServiceQueue::Shared(m)) = &self.queue {
            if *m >= pool.member_count() {
                return Err(SimError::UnknownPoolMember(*m));
            }
        }
        if !self.ready(pool, t) {
            return Err(SimError::TimeRegression(self.id));
        }
        if !self.devices.has_item(item) {
            return Err(SimError::MissingItem(self.id));
        }
        self.processed = bump(self.processed);
        self.devices.unload(item, t);
        let ghost freed = self.devices;
        match &mut self.queue {
            Some(ServiceQueue::Regular(q)) => {
                if q.length() > 0 {
                    let next = q.dequeue(t);
                    self.devices.load(next, t);
                    let delay = self.distribution.sample();
                    eq.push(
                        Event {
                            time: at_delay(t, delay),
                            block: self.id,
                            kind: EventType::Out,
                            item: next,
                        },
                    );
                    proof {
                        assert(eq@.subrange(0, old(eq)@.len() as int) =~= old(eq)@);
                        assert(unloaded_rel(old(self).devices_spec(), freed, item, t));
                        assert(loaded_rel(freed, self.devices, next, t));
                    }
                }
            },
            Some(ServiceQueue::Shared(m)) => {
                if pool.length_of(*m) > 0 {
                    let next = pool.dequeue(*m, t);
                    self.devices.load(next, t);
                    let delay = self.distribution.sample();
                    eq.push(
                        Event {
                            time: at_delay(t, delay),
                            block: self.id,
                            kind: EventType::Out,
                            item: next,
                        },
                    );
                    proof {
                        assert(eq@.subrange(0, old(eq)@.len() as int) =~= old(eq)@);
                        assert(unloaded_rel(old(self).devices_spec(), freed, item, t));
                        assert(loaded_rel(freed, self.devices, next, t));
                    }
                }
            },
            None => {},
        }
        Ok(())
    }

    /// The station's statistics: counts, exact rejection probability, device
    /// utilization, waiting-line statistics, and the Little's-law estimate of
    /// the average time an item waited (line-length integral over completed
    /// services).
    pub fn stats(&self, pool: &SharedQueuePool) -> (s: ProcessBlockStats)
        requires
            self.wf(),
            pool.wf(),
        ensures
            s.processed == self.processed_spec(),
            s.rejections == self.rejections_spec(),
            rejection_probability_spec(self.rejections_spec(), self.processed_spec())
                == s.rejection_probability,
            s.devices.final_workload == (Ratio {
                num: self.devices_spec().busy_spec() as u128,
                den: self.devices_spec().count_spec() as u128,
            }),
            average_workload_exact(
                self.devices_spec().history(),
                self.devices_spec().count_spec(),
                s.devices.average_workload,
            ),
            match self.queue_spec() {
                Option::Some(ServiceQueue::Regular(q)) => s.queue matches Some(qs)
                    && qs.final_length == q.contents().len() && average_length_exact(
                    q.history(),
                    qs.average_length,
                ),
                Option::Some(ServiceQueue::Shared(m)) => if m < pool.members().len() {
                    s.queue matches Some(qs) && qs.final_length == pool.members()[
                        m as int
                    ].contents().len() && average_length_exact(
                        pool.members()[m as int].history(),
                        qs.average_length,
                    )
                } else {
                    s.queue is None
                },
                Option::None => s.queue is None,
            },
            ({
                let wt = match self.queue_spec() {
                    Option::Some(ServiceQueue::Regular(q)) => Some(
                        weighted_total_spec(q.history()),
                    ),
                    Option::Some(ServiceQueue::Shared(m)) => if m < pool.members().len() {
                        Some(weighted_total_spec(pool.members()[m as int].history()))
                    } else {
                        None::<int>
                    },
                    Option::None => None::<int>,
                };
                self.processed_spec() > 0 && wt is Some ==> s.average_waited_time == (Ratio {
                    num: wt.unwrap() as u128,
                    den: self.processed_spec() as u128,
                })
            }),
    {
        ProcessBlockStats {
            processed: self.processed,
            rejections: self.rejections,
            devices: self.devices.stats(),
            rejection_probability: rejection_probability(self.rejections, self.processed),
            queue: self.queue_stats(pool),
            average_waited_time: self.average_waited_time(pool),
        }
    }

    /// The station's per-step snapshot.
    pub fn step_stats(&self, pool: &SharedQueuePool) -> (s: ProcessBlockStepStats)
        requires
            self.wf(),
            pool.wf(),
        ensures
            s.processed == self.processed_spec(),
            s.rejections == self.rejections_spec(),
            rejection_probability_spec(self.rejections_spec(), self.processed_spec())
                == s.rejection_probability,
            s.devices.workload == (Ratio {
                num: self.devices_spec().busy_spec() as u128,
                den: self.devices_spec().count_spec() as u128,
            }),
            match self.queue_spec() {
                Option::Some(ServiceQueue::Regular(q)) => s.queue matches Some(qs) && qs.length
                    == q.contents().len(),
                Option::Some(ServiceQueue::Shared(m)) => if m < pool.members().len() {
                    s.queue matches Some(qs) && qs.length == pool.members()[
                        m as int
                    ].contents().len()
                } else {
                    s.queue is None
                },
                Option::None => s.queue is None,
            },
    {
        ProcessBlockStepStats {
            processed: self.processed,
            rejections: self.rejections,
            devices: self.devices.step_stats(),
            rejection_probability: rejection_probability(self.rejections, self.processed),
            queue: match &self.queue {
                Some(ServiceQueue::Regular(q)) => Some(q.step_stats()),
                Some(ServiceQueue::Shared(m)) => {
                    if *m < pool.member_count() {
                        Some(QueueStepStats { length: pool.length_of(*m) })
                    } else {
                        None
                    }
                },
                None => None,
            },
        }
    }

    /// The waiting line's statistics, if the station has a line the pool
    /// knows.
    fn queue_stats(&self, pool: &SharedQueuePool) -> (s: Option<QueueStats>)
        requires
            self.wf(),
            pool.wf(),
        ensures
            match self.queue_spec() {
                Option::Some(ServiceQueue::Regular(q)) => s matches Some(qs) && qs.final_length
                    == q.contents().len() && average_length_exact(q.history(), qs.average_length),
                Option::Some(ServiceQueue::Shared(m)) => if m < pool.members().len() {
                    s matches Some(qs) && qs.final_length == pool.members()[
                        m as int
                    ].contents().len() && average_length_exact(
                        pool.members()[m as int].history(),
                        qs.average_length,
                    )
                } else {
                    s is None
                },
                Option::None => s is None,
            },
    {
        match &self.queue {
            Some(ServiceQueue::Regular(q)) => Some(q.stats()),
            Some(ServiceQueue::Shared(m)) => {
                if *m < pool.member_count() {
                    Some(pool.stats_of(*m))
                } else {
                    None
                }
            },
            None => None,
        }
    }

    /// The Little's-law wait estimate: the line-length time integral divided
    /// by the number of completed services, zero while either is missing.
    fn average_waited_time(&self, pool: &SharedQueuePool) -> (r: Ratio)
        requires
            self.wf(),
            pool.wf(),
        ensures
            ({
                let wt = match self.queue_spec() {
                    Option::Some(ServiceQueue::Regular(q)) => Some(
                        weighted_total_spec(q.history()),
                    ),
                    Option::Some(ServiceQueue::Shared(m)) => if m < pool.members().len() {
                        Some(weighted_total_spec(pool.members()[m as int].history()))
                    } else {
                        None::<int>
                    },
                    Option::None => None::<int>,
                };
                self.processed_spec() > 0 && wt is Some ==> r == (Ratio {
                    num: wt.unwrap() as u128,
                    den: self.processed_spec() as u128,
                })
            }),
    {
        if self.processed == 0 {
            return Ratio::whole(0);
        }
        match &self.queue {
            Some(ServiceQueue::Regular(q)) => Ratio::new(
                q.weighted_total(),
                self.processed as u128,
            ),
            Some(ServiceQueue::Shared(m)) => {
                if *m < pool.member_count() {
                    Ratio::new(pool.weighted_total_of(*m), self.processed as u128)
                } else {
                    Ratio::whole(0)
                }
            },
            None => Ratio::whole(0),
        }
    }
}

/// The share of arrivals that were rejected, `rejections / (rejections +
/// processed)`, as an exact ratio; zero before any arrival was decided.
pub open spec fn rejection_probability_spec(rejections: usize, processed: usize) -> Ratio {
    if rejections + processed == 0 {
        Ratio { num: 0, den: 1 }
    } else {
        Ratio { num: rejections as u128, den: (rejections + processed) as u128 }
    }
}

/// The exact rejection probability of a station that rejected `rejections`
/// arrivals and completed `processed` services.
pub fn rejection_probability(rejections: usize, processed: usize) -> (r: Ratio)
    ensures
        r == rejection_probability_spec(rejections, processed),
{
    if rejections == 0 && processed == 0 {
        Ratio::whole(0)
    } else {
        Ratio::new(rejections as u128, rejections as u128 + processed as u128)
    }
}

} // verus!
