use queuesim::blocks::{Block, BlockStats, CreateBlock, DisposeBlock, ProcessBlock, ServiceQueue};
use queuesim::devices::Devices;
use queuesim::distributions::{Deterministic, Distribution};
use queuesim::events::EventQueue;
use queuesim::network::QueueNetwork;
use queuesim::queues::regular::RegularQueue;
use queuesim::queues::shared::SharedQueuePool;
use queuesim::routers::{DirectRouter, Router, ShortestQueueRouter};
use queuesim::stats::Ratio;
use queuesim::SimError;

fn created_of(s: BlockStats) -> usize {
    match s {
        BlockStats::Create(c) => c.created_events,
        _ => panic!("expected a source"),
    }
}

fn disposed_of(s: BlockStats) -> usize {
    match s {
        BlockStats::Dispose(d) => d.disposed_events,
        _ => panic!("expected a sink"),
    }
}

fn processed_of(s: BlockStats) -> (usize, usize) {
    match s {
        BlockStats::Process(p) => (p.processed, p.rejections),
        _ => panic!("expected a service station"),
    }
}

// One tick is a millisecond in these scenarios.
const SECOND: u64 = 1000;

#[test]
fn saturated_single_server_line() {
    // Source with fixed inter-arrival of one second feeds one service
    // station (fixed service of one second, single device, no queue), which
    // feeds a sink, over a ten-second horizon. Creations land at 0s..9s: ten
    // of them, none rejected — each arrival finds the device freed by the
    // departure dispatched at the same instant. The tenth service completion
    // falls exactly on the horizon and is discarded with the run's end, so
    // nine completions are dispatched.
    let mut net: QueueNetwork<Deterministic> = QueueNetwork::new()
        .add_block(Block::Create(CreateBlock::new(
            0,
            0,
            Router::Direct(DirectRouter::new(1)),
            Deterministic::new(SECOND),
        )))
        .add_block(Block::Process(ProcessBlock::new(
            1,
            Devices::new(1),
            None,
            Router::Direct(DirectRouter::new(2)),
            Deterministic::new(SECOND),
        )))
        .add_block(Block::Dispose(DisposeBlock::new(2)));
    let finished = net.simulate(10 * SECOND, 100_000).unwrap();
    assert!(finished);
    assert_eq!(created_of(net.block_stats(0)), 10);
    let (processed, rejections) = processed_of(net.block_stats(1));
    assert_eq!(processed, 9);
    assert_eq!(rejections, 0);
    assert_eq!(disposed_of(net.block_stats(2)), 9);
    // Every completed item sojourned exactly one second.
    assert_eq!(
        net.stats().average_event_duration,
        Ratio { num: 9 * SECOND as u128, den: 9 },
    );
}

#[test]
fn dispatched_times_never_decrease() {
    let mut net: QueueNetwork<Deterministic> = QueueNetwork::new()
        .add_block(Block::Create(CreateBlock::new(
            0,
            500,
            Router::Direct(DirectRouter::new(1)),
            Deterministic::new(300),
        )))
        .add_block(Block::Process(ProcessBlock::new(
            1,
            Devices::new(2),
            Some(ServiceQueue::Regular(RegularQueue::from_capacity(2))),
            Router::Direct(DirectRouter::new(2)),
            Deterministic::new(700),
        )))
        .add_block(Block::Dispose(DisposeBlock::new(2)));
    net.simulate(20 * SECOND, 100_000).unwrap();
    let trace = net.trace();
    assert!(trace.len() > 0);
    let mut last = 0u64;
    let mut i = 0usize;
    while i < trace.len() {
        assert!(trace[i].time >= last);
        assert!(trace[i].time < 20 * SECOND);
        last = trace[i].time;
        i += 1;
    }
}

#[test]
fn busy_device_without_queue_rejects_the_second_arrival() {
    // Single device, no queue, fixed service of two seconds; arrivals at
    // t = 0 and t = 0.5s. The first occupies the device, the second is
    // rejected.
    let mut b: ProcessBlock<Deterministic> = ProcessBlock::new(
        0,
        Devices::new(1),
        None,
        Router::Direct(DirectRouter::new(1)),
        Deterministic::new(2 * SECOND),
    );
    let mut pool = SharedQueuePool::new();
    let mut eq = EventQueue::new();
    assert_eq!(b.process_in(1, &mut pool, &mut eq, 0), Ok(true));
    assert_eq!(b.process_in(2, &mut pool, &mut eq, SECOND / 2), Ok(false));
    assert_eq!(b.rejections(), 1);
    assert_eq!(b.processed(), 0);
}

#[test]
fn source_to_sink_never_rejects() {
    // A source feeding an unbounded sink directly: no station can exert
    // backpressure, so every created item comes back out disposed.
    let mut net: QueueNetwork<Deterministic> = QueueNetwork::new()
        .add_block(Block::Create(CreateBlock::new(
            0,
            0,
            Router::Direct(DirectRouter::new(1)),
            Deterministic::new(SECOND),
        )))
        .add_block(Block::Dispose(DisposeBlock::new(1)));
    let finished = net.simulate(10 * SECOND, 100_000).unwrap();
    assert!(finished);
    assert_eq!(created_of(net.block_stats(0)), 10);
    assert_eq!(disposed_of(net.block_stats(1)), 10);
}

#[test]
fn route_to_unknown_block_is_fatal() {
    let mut net: QueueNetwork<Deterministic> = QueueNetwork::new().add_block(Block::Create(
        CreateBlock::new(0, 0, Router::Direct(DirectRouter::new(5)), Deterministic::new(SECOND)),
    ));
    assert_eq!(net.simulate(10 * SECOND, 100_000), Err(SimError::UnknownBlock(5)));
}

#[test]
fn acting_before_a_recorded_sample_is_fatal() {
    let mut q = RegularQueue::new();
    q.enqueue(1, 10);
    let mut b: ProcessBlock<Deterministic> = ProcessBlock::new(
        0,
        Devices::new(1),
        Some(ServiceQueue::Regular(q)),
        Router::Direct(DirectRouter::new(1)),
        Deterministic::new(1),
    );
    let mut pool = SharedQueuePool::new();
    let mut eq = EventQueue::new();
    assert_eq!(b.process_in(2, &mut pool, &mut eq, 5), Err(SimError::TimeRegression(0)));
}

#[test]
fn completing_an_unserved_item_is_fatal() {
    let mut b: ProcessBlock<Deterministic> = ProcessBlock::new(
        3,
        Devices::new(1),
        None,
        Router::Direct(DirectRouter::new(1)),
        Deterministic::new(1),
    );
    let mut pool = SharedQueuePool::new();
    let mut eq = EventQueue::new();
    assert_eq!(b.process_out(9, &mut pool, &mut eq, 0), Err(SimError::MissingItem(3)));
}

#[test]
fn naming_a_missing_pool_member_is_fatal() {
    let mut b: ProcessBlock<Deterministic> = ProcessBlock::new(
        0,
        Devices::new(1),
        Some(ServiceQueue::Shared(3)),
        Router::Direct(DirectRouter::new(1)),
        Deterministic::new(1),
    );
    let mut pool = SharedQueuePool::new();
    let mut eq = EventQueue::new();
    assert_eq!(b.process_in(1, &mut pool, &mut eq, 0), Err(SimError::UnknownPoolMember(3)));
}

#[test]
fn shared_lines_rebalance_during_a_run() {
    // Two service stations share a pool of two lines; a shortest-queue
    // source floods them faster than they serve. The pool keeps the two
    // lines within one of each other after every mutation.
    let pool = SharedQueuePool::new()
        .add_queue(RegularQueue::from_capacity(4))
        .add_queue(RegularQueue::from_capacity(4));
    let mut net: QueueNetwork<Deterministic> = QueueNetwork::new()
        .with_shared_pool(pool)
        .add_block(Block::Create(CreateBlock::new(
            0,
            0,
            Router::ShortestQueue(ShortestQueueRouter::new(vec![1, 2])),
            Deterministic::new(250),
        )))
        .add_block(Block::Process(ProcessBlock::new(
            1,
            Devices::new(1),
            Some(ServiceQueue::Shared(0)),
            Router::Direct(DirectRouter::new(3)),
            Deterministic::new(SECOND),
        )))
        .add_block(Block::Process(ProcessBlock::new(
            2,
            Devices::new(1),
            Some(ServiceQueue::Shared(1)),
            Router::Direct(DirectRouter::new(3)),
            Deterministic::new(SECOND),
        )))
        .add_block(Block::Dispose(DisposeBlock::new(3)));
    let finished = net.simulate(10 * SECOND, 100_000).unwrap();
    assert!(finished);
    assert_eq!(created_of(net.block_stats(0)), 40);
    let (p1, _) = processed_of(net.block_stats(1));
    let (p2, _) = processed_of(net.block_stats(2));
    assert!(p1 + p2 > 0);
    assert!(disposed_of(net.block_stats(3)) == p1 + p2);
}

#[test]
fn step_budget_reports_an_unfinished_run() {
    let mut net: QueueNetwork<Deterministic> = QueueNetwork::new()
        .add_block(Block::Create(CreateBlock::new(
            0,
            0,
            Router::Direct(DirectRouter::new(1)),
            Deterministic::new(1),
        )))
        .add_block(Block::Dispose(DisposeBlock::new(1)));
    assert_eq!(net.simulate(10 * SECOND, 3), Ok(false));
    assert_eq!(net.trace().len(), 3);
}

#[test]
fn preloaded_devices_depart_after_their_service_delay() {
    let mut devices = Devices::new(1);
    devices.load(42, 0);
    let mut net: QueueNetwork<Deterministic> = QueueNetwork::new()
        .add_block(Block::Process(ProcessBlock::new(
            0,
            devices,
            None,
            Router::Direct(DirectRouter::new(1)),
            Deterministic::new(3 * SECOND),
        )))
        .add_block(Block::Dispose(DisposeBlock::new(1)));
    net.set_event_count(1);
    assert_eq!(net.event_count(), 1);
    let finished = net.simulate(10 * SECOND, 1000).unwrap();
    assert!(finished);
    let (processed, rejections) = processed_of(net.block_stats(0));
    assert_eq!(processed, 1);
    assert_eq!(rejections, 0);
    assert_eq!(disposed_of(net.block_stats(1)), 1);
    assert_eq!(net.block_count(), 2);
    assert_eq!(net.pool_transitions(), 0);
}

#[test]
fn deterministic_source_always_draws_its_value() {
    let mut d = Deterministic::new(7);
    let mut i = 0usize;
    while i < 10 {
        assert_eq!(d.sample(), 7);
        i += 1;
    }
}

#[test]
fn the_horizon_event_is_recorded_not_dispatched() {
    let mut net: QueueNetwork<Deterministic> = QueueNetwork::new()
        .add_block(Block::Create(CreateBlock::new(
            0,
            0,
            Router::Direct(DirectRouter::new(1)),
            Deterministic::new(SECOND),
        )))
        .add_block(Block::Dispose(DisposeBlock::new(1)));
    assert_eq!(net.simulate(10 * SECOND, 100_000), Ok(true));
    let stopped = net.stopped_at().unwrap();
    assert_eq!(stopped.time, 10 * SECOND);
    // A drained run records no stopping event.
    let mut idle_net: QueueNetwork<Deterministic> =
        QueueNetwork::new().add_block(Block::Dispose(DisposeBlock::new(0)));
    assert_eq!(idle_net.simulate(10 * SECOND, 100), Ok(true));
    assert!(idle_net.stopped_at().is_none());
    assert_eq!(idle_net.trace().len(), 0);
}

#[test]
fn a_fault_names_the_event_it_stopped_on() {
    let mut net: QueueNetwork<Deterministic> = QueueNetwork::new().add_block(Block::Create(
        CreateBlock::new(0, 250, Router::Direct(DirectRouter::new(9)), Deterministic::new(SECOND)),
    ));
    assert_eq!(net.simulate(10 * SECOND, 100_000), Err(SimError::UnknownBlock(9)));
    let stopped = net.stopped_at().unwrap();
    assert_eq!(stopped.block, 9);
    assert_eq!(stopped.time, 250);
}
