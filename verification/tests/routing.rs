use queuesim::blocks::{Block, CreateBlock, DisposeBlock, ProcessBlock, ServiceQueue};
use queuesim::devices::Devices;
use queuesim::distributions::Deterministic;
use queuesim::queues::regular::RegularQueue;
use queuesim::queues::shared::SharedQueuePool;
use queuesim::routers::{DirectRouter, ProbabilityRouter, Router, ShortestQueueRouter};
use queuesim::SimError;

fn service_with_queue_len(id: usize, len: usize) -> Block<Deterministic> {
    let mut q = RegularQueue::new();
    let mut i = 0usize;
    while i < len {
        q.enqueue(100 * id + i, 0);
        i += 1;
    }
    Block::Process(ProcessBlock::new(
        id,
        Devices::new(1),
        Some(ServiceQueue::Regular(q)),
        Router::Direct(DirectRouter::new(0)),
        Deterministic::new(1),
    ))
}

#[test]
fn direct_router_always_names_its_target() {
    let r = DirectRouter::new(4);
    assert_eq!(r.next(), 4);
    let blocks: Vec<Block<Deterministic>> = Vec::new();
    let pool = SharedQueuePool::new();
    let hop = Router::Direct(DirectRouter::new(4)).next(&blocks, &pool);
    assert_eq!(hop, Ok(Some(4)));
}

#[test]
fn shortest_queue_router_picks_the_shorter_line() {
    // Two service stations with queue lengths 3 and 1: the router must pick
    // the station holding 1.
    let blocks = vec![service_with_queue_len(0, 3), service_with_queue_len(1, 1)];
    let pool = SharedQueuePool::new();
    let router = ShortestQueueRouter::new(vec![0, 1]);
    assert_eq!(router.next(&blocks, &pool), Ok(Some(1)));
}

#[test]
fn shortest_queue_router_breaks_ties_by_declaration_order() {
    let blocks = vec![service_with_queue_len(0, 2), service_with_queue_len(1, 2)];
    let pool = SharedQueuePool::new();
    let router = ShortestQueueRouter::new(vec![1, 0]);
    assert_eq!(router.next(&blocks, &pool), Ok(Some(1)));
}

#[test]
fn shortest_queue_router_rejects_a_candidate_without_a_queue() {
    let blocks: Vec<Block<Deterministic>> = vec![
        service_with_queue_len(0, 1),
        Block::Dispose(DisposeBlock::new(1)),
    ];
    let pool = SharedQueuePool::new();
    let router = ShortestQueueRouter::new(vec![0, 1]);
    assert_eq!(router.next(&blocks, &pool), Err(SimError::BadRoute(1)));
}

#[test]
fn shortest_queue_router_rejects_an_unknown_candidate() {
    let blocks = vec![service_with_queue_len(0, 1)];
    let pool = SharedQueuePool::new();
    let router = ShortestQueueRouter::new(vec![0, 9]);
    assert_eq!(router.next(&blocks, &pool), Err(SimError::BadRoute(9)));
}

#[test]
fn probability_pick_selects_by_cumulative_window() {
    let r = ProbabilityRouter::new(vec![(2, 10), (3, 11), (5, 12)]);
    assert_eq!(r.pick(0), Some(10));
    assert_eq!(r.pick(1), Some(10));
    assert_eq!(r.pick(2), Some(11));
    assert_eq!(r.pick(4), Some(11));
    assert_eq!(r.pick(5), Some(12));
    assert_eq!(r.pick(9), Some(12));
    assert_eq!(r.pick(10), None);
}

#[test]
fn probability_next_draws_inside_the_weighted_targets() {
    // A single positive weight leaves no choice: whatever the draw, the one
    // target must come back. A draw outside [0, total) would fall through to
    // no hop instead.
    let r = ProbabilityRouter::new(vec![(5, 7)]);
    let mut i = 0usize;
    while i < 50 {
        assert_eq!(r.next(), Some(7));
        i += 1;
    }
    // Zero-weighted targets are never drawn.
    let skewed = ProbabilityRouter::new(vec![(0, 1), (4, 2)]);
    let mut j = 0usize;
    while j < 50 {
        assert_eq!(skewed.next(), Some(2));
        j += 1;
    }
}

#[test]
fn probability_next_with_zero_total_routes_nowhere() {
    let r = ProbabilityRouter::new(vec![(0, 1), (0, 2)]);
    assert_eq!(r.next(), None);
    let empty = ProbabilityRouter::new(Vec::new());
    assert_eq!(empty.next(), None);
}

#[test]
fn source_routes_and_sink_does_not() {
    let source: Block<Deterministic> = Block::Create(CreateBlock::new(
        0,
        0,
        Router::Direct(DirectRouter::new(1)),
        Deterministic::new(1000),
    ));
    let sink: Block<Deterministic> = Block::Dispose(DisposeBlock::new(1));
    assert!(source.router().is_some());
    assert!(sink.router().is_none());
    assert_eq!(source.id(), 0);
    assert_eq!(sink.id(), 1);
}
