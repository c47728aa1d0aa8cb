use queuesim::queues::regular::RegularQueue;
use queuesim::queues::shared::SharedQueuePool;

fn seeded(capacity: usize, len: usize) -> RegularQueue {
    let mut q = RegularQueue::from_capacity(capacity);
    let mut i = 0usize;
    while i < len {
        q.enqueue(100 + i, 0);
        i += 1;
    }
    q
}

fn seeded_unbounded(len: usize) -> RegularQueue {
    let mut q = RegularQueue::new();
    let mut i = 0usize;
    while i < len {
        q.enqueue(200 + i, 0);
        i += 1;
    }
    q
}

#[test]
fn first_trigger_moves_exactly_one_job() {
    // Two members seeded at lengths 0 and 3: the first rebalancing trigger
    // must move exactly one job, leaving lengths 1 and 2, and count one
    // transition.
    let mut pool = SharedQueuePool::new().add_queue(seeded(3, 0)).add_queue(seeded(3, 3));
    assert_eq!(pool.member_count(), 2);
    let moved = pool.rebalance(0);
    assert!(moved);
    assert_eq!(pool.length_of(0), 1);
    assert_eq!(pool.length_of(1), 2);
    assert_eq!(pool.transitions(), 1);
    // The job that moved is the front of the longer line.
    assert_eq!(pool.dequeue(0, 1), 100);
}

#[test]
fn balanced_pool_does_not_move() {
    let mut pool = SharedQueuePool::new().add_queue(seeded(3, 2)).add_queue(seeded(3, 1));
    let moved = pool.rebalance(0);
    assert!(!moved);
    assert_eq!(pool.length_of(0), 2);
    assert_eq!(pool.length_of(1), 1);
    assert_eq!(pool.transitions(), 0);
}

#[test]
fn enqueue_rebalances_when_gap_reaches_two() {
    let mut pool = SharedQueuePool::new().add_queue(seeded(5, 2)).add_queue(seeded(5, 1));
    pool.enqueue(0, 7, 1);
    // Lengths went 3 and 1; one job moved back, restoring balance.
    assert_eq!(pool.length_of(0), 2);
    assert_eq!(pool.length_of(1), 2);
    assert_eq!(pool.transitions(), 1);
}

#[test]
fn dequeue_rebalances_when_gap_reaches_two() {
    let mut pool = SharedQueuePool::new().add_queue(seeded(5, 2)).add_queue(seeded(5, 3));
    let front = pool.dequeue(0, 1);
    assert_eq!(front, 100);
    // Lengths went 1 and 3; one job moved over, restoring balance.
    assert_eq!(pool.length_of(0), 2);
    assert_eq!(pool.length_of(1), 2);
    assert_eq!(pool.transitions(), 1);
}

#[test]
fn gap_stays_below_two_across_many_mutations() {
    let mut pool = SharedQueuePool::new()
        .add_queue(seeded_unbounded(0))
        .add_queue(seeded_unbounded(0))
        .add_queue(seeded_unbounded(0));
    let mut i = 0usize;
    while i < 30 {
        pool.enqueue(i % 3, i, i as u64);
        let mut shortest = pool.length_of(0);
        let mut longest = pool.length_of(0);
        let mut m = 1usize;
        while m < pool.member_count() {
            let l = pool.length_of(m);
            if l < shortest {
                shortest = l;
            }
            if l > longest {
                longest = l;
            }
            m += 1;
        }
        assert!(longest - shortest < 2);
        i += 1;
    }
}

#[test]
fn move_into_a_full_member_is_skipped() {
    // The shortest member is exactly full (capacity 1, length 1), the
    // longest holds three: no move can be made, so nothing changes.
    let mut pool = SharedQueuePool::new().add_queue(seeded(1, 1)).add_queue(seeded(9, 3));
    let moved = pool.rebalance(0);
    assert!(!moved);
    assert_eq!(pool.length_of(0), 1);
    assert_eq!(pool.length_of(1), 3);
    assert_eq!(pool.transitions(), 0);
}

#[test]
fn member_statistics_are_reachable_by_index() {
    let pool = SharedQueuePool::new().add_queue(seeded_unbounded(2));
    assert_eq!(pool.capacity_of(0), None);
    assert!(pool.has_room(0));
    assert_eq!(pool.stats_of(0).final_length, 2);
    assert_eq!(pool.weighted_total_of(0), 0);
    assert_eq!(pool.max_latest(), 0);
}
