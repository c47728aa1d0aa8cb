use queuesim::devices::Devices;
use queuesim::queues::regular::RegularQueue;
use queuesim::stats::Ratio;

#[test]
fn queue_is_first_in_first_out() {
    let mut q = RegularQueue::new();
    q.enqueue(10, 0);
    q.enqueue(20, 1);
    q.enqueue(30, 2);
    assert_eq!(q.length(), 3);
    assert_eq!(q.dequeue(3), 10);
    assert_eq!(q.dequeue(4), 20);
    assert_eq!(q.dequeue(5), 30);
    assert_eq!(q.length(), 0);
}

#[test]
fn queue_capacity_bounds_admission() {
    let mut q = RegularQueue::from_capacity(2);
    assert_eq!(q.capacity(), Some(2));
    assert!(q.has_room());
    q.enqueue(1, 0);
    assert!(q.has_room());
    q.enqueue(2, 0);
    // The line is at capacity: the admission check must now refuse.
    assert!(!q.has_room());
    q.dequeue(1);
    assert!(q.has_room());
}

#[test]
fn unbounded_queue_always_has_room() {
    let mut q = RegularQueue::new();
    assert_eq!(q.capacity(), None);
    let mut i = 0usize;
    while i < 100 {
        assert!(q.has_room());
        q.enqueue(i, i as u64);
        i += 1;
    }
    assert_eq!(q.length(), 100);
}

#[test]
fn queue_stats_report_exact_average_length() {
    let mut q = RegularQueue::new();
    q.enqueue(1, 0);
    q.enqueue(2, 2);
    q.dequeue(3);
    // History (0,1) (2,2) (3,1): integral 2*1 + 1*2 = 4 over span 3.
    let s = q.stats();
    assert_eq!(s.final_length, 1);
    assert_eq!(s.average_length, Ratio { num: 4, den: 3 });
    assert_eq!(q.weighted_total(), 4);
    assert_eq!(q.latest_time(), 3);
    assert_eq!(q.step_stats().length, 1);
}

#[test]
fn devices_track_busy_and_idle() {
    let mut d = Devices::new(2);
    assert_eq!(d.count(), 2);
    assert_eq!(d.idle(), 2);
    assert_eq!(d.busy(), 0);
    d.load(7, 0);
    assert_eq!(d.idle(), 1);
    assert!(d.has_item(7));
    assert!(!d.has_item(8));
    d.load(8, 1);
    assert_eq!(d.idle(), 0);
    d.unload(7, 2);
    assert_eq!(d.idle(), 1);
    assert!(!d.has_item(7));
    assert!(d.has_item(8));
    d.unload(8, 3);
    assert_eq!(d.idle(), 2);
    // Idle never left the [0, count] band.
    assert!(d.idle() <= d.count());
}

#[test]
fn devices_workload_is_exact_fraction() {
    let mut d = Devices::new(4);
    d.load(1, 0);
    d.load(2, 0);
    d.load(3, 0);
    assert_eq!(d.workload(), Ratio { num: 3, den: 4 });
}

#[test]
fn devices_stats_average_utilization() {
    let mut d = Devices::new(2);
    d.load(1, 0);
    d.load(2, 2);
    d.unload(1, 3);
    d.unload(2, 4);
    // Busy history (0,1) (2,2) (3,1) (4,0): integral 2*1 + 1*2 + 1*1 = 5
    // over span 4, divided again by 2 servers.
    let s = d.stats();
    assert_eq!(s.final_workload, Ratio { num: 0, den: 2 });
    assert_eq!(s.average_workload, Ratio { num: 5, den: 8 });
    assert_eq!(d.step_stats().workload, Ratio { num: 0, den: 2 });
    assert_eq!(d.latest_time(), 4);
}

#[test]
fn devices_list_loaded_items_in_slot_order() {
    let mut d = Devices::new(3);
    d.load(5, 0);
    d.load(9, 0);
    assert_eq!(d.loaded_items(), vec![5, 9]);
    d.unload(5, 1);
    assert_eq!(d.loaded_items(), vec![9]);
}

#[test]
fn queue_average_waited_time_uses_departure_count() {
    let mut q = RegularQueue::new();
    assert_eq!(q.average_waited_time(), Ratio { num: 0, den: 1 });
    q.enqueue(1, 0);
    q.enqueue(2, 2);
    q.dequeue(3);
    q.dequeue(5);
    // History (0,1) (2,2) (3,1) (5,0): integral 2 + 2 + 2 = 6 over 2 departures.
    assert_eq!(q.average_waited_time(), Ratio { num: 6, den: 2 });
}
