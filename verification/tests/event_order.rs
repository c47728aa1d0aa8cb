use queuesim::events::{Event, EventQueue, EventType};

fn ev(time: u64, item: usize) -> Event {
    Event { time, block: 0, kind: EventType::In, item }
}

#[test]
fn pop_returns_smallest_time() {
    let mut q = EventQueue::new();
    q.push(ev(5, 0));
    q.push(ev(3, 1));
    q.push(ev(7, 2));
    q.push(ev(4, 3));
    assert_eq!(q.len(), 4);
    assert_eq!(q.pop().unwrap().time, 3);
    assert_eq!(q.pop().unwrap().time, 4);
    assert_eq!(q.pop().unwrap().time, 5);
    assert_eq!(q.pop().unwrap().time, 7);
    assert!(q.pop().is_none());
    assert!(q.is_empty());
}

#[test]
fn equal_times_leave_in_insertion_order() {
    let mut q = EventQueue::new();
    q.push(ev(3, 10));
    q.push(ev(1, 20));
    q.push(ev(3, 11));
    q.push(ev(1, 21));
    q.push(ev(3, 12));
    assert_eq!(q.pop().unwrap().item, 20);
    assert_eq!(q.pop().unwrap().item, 21);
    assert_eq!(q.pop().unwrap().item, 10);
    assert_eq!(q.pop().unwrap().item, 11);
    assert_eq!(q.pop().unwrap().item, 12);
}

#[test]
fn drain_order_is_never_decreasing() {
    let mut q = EventQueue::new();
    let times = vec![9u64, 2, 2, 14, 0, 7, 7, 7, 1];
    let mut i = 0usize;
    while i < times.len() {
        q.push(ev(times[i], i));
        i += 1;
    }
    let mut last = 0u64;
    while let Some(e) = q.pop() {
        assert!(e.time >= last);
        last = e.time;
    }
}
