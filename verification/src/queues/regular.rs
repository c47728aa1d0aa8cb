//! A station's FIFO waiting line with optional bounded capacity and a
//! time-weighted occupancy history.

use vstd::prelude::*;

use crate::stats::Ratio;
use crate::weighted_average::{
    duration, duration_spec, times_sorted, weighted_average, weighted_total, weighted_total_spec,
};

verus! {

/// What the time-weighted average of a history must be: the step integral
/// over the span, the single known value when the span is empty, zero when
/// there are no samples at all.
pub open spec fn average_length_exact(h: Seq<(u64, usize)>, r: Ratio) -> bool {
    &&& (duration_spec(h) > 0 ==> r == (Ratio {
        num: weighted_total_spec(h) as u128,
        den: duration_spec(h) as u128,
    }))
    &&& (h.len() == 0 ==> r == (Ratio { num: 0, den: 1 }))
    &&& (h.len() > 0 && duration_spec(h) == 0 ==> r == (Ratio { num: h.last().1 as u128, den: 1 }))
}

/// How a queue looks after one enqueue of `item` at time `t`.
pub open spec fn enqueue_rel(pre: RegularQueue, post: RegularQueue, item: usize, t: u64) -> bool {
    &&& post.contents() == pre.contents().push(item)
    &&& post.history() == pre.history().push((t, (pre.contents().len() + 1) as usize))
    &&& post.cap() == pre.cap()
    &&& post.departed() == pre.departed()
    &&& post.wf()
    &&& post.latest() == t
}

/// How a queue looks after one dequeue at time `t`.
pub open spec fn dequeue_rel(pre: RegularQueue, post: RegularQueue, t: u64) -> bool {
    &&& post.contents() == pre.contents().drop_first()
    &&& post.history() == pre.history().push((t, (pre.contents().len() - 1) as usize))
    &&& post.cap() == pre.cap()
    &&& post.departed() == pre.departed() + 1
    &&& post.wf()
    &&& post.latest() == t
}

/// A FIFO waiting line. Work items join at the back and leave at the front;
/// every mutation appends a `(time, new length)` sample to the occupancy
/// history. When a capacity is set, the length never exceeds it: a caller
/// must check `has_room` before enqueueing.
pub struct RegularQueue {
    items: Vec<usize>,
    capacity: Option<usize>,
    lengths: Vec<(u64, usize)>,
    departures: usize,
}

/// The final statistics of a queue: its length when observation ended and
/// its time-weighted average length.
#[derive(Clone, Copy, Debug, PartialEq, Eq, Structural)]
pub struct QueueStats {
    pub final_length: usize,
    pub average_length: Ratio,
}

/// The per-step snapshot of a queue: its current length.
#[derive(Clone, Copy, Debug, PartialEq, Eq, Structural)]
pub struct QueueStepStats {
    pub length: usize,
}

impl RegularQueue {
    /// The waiting work items, front first.
    pub closed spec fn contents(self) -> Seq<usize> {
        self.items@
    }

    /// The capacity bound, if one is set.
    pub closed spec fn cap(self) -> Option<usize> {
        self.capacity
    }

    /// The append-only occupancy history: a `(time, length)` sample per
    /// mutation.
    pub closed spec fn history(self) -> Seq<(u64, usize)> {
        self.lengths@
    }

    /// How many items have completed their wait and departed.
    pub closed spec fn departed(self) -> int {
        self.departures as int
    }

    /// The time of the queue's most recent sample; no later mutation may
    /// carry an earlier time.
    pub open spec fn latest(self) -> int {
        if self.history().len() == 0 {
            0
        } else {
            self.history().last().0 as int
        }
    }

    /// Whether one more item fits.
    pub open spec fn spec_has_room(self) -> bool {
        match self.cap() {
            Option::Some(c) => self.contents().len() < c,
            Option::None => true,
        }
    }

    /// Well-formedness: history times never decrease, the last sample records
    /// the current length, and no length — current or recorded — ever
    /// exceeded a set capacity.
    pub open spec fn wf(self) -> bool {
        &&& times_sorted(self.history())
        &&& (self.history().len() == 0 ==> self.contents().len() == 0)
        &&& (self.history().len() > 0 ==> self.history().last().1 == self.contents().len())
        &&& (self.cap() is Some ==> self.contents().len() <= self.cap().unwrap())
        &&& (self.cap() is Some ==> forall|i: int|
            0 <= i < self.history().len() ==> (#[trigger] self.history()[i]).1
                <= self.cap().unwrap())
        &&& self.departed() <= self.history().len()
    }

    /// An unbounded queue, empty and unobserved.
    pub fn new() -> (q: RegularQueue)
        ensures
            q.wf(),
            q.contents() == Seq::<usize>::empty(),
            q.cap() is None,
            q.history() == Seq::<(u64, usize)>::empty(),
            q.departed() == 0,
    {
        RegularQueue { items: Vec::new(), capacity: None, lengths: Vec::new(), departures: 0 }
    }

    /// A bounded queue, empty and unobserved.
    pub fn from_capacity(capacity: usize) -> (q: RegularQueue)
        ensures
            q.wf(),
            q.contents() == Seq::<usize>::empty(),
            q.cap() == Some(capacity),
            q.history() == Seq::<(u64, usize)>::empty(),
            q.departed() == 0,
    {
        RegularQueue {
            items: Vec::new(),
            capacity: Some(capacity),
            lengths: Vec::new(),
            departures: 0,
        }
    }

    /// The current length of the waiting line.
    pub fn length(&self) -> (n: usize)
        ensures
            n == self.contents().len(),
    {
        self.items.len()
    }

    pub fn capacity(&self) -> (c: Option<usize>)
        ensures
            c == self.cap(),
    {
        self.capacity
    }

    /// Whether one more item would be accepted. The admission check a caller
    /// makes before enqueueing.
    pub fn has_room(&self) -> (b: bool)
        ensures
            b == self.spec_has_room(),
    {
        match self.capacity {
            Some(c) => self.items.len() < c,
            None => true,
        }
    }

    /// The time of the most recent sample, or zero if none was taken yet.
    pub fn latest_time(&self) -> (t: u64)
        ensures
            t == self.latest(),
    {
        duration(&self.lengths)
    }

    /// Append `item` to the back of the line and record the new length at
    /// time `t`. The caller has checked `has_room`, and `t` must not precede
    /// the queue's latest sample.
    pub fn enqueue(&mut self, item: usize, t: u64)
        requires
            old(self).wf(),
            old(self).spec_has_room(),
            t >= old(self).latest(),
        ensures
            enqueue_rel(*old(self), *final(self), item, t),
    {
        self.items.push(item);
        self.lengths.push((t, self.items.len()));
    }

    /// Remove and return the item at the front of the line and record the new
    /// length at time `t`. Calling this on an empty queue would be a
    /// scheduling bug, so emptiness is excluded here.
    pub fn dequeue(&mut self, t: u64) -> (item: usize)
        requires
            old(self).wf(),
            old(self).contents().len() > 0,
            t >= old(self).latest(),
        ensures
            dequeue_rel(*old(self), *final(self), t),
            item == old(self).contents()[0],
    {
        let item = self.items.remove(0);
        self.lengths.push((t, self.items.len()));
        let samples = self.lengths.len();
        assert(self.departures < samples);
        self.departures = self.departures + 1;
        item
    }

    /// The exact time integral of the queue length over the observed span.
    pub fn weighted_total(&self) -> (r: u128)
        requires
            self.wf(),
        ensures
            r == weighted_total_spec(self.history()),
    {
        weighted_total(&self.lengths)
    }

    /// The Little's-law wait estimate at queue level: the length integral
    /// divided by the number of departures, zero before the first departure.
    pub fn average_waited_time(&self) -> (r: Ratio)
        requires
            self.wf(),
        ensures
            self.departed() > 0 ==> r == (Ratio {
                num: weighted_total_spec(self.history()) as u128,
                den: self.departed() as u128,
            }),
            self.departed() == 0 ==> r == (Ratio { num: 0, den: 1 }),
    {
        if self.departures == 0 {
            Ratio::whole(0)
        } else {
            Ratio::new(weighted_total(&self.lengths), self.departures as u128)
        }
    }

    /// The queue's statistics: final length, and time-weighted average
    /// length over the observed span. With no samples the average is zero;
    /// with samples but an empty span it is the single known length.
    pub fn stats(&self) -> (s: QueueStats)
        requires
            self.wf(),
        ensures
            s.final_length == self.contents().len(),
            average_length_exact(self.history(), s.average_length),
    {
        QueueStats {
            final_length: self.items.len(),
            average_length: weighted_average(&self.lengths),
        }
    }

    /// The queue's per-step snapshot: its current length.
    pub fn step_stats(&self) -> (s: QueueStepStats)
        ensures
            s.length == self.contents().len(),
    {
        QueueStepStats { length: self.items.len() }
    }
}

/// Law: in a well-formed queue the length is never negative and, when a
/// capacity is set, neither the current length nor any recorded length ever
/// exceeds it — whatever sequence of enqueues and dequeues produced the
/// queue.
pub proof fn lemma_queue_length_bounded(q: RegularQueue)
    requires
        q.wf(),
    ensures
        q.contents().len() >= 0,
        q.cap() is Some ==> q.contents().len() <= q.cap().unwrap(),
        q.cap() is Some ==> forall|i: int|
            0 <= i < q.history().len() ==> (#[trigger] q.history()[i]).1 <= q.cap().unwrap(),
{
}

} // verus!
