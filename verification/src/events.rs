//! Scheduled events and the time-ordered event queue that drives the clock.
//!
//! The queue hands out the pending event with the smallest virtual time;
//! events of equal time leave in insertion order, so a run is reproducible
//! whenever the blocks feeding the queue are.

use vstd::prelude::*;

use crate::BlockId;

verus! {

/// What a scheduled occurrence means to its target block: the arrival of a
/// work item, or the completion of a service (a departure).
#[derive(Clone, Copy, Debug, PartialEq, Eq, Structural)]
pub enum EventType {
    In,
    Out,
}

/// A scheduled occurrence: at virtual time `time`, block `block` handles an
/// event of kind `kind` concerning the work item `item` (the correlation id
/// that identifies a job across stations).
#[derive(Clone, Copy, Debug, PartialEq, Eq, Structural)]
pub struct Event {
    pub time: u64,
    pub block: BlockId,
    pub kind: EventType,
    pub item: usize,
}

/// The index of the first event with minimal time among the first `n`.
pub open spec fn first_min_index_upto(s: Seq<Event>, n: int) -> int
    decreases n,
{
    if n <= 1 {
        0
    } else {
        let prev = first_min_index_upto(s, n - 1);
        if s[n - 1].time < s[prev].time {
            n - 1
        } else {
            prev
        }
    }
}

/// The index of the first event with minimal time: the event that `pop`
/// removes from a non-empty queue.
pub open spec fn first_min_index(s: Seq<Event>) -> int {
    first_min_index_upto(s, s.len() as int)
}

/// `first_min_index_upto(s, n)` names a position whose time is minimal among
/// the first `n`, and every earlier position holds a strictly later time.
pub proof fn lemma_first_min_index_upto(s: Seq<Event>, n: int)
    requires
        1 <= n <= s.len(),
    ensures
        0 <= first_min_index_upto(s, n) < n,
        forall|j: int| 0 <= j < n ==> s[first_min_index_upto(s, n)].time <= #[trigger] s[j].time,
        forall|j: int|
            0 <= j < first_min_index_upto(s, n) ==> #[trigger] s[j].time > s[
                first_min_index_upto(s, n)
            ].time,
    decreases n,
{
    if n > 1 {
        lemma_first_min_index_upto(s, n - 1);
    }
}

/// True when `post` is `pre` with zero or more events appended, none of them
/// earlier than `t`: what any block handler dispatched at time `t` leaves
/// behind, so nothing is ever scheduled in the past.
pub open spec fn extended_at_or_after(pre: Seq<Event>, post: Seq<Event>, t: u64) -> bool {
    &&& post.len() >= pre.len()
    &&& post.subrange(0, pre.len() as int) == pre
    &&& forall|k: int| pre.len() <= k < post.len() ==> (#[trigger] post[k]).time >= t
}

/// Extending a queue at or after `t` keeps any time floor below `t` intact.
pub proof fn lemma_extended_keeps_floor(pre: Seq<Event>, post: Seq<Event>, t: u64, floor: u64)
    requires
        extended_at_or_after(pre, post, t),
        t >= floor,
        forall|k: int| 0 <= k < pre.len() ==> (#[trigger] pre[k]).time >= floor,
    ensures
        forall|k: int| 0 <= k < post.len() ==> (#[trigger] post[k]).time >= floor,
{
    assert forall|k: int| 0 <= k < post.len() implies (#[trigger] post[k]).time >= floor by {
        if k < pre.len() {
            assert(post[k] == post.subrange(0, pre.len() as int)[k]);
        }
    }
}

/// A handler that leaves the queue alone extends it trivially.
pub proof fn lemma_extended_refl(s: Seq<Event>, t: u64)
    ensures
        extended_at_or_after(s, s, t),
{
    assert(s.subrange(0, s.len() as int) =~= s);
}

/// The time `delay` ticks after `t`, saturating at the clock's end: a
/// schedule never lands before `t`.
pub open spec fn at_delay_spec(t: u64, delay: u64) -> u64 {
    if t + delay <= u64::MAX {
        (t + delay) as u64
    } else {
        u64::MAX
    }
}

/// Schedule time `delay` ticks after `t`, saturating at the clock's end.
pub fn at_delay(t: u64, delay: u64) -> (r: u64)
    ensures
        r == at_delay_spec(t, delay),
        r >= t,
{
    if delay <= u64::MAX - t {
        t + delay
    } else {
        u64::MAX
    }
}

/// The pending events, ordered for extraction by `(time, insertion order)`.
/// The queue also keeps a ghost count of the events it has handed out, so
/// that an orchestrator can account for every event it ever scheduled.
pub struct EventQueue {
    events: Vec<Event>,
    consumed: Ghost<int>,
}

impl View for EventQueue {
    type V = Seq<Event>;

    /// The pending events in insertion order.
    closed spec fn view(&self) -> Seq<Event> {
        self.events@
    }
}

impl EventQueue {
    /// How many events have been popped from this queue, ever.
    pub closed spec fn consumed_spec(self) -> int {
        self.consumed@
    }

    /// How many events have been pushed onto this queue, ever: what is still
    /// pending plus what was already handed out.
    pub open spec fn scheduled_spec(self) -> int {
        self@.len() + self.consumed_spec()
    }

    /// The queue starts empty; blocks seed it during `init`.
    pub fn new() -> (q: EventQueue)
        ensures
            q@ == Seq::<Event>::empty(),
            q.consumed_spec() == 0,
    {
        EventQueue { events: Vec::new(), consumed: Ghost(0) }
    }

    pub fn len(&self) -> (n: usize)
        ensures
            n == self@.len(),
    {
        self.events.len()
    }

    pub fn is_empty(&self) -> (b: bool)
        ensures
            b == (self@.len() == 0),
    {
        self.events.len() == 0
    }

    /// Schedule one more event. Scheduling never reorders or drops what is
    /// already pending.
    pub fn push(&mut self, e: Event)
        ensures
            final(self)@ == old(self)@.push(e),
            final(self).consumed_spec() == old(self).consumed_spec(),
    {
        self.events.push(e);
    }

    /// Remove and return the pending event with the smallest virtual time;
    /// among events of equal time, the one scheduled first. Returns `None`
    /// only on an empty queue.
    pub fn pop(&mut self) -> (r: Option<Event>)
        ensures
            old(self)@.len() == 0 ==> r is None && *final(self) == *old(self),
            old(self)@.len() > 0 ==> final(self).consumed_spec() == old(self).consumed_spec()
                + 1,
            old(self)@.len() > 0 ==> {
                &&& r == Some(old(self)@[first_min_index(old(self)@)])
                &&& final(self)@ == old(self)@.remove(first_min_index(old(self)@))
                &&& forall|j: int| 0 <= j < old(self)@.len() ==> r.unwrap().time <= #[trigger] old(self)@[j].time
                &&& forall|k: int|
                    0 <= k < final(self)@.len() ==> (#[trigger] final(self)@[k]).time
                        >= r.unwrap().time
            },
    {
        if self.events.len() == 0 {
            return None;
        }
        let mut best: usize = 0;
        let mut i: usize = 1;
        while i < self.events.len()
            invariant
                1 <= i <= self.events@.len(),
                best == first_min_index_upto(self.events@, i as int),
                0 <= best < i,
            decreases self.events@.len() - i,
        {
            if self.events[i].time < self.events[best].time {
                best = i;
            }
            i = i + 1;
        }
        proof {
            lemma_first_min_index_upto(self.events@, self.events@.len() as int);
        }
        let ghost pre = self.events@;
        let ghost idx = best as int;
        let e = self.events.remove(best);
        proof {
            self.consumed@ = self.consumed@ + 1;
        }
        proof {
            assert forall|k: int| 0 <= k < self.events@.len() implies (#[trigger] self.events@[
                k
            ]).time >= e.time by {
                if k < idx {
                    assert(self.events@[k] == pre[k]);
                } else {
                    assert(self.events@[k] == pre[k + 1]);
                }
            }
        }
        Some(e)
    }
}

} // verus!
