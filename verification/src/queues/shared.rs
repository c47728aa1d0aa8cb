//! A pool of waiting lines shared across stations, with a length-rebalancing
//! policy.
//!
//! The pool owns its member queues (stations refer to a member by index) and
//! runs one rebalancing step after every enqueue or dequeue on any member:
//! if the longest and the shortest member differ in length by two or more,
//! one waiting job moves from the front of the longest to the back of the
//! shortest — a single step per triggering mutation, so the per-event cost
//! stays bounded. Ties are broken by member order, lowest index first. A move
//! whose target is full is skipped, so no member ever exceeds its capacity.

use vstd::prelude::*;

use crate::queues::regular::{dequeue_rel, enqueue_rel, RegularQueue};

verus! {

/// The member lengths, in member order.
pub open spec fn lens_of(s: Seq<RegularQueue>) -> Seq<int> {
    Seq::new(s.len(), |i: int| s[i].contents().len() as int)
}

/// The index of the first maximal entry among the first `n`.
pub open spec fn first_max_upto(l: Seq<int>, n: int) -> int
    decreases n,
{
    if n <= 1 {
        0
    } else {
        let prev = first_max_upto(l, n - 1);
        if l[n - 1] > l[prev] {
            n - 1
        } else {
            prev
        }
    }
}

/// The index of the first maximal entry: the member a move departs from.
pub open spec fn first_max(l: Seq<int>) -> int {
    first_max_upto(l, l.len() as int)
}

/// The index of the first minimal entry among the first `n`.
pub open spec fn first_min_upto(l: Seq<int>, n: int) -> int
    decreases n,
{
    if n <= 1 {
        0
    } else {
        let prev = first_min_upto(l, n - 1);
        if l[n - 1] < l[prev] {
            n - 1
        } else {
            prev
        }
    }
}

/// The index of the first minimal entry: the member a move arrives at.
pub open spec fn first_min(l: Seq<int>) -> int {
    first_min_upto(l, l.len() as int)
}

pub proof fn lemma_first_max_upto(l: Seq<int>, n: int)
    requires
        1 <= n <= l.len(),
    ensures
        0 <= first_max_upto(l, n) < n,
        forall|j: int| 0 <= j < n ==> #[trigger] l[j] <= l[first_max_upto(l, n)],
        forall|j: int| 0 <= j < first_max_upto(l, n) ==> #[trigger] l[j] < l[first_max_upto(l, n)],
    decreases n,
{
    if n > 1 {
        lemma_first_max_upto(l, n - 1);
    }
}

pub proof fn lemma_first_min_upto(l: Seq<int>, n: int)
    requires
        1 <= n <= l.len(),
    ensures
        0 <= first_min_upto(l, n) < n,
        forall|j: int| 0 <= j < n ==> #[trigger] l[j] >= l[first_min_upto(l, n)],
        forall|j: int| 0 <= j < first_min_upto(l, n) ==> #[trigger] l[j] > l[first_min_upto(l, n)],
    decreases n,
{
    if n > 1 {
        lemma_first_min_upto(l, n - 1);
    }
}

/// Every member is well-formed.
pub open spec fn all_wf(s: Seq<RegularQueue>) -> bool {
    forall|j: int| 0 <= j < s.len() ==> (#[trigger] s[j]).wf()
}

/// Every member could accept one more item.
pub open spec fn all_have_room(s: Seq<RegularQueue>) -> bool {
    forall|j: int| 0 <= j < s.len() ==> (#[trigger] s[j]).spec_has_room()
}

/// No member sample is later than `t`, so a mutation at `t` is in order.
pub open spec fn all_no_later_than(s: Seq<RegularQueue>, t: u64) -> bool {
    forall|j: int| 0 <= j < s.len() ==> (#[trigger] s[j]).latest() <= t
}

/// The lengths differ pairwise by at most one: the rebalancing target state.
pub open spec fn balanced_lens(l: Seq<int>) -> bool {
    forall|i: int, j: int|
        0 <= i < l.len() && 0 <= j < l.len() ==> #[trigger] l[i] <= #[trigger] l[j] + 1
}

/// How `member` looks after a plain enqueue of `item` at time `t`, with every
/// other member untouched.
pub open spec fn enqueued_rel(
    pre: Seq<RegularQueue>,
    post: Seq<RegularQueue>,
    member: int,
    item: usize,
    t: u64,
) -> bool {
    &&& post.len() == pre.len()
    &&& enqueue_rel(pre[member], post[member], item, t)
    &&& forall|j: int| 0 <= j < pre.len() && j != member ==> post[j] == #[trigger] pre[j]
}

/// How `member` looks after a plain dequeue at time `t`, with every other
/// member untouched.
pub open spec fn dequeued_rel(
    pre: Seq<RegularQueue>,
    post: Seq<RegularQueue>,
    member: int,
    t: u64,
) -> bool {
    &&& post.len() == pre.len()
    &&& dequeue_rel(pre[member], post[member], t)
    &&& forall|j: int| 0 <= j < pre.len() && j != member ==> post[j] == #[trigger] pre[j]
}

/// Whether one rebalancing step moves a job: the first-longest and
/// first-shortest members differ by at least two, and the shortest can take
/// one more.
pub open spec fn move_due(s: Seq<RegularQueue>) -> bool {
    &&& s.len() > 0
    &&& lens_of(s)[first_max(lens_of(s))] >= lens_of(s)[first_min(lens_of(s))] + 2
    &&& s[first_min(lens_of(s))].spec_has_room()
}

/// One rebalancing step: when a move is due, the front job of the first
/// longest member joins the back of the first shortest member, both
/// timestamped at `t`; otherwise nothing changes.
pub open spec fn rebalance_rel(
    pre: Seq<RegularQueue>,
    post: Seq<RegularQueue>,
    t: u64,
    moved: bool,
) -> bool {
    &&& moved == move_due(pre)
    &&& if moved {
        exists|mid: Seq<RegularQueue>|
            #![trigger dequeued_rel(pre, mid, first_max(lens_of(pre)), t)]
            dequeued_rel(pre, mid, first_max(lens_of(pre)), t) && enqueued_rel(
                mid,
                post,
                first_min(lens_of(pre)),
                pre[first_max(lens_of(pre))].contents()[0],
                t,
            )
    } else {
        post == pre
    }
}

/// How the whole pool looks after `enqueue` on one member: the plain
/// enqueue, then one rebalancing step, with a move counted as a transition.
pub open spec fn pool_enqueue_rel(
    pre: SharedQueuePool,
    post: SharedQueuePool,
    member: int,
    item: usize,
    t: u64,
) -> bool {
    exists|mid: Seq<RegularQueue>, moved: bool|
        #![trigger rebalance_rel(mid, post.members(), t, moved)]
        {
            &&& enqueued_rel(pre.members(), mid, member, item, t)
            &&& rebalance_rel(mid, post.members(), t, moved)
            &&& (moved && pre.transitions_spec() < u64::MAX ==> post.transitions_spec()
                == pre.transitions_spec() + 1)
            &&& (!moved ==> post.transitions_spec() == pre.transitions_spec())
        }
}

/// How the whole pool looks after `dequeue` on one member: the plain
/// dequeue, then one rebalancing step, with a move counted as a transition.
pub open spec fn pool_dequeue_rel(
    pre: SharedQueuePool,
    post: SharedQueuePool,
    member: int,
    t: u64,
) -> bool {
    exists|mid: Seq<RegularQueue>, moved: bool|
        #![trigger rebalance_rel(mid, post.members(), t, moved)]
        {
            &&& dequeued_rel(pre.members(), mid, member, t)
            &&& rebalance_rel(mid, post.members(), t, moved)
            &&& (moved && pre.transitions_spec() < u64::MAX ==> post.transitions_spec()
                == pre.transitions_spec() + 1)
            &&& (!moved ==> post.transitions_spec() == pre.transitions_spec())
        }
}

/// A registry of waiting lines shared across stations. Member indices are
/// assigned in insertion order and never change.
pub struct SharedQueuePool {
    queues: Vec<RegularQueue>,
    transitions: u64,
}

impl SharedQueuePool {
    /// The member queues, in insertion order.
    pub closed spec fn members(self) -> Seq<RegularQueue> {
        self.queues@
    }

    /// How many rebalancing moves have been made.
    pub closed spec fn transitions_spec(self) -> int {
        self.transitions as int
    }

    /// Well-formedness: every member queue is well-formed.
    pub open spec fn wf(self) -> bool {
        all_wf(self.members())
    }

    /// The pool's balance target: member lengths pairwise within one.
    pub open spec fn balanced(self) -> bool {
        balanced_lens(lens_of(self.members()))
    }

    /// An empty pool.
    pub fn new() -> (p: SharedQueuePool)
        ensures
            p.wf(),
            p.members() == Seq::<RegularQueue>::empty(),
            p.transitions_spec() == 0,
    {
        SharedQueuePool { queues: Vec::new(), transitions: 0 }
    }

    /// Register one more member queue; its index is the previous member
    /// count.
    pub fn add_queue(self, queue: RegularQueue) -> (p: SharedQueuePool)
        requires
            queue.wf(),
        ensures
            p.members() == self.members().push(queue),
            p.transitions_spec() == self.transitions_spec(),
            self.wf() ==> p.wf(),
    {
        let mut p = self;
        p.queues.push(queue);
        p
    }

    pub fn member_count(&self) -> (n: usize)
        ensures
            n == self.members().len(),
    {
        self.queues.len()
    }

    /// The current length of one member's waiting line.
    pub fn length_of(&self, member: usize) -> (n: usize)
        requires
            member < self.members().len(),
        ensures
            n == self.members()[member as int].contents().len(),
    {
        self.queues[member].length()
    }

    pub fn capacity_of(&self, member: usize) -> (c: Option<usize>)
        requires
            member < self.members().len(),
        ensures
            c == self.members()[member as int].cap(),
    {
        self.queues[member].capacity()
    }

    /// Whether one member would accept one more item.
    pub fn has_room(&self, member: usize) -> (b: bool)
        requires
            member < self.members().len(),
        ensures
            b == self.members()[member as int].spec_has_room(),
    {
        self.queues[member].has_room()
    }

    /// The exact time integral of one member's queue length.
    pub fn weighted_total_of(&self, member: usize) -> (r: u128)
        requires
            self.wf(),
            member < self.members().len(),
        ensures
            r == crate::weighted_average::weighted_total_spec(
                self.members()[member as int].history(),
            ),
    {
        self.queues[member].weighted_total()
    }

    /// The statistics of one member queue.
    pub fn stats_of(&self, member: usize) -> (s: crate::queues::regular::QueueStats)
        requires
            self.wf(),
            member < self.members().len(),
        ensures
            s.final_length == self.members()[member as int].contents().len(),
            crate::queues::regular::average_length_exact(
                self.members()[member as int].history(),
                s.average_length,
            ),
    {
        self.queues[member].stats()
    }

    pub fn transitions(&self) -> (n: u64)
        ensures
            n == self.transitions_spec(),
    {
        self.transitions
    }

    /// The latest sample time over all members: a mutation must not be
    /// earlier.
    pub fn max_latest(&self) -> (t: u64)
        ensures
            all_no_later_than(self.members(), t),
            t == 0 || exists|j: int|
                0 <= j < self.members().len() && (#[trigger] self.members()[j]).latest() == t,
    {
        let mut t: u64 = 0;
        let mut i: usize = 0;
        while i < self.queues.len()
            invariant
                0 <= i <= self.members().len(),
                forall|j: int| 0 <= j < i ==> (#[trigger] self.members()[j]).latest() <= t,
                t == 0 || exists|j: int|
                    0 <= j < self.members().len() && (#[trigger] self.members()[j]).latest() == t,
            decreases self.members().len() - i,
        {
            let lt = self.queues[i].latest_time();
            if lt > t {
                t = lt;
            }
            i = i + 1;
        }
        t
    }

    /// The first member with the longest line.
    fn first_longest(&self) -> (r: usize)
        requires
            self.members().len() > 0,
        ensures
            r == first_max(lens_of(self.members())),
    {
        let mut best: usize = 0;
        let mut i: usize = 1;
        while i < self.queues.len()
            invariant
                1 <= i <= self.members().len(),
                0 <= best < i,
                best == first_max_upto(lens_of(self.members()), i as int),
            decreases self.members().len() - i,
        {
            if self.queues[i].length() > self.queues[best].length() {
                best = i;
            }
            i = i + 1;
        }
        best
    }

    /// The first member with the shortest line.
    fn first_shortest(&self) -> (r: usize)
        requires
            self.members().len() > 0,
        ensures
            r == first_min(lens_of(self.members())),
    {
        let mut best: usize = 0;
        let mut i: usize = 1;
        while i < self.queues.len()
            invariant
                1 <= i <= self.members().len(),
                0 <= best < i,
                best == first_min_upto(lens_of(self.members()), i as int),
            decreases self.members().len() - i,
        {
            if self.queues[i].length() < self.queues[best].length() {
                best = i;
            }
            i = i + 1;
        }
        best
    }

    /// One rebalancing step at time `t`: move one waiting job from the first
    /// longest to the first shortest member when their lengths differ by two
    /// or more and the shortest has room; otherwise change nothing. Returns
    /// whether a job moved, and counts it as one transition.
    pub fn rebalance(&mut self, t: u64) -> (moved: bool)
        requires
            old(self).wf(),
            all_no_later_than(old(self).members(), t),
        ensures
            final(self).wf(),
            old(self).transitions_spec() <= final(self).transitions_spec() <= old(self).transitions_spec() + 1,
            rebalance_rel(old(self).members(), final(self).members(), t, moved),
            all_no_later_than(final(self).members(), t),
            moved && old(self).transitions_spec() < u64::MAX ==> final(self).transitions_spec()
                == old(self).transitions_spec() + 1,
            !moved ==> final(self).transitions_spec() == old(self).transitions_spec(),
    {
        if self.queues.len() == 0 {
            return false;
        }
        let b = self.first_longest();
        let m = self.first_shortest();
        proof {
            lemma_first_max_upto(lens_of(self.members()), self.members().len() as int);
            lemma_first_min_upto(lens_of(self.members()), self.members().len() as int);
        }
        let longest = self.queues[b].length();
        let shortest = self.queues[m].length();
        if longest - shortest < 2 {
            return false;
        }
        if !self.queues[m].has_room() {
            return false;
        }
        let ghost pre = self.members();
        let qb = &mut self.queues[b];
        let item = qb.dequeue(t);
        let ghost mid = self.members();
        proof {
            assert(dequeued_rel(pre, mid, b as int, t));
        }
        let qm = &mut self.queues[m];
        qm.enqueue(item, t);
        proof {
            assert(enqueued_rel(mid, self.members(), m as int, item, t));
        }
        if self.transitions < u64::MAX {
            self.transitions = self.transitions + 1;
        }
        true
    }

    /// Enqueue `item` on member `member` at time `t`, then run one
    /// rebalancing step. The caller has checked `has_room` for the member.
    pub fn enqueue(&mut self, member: usize, item: usize, t: u64)
        requires
            old(self).wf(),
            member < old(self).members().len(),
            old(self).members()[member as int].spec_has_room(),
            all_no_later_than(old(self).members(), t),
        ensures
            final(self).wf(),
            all_no_later_than(final(self).members(), t),
            exists|mid: Seq<RegularQueue>, moved: bool|
                #![trigger rebalance_rel(mid, final(self).members(), t, moved)]
                {
                    &&& enqueued_rel(old(self).members(), mid, member as int, item, t)
                    &&& rebalance_rel(mid, final(self).members(), t, moved)
                    &&& (moved && old(self).transitions_spec() < u64::MAX ==> final(self).transitions_spec() == old(self).transitions_spec() + 1)
                    &&& (!moved ==> final(self).transitions_spec() == old(self).transitions_spec())
                },
            old(self).balanced() && all_have_room(old(self).members()) ==> final(self).balanced(),
    {
        let ghost pre = self.members();
        let q = &mut self.queues[member];
        q.enqueue(item, t);
        let ghost stepped = self.members();
        proof {
            assert(enqueued_rel(pre, stepped, member as int, item, t));
        }
        let moved = self.rebalance(t);
        proof {
            if balanced_lens(lens_of(pre)) && all_have_room(pre) {
                lemma_enqueue_then_rebalance_balanced(
                    pre,
                    stepped,
                    self.members(),
                    member as int,
                    item,
                    t,
                    moved,
                );
            }
        }
    }

    /// Dequeue the front job of member `member` at time `t`, then run one
    /// rebalancing step. Returns the dequeued job.
    pub fn dequeue(&mut self, member: usize, t: u64) -> (item: usize)
        requires
            old(self).wf(),
            member < old(self).members().len(),
            old(self).members()[member as int].contents().len() > 0,
            all_no_later_than(old(self).members(), t),
        ensures
            final(self).wf(),
            all_no_later_than(final(self).members(), t),
            item == old(self).members()[member as int].contents()[0],
            exists|mid: Seq<RegularQueue>, moved: bool|
                #![trigger rebalance_rel(mid, final(self).members(), t, moved)]
                {
                    &&& dequeued_rel(old(self).members(), mid, member as int, t)
                    &&& rebalance_rel(mid, final(self).members(), t, moved)
                    &&& (moved && old(self).transitions_spec() < u64::MAX ==> final(self).transitions_spec() == old(self).transitions_spec() + 1)
                    &&& (!moved ==> final(self).transitions_spec() == old(self).transitions_spec())
                },
            old(self).balanced() ==> final(self).balanced(),
    {
        let ghost pre = self.members();
        let q = &mut self.queues[member];
        let item = q.dequeue(t);
        let ghost stepped = self.members();
        proof {
            assert(dequeued_rel(pre, stepped, member as int, t));
        }
        let moved = self.rebalance(t);
        proof {
            if balanced_lens(lens_of(pre)) {
                lemma_dequeue_then_rebalance_balanced(
                    pre,
                    stepped,
                    self.members(),
                    member as int,
                    t,
                    moved,
                );
            }
        }
        item
    }
}

/// After a rebalancing move the lengths are the pre-state lengths with one
/// unit shifted from the first-longest to the first-shortest member.
pub proof fn lemma_rebalance_lens(pre: Seq<RegularQueue>, post: Seq<RegularQueue>, t: u64)
    requires
        move_due(pre),
        rebalance_rel(pre, post, t, true),
    ensures
        lens_of(post) == lens_of(pre).update(
            first_max(lens_of(pre)),
            lens_of(pre)[first_max(lens_of(pre))] - 1,
        ).update(first_min(lens_of(pre)), lens_of(pre)[first_min(lens_of(pre))] + 1),
{
    let b = first_max(lens_of(pre));
    let m = first_min(lens_of(pre));
    lemma_first_max_upto(lens_of(pre), pre.len() as int);
    lemma_first_min_upto(lens_of(pre), pre.len() as int);
    let mid = choose|mid: Seq<RegularQueue>|
        #![trigger dequeued_rel(pre, mid, first_max(lens_of(pre)), t)]
        dequeued_rel(pre, mid, b, t) && enqueued_rel(mid, post, m, pre[b].contents()[0], t);
    assert(b != m);
    assert(lens_of(post) =~= lens_of(pre).update(b, lens_of(pre)[b] - 1).update(
        m,
        lens_of(pre)[m] + 1,
    ));
}

/// Law: enqueueing on a balanced pool whose members all have room, then
/// running one rebalancing step, leaves the pool balanced — the lengths of
/// any two members still differ by less than two.
pub proof fn lemma_enqueue_then_rebalance_balanced(
    pre: Seq<RegularQueue>,
    stepped: Seq<RegularQueue>,
    post: Seq<RegularQueue>,
    member: int,
    item: usize,
    t: u64,
    moved: bool,
)
    requires
        all_wf(pre),
        balanced_lens(lens_of(pre)),
        all_have_room(pre),
        0 <= member < pre.len(),
        enqueued_rel(pre, stepped, member, item, t),
        rebalance_rel(stepped, post, t, moved),
    ensures
        balanced_lens(lens_of(post)),
{
    let l0 = lens_of(pre);
    let l1 = lens_of(stepped);
    assert(l1 =~= l0.update(member, l0[member] + 1));
    lemma_first_max_upto(l1, l1.len() as int);
    lemma_first_min_upto(l1, l1.len() as int);
    let b = first_max(l1);
    let m = first_min(l1);
    if moved {
        lemma_rebalance_lens(stepped, post, t);
        let l2 = lens_of(post);
        assert(l2 =~= l1.update(b, l1[b] - 1).update(m, l1[m] + 1));
        // The only member two above the shortest can be the one just extended.
        assert(b == member);
        assert(l0[member] == l0[m] + 1);
        assert forall|i: int, j: int| 0 <= i < l2.len() && 0 <= j < l2.len() implies l2[i] <= l2[j]
            + 1 by {
            assert(l0[i] <= l0[j] + 1);
            assert(l0[i] <= l0[m] + 2);
            assert(l0[m] <= l0[j]);
        }
    } else {
        // No move was due: either the gap stayed below two, or the shortest
        // member is full — and a full shortest member here means every
        // member holds the same length.
        if l1[b] >= l1[m] + 2 {
            assert(!stepped[m].spec_has_room());
            assert(m == member);
            assert(false);
        }
        assert forall|i: int, j: int| 0 <= i < l1.len() && 0 <= j < l1.len() implies l1[i] <= l1[j]
            + 1 by {
            assert(l1[i] <= l1[b]);
            assert(l1[m] <= l1[j]);
        }
    }
}

/// Law: dequeueing from a balanced pool, then running one rebalancing step,
/// leaves the pool balanced.
pub proof fn lemma_dequeue_then_rebalance_balanced(
    pre: Seq<RegularQueue>,
    stepped: Seq<RegularQueue>,
    post: Seq<RegularQueue>,
    member: int,
    t: u64,
    moved: bool,
)
    requires
        all_wf(pre),
        balanced_lens(lens_of(pre)),
        0 <= member < pre.len(),
        pre[member].contents().len() > 0,
        dequeued_rel(pre, stepped, member, t),
        rebalance_rel(stepped, post, t, moved),
    ensures
        balanced_lens(lens_of(post)),
{
    let l0 = lens_of(pre);
    let l1 = lens_of(stepped);
    assert(l1 =~= l0.update(member, l0[member] - 1));
    lemma_first_max_upto(l1, l1.len() as int);
    lemma_first_min_upto(l1, l1.len() as int);
    let b = first_max(l1);
    let m = first_min(l1);
    if moved {
        lemma_rebalance_lens(stepped, post, t);
        let l2 = lens_of(post);
        assert(l2 =~= l1.update(b, l1[b] - 1).update(m, l1[m] + 1));
        // The only member two below the longest can be the one just drained.
        assert(m == member);
        assert(l0[b] == l0[member] + 1);
        assert forall|i: int, j: int| 0 <= i < l2.len() && 0 <= j < l2.len() implies l2[i] <= l2[j]
            + 1 by {
            assert(l0[i] <= l0[j] + 1);
            assert(l0[b] <= l0[i] + 1);
        }
    } else {
        if l1[b] >= l1[m] + 2 {
            // A move was blocked only by a full shortest member; but the
            // shortest is the member that just shrank below its capacity.
            assert(!stepped[m].spec_has_room());
            assert(m == member);
            assert(stepped[member].contents().len() < pre[member].contents().len());
            assert(pre[member].wf());
            assert(false);
        }
        assert forall|i: int, j: int| 0 <= i < l1.len() && 0 <= j < l1.len() implies l1[i] <= l1[j]
            + 1 by {
            assert(l1[i] <= l1[b]);
            assert(l1[m] <= l1[j]);
        }
    }
}

} // verus!
