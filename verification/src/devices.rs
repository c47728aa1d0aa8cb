//! A station's pool of parallel servers ("devices"), with busy/idle
//! accounting and a time-weighted utilization history.

use vstd::prelude::*;

use crate::stats::Ratio;
use crate::weighted_average::{
    duration, duration_spec, times_sorted, weighted_average, weighted_total_spec,
};

verus! {

/// How many of the first `n` slots hold a work item.
pub open spec fn occupied_upto(s: Seq<Option<usize>>, n: int) -> int
    decreases n,
{
    if n <= 0 {
        0
    } else {
        occupied_upto(s, n - 1) + if s[n - 1] is Some {
            1int
        } else {
            0int
        }
    }
}

/// How many slots hold a work item.
pub open spec fn occupied(s: Seq<Option<usize>>) -> int {
    occupied_upto(s, s.len() as int)
}

/// How many of the first `n` slots are serving exactly `item`.
pub open spec fn serving_upto(s: Seq<Option<usize>>, item: usize, n: int) -> int
    decreases n,
{
    if n <= 0 {
        0
    } else {
        serving_upto(s, item, n - 1) + if s[n - 1] == Some(item) {
            1int
        } else {
            0int
        }
    }
}

/// How many slots are serving exactly `item`: each load of a job must be
/// matched by one unload before the job can be loaded again without
/// double-accounting.
pub open spec fn serving(s: Seq<Option<usize>>, item: usize) -> int {
    serving_upto(s, item, s.len() as int)
}

/// Changing one slot changes the serving count of an item only by that
/// slot's own contribution.
pub proof fn lemma_serving_upto_update(
    s: Seq<Option<usize>>,
    k: int,
    v: Option<usize>,
    item: usize,
    n: int,
)
    requires
        0 <= k < s.len(),
        0 <= n <= s.len(),
    ensures
        n <= k ==> serving_upto(s.update(k, v), item, n) == serving_upto(s, item, n),
        n > k ==> serving_upto(s.update(k, v), item, n) == serving_upto(s, item, n) + (if v
            == Some(item) {
            1int
        } else {
            0int
        }) - (if s[k] == Some(item) {
            1int
        } else {
            0int
        }),
    decreases n,
{
    if n > 0 {
        lemma_serving_upto_update(s, k, v, item, n - 1);
    }
}

/// The occupied slots among the first `n` never number more than `n`, nor
/// fewer than zero.
pub proof fn lemma_occupied_upto_bounds(s: Seq<Option<usize>>, n: int)
    requires
        0 <= n <= s.len(),
    ensures
        0 <= occupied_upto(s, n) <= n,
    decreases n,
{
    if n > 0 {
        lemma_occupied_upto_bounds(s, n - 1);
    }
}

/// Changing one slot from free to busy raises the occupied count of every
/// prefix beyond that slot by exactly one; prefixes before it are untouched.
pub proof fn lemma_occupied_upto_update(s: Seq<Option<usize>>, k: int, v: Option<usize>, n: int)
    requires
        0 <= k < s.len(),
        0 <= n <= s.len(),
    ensures
        n <= k ==> occupied_upto(s.update(k, v), n) == occupied_upto(s, n),
        n > k ==> occupied_upto(s.update(k, v), n) == occupied_upto(s, n) + (if v is Some {
            1int
        } else {
            0int
        }) - (if s[k] is Some {
            1int
        } else {
            0int
        }),
    decreases n,
{
    if n > 0 {
        lemma_occupied_upto_update(s, k, v, n - 1);
    }
}

/// The items served by the first `n` slots, in slot order.
pub open spec fn loaded_upto(s: Seq<Option<usize>>, n: int) -> Seq<usize>
    decreases n,
{
    if n <= 0 {
        Seq::empty()
    } else {
        loaded_upto(s, n - 1) + match s[n - 1] {
            Some(x) => seq![x],
            None => Seq::empty(),
        }
    }
}

/// The items currently being served, in slot order.
pub open spec fn loaded_seq(s: Seq<Option<usize>>) -> Seq<usize> {
    loaded_upto(s, s.len() as int)
}

/// What the time-weighted average utilization must be: the busy-count
/// integral over the span times the server count, with the same degenerate
/// sentinels as the queue average, each over the server count.
pub open spec fn average_workload_exact(h: Seq<(u64, usize)>, count: int, r: Ratio) -> bool {
    &&& (duration_spec(h) > 0 ==> r == (Ratio {
        num: weighted_total_spec(h) as u128,
        den: (duration_spec(h) * count) as u128,
    }))
    &&& (h.len() == 0 ==> r == (Ratio { num: 0, den: count as u128 }))
    &&& (h.len() > 0 && duration_spec(h) == 0 ==> r == (Ratio {
        num: h.last().1 as u128,
        den: count as u128,
    }))
}

/// How a pool of servers looks after `load(item)` at time `t`: one formerly
/// idle slot now serves `item`, the busy count and `item`'s serving count are
/// one higher, and a utilization sample is recorded.
pub open spec fn loaded_rel(pre: Devices, post: Devices, item: usize, t: u64) -> bool {
    &&& post.wf()
    &&& post.count_spec() == pre.count_spec()
    &&& post.busy_spec() == pre.busy_spec() + 1
    &&& post.contains(item)
    &&& exists|k: int|
        #![trigger pre.holders()[k]]
        0 <= k < pre.holders().len() && pre.holders()[k] is None && post.holders()
            == pre.holders().update(k, Some(item))
    &&& post.history() == pre.history().push((t, (pre.busy_spec() + 1) as usize))
    &&& post.latest() == t
    &&& serving(post.holders(), item) == serving(pre.holders(), item) + 1
    &&& forall|other: usize|
        other != item ==> serving(post.holders(), other) == serving(pre.holders(), other)
}

/// How a pool of servers looks after `unload(item)` at time `t`: one slot
/// that served `item` is idle again, the busy count and `item`'s serving
/// count are one lower, and a utilization sample is recorded.
pub open spec fn unloaded_rel(pre: Devices, post: Devices, item: usize, t: u64) -> bool {
    &&& post.wf()
    &&& post.count_spec() == pre.count_spec()
    &&& post.busy_spec() == pre.busy_spec() - 1
    &&& exists|k: int|
        #![trigger pre.holders()[k]]
        0 <= k < pre.holders().len() && pre.holders()[k] == Some(item) && post.holders()
            == pre.holders().update(k, None)
    &&& post.history() == pre.history().push((t, (pre.busy_spec() - 1) as usize))
    &&& post.latest() == t
    &&& serving(post.holders(), item) == serving(pre.holders(), item) - 1
    &&& forall|other: usize|
        other != item ==> serving(post.holders(), other) == serving(pre.holders(), other)
}

/// A pool of `count` parallel servers. Each busy server holds the id of the
/// work item it is serving; `load` and `unload` are the only mutators and
/// each appends a `(time, busy)` utilization sample.
pub struct Devices {
    workers: Vec<Option<usize>>,
    busy: usize,
    workloads: Vec<(u64, usize)>,
}

/// The final statistics of a pool: utilization when observation ended, and
/// the time-weighted average utilization, both as exact fractions of the
/// server count.
#[derive(Clone, Copy, Debug, PartialEq, Eq, Structural)]
pub struct DevicesStats {
    pub final_workload: Ratio,
    pub average_workload: Ratio,
}

/// The per-step snapshot of a pool: its current utilization.
#[derive(Clone, Copy, Debug, PartialEq, Eq, Structural)]
pub struct DevicesStepStats {
    pub workload: Ratio,
}

impl Devices {
    /// The server slots: `None` is idle, `Some(item)` is serving that item.
    pub closed spec fn holders(self) -> Seq<Option<usize>> {
        self.workers@
    }

    /// The number of servers.
    pub open spec fn count_spec(self) -> int {
        self.holders().len() as int
    }

    /// The number of busy servers.
    pub closed spec fn busy_spec(self) -> int {
        self.busy as int
    }

    /// The number of idle servers.
    pub open spec fn idle_spec(self) -> int {
        self.count_spec() - self.busy_spec()
    }

    /// The append-only utilization history: a `(time, busy)` sample per
    /// mutation.
    pub closed spec fn history(self) -> Seq<(u64, usize)> {
        self.workloads@
    }

    /// True when some server is serving `item`.
    pub open spec fn contains(self, item: usize) -> bool {
        exists|i: int| 0 <= i < self.holders().len() && self.holders()[i] == Some(item)
    }

    /// The time of the pool's most recent sample.
    pub open spec fn latest(self) -> int {
        if self.history().len() == 0 {
            0
        } else {
            self.history().last().0 as int
        }
    }

    /// Well-formedness: the busy counter counts the occupied slots — so
    /// `0 <= idle <= count` — history times never decrease, the last sample
    /// records the current busy count, and no sample exceeds the server
    /// count.
    pub open spec fn wf(self) -> bool {
        &&& self.busy_spec() == occupied(self.holders())
        &&& self.busy_spec() <= self.count_spec()
        &&& times_sorted(self.history())
        &&& (self.history().len() > 0 ==> self.history().last().1 == self.busy_spec())
        &&& (forall|i: int|
            0 <= i < self.history().len() ==> (#[trigger] self.history()[i]).1
                <= self.count_spec())
    }

    /// A pool of `count` idle servers, unobserved.
    pub fn new(count: usize) -> (d: Devices)
        ensures
            d.wf(),
            d.count_spec() == count,
            d.busy_spec() == 0,
            d.history() == Seq::<(u64, usize)>::empty(),
            forall|item: usize| !d.contains(item),
    {
        let mut workers: Vec<Option<usize>> = Vec::new();
        let mut i: usize = 0;
        while i < count
            invariant
                0 <= i <= count,
                workers@.len() == i,
                forall|j: int| 0 <= j < i ==> workers@[j] is None,
            decreases count - i,
        {
            workers.push(None);
            i = i + 1;
        }
        proof {
            lemma_occupied_none(workers@, workers@.len() as int);
        }
        Devices { workers, busy: 0, workloads: Vec::new() }
    }

    pub fn count(&self) -> (n: usize)
        ensures
            n == self.count_spec(),
    {
        self.workers.len()
    }

    pub fn busy(&self) -> (n: usize)
        requires
            self.wf(),
        ensures
            n == self.busy_spec(),
    {
        self.busy
    }

    /// How many servers are free to accept a work item.
    pub fn idle(&self) -> (n: usize)
        requires
            self.wf(),
        ensures
            n == self.idle_spec(),
    {
        proof {
            lemma_occupied_upto_bounds(self.holders(), self.holders().len() as int);
        }
        self.workers.len() - self.busy
    }

    /// True when some server is serving `item`.
    pub fn has_item(&self, item: usize) -> (b: bool)
        ensures
            b == self.contains(item),
    {
        let mut i: usize = 0;
        while i < self.workers.len()
            invariant
                0 <= i <= self.workers@.len(),
                forall|j: int| 0 <= j < i ==> self.workers@[j] != Some(item),
            decreases self.workers@.len() - i,
        {
            match self.workers[i] {
                Some(held) => {
                    if held == item {
                        return true;
                    }
                },
                None => {},
            }
            i = i + 1;
        }
        false
    }

    /// The items currently being served, in slot order: the jobs whose
    /// completions are already scheduled when a station starts.
    pub fn loaded_items(&self) -> (v: Vec<usize>)
        ensures
            v@ == loaded_seq(self.holders()),
    {
        let mut v: Vec<usize> = Vec::new();
        let mut i: usize = 0;
        while i < self.workers.len()
            invariant
                0 <= i <= self.workers@.len(),
                v@ == loaded_upto(self.workers@, i as int),
            decreases self.workers@.len() - i,
        {
            match self.workers[i] {
                Some(held) => {
                    v.push(held);
                    proof {
                        assert(v@ =~= loaded_upto(self.workers@, i as int + 1));
                    }
                },
                None => {
                    proof {
                        assert(v@ =~= loaded_upto(self.workers@, i as int + 1));
                    }
                },
            }
            i = i + 1;
        }
        v
    }

    /// The time of the most recent sample, or zero if none was taken yet.
    pub fn latest_time(&self) -> (t: u64)
        ensures
            t == self.latest(),
    {
        duration(&self.workloads)
    }

    /// The first idle server slot.
    fn first_idle_slot(&self) -> (r: usize)
        requires
            self.wf(),
            self.idle_spec() > 0,
        ensures
            0 <= r < self.holders().len(),
            self.holders()[r as int] is None,
    {
        let n = self.workers.len();
        let mut i: usize = 0;
        while i < n
            invariant
                0 <= i <= n,
                n == self.workers@.len(),
                forall|j: int| 0 <= j < i ==> self.workers@[j] is Some,
            decreases n - i,
        {
            if self.workers[i].is_none() {
                return i;
            }
            i = i + 1;
        }
        proof {
            lemma_occupied_all_some(self.holders(), n as int);
            assert(false);
        }
        0
    }

    /// The first server slot that is serving `item`.
    fn slot_of(&self, item: usize) -> (r: usize)
        requires
            self.contains(item),
        ensures
            0 <= r < self.holders().len(),
            self.holders()[r as int] == Some(item),
    {
        let n = self.workers.len();
        let mut i: usize = 0;
        while i < n
            invariant
                0 <= i <= n,
                n == self.workers@.len(),
                self.contains(item),
                forall|j: int| 0 <= j < i ==> self.workers@[j] != Some(item),
            decreases n - i,
        {
            let hit = match self.workers[i] {
                Some(held) => held == item,
                None => false,
            };
            if hit {
                return i;
            }
            i = i + 1;
        }
        proof {
            assert(false);
        }
        0
    }

    /// Occupy one idle server with `item` and record the new busy count at
    /// time `t`. Loading a pool with no idle server would be a scheduling
    /// bug, so that case is excluded here.
    pub fn load(&mut self, item: usize, t: u64)
        requires
            old(self).wf(),
            old(self).idle_spec() > 0,
            t >= old(self).latest(),
        ensures
            loaded_rel(*old(self), *final(self), item, t),
    {
        let i = self.first_idle_slot();
        let n = self.workers.len();
        assert(self.busy < n);
        proof {
            lemma_occupied_upto_update(
                self.holders(),
                i as int,
                Some(item),
                self.holders().len() as int,
            );
            lemma_occupied_upto_bounds(self.holders(), self.holders().len() as int);
            lemma_serving_upto_update(
                self.holders(),
                i as int,
                Some(item),
                item,
                self.holders().len() as int,
            );
            assert forall|other: usize| other != item implies serving(
                self.holders().update(i as int, Some(item)),
                other,
            ) == serving(self.holders(), other) by {
                lemma_serving_upto_update(
                    self.holders(),
                    i as int,
                    Some(item),
                    other,
                    self.holders().len() as int,
                );
            }
        }
        let slot = &mut self.workers[i];
        *slot = Some(item);
        self.busy = self.busy + 1;
        self.workloads.push((t, self.busy));
    }

    /// Free the server that is serving `item` (the first such, were an id
    /// ever duplicated) and record the new busy count at time `t`. Unloading
    /// an item that no server holds would be a scheduling bug, so that case
    /// is excluded here.
    pub fn unload(&mut self, item: usize, t: u64)
        requires
            old(self).wf(),
            old(self).contains(item),
            t >= old(self).latest(),
        ensures
            unloaded_rel(*old(self), *final(self), item, t),
    {
        let i = self.slot_of(item);
        proof {
            lemma_occupied_some_positive(self.holders(), i as int);
            lemma_occupied_upto_update(
                self.holders(),
                i as int,
                None,
                self.holders().len() as int,
            );
            lemma_serving_upto_update(
                self.holders(),
                i as int,
                None,
                item,
                self.holders().len() as int,
            );
            assert forall|other: usize| other != item implies serving(
                self.holders().update(i as int, None),
                other,
            ) == serving(self.holders(), other) by {
                lemma_serving_upto_update(
                    self.holders(),
                    i as int,
                    None,
                    other,
                    self.holders().len() as int,
                );
            }
        }
        let slot = &mut self.workers[i];
        *slot = None;
        self.busy = self.busy - 1;
        self.workloads.push((t, self.busy));
    }

    /// The current utilization, `busy / count` (or zero for an empty pool).
    pub fn workload(&self) -> (r: Ratio)
        requires
            self.wf(),
        ensures
            self.count_spec() > 0 ==> r == (Ratio {
                num: self.busy_spec() as u128,
                den: self.count_spec() as u128,
            }),
            self.count_spec() == 0 ==> r == (Ratio { num: 0, den: 1 }),
    {
        proof {
            lemma_occupied_upto_bounds(self.holders(), self.holders().len() as int);
        }
        if self.workers.len() == 0 {
            Ratio::whole(0)
        } else {
            Ratio::new(self.busy as u128, self.workers.len() as u128)
        }
    }

    /// The pool's statistics: final utilization and time-weighted average
    /// utilization, each as an exact fraction of the server count.
    pub fn stats(&self) -> (s: DevicesStats)
        requires
            self.wf(),
            self.count_spec() > 0,
        ensures
            s.final_workload == (Ratio {
                num: self.busy_spec() as u128,
                den: self.count_spec() as u128,
            }),
            average_workload_exact(self.history(), self.count_spec(), s.average_workload),
    {
        let avg = weighted_average(&self.workloads);
        let count = self.workers.len() as u128;
        assert(avg.den * count <= u128::MAX) by (nonlinear_arith)
            requires
                0 <= avg.den <= u64::MAX,
                0 < count <= u64::MAX,
        ;
        if avg.den == 1 {
            assert(avg.den * count == count) by (nonlinear_arith)
                requires
                    avg.den == 1,
            ;
        }
        DevicesStats {
            final_workload: self.workload(),
            average_workload: Ratio { num: avg.num, den: avg.den * count },
        }
    }

    /// The pool's per-step snapshot: its current utilization.
    pub fn step_stats(&self) -> (s: DevicesStepStats)
        requires
            self.wf(),
    ensures
            self.count_spec() > 0 ==> s.workload == (Ratio {
                num: self.busy_spec() as u128,
                den: self.count_spec() as u128,
            }),
    {
        DevicesStepStats { workload: self.workload() }
    }
}

/// A sequence of all-free slots has no occupied prefix.
pub proof fn lemma_occupied_none(s: Seq<Option<usize>>, n: int)
    requires
        0 <= n <= s.len(),
        forall|j: int| 0 <= j < s.len() ==> s[j] is None,
    ensures
        occupied_upto(s, n) == 0,
    decreases n,
{
    if n > 0 {
        lemma_occupied_none(s, n - 1);
    }
}

/// A sequence of all-busy slots is fully occupied.
pub proof fn lemma_occupied_all_some(s: Seq<Option<usize>>, n: int)
    requires
        0 <= n <= s.len(),
        forall|j: int| 0 <= j < n ==> s[j] is Some,
    ensures
        occupied_upto(s, n) == n,
    decreases n,
{
    if n > 0 {
        lemma_occupied_all_some(s, n - 1);
    }
}

/// A slot that holds an item makes every prefix beyond it occupied at least
/// once.
pub proof fn lemma_occupied_some_positive(s: Seq<Option<usize>>, k: int)
    requires
        0 <= k < s.len(),
        s[k] is Some,
    ensures
        occupied(s) >= 1,
{
    lemma_occupied_some_positive_upto(s, k, s.len() as int);
}

/// Law: in a well-formed pool the idle count always lies between zero and
/// the server count, whatever sequence of loads and unloads produced it.
pub proof fn lemma_device_pool_bounds(d: Devices)
    requires
        d.wf(),
    ensures
        0 <= d.idle_spec() <= d.count_spec(),
        0 <= d.busy_spec() <= d.count_spec(),
{
    lemma_occupied_upto_bounds(d.holders(), d.holders().len() as int);
}

proof fn lemma_occupied_some_positive_upto(s: Seq<Option<usize>>, k: int, n: int)
    requires
        0 <= k < n <= s.len(),
        s[k] is Some,
    ensures
        occupied_upto(s, n) >= 1,
    decreases n,
{
    lemma_occupied_upto_bounds(s, n - 1);
    if k < n - 1 {
        lemma_occupied_some_positive_upto(s, k, n - 1);
    }
}

} // verus!
