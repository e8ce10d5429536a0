//! The ready pool and its stride scheduling policy.
//!
//! Each turn goes to the pooled task with the least stride, the earliest in
//! the pool among equals. The task is charged `BIG_STRIDE / priority` for the
//! turn, so that a task's share of the turns grows with its priority. Strides
//! are compared as plain numbers and counted modulo 2^64; priorities below
//! `MIN_PRIORITY` never enter a task.

use std::collections::VecDeque;
use vstd::prelude::*;
use crate::config::{BIG_STRIDE, MIN_PRIORITY};
use crate::processor::Processor;
use crate::task::{stride_after, TaskControlBlock, TaskView};

verus! {

/// Whether `q[i]` has the least stride of `q` and is the first to have it.
pub open spec fn is_first_min(q: Seq<TaskView>, i: int) -> bool {
    &&& 0 <= i < q.len()
    &&& forall|j: int| 0 <= j < q.len() ==> q[i].stride <= (#[trigger] q[j]).stride
    &&& forall|j: int| 0 <= j < i ==> (#[trigger] q[j]).stride > q[i].stride
}

/// The position of the task that the next turn goes to.
pub open spec fn first_min(q: Seq<TaskView>) -> int {
    choose|i: int| is_first_min(q, i)
}

/// A task after it was charged for one turn.
pub open spec fn charged(t: TaskView) -> TaskView {
    TaskView { stride: stride_after(t.stride, t.priority), ..t }
}

/// The pool that one selection leaves behind.
pub open spec fn pool_after_fetch(q: Seq<TaskView>) -> Seq<TaskView> {
    if q.len() == 0 {
        q
    } else {
        q.remove(first_min(q))
    }
}

/// The task that one selection hands out, if the pool holds any.
pub open spec fn fetched(q: Seq<TaskView>) -> Option<TaskView> {
    if q.len() == 0 {
        None
    } else {
        Some(charged(q[first_min(q)]))
    }
}

/// The pool after `n` selections in a row.
pub open spec fn drained(q: Seq<TaskView>, n: nat) -> Seq<TaskView>
    decreases n,
{
    if n == 0 {
        q
    } else {
        drained(pool_after_fetch(q), (n - 1) as nat)
    }
}

/// The pids of the tasks that `n` selections in a row hand out, in order.
pub open spec fn drain_order(q: Seq<TaskView>, n: nat) -> Seq<usize>
    decreases n,
{
    if n == 0 || q.len() == 0 {
        Seq::<usize>::empty()
    } else {
        seq![q[first_min(q)].pid] + drain_order(pool_after_fetch(q), (n - 1) as nat)
    }
}

/// The pids of a pool, in pool order.
pub open spec fn pids(q: Seq<TaskView>) -> Seq<usize> {
    q.map_values(|t: TaskView| t.pid)
}

/// Whether no two strides of `q` lie more than `bound` apart.
pub open spec fn spread_within(q: Seq<TaskView>, bound: int) -> bool {
    forall|i: int, j: int|
        0 <= i < q.len() && 0 <= j < q.len() ==> (#[trigger] q[i]).stride - (#[trigger] q[j]).stride
            <= bound
}

/// At most one position of a pool is its first minimum.
pub proof fn lemma_first_min_unique(q: Seq<TaskView>, i: int, j: int)
    requires
        is_first_min(q, i),
        is_first_min(q, j),
    ensures
        i == j,
{
    if i < j {
        assert(q[i].stride > q[j].stride);
    } else if j < i {
        assert(q[j].stride > q[i].stride);
    }
}

/// A pool that holds a task has a first minimum.
pub proof fn lemma_first_min_exists(q: Seq<TaskView>)
    requires
        q.len() > 0,
    ensures
        is_first_min(q, first_min(q)),
    decreases q.len(),
{
    if q.len() == 1 {
        assert(is_first_min(q, 0));
    } else {
        let r = q.drop_last();
        lemma_first_min_exists(r);
        let k = first_min(r);
        let n = q.len() - 1;
        assert(forall|j: int| 0 <= j < n ==> r[j] == q[j]);
        if q[n].stride < r[k].stride {
            assert forall|j: int| 0 <= j < q.len() implies q[n].stride <= (#[trigger] q[j]).stride by {
                if j < n {
                    assert(r[k].stride <= r[j].stride);
                }
            }
            assert forall|j: int| 0 <= j < n implies (#[trigger] q[j]).stride > q[n].stride by {
                assert(r[k].stride <= r[j].stride);
            }
            assert(is_first_min(q, n));
        } else {
            assert forall|j: int| 0 <= j < q.len() implies q[k].stride <= (#[trigger] q[j]).stride by {
                if j < n {
                    assert(r[k].stride <= r[j].stride);
                }
            }
            assert forall|j: int| 0 <= j < k implies (#[trigger] q[j]).stride > q[k].stride by {
                assert(r[j].stride > r[k].stride);
            }
            assert(is_first_min(q, k));
        }
    }
}

/// The task that a selection hands out has the least stride of the pool,
/// and of the tasks that have that stride it is the one that came first.
pub proof fn law_fetch_picks_least_and_earliest(q: Seq<TaskView>, j: int)
    requires
        0 <= j < q.len(),
    ensures
        0 <= first_min(q) < q.len(),
        fetched(q) == Some(charged(q[first_min(q)])),
        q[first_min(q)].stride <= q[j].stride,
        q[j].stride == q[first_min(q)].stride ==> first_min(q) <= j,
{
    lemma_first_min_exists(q);
}

/// While the sum stays within 64 bits, the task that a selection hands out
/// holds its earlier stride plus `BIG_STRIDE / priority`, and is otherwise
/// as it was in the pool.
pub proof fn law_fetch_charges_pass(t: TaskView)
    requires
        t.priority >= MIN_PRIORITY,
        t.stride + BIG_STRIDE as int / t.priority as int <= u64::MAX,
    ensures
        charged(t).stride == t.stride + BIG_STRIDE as int / t.priority as int,
        charged(t) == (TaskView { stride: charged(t).stride, ..t }),
{
    assert(0x1_0000_0000int / t.priority as int >= 0) by (nonlinear_arith)
        requires
            0 < t.priority,
    ;
}

/// A task whose priority is at most `BIG_STRIDE` leaves a
/// selection with a stride strictly above the one it had, while the sum stays
/// within 64 bits.
pub proof fn law_fetch_raises_stride(t: TaskView)
    requires
        MIN_PRIORITY <= t.priority <= BIG_STRIDE,
        t.stride + BIG_STRIDE as int / t.priority as int <= u64::MAX,
    ensures
        charged(t).stride > t.stride,
{
    assert(0x1_0000_0000int / t.priority as int > 0) by (nonlinear_arith)
        requires
            0 < t.priority <= 0x1_0000_0000,
    ;
}

/// As many selections as the pool holds tasks leave it empty, and hand out
/// each pooled task exactly once.
pub proof fn law_drain(q: Seq<TaskView>)
    ensures
        drained(q, q.len()) == Seq::<TaskView>::empty(),
        drain_order(q, q.len()).len() == q.len(),
        drain_order(q, q.len()).to_multiset() == pids(q).to_multiset(),
    decreases q.len(),
{
    if q.len() == 0 {
        assert(q =~= Seq::<TaskView>::empty());
        assert(pids(q) =~= drain_order(q, q.len()));
    } else {
        lemma_first_min_exists(q);
        let k = first_min(q);
        let pid = q[k].pid;
        let r = q.remove(k);
        law_drain(r);
        let tail = drain_order(r, r.len());
        assert(drain_order(q, q.len()) =~= tail.insert(0, pid));
        assert(pids(q) =~= pids(r).insert(k, pid));
        vstd::seq_lib::to_multiset_insert(tail, 0, pid);
        vstd::seq_lib::to_multiset_insert(pids(r), k, pid);
    }
}

/// Selection keeps the strides close: where every priority is at least
/// `MIN_PRIORITY` and no two strides of the pool lie more than
/// `BIG_STRIDE / 2` apart, the same holds after the selected task has been
/// charged and put back, as long as its stride stays within 64 bits.
pub proof fn law_spread_kept(q: Seq<TaskView>)
    requires
        q.len() > 0,
        forall|i: int| 0 <= i < q.len() ==> (#[trigger] q[i]).priority >= MIN_PRIORITY,
        spread_within(q, BIG_STRIDE as int / 2),
        q[first_min(q)].stride + BIG_STRIDE as int / q[first_min(q)].priority as int <= u64::MAX,
    ensures
        spread_within(pool_after_fetch(q).push(fetched(q)->0), BIG_STRIDE as int / 2),
{
    lemma_first_min_exists(q);
    let k = first_min(q);
    let least = q[k].stride as int;
    let half = BIG_STRIDE as int / 2;
    let after = pool_after_fetch(q).push(fetched(q)->0);
    law_fetch_charges_pass(q[k]);
    assert(0x1_0000_0000int / q[k].priority as int <= 0x1_0000_0000int / 2) by (nonlinear_arith)
        requires
            2 <= q[k].priority,
    ;
    assert forall|i: int| 0 <= i < after.len() implies least <= (#[trigger] after[i]).stride
        <= least + half by {
        if i < after.len() - 1 {
            let j = if i < k {
                i
            } else {
                i + 1
            };
            assert(after[i] == q[j]);
            assert(q[j].stride - q[k].stride <= half);
        }
    }
}

/// The ready pool: the tasks that wait for the CPU, in the order they came.
pub struct TaskManager {
    ready_queue: VecDeque<TaskControlBlock>,
}

impl View for TaskManager {
    type V = Seq<TaskView>;

    closed spec fn view(&self) -> Seq<TaskView> {
        self.ready_queue@.map_values(|t: TaskControlBlock| t@)
    }
}

impl TaskManager {
    /// An empty pool.
    pub fn new() -> (manager: Self)
        ensures
            manager@ == Seq::<TaskView>::empty(),
    {
        let manager = TaskManager { ready_queue: VecDeque::new() };
        assert(manager@ =~= Seq::<TaskView>::empty());
        manager
    }

    /// The number of pooled tasks.
    pub fn len(&self) -> (n: usize)
        ensures
            n == self@.len(),
    {
        self.ready_queue.len()
    }

    /// Puts `task` at the tail of the pool.
    pub fn add(&mut self, task: TaskControlBlock)
        ensures
            final(self)@ == old(self)@.push(task@),
    {
        self.ready_queue.push_back(task);
        assert(self@ =~= old(self)@.push(task@));
    }

    /// Takes out the task with the least stride, the first of the pool among
    /// equals, and charges it for the turn. The others keep their order.
    pub fn fetch(&mut self) -> (task: Option<TaskControlBlock>)
        ensures
            old(self)@.len() == 0 ==> task is None && final(self)@ == old(self)@,
            old(self)@.len() > 0 ==> {
                &&& task is Some
                &&& is_first_min(old(self)@, first_min(old(self)@))
                &&& task->0@ == charged(old(self)@[first_min(old(self)@)])
                &&& final(self)@ == old(self)@.remove(first_min(old(self)@))
            },
            final(self)@ == pool_after_fetch(old(self)@),
            fetched(old(self)@) == (match task {
                Some(t) => Some(t@),
                None => None::<TaskView>,
            }),
    {
        let n: usize = self.ready_queue.len();
        if n == 0 {
            return None;
        }
        let mut best: usize = 0;
        let mut least: u64 = self.ready_queue[0].stride();
        let mut i: usize = 1;
        while i < n
            invariant
                n == self.ready_queue@.len(),
                self@ == old(self)@,
                0 <= best < i <= n,
                least == self@[best as int].stride,
                forall|j: int| 0 <= j < i ==> least <= (#[trigger] self@[j]).stride,
                forall|j: int| 0 <= j < best ==> (#[trigger] self@[j]).stride > least,
            decreases n - i,
        {
            let s: u64 = self.ready_queue[i].stride();
            if s < least {
                best = i;
                least = s;
            }
            i += 1;
        }
        proof {
            assert(is_first_min(self@, best as int));
            lemma_first_min_exists(self@);
            lemma_first_min_unique(self@, best as int, first_min(self@));
        }
        match self.ready_queue.remove(best) {
            Some(mut task) => {
                task.advance_stride();
                assert(self@ =~= old(self)@.remove(best as int));
                Some(task)
            },
            None => None,
        }
    }
}

/// Puts `task` at the tail of the ready pool.
pub fn add_task(manager: &mut TaskManager, task: TaskControlBlock)
    ensures
        final(manager)@ == old(manager)@.push(task@),
{
    manager.add(task);
}

/// Takes from the ready pool the task that the next turn goes to.
pub fn fetch_task(manager: &mut TaskManager) -> (task: Option<TaskControlBlock>)
    ensures
        final(manager)@ == pool_after_fetch(old(manager)@),
        fetched(old(manager)@) == (match task {
            Some(t) => Some(t@),
            None => None::<TaskView>,
        }),
{
    manager.fetch()
}

/// Makes `child`, a task that the current task has created, ready to run, and
/// returns its pid.
pub fn spawn(manager: &mut TaskManager, processor: &Processor, child: TaskControlBlock) -> (id:
    isize)
    requires
        processor.current_view() is Some,
    ensures
        id == child@.pid as isize,
        final(manager)@ == old(manager)@.push(child@),
{
    let id: isize = child.pid() as isize;
    add_task(manager, child);
    id
}

} // verus!
