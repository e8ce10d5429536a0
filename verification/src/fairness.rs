//! What the stride policy gives over a run of rounds, where a round selects
//! a task and puts it back at the tail of the pool.
//!
//! Each selection of a task raises its stride by its pass, and no two strides
//! drift more than half of `BIG_STRIDE` apart. So for two tasks that started
//! level, turns times pass differ by at most that much: turns are shared out
//! in proportion to priority, up to a bounded error.

use vstd::prelude::*;
use crate::config::{BIG_STRIDE, MIN_PRIORITY};
use crate::manager::{
    charged, fetched, first_min, law_fetch_charges_pass, law_spread_kept, lemma_first_min_exists,
    pool_after_fetch, spread_within,
};
use crate::task::{TaskStatus, TaskView};

verus! {

/// The stride that one turn costs a task of priority `priority`.
pub open spec fn pass(priority: u64) -> int {
    BIG_STRIDE as int / priority as int
}

/// The pool after one round: the selected task, charged, goes to the tail.
pub open spec fn round(q: Seq<TaskView>) -> Seq<TaskView> {
    if q.len() == 0 {
        q
    } else {
        pool_after_fetch(q).push(charged(q[first_min(q)]))
    }
}

/// The pool after `n` rounds.
pub open spec fn after_rounds(q: Seq<TaskView>, n: nat) -> Seq<TaskView>
    decreases n,
{
    if n == 0 {
        q
    } else {
        after_rounds(round(q), (n - 1) as nat)
    }
}

/// Whether no stride leaves 64 bits in the course of `n` rounds.
pub open spec fn run_fits(q: Seq<TaskView>, n: nat) -> bool
    decreases n,
{
    n == 0 || q.len() == 0 || (q[first_min(q)].stride + pass(q[first_min(q)].priority) <= u64::MAX
        && run_fits(round(q), (n - 1) as nat))
}

/// How many of `n` rounds select the task `pid`.
pub open spec fn turns(q: Seq<TaskView>, n: nat, pid: usize) -> nat
    decreases n,
{
    if n == 0 || q.len() == 0 {
        0
    } else {
        let one: nat = if q[first_min(q)].pid == pid {
            1
        } else {
            0
        };
        one + turns(round(q), (n - 1) as nat, pid)
    }
}

/// Whether every task of `q` has a priority of at least `MIN_PRIORITY`.
pub open spec fn priorities_valid(q: Seq<TaskView>) -> bool {
    forall|i: int| 0 <= i < q.len() ==> (#[trigger] q[i]).priority >= MIN_PRIORITY
}

/// Whether no two tasks of `q` share a pid.
pub open spec fn pids_distinct(q: Seq<TaskView>) -> bool {
    forall|i: int, j: int|
        0 <= i < q.len() && 0 <= j < q.len() && i != j ==> (#[trigger] q[i]).pid != (
        #[trigger] q[j]).pid
}

/// Whether every task of `q` is ready.
pub open spec fn all_ready(q: Seq<TaskView>) -> bool {
    forall|i: int| 0 <= i < q.len() ==> (#[trigger] q[i]).status == TaskStatus::Ready
}

/// Where the task at position `i` of `q` stands after one round that selects
/// position `k`.
pub open spec fn moved(q: Seq<TaskView>, k: int, i: int) -> int {
    if i < k {
        i
    } else if i == k {
        q.len() - 1
    } else {
        i - 1
    }
}

/// One round keeps every task, each under its pid and priority; the selected
/// one goes to the tail with its stride charged, the others keep theirs.
pub proof fn lemma_round_moves(q: Seq<TaskView>, i: int)
    requires
        0 <= i < q.len(),
    ensures
        round(q).len() == q.len(),
        0 <= moved(q, first_min(q), i) < q.len(),
        round(q)[moved(q, first_min(q), i)] == (if i == first_min(q) {
            charged(q[i])
        } else {
            q[i]
        }),
{
    lemma_first_min_exists(q);
}

/// One round keeps priorities valid and pids distinct.
pub proof fn lemma_round_keeps_shape(q: Seq<TaskView>)
    requires
        q.len() > 0,
    ensures
        round(q).len() == q.len(),
        priorities_valid(q) ==> priorities_valid(round(q)),
        pids_distinct(q) ==> pids_distinct(round(q)),
{
    lemma_first_min_exists(q);
    let k = first_min(q);
    let r = round(q);
    let n = q.len() - 1;
    assert forall|i: int| 0 <= i < r.len() implies (#[trigger] r[i]).priority == q[if i == n {
        k
    } else if i < k {
        i
    } else {
        i + 1
    }].priority && r[i].pid == q[if i == n {
        k
    } else if i < k {
        i
    } else {
        i + 1
    }].pid by {}
    if pids_distinct(q) {
        assert forall|i: int, j: int| 0 <= i < r.len() && 0 <= j < r.len() && i != j implies (
        #[trigger] r[i]).pid != (#[trigger] r[j]).pid by {
            let a = if i == n {
                k
            } else if i < k {
                i
            } else {
                i + 1
            };
            let b = if j == n {
                k
            } else if j < k {
                j
            } else {
                j + 1
            };
            assert(r[i].pid == q[a].pid);
            assert(r[j].pid == q[b].pid);
            assert(a != b);
        }
    }
    if priorities_valid(q) {
        assert forall|i: int| 0 <= i < r.len() implies (#[trigger] r[i]).priority
            >= MIN_PRIORITY by {
            let a = if i == n {
                k
            } else if i < k {
                i
            } else {
                i + 1
            };
            assert(r[i].priority == q[a].priority);
        }
    }
}

/// A pool of ready tasks stays one under admission of a ready task and under
/// selection, and the task handed out is ready.
pub proof fn law_pool_stays_ready(q: Seq<TaskView>, t: TaskView)
    requires
        all_ready(q),
    ensures
        t.status == TaskStatus::Ready ==> all_ready(q.push(t)),
        all_ready(pool_after_fetch(q)),
        fetched(q) is Some ==> fetched(q)->0.status == TaskStatus::Ready,
{
    if q.len() > 0 {
        lemma_first_min_exists(q);
        let k = first_min(q);
        let r = pool_after_fetch(q);
        assert forall|i: int| 0 <= i < r.len() implies (#[trigger] r[i]).status
            == TaskStatus::Ready by {
            assert(r[i] == q[if i < k {
                i
            } else {
                i + 1
            }]);
        }
    }
}

/// Over any run in which no stride leaves 64 bits, strides that lie within
/// half of `BIG_STRIDE` of each other stay so.
pub proof fn law_spread_kept_over_run(q: Seq<TaskView>, n: nat)
    requires
        priorities_valid(q),
        spread_within(q, BIG_STRIDE as int / 2),
        run_fits(q, n),
    ensures
        after_rounds(q, n).len() == q.len(),
        priorities_valid(after_rounds(q, n)),
        spread_within(after_rounds(q, n), BIG_STRIDE as int / 2),
    decreases n,
{
    if n > 0 && q.len() > 0 {
        lemma_round_keeps_shape(q);
        law_spread_kept(q);
        law_spread_kept_over_run(round(q), (n - 1) as nat);
    } else if n > 0 {
        law_spread_kept_over_run(round(q), (n - 1) as nat);
    }
}

/// Over any run in which no stride leaves 64 bits, each task of a pool with
/// distinct pids is still pooled, under its pid and priority, and its stride
/// has grown by its pass for each round that selected it.
pub proof fn law_stride_counts_turns(q: Seq<TaskView>, n: nat, i: int)
    requires
        priorities_valid(q),
        pids_distinct(q),
        run_fits(q, n),
        0 <= i < q.len(),
    ensures
        exists|j: int|
            0 <= j < after_rounds(q, n).len() && (#[trigger] after_rounds(q, n)[j]) == (TaskView {
                stride: (q[i].stride + turns(q, n, q[i].pid) * pass(q[i].priority)) as u64,
                ..q[i]
            }) && q[i].stride + turns(q, n, q[i].pid) * pass(q[i].priority) <= u64::MAX,
    decreases n,
{
    if n == 0 {
        assert(turns(q, n, q[i].pid) * pass(q[i].priority) == 0) by (nonlinear_arith)
            requires
                turns(q, n, q[i].pid) == 0,
        ;
        assert(after_rounds(q, n)[i] == q[i]);
    } else {
        lemma_first_min_exists(q);
        lemma_round_keeps_shape(q);
        lemma_round_moves(q, i);
        let k = first_min(q);
        let r = round(q);
        let c = moved(q, k, i);
        let m = (n - 1) as nat;
        law_fetch_charges_pass(q[k]);
        law_stride_counts_turns(r, m, c);
        let j = choose|j: int|
            0 <= j < after_rounds(r, m).len() && (#[trigger] after_rounds(r, m)[j]) == (TaskView {
                stride: (r[c].stride + turns(r, m, r[c].pid) * pass(r[c].priority)) as u64,
                ..r[c]
            }) && r[c].stride + turns(r, m, r[c].pid) * pass(r[c].priority) <= u64::MAX;
        let rest = turns(r, m, q[i].pid);
        let p = pass(q[i].priority);
        if i == k {
            assert(turns(q, n, q[i].pid) == 1 + rest);
            assert((1 + rest) * p == p + rest * p) by (nonlinear_arith);
        } else {
            assert(q[k].pid != q[i].pid);
            assert(turns(q, n, q[i].pid) == rest);
        }
        assert(after_rounds(q, n)[j] == after_rounds(r, m)[j]);
    }
}

/// Proportional share: of two tasks that start a run with equal strides, in
/// a pool of distinct pids whose strides lie within half of `BIG_STRIDE` of
/// each other, neither gets ahead of the other by more than half of
/// `BIG_STRIDE`, counted in turns times pass, however long the run, as long
/// as no stride leaves 64 bits.
pub proof fn law_turns_in_proportion(q: Seq<TaskView>, n: nat, i: int, j: int)
    requires
        priorities_valid(q),
        pids_distinct(q),
        spread_within(q, BIG_STRIDE as int / 2),
        run_fits(q, n),
        0 <= i < q.len(),
        0 <= j < q.len(),
        q[i].stride == q[j].stride,
    ensures
        turns(q, n, q[i].pid) * pass(q[i].priority) - turns(q, n, q[j].pid) * pass(q[j].priority)
            <= BIG_STRIDE as int / 2,
{
    let end = after_rounds(q, n);
    law_spread_kept_over_run(q, n);
    law_stride_counts_turns(q, n, i);
    law_stride_counts_turns(q, n, j);
    let a = choose|a: int|
        0 <= a < end.len() && (#[trigger] end[a]) == (TaskView {
            stride: (q[i].stride + turns(q, n, q[i].pid) * pass(q[i].priority)) as u64,
            ..q[i]
        }) && q[i].stride + turns(q, n, q[i].pid) * pass(q[i].priority) <= u64::MAX;
    let b = choose|b: int|
        0 <= b < end.len() && (#[trigger] end[b]) == (TaskView {
            stride: (q[j].stride + turns(q, n, q[j].pid) * pass(q[j].priority)) as u64,
            ..q[j]
        }) && q[j].stride + turns(q, n, q[j].pid) * pass(q[j].priority) <= u64::MAX;
    assert(end[a].stride - end[b].stride <= BIG_STRIDE as int / 2);
}

} // verus!
