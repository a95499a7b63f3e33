//! The invariant of the pool holds at the start and is kept by every step.

use crate::model::busy;
use crate::model::Activity;
use crate::model::PoolModel;
use crate::model::WorkerModel;
use vstd::prelude::*;

verus! {

/// No more workers are busy than there are workers.
pub proof fn lemma_busy_bound(workers: Seq<WorkerModel>)
    ensures
        busy(workers) <= workers.len(),
    decreases workers.len(),
{
    if workers.len() > 0 {
        lemma_busy_bound(workers.drop_last());
    }
}

/// Where no worker executes, none is busy.
pub proof fn lemma_busy_none(workers: Seq<WorkerModel>)
    requires
        forall|w: int| 0 <= w < workers.len() ==> !((#[trigger] workers[w]).activity is Executing),
    ensures
        busy(workers) == 0,
    decreases workers.len(),
{
    if workers.len() > 0 {
        lemma_busy_none(workers.drop_last());
    }
}

/// Replacing one worker changes the count by that worker alone.
pub proof fn lemma_busy_update(workers: Seq<WorkerModel>, w: int, worker: WorkerModel)
    requires
        0 <= w < workers.len(),
    ensures
        busy(workers.update(w, worker)) + (if workers[w].activity is Executing {
            1nat
        } else {
            0nat
        }) == busy(workers) + (if worker.activity is Executing {
            1nat
        } else {
            0nat
        }),
    decreases workers.len(),
{
    let after = workers.update(w, worker);
    if w == workers.len() - 1 {
        assert(after.drop_last() =~= workers.drop_last());
    } else {
        assert(after.drop_last() =~= workers.drop_last().update(w, worker));
        lemma_busy_update(workers.drop_last(), w, worker);
    }
}

/// A fresh pool with at least one worker meets the invariant.
pub proof fn lemma_init_inv<J>(size: nat)
    requires
        size > 0,
    ensures
        PoolModel::<J>::init(size).inv(),
{
    let m = PoolModel::<J>::init(size);
    lemma_busy_none(m.workers);
}

/// A job that was in progress before a step is still in progress after it,
/// if the step left its worker alone.
proof fn lemma_still_in_progress<J>(m: PoolModel<J>, n: PoolModel<J>, w: int, k: nat)
    requires
        m.in_progress(k),
        n.workers.len() == m.workers.len(),
        forall|v: int| 0 <= v < m.workers.len() && v != w ==> n.workers[v] == m.workers[v],
        !(0 <= w < m.workers.len() && m.workers[w].activity == (Activity::Executing { job: k })),
    ensures
        n.in_progress(k),
{
    let v = choose|v: int|
        0 <= v < m.workers.len() && #[trigger] m.workers[v].activity == (Activity::Executing {
            job: k,
        });
    assert(n.workers[v] == m.workers[v]);
}

/// Accepting a job keeps the invariant, as long as the pool is open.
pub proof fn lemma_submit_inv<J>(m: PoolModel<J>, job: J)
    requires
        m.inv(),
        m.open,
    ensures
        m.submit(job).inv(),
{
    let n = m.submit(job);
    assert forall|w: int| #[trigger] n.is_closed(w) implies !n.open && n.delivered
        == n.submitted.len() by {
        assert(m.is_closed(w));
    }
}

/// Closing the pool keeps the invariant.
pub proof fn lemma_close_inv<J>(m: PoolModel<J>)
    requires
        m.inv(),
    ensures
        m.close().inv(),
{
    let n = m.close();
    assert forall|w: int| #[trigger] n.is_closed(w) implies !n.open && n.delivered
        == n.submitted.len() by {
        assert(m.is_closed(w));
    }
}

/// A waiting worker that asks for its next job keeps the invariant, whatever
/// it is told.
pub proof fn lemma_take_inv<J>(m: PoolModel<J>, w: int)
    requires
        m.inv(),
        m.is_waiting(w),
    ensures
        m.take(w).inv(),
{
    let n = m.take(w);
    if m.delivered < m.submitted.len() || !m.open {
        lemma_busy_update(m.workers, w, n.workers[w]);
        assert forall|v: int| #[trigger] n.is_closed(v) implies !n.open && n.delivered
            == n.submitted.len() by {
            if m.delivered < m.submitted.len() {
                assert(m.is_closed(v));
            }
        }
        assert forall|k: nat| k < n.delivered implies #[trigger] n.completed.contains(k)
            || n.in_progress(k) by {
            if k < m.delivered && !m.completed.contains(k) {
                lemma_still_in_progress(m, n, w, k);
            }
        }
    }
}

/// A worker that finishes its job keeps the invariant.
pub proof fn lemma_finish_inv<J>(m: PoolModel<J>, w: int)
    requires
        m.inv(),
        m.is_executing(w),
    ensures
        m.finish(w).inv(),
{
    let n = m.finish(w);
    let job = m.workers[w].activity->job;
    lemma_busy_update(m.workers, w, n.workers[w]);
    lemma_busy_bound(m.workers);
    assert forall|v: int| #[trigger] n.is_closed(v) implies !n.open && n.delivered
        == n.submitted.len() by {
        assert(m.is_closed(v));
    }
    assert forall|k: nat| k < n.delivered implies #[trigger] n.completed.contains(k)
        || n.in_progress(k) by {
        if k == job {
            assert(n.completed[m.completed.len() as int] == k);
        } else if m.completed.contains(k) {
            let i = choose|i: int| 0 <= i < m.completed.len() && m.completed[i] == k;
            assert(n.completed[i] == k);
        } else {
            lemma_still_in_progress(m, n, w, k);
        }
    }
    assert forall|v: int| n.is_executing(v) implies {
        &&& (#[trigger] n.workers[v]).activity->job < n.delivered
        &&& !n.completed.contains(n.workers[v].activity->job)
    } by {
        let other = m.workers[v].activity->job;
        assert(other != job && !m.completed.contains(other));
    }
}

} // verus!
