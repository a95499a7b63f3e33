//! What the pool guarantees, stated over its model and proved from the
//! invariant.

use crate::inductive::lemma_busy_none;
use crate::inductive::lemma_close_inv;
use crate::inductive::lemma_finish_inv;
use crate::inductive::lemma_init_inv;
use crate::inductive::lemma_submit_inv;
use crate::inductive::lemma_take_inv;
use crate::model::PoolModel;
use crate::worker::Dispatch;
use vstd::prelude::*;

verus! {

/// One step of a pool's life.
pub enum Step<J> {
    /// A caller submits a job.
    Submit(J),
    /// A waiting worker asks for its next job.
    Take(int),
    /// An executing worker finishes its job.
    Finish(int),
    /// Shutdown begins.
    Close,
}

impl<J> PoolModel<J> {
    /// Whether `step` may be taken in this state.
    pub open spec fn enabled(self, step: Step<J>) -> bool {
        match step {
            Step::Submit(_) => self.open,
            Step::Take(w) => self.is_waiting(w),
            Step::Finish(w) => self.is_executing(w),
            Step::Close => true,
        }
    }

    /// The state after `step`.
    pub open spec fn step(self, step: Step<J>) -> Self {
        match step {
            Step::Submit(job) => self.submit(job),
            Step::Take(w) => self.take(w),
            Step::Finish(w) => self.finish(w),
            Step::Close => self.close(),
        }
    }
}

/// The state of a fresh pool of `size` workers after `steps`.
pub open spec fn run<J>(size: nat, steps: Seq<Step<J>>) -> PoolModel<J>
    decreases steps.len(),
{
    if steps.len() == 0 {
        PoolModel::init(size)
    } else {
        run(size, steps.drop_last()).step(steps.last())
    }
}

/// Whether each of `steps` may be taken in the state that those before it
/// lead to.
pub open spec fn allowed<J>(size: nat, steps: Seq<Step<J>>) -> bool
    decreases steps.len(),
{
    steps.len() > 0 ==> allowed(size, steps.drop_last()) && run(size, steps.drop_last()).enabled(
        steps.last(),
    )
}

/// The jobs that `steps` submit, in order.
pub open spec fn jobs_of<J>(steps: Seq<Step<J>>) -> Seq<J>
    decreases steps.len(),
{
    if steps.len() == 0 {
        Seq::empty()
    } else {
        match steps.last() {
            Step::Submit(job) => jobs_of(steps.drop_last()).push(job),
            _ => jobs_of(steps.drop_last()),
        }
    }
}

/// Each step that may be taken keeps the invariant.
pub proof fn lemma_step_inv<J>(m: PoolModel<J>, step: Step<J>)
    requires
        m.inv(),
        m.enabled(step),
    ensures
        m.step(step).inv(),
{
    match step {
        Step::Submit(job) => lemma_submit_inv(m, job),
        Step::Take(w) => lemma_take_inv(m, w),
        Step::Finish(w) => lemma_finish_inv(m, w),
        Step::Close => lemma_close_inv(m),
    }
}

/// Whatever a pool with at least one worker went through, it meets the
/// invariant, it has the workers it was made with, and it has on record
/// exactly the jobs that were submitted, in the order of submission.
pub proof fn lemma_run_inv<J>(size: nat, steps: Seq<Step<J>>)
    requires
        size > 0,
        allowed(size, steps),
    ensures
        run(size, steps).inv(),
        run(size, steps).size() == size,
        run(size, steps).submitted == jobs_of(steps),
    decreases steps.len(),
{
    if steps.len() == 0 {
        lemma_init_inv::<J>(size);
    } else {
        lemma_run_inv(size, steps.drop_last());
        lemma_step_inv(run(size, steps.drop_last()), steps.last());
    }
}

/// Once shutdown has run to its end, every job that was submitted has run
/// to completion exactly once: none was dropped, none ran twice, and nothing
/// ran that was not submitted.
pub proof fn lemma_terminated_each_job_once<J>(m: PoolModel<J>)
    requires
        m.inv(),
        m.terminated(),
    ensures
        m.queue().len() == 0,
        m.completed.len() == m.submitted.len(),
        m.completed.no_duplicates(),
        forall|k: nat| k < m.submitted.len() ==> m.completed.contains(k),
        forall|i: int| 0 <= i < m.completed.len() ==> m.completed[i] < m.submitted.len(),
{
    assert(m.is_closed(0));
    assert forall|w: int| 0 <= w < m.workers.len() implies !((#[trigger] m.workers[w]).activity
        is Executing) by {
        assert(m.is_closed(w));
    }
    lemma_busy_none(m.workers);
}

/// As long as a worker has not exited, nothing that is pending is lost: a
/// worker is closed only when the pool is closed and the queue is empty.
pub proof fn lemma_exit_only_when_drained<J>(m: PoolModel<J>, w: int)
    requires
        m.inv(),
        m.is_closed(w),
    ensures
        !m.open,
        m.queue().len() == 0,
{
}

/// Jobs leave the queue in the order in which they were submitted: the job
/// handed out is the oldest pending one, and the next one handed out is the
/// one submitted right after it.
pub proof fn lemma_delivery_is_fifo<J>(m: PoolModel<J>, w: int)
    requires
        m.inv(),
        m.is_waiting(w),
        m.queue().len() > 0,
    ensures
        m.dispatch() == Dispatch::Run(m.queue()[0]),
        m.queue()[0] == m.submitted[m.delivered as int],
        m.take(w).delivered == m.delivered + 1,
        m.take(w).queue() == m.queue().skip(1),
        m.take(w).submitted == m.submitted,
{
}

/// A sequence of distinct numbers in which none exceeds its position counts
/// up from zero.
proof fn lemma_counts_up(s: Seq<nat>, n: int)
    requires
        s.no_duplicates(),
        forall|i: int| 0 <= i < s.len() ==> #[trigger] s[i] <= i,
        0 <= n <= s.len(),
    ensures
        forall|i: int| 0 <= i < n ==> #[trigger] s[i] == i,
    decreases n,
{
    if n > 0 {
        lemma_counts_up(s, n - 1);
        let last = s[n - 1];
        if last < n - 1 {
            assert(s[last as int] == last);
        }
    }
}

/// With a single worker the jobs run to completion in the order in which
/// they were submitted.
pub proof fn lemma_single_worker_fifo<J>(m: PoolModel<J>)
    requires
        m.inv(),
        m.size() == 1,
    ensures
        forall|i: int| 0 <= i < m.completed.len() ==> #[trigger] m.completed[i] == i,
{
    lemma_counts_up(m.completed, m.completed.len() as int);
}

/// With any number of workers, the job that finishes in place `i` was
/// submitted among the first `i + size`: a job is overtaken by fewer later
/// jobs than there are workers.
pub proof fn lemma_bounded_overtaking<J>(m: PoolModel<J>, i: int)
    requires
        m.inv(),
        0 <= i < m.completed.len(),
    ensures
        m.completed[i] < i + m.size(),
{
}

} // verus!
