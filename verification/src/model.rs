//! The pool as a mathematical state machine.
//!
//! A [`PoolModel`] records what the pool holds now and, beside it, the history
//! that the guarantees speak of: every job ever submitted, how many of them
//! were handed to a worker, and which have run to completion. A job is named
//! by its ticket, its position in the order of submission.

use crate::worker::Dispatch;
use crate::worker::WorkerState;
use vstd::prelude::*;

verus! {

/// What a worker is doing. A worker that executes holds exactly one job.
pub enum Activity {
    Waiting,
    Executing { job: nat },
    Closed,
}

impl Activity {
    /// The state of the run loop, without the job.
    pub open spec fn state(self) -> WorkerState {
        match self {
            Activity::Waiting => WorkerState::Waiting,
            Activity::Executing { .. } => WorkerState::Executing,
            Activity::Closed => WorkerState::Closed,
        }
    }
}

/// A worker as the model sees it.
pub struct WorkerModel {
    pub id: nat,
    pub activity: Activity,
}

/// How many of the workers are executing a job.
pub open spec fn busy(workers: Seq<WorkerModel>) -> nat
    decreases workers.len(),
{
    if workers.len() == 0 {
        0
    } else {
        busy(workers.drop_last()) + if workers.last().activity is Executing {
            1nat
        } else {
            0nat
        }
    }
}

/// The state of a pool together with its history.
#[verifier::ext_equal]
pub struct PoolModel<J> {
    /// Whether the pool still accepts jobs.
    pub open: bool,
    /// The workers, in the order of their ids.
    pub workers: Seq<WorkerModel>,
    /// Every job accepted so far, in the order of submission.
    pub submitted: Seq<J>,
    /// How many jobs were handed to a worker. They are the first `delivered`
    /// of `submitted`: the queue gives jobs out in the order they came in.
    pub delivered: nat,
    /// The tickets of the jobs that ran to completion, in the order in which
    /// they finished.
    pub completed: Seq<nat>,
}

impl<J> PoolModel<J> {
    /// The number of workers.
    pub open spec fn size(self) -> nat {
        self.workers.len()
    }

    /// The pending jobs, oldest first.
    pub open spec fn queue(self) -> Seq<J> {
        self.submitted.skip(self.delivered as int)
    }

    pub open spec fn is_waiting(self, w: int) -> bool {
        0 <= w < self.workers.len() && self.workers[w].activity is Waiting
    }

    pub open spec fn is_executing(self, w: int) -> bool {
        0 <= w < self.workers.len() && self.workers[w].activity is Executing
    }

    pub open spec fn is_closed(self, w: int) -> bool {
        0 <= w < self.workers.len() && self.workers[w].activity is Closed
    }

    /// Whether some worker is executing the job with ticket `k`.
    pub open spec fn in_progress(self, k: nat) -> bool {
        exists|w: int|
            0 <= w < self.workers.len() && #[trigger] self.workers[w].activity
                == (Activity::Executing { job: k })
    }

    /// Shutdown has run to its end: the pool is closed and every worker has
    /// left its loop.
    pub open spec fn terminated(self) -> bool {
        &&& !self.open
        &&& forall|w: int| 0 <= w < self.workers.len() ==> self.is_closed(w)
    }

    /// The same pool with worker `w` doing `activity`.
    pub open spec fn with_activity(self, w: int, activity: Activity) -> Self {
        PoolModel {
            workers: self.workers.update(w, WorkerModel { id: self.workers[w].id, activity }),
            ..self
        }
    }

    /// A fresh pool: `size` waiting workers with the ids `0..size`, open,
    /// with nothing submitted.
    pub open spec fn init(size: nat) -> Self {
        PoolModel {
            open: true,
            workers: Seq::new(size, |i: int| WorkerModel { id: i as nat, activity: Activity::Waiting }),
            submitted: Seq::empty(),
            delivered: 0,
            completed: Seq::empty(),
        }
    }

    /// A job is accepted: it goes to the back of the queue.
    pub open spec fn submit(self, job: J) -> Self {
        PoolModel { submitted: self.submitted.push(job), ..self }
    }

    /// The pool stops accepting jobs. What is pending stays pending.
    pub open spec fn close(self) -> Self {
        PoolModel { open: false, ..self }
    }

    /// What a waiting worker is told: the oldest pending job if there is one;
    /// else to wait while the pool is open, and to exit once it is closed.
    pub open spec fn dispatch(self) -> Dispatch<J> {
        if self.delivered < self.submitted.len() {
            Dispatch::Run(self.submitted[self.delivered as int])
        } else if self.open {
            Dispatch::Wait
        } else {
            Dispatch::Exit
        }
    }

    /// Worker `w`, waiting, asks for its next job and acts on the answer.
    pub open spec fn take(self, w: int) -> Self {
        if self.delivered < self.submitted.len() {
            PoolModel {
                delivered: self.delivered + 1,
                ..self.with_activity(w, Activity::Executing { job: self.delivered })
            }
        } else if self.open {
            self
        } else {
            self.with_activity(w, Activity::Closed)
        }
    }

    /// Worker `w` has run its job to completion and waits again.
    pub open spec fn finish(self, w: int) -> Self {
        PoolModel {
            completed: self.completed.push(self.workers[w].activity->job),
            ..self.with_activity(w, Activity::Waiting)
        }
    }

    /// What holds of every pool, whatever was called on it.
    pub open spec fn inv(self) -> bool {
        &&& self.workers.len() > 0
        &&& forall|w: int| 0 <= w < self.workers.len() ==> (#[trigger] self.workers[w]).id == w
        &&& self.delivered <= self.submitted.len()
        // A job that was handed out is completed or in progress, never both,
        // and in progress on one worker only.
        &&& self.completed.len() + busy(self.workers) == self.delivered
        &&& self.completed.no_duplicates()
        &&& forall|i: int|
            0 <= i < self.completed.len() ==> (#[trigger] self.completed[i]) < self.delivered
        &&& forall|w: int|
            self.is_executing(w) ==> {
                &&& (#[trigger] self.workers[w]).activity->job < self.delivered
                &&& !self.completed.contains(self.workers[w].activity->job)
            }
        &&& forall|v: int, w: int|
            self.is_executing(v) && self.is_executing(w) && v != w ==> (
            #[trigger] self.workers[v]).activity->job != (#[trigger] self.workers[w]).activity->job
        &&& forall|k: nat|
            k < self.delivered ==> #[trigger] self.completed.contains(k) || self.in_progress(k)
        // A job is overtaken by fewer later jobs than there are workers.
        &&& forall|i: int|
            0 <= i < self.completed.len() ==> (#[trigger] self.completed[i]) < i
                + self.workers.len()
        // A worker exits only when the pool is closed and the queue drained.
        &&& forall|w: int|
            #[trigger] self.is_closed(w) ==> !self.open && self.delivered == self.submitted.len()
    }
}

} // verus!
