//! A worker: its id and the state of its run loop.

use vstd::prelude::*;

verus! {

/// The states of a worker's run loop. A worker starts `Waiting`, alternates
/// between `Waiting` and `Executing`, and ends `Closed`, which it never leaves.
#[derive(Clone, Copy, Debug, PartialEq, Eq, Structural)]
pub enum WorkerState {
    /// Idle: the worker wants the next job.
    Waiting,
    /// The worker runs the one job it was handed.
    Executing,
    /// The worker saw the queue drained and closed, and has left its loop.
    Closed,
}

/// What a waiting worker is told when it asks for its next job.
#[derive(Debug, PartialEq, Eq)]
pub enum Dispatch<J> {
    /// Run this job, then ask again.
    Run(J),
    /// Nothing is pending, but more may come: block until told otherwise, then
    /// ask again.
    Wait,
    /// Nothing is pending and nothing more can come: leave the loop.
    Exit,
}

/// One worker of a pool.
#[derive(Clone, Copy, Debug)]
pub struct Worker {
    id: usize,
    state: WorkerState,
}

impl Worker {
    /// The worker's id.
    pub closed spec fn spec_id(&self) -> usize {
        self.id
    }

    /// The state of the worker's run loop.
    pub closed spec fn spec_state(&self) -> WorkerState {
        self.state
    }

    /// A worker with the given id, waiting for its first job.
    pub fn new(id: usize) -> (worker: Worker)
        ensures
            worker.id() == id,
            worker.state() == WorkerState::Waiting,
    {
        Worker { id, state: WorkerState::Waiting }
    }

    #[verifier::when_used_as_spec(spec_id)]
    pub fn id(&self) -> (id: usize)
        ensures
            id == self.spec_id(),
    {
        self.id
    }

    #[verifier::when_used_as_spec(spec_state)]
    pub fn state(&self) -> (state: WorkerState)
        ensures
            state == self.spec_state(),
    {
        self.state
    }

    /// The worker was handed a job and starts on it.
    pub fn begin(&mut self)
        requires
            old(self).state() == WorkerState::Waiting,
        ensures
            final(self).id() == old(self).id(),
            final(self).state() == WorkerState::Executing,
    {
        self.state = WorkerState::Executing;
    }

    /// The worker's job has run to completion: it waits for the next.
    pub fn finish(&mut self)
        requires
            old(self).state() == WorkerState::Executing,
        ensures
            final(self).id() == old(self).id(),
            final(self).state() == WorkerState::Waiting,
    {
        self.state = WorkerState::Waiting;
    }

    /// The worker, waiting, learnt that no job will come: it leaves its loop.
    pub fn close(&mut self)
        requires
            old(self).state() == WorkerState::Waiting,
        ensures
            final(self).id() == old(self).id(),
            final(self).state() == WorkerState::Closed,
    {
        self.state = WorkerState::Closed;
    }
}

} // verus!
