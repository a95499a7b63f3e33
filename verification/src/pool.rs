//! The pool: a fixed set of workers, the queue of pending jobs, and the
//! decisions that connect them.

use crate::inductive::lemma_close_inv;
use crate::inductive::lemma_finish_inv;
use crate::inductive::lemma_init_inv;
use crate::inductive::lemma_submit_inv;
use crate::inductive::lemma_take_inv;
use crate::model::PoolModel;
use crate::worker::Dispatch;
use crate::worker::Worker;
use crate::worker::WorkerState;
use std::collections::VecDeque;
use vstd::prelude::*;

verus! {

/// A pool of a fixed number of workers that run jobs of type `J`.
///
/// The pool holds no thread. The embedding program starts one thread per
/// worker and keeps the pool behind a lock; each thread calls [`take`] for
/// its worker, does what it is told, and calls [`finish`] after a job.
///
/// [`take`]: ThreadPool::take
/// [`finish`]: ThreadPool::finish
pub struct ThreadPool<J> {
    workers: Vec<Worker>,
    queue: VecDeque<J>,
    open: bool,
    model: Ghost<PoolModel<J>>,
}

impl<J> View for ThreadPool<J> {
    type V = PoolModel<J>;

    closed spec fn view(&self) -> PoolModel<J> {
        self.model@
    }
}

impl<J> ThreadPool<J> {
    /// The pool's data agree with its model, and the model meets the
    /// invariant of every pool.
    pub closed spec fn wf(&self) -> bool {
        &&& self.model@.inv()
        &&& self.open == self.model@.open
        &&& self.queue@ == self.model@.queue()
        &&& self.workers@.len() == self.model@.workers.len()
        &&& forall|i: int|
            0 <= i < self.workers@.len() ==> {
                &&& (#[trigger] self.workers@[i]).id() == self.model@.workers[i].id
                &&& self.workers@[i].state() == self.model@.workers[i].activity.state()
            }
    }

    /// A well-formed pool meets the invariant of every pool.
    pub proof fn lemma_wf_inv(&self)
        requires
            self.wf(),
        ensures
            self@.inv(),
    {
    }

    /// A pool of `size` workers with the ids `0..size`, all waiting, open and
    /// with an empty queue. A pool needs at least one worker.
    pub fn new(size: usize) -> (pool: ThreadPool<J>)
        requires
            size > 0,
        ensures
            pool.wf(),
            pool@ == PoolModel::<J>::init(size as nat),
            pool@.size() == size,
            forall|i: int|
                0 <= i < size ==> (#[trigger] pool@.workers[i]).id == i && pool@.is_waiting(i),
    {
        let mut workers: Vec<Worker> = Vec::new();
        for id in 0..size
            invariant
                workers@.len() == id,
                forall|i: int|
                    0 <= i < id ==> (#[trigger] workers@[i]).id() == i && workers@[i].state()
                        == WorkerState::Waiting,
        {
            workers.push(Worker::new(id));
        }
        let queue: VecDeque<J> = VecDeque::new();
        proof {
            lemma_init_inv::<J>(size as nat);
            assert(queue@ =~= PoolModel::<J>::init(size as nat).queue());
        }
        ThreadPool { workers, queue, open: true, model: Ghost(PoolModel::init(size as nat)) }
    }

    /// The number of workers, fixed when the pool was made.
    pub fn size(&self) -> (size: usize)
        requires
            self.wf(),
        ensures
            size == self@.size(),
            size > 0,
    {
        self.workers.len()
    }

    /// Whether the pool still accepts jobs.
    pub fn is_open(&self) -> (open: bool)
        requires
            self.wf(),
        ensures
            open == self@.open,
    {
        self.open
    }

    /// The number of jobs that wait for a worker.
    pub fn pending(&self) -> (pending: usize)
        requires
            self.wf(),
        ensures
            pending == self@.queue().len(),
    {
        self.queue.len()
    }

    /// The worker with the given id.
    pub fn worker(&self, id: usize) -> (worker: Worker)
        requires
            self.wf(),
            id < self@.size(),
        ensures
            worker.id() == id,
            worker.state() == self@.workers[id as int].activity.state(),
    {
        self.workers[id]
    }

    /// Whether shutdown has run to its end: the pool is closed and every
    /// worker has left its loop.
    pub fn is_terminated(&self) -> (terminated: bool)
        requires
            self.wf(),
        ensures
            terminated == self@.terminated(),
    {
        if self.open {
            return false;
        }
        let count: usize = self.workers.len();
        for i in 0..count
            invariant
                self.wf(),
                !self@.open,
                count == self@.size(),
                forall|w: int| 0 <= w < i ==> self@.is_closed(w),
        {
            match self.workers[i].state() {
                WorkerState::Closed => {},
                _ => {
                    assert(!self@.is_closed(i as int));
                    return false;
                },
            }
        }
        true
    }

    /// Submits a job: it goes to the back of the queue, whether or not a
    /// worker is free. The pool must still be open.
    pub fn execute(&mut self, job: J)
        requires
            old(self).wf(),
            old(self)@.open,
        ensures
            final(self).wf(),
            final(self)@ == old(self)@.submit(job),
    {
        proof {
            lemma_submit_inv(self.model@, job);
        }
        let ghost next = self.model@.submit(job);
        self.queue.push_back(job);
        self.model = Ghost(next);
        assert(self.queue@ =~= next.queue());
    }

    /// Worker `id`, waiting, asks for its next job. It is handed the oldest
    /// pending job, if there is one, and is then executing. With nothing
    /// pending it is told to wait while the pool is open; once the pool is
    /// closed it is told to exit, and is then closed.
    pub fn take(&mut self, id: usize) -> (next: Dispatch<J>)
        requires
            old(self).wf(),
            old(self)@.is_waiting(id as int),
        ensures
            final(self).wf(),
            next == old(self)@.dispatch(),
            final(self)@ == old(self)@.take(id as int),
    {
        proof {
            lemma_take_inv(self.model@, id as int);
        }
        let mut worker = self.workers[id];
        match self.queue.pop_front() {
            Some(job) => {
                worker.begin();
                self.workers.set(id, worker);
                self.model = Ghost(self.model@.take(id as int));
                assert(self.queue@ =~= self.model@.queue());
                Dispatch::Run(job)
            },
            None => {
                if self.open {
                    Dispatch::Wait
                } else {
                    worker.close();
                    self.workers.set(id, worker);
                    self.model = Ghost(self.model@.take(id as int));
                    Dispatch::Exit
                }
            },
        }
    }

    /// Worker `id` has run its job to completion and waits again.
    pub fn finish(&mut self, id: usize)
        requires
            old(self).wf(),
            old(self)@.is_executing(id as int),
        ensures
            final(self).wf(),
            final(self)@ == old(self)@.finish(id as int),
    {
        proof {
            lemma_finish_inv(self.model@, id as int);
        }
        let mut worker = self.workers[id];
        worker.finish();
        self.workers.set(id, worker);
        self.model = Ghost(self.model@.finish(id as int));
    }

    /// Begins shutdown: the pool accepts no more jobs, and what is pending
    /// stays pending for the workers to drain. Returns the ids of the workers
    /// in the order in which their threads are to be joined: by id.
    pub fn shutdown(&mut self) -> (order: Vec<usize>)
        requires
            old(self).wf(),
        ensures
            final(self).wf(),
            final(self)@ == old(self)@.close(),
            order@ == Seq::new(old(self)@.size(), |i: int| i as usize),
    {
        proof {
            lemma_close_inv(self.model@);
        }
        self.open = false;
        self.model = Ghost(self.model@.close());
        let mut order: Vec<usize> = Vec::new();
        let count: usize = self.workers.len();
        for i in 0..count
            invariant
                self.wf(),
                count == self.workers@.len(),
                order@.len() == i,
                forall|k: int| 0 <= k < i ==> #[trigger] order@[k] == k,
        {
            order.push(self.workers[i].id());
        }
        order
    }
}

} // verus!
