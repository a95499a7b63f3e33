use thread_pool::pool::ThreadPool;
use thread_pool::worker::Dispatch;
use thread_pool::worker::Worker;
use thread_pool::worker::WorkerState;

#[test]
fn new_pool_has_the_workers_asked_for() {
    for size in [1usize, 2, 4, 17] {
        let pool: ThreadPool<u32> = ThreadPool::new(size);
        assert_eq!(pool.size(), size);
        assert!(pool.is_open());
        assert_eq!(pool.pending(), 0);
        assert!(!pool.is_terminated());
        for id in 0..size {
            let worker = pool.worker(id);
            assert_eq!(worker.id(), id);
            assert_eq!(worker.state(), WorkerState::Waiting);
        }
    }
}

#[test]
fn worker_ids_are_distinct_and_in_range() {
    let size: usize = 6;
    let pool: ThreadPool<u8> = ThreadPool::new(size);
    let mut seen = vec![false; size];
    for slot in 0..size {
        let id = pool.worker(slot).id();
        assert!(id < size);
        assert!(!seen[id]);
        seen[id] = true;
    }
    assert!(seen.iter().all(|s| *s));
}

#[test]
fn worker_walks_through_its_states() {
    let mut worker = Worker::new(3);
    assert_eq!(worker.id(), 3);
    assert_eq!(worker.state(), WorkerState::Waiting);
    worker.begin();
    assert_eq!(worker.state(), WorkerState::Executing);
    worker.finish();
    assert_eq!(worker.state(), WorkerState::Waiting);
    worker.close();
    assert_eq!(worker.state(), WorkerState::Closed);
    assert_eq!(worker.id(), 3);
}

#[test]
fn execute_queues_without_a_free_worker() {
    let mut pool: ThreadPool<u32> = ThreadPool::new(1);
    pool.execute(10);
    assert_eq!(pool.take(0), Dispatch::Run(10));
    pool.execute(11);
    pool.execute(12);
    pool.execute(13);
    assert_eq!(pool.pending(), 3);
    assert_eq!(pool.worker(0).state(), WorkerState::Executing);
}

#[test]
fn take_hands_out_the_oldest_job_first() {
    let mut pool: ThreadPool<&str> = ThreadPool::new(3);
    pool.execute("a");
    pool.execute("b");
    pool.execute("c");
    assert_eq!(pool.take(2), Dispatch::Run("a"));
    assert_eq!(pool.take(0), Dispatch::Run("b"));
    assert_eq!(pool.take(1), Dispatch::Run("c"));
    assert_eq!(pool.pending(), 0);
    for id in 0..3 {
        assert_eq!(pool.worker(id).state(), WorkerState::Executing);
    }
}

#[test]
fn take_on_an_empty_open_pool_says_wait() {
    let mut pool: ThreadPool<u32> = ThreadPool::new(2);
    assert_eq!(pool.take(0), Dispatch::Wait);
    assert_eq!(pool.worker(0).state(), WorkerState::Waiting);
    assert_eq!(pool.take(0), Dispatch::Wait);
    pool.execute(5);
    assert_eq!(pool.take(0), Dispatch::Run(5));
}

#[test]
fn take_on_an_empty_closed_pool_says_exit() {
    let mut pool: ThreadPool<u32> = ThreadPool::new(2);
    pool.shutdown();
    assert_eq!(pool.take(1), Dispatch::Exit);
    assert_eq!(pool.worker(1).state(), WorkerState::Closed);
    assert_eq!(pool.worker(0).state(), WorkerState::Waiting);
    assert!(!pool.is_terminated());
    assert_eq!(pool.take(0), Dispatch::Exit);
    assert!(pool.is_terminated());
}

#[test]
fn finish_returns_the_worker_to_waiting() {
    let mut pool: ThreadPool<u32> = ThreadPool::new(1);
    pool.execute(1);
    pool.execute(2);
    assert_eq!(pool.take(0), Dispatch::Run(1));
    pool.finish(0);
    assert_eq!(pool.worker(0).state(), WorkerState::Waiting);
    assert_eq!(pool.take(0), Dispatch::Run(2));
}

#[test]
fn shutdown_closes_and_joins_by_id() {
    let mut pool: ThreadPool<u32> = ThreadPool::new(5);
    pool.execute(1);
    let order = pool.shutdown();
    assert_eq!(order, vec![0, 1, 2, 3, 4]);
    assert!(!pool.is_open());
    assert_eq!(pool.pending(), 1);
    assert_eq!(pool.size(), 5);
}

#[test]
fn shutdown_drains_what_was_pending() {
    let mut pool: ThreadPool<u32> = ThreadPool::new(1);
    pool.execute(1);
    pool.execute(2);
    pool.execute(3);
    pool.shutdown();
    assert_eq!(pool.take(0), Dispatch::Run(1));
    pool.finish(0);
    assert_eq!(pool.take(0), Dispatch::Run(2));
    pool.finish(0);
    assert_eq!(pool.take(0), Dispatch::Run(3));
    assert!(!pool.is_terminated());
    pool.finish(0);
    assert_eq!(pool.take(0), Dispatch::Exit);
    assert!(pool.is_terminated());
}

#[test]
fn every_job_runs_exactly_once() {
    let jobs: usize = 50;
    let size: usize = 4;
    let mut pool: ThreadPool<usize> = ThreadPool::new(size);
    let mut runs = vec![0u32; jobs];
    for job in 0..jobs {
        pool.execute(job);
    }
    pool.shutdown();
    let mut turn: usize = 0;
    while !pool.is_terminated() {
        let id = turn % size;
        turn += 3;
        match pool.worker(id).state() {
            WorkerState::Waiting => {
                if let Dispatch::Run(job) = pool.take(id) {
                    runs[job] += 1;
                }
            }
            WorkerState::Executing => pool.finish(id),
            WorkerState::Closed => {}
        }
    }
    assert!(runs.iter().all(|n| *n == 1));
    assert_eq!(pool.pending(), 0);
}

#[test]
fn single_worker_runs_jobs_in_submission_order() {
    let mut pool: ThreadPool<u32> = ThreadPool::new(1);
    let mut log: Vec<u32> = Vec::new();
    pool.execute(0);
    pool.execute(1);
    for job in 2..20u32 {
        if let Dispatch::Run(got) = pool.take(0) {
            log.push(got);
            pool.finish(0);
        }
        pool.execute(job);
    }
    pool.shutdown();
    loop {
        match pool.take(0) {
            Dispatch::Run(got) => {
                log.push(got);
                pool.finish(0);
            }
            Dispatch::Wait => panic!("a closed pool never says wait"),
            Dispatch::Exit => break,
        }
    }
    assert_eq!(log, (0..20u32).collect::<Vec<u32>>());
}

#[test]
fn four_workers_eight_jobs() {
    let mut pool: ThreadPool<usize> = ThreadPool::new(4);
    let mut log: Vec<usize> = Vec::new();
    for index in 0..8 {
        pool.execute(index);
    }
    let order = pool.shutdown();
    assert_eq!(order, vec![0, 1, 2, 3]);
    // Two rounds: each of the four workers takes one job per round.
    let mut rounds = 0;
    while pool.pending() > 0 {
        let mut running: Vec<usize> = Vec::new();
        for id in 0..4 {
            match pool.take(id) {
                Dispatch::Run(index) => running.push(index),
                other => panic!("worker {} was told {:?}", id, other),
            }
        }
        for id in (0..4).rev() {
            pool.finish(id);
        }
        log.extend(running);
        rounds += 1;
    }
    assert_eq!(rounds, 2);
    for id in 0..4 {
        assert!(!pool.is_terminated());
        assert_eq!(pool.take(id), Dispatch::Exit);
    }
    assert!(pool.is_terminated());
    log.sort();
    assert_eq!(log, vec![0, 1, 2, 3, 4, 5, 6, 7]);
}

#[test]
fn a_job_that_never_finishes_leaves_no_consumer() {
    let mut pool: ThreadPool<&str> = ThreadPool::new(1);
    pool.execute("fails");
    assert_eq!(pool.take(0), Dispatch::Run("fails"));
    // The job failed on the worker's thread: `finish` is never called.
    pool.execute("stranded");
    assert_eq!(pool.pending(), 1);
    assert_eq!(pool.worker(0).state(), WorkerState::Executing);
    pool.shutdown();
    assert!(!pool.is_terminated());
    assert_eq!(pool.pending(), 1);
}

#[test]
fn a_closed_pool_is_seen_as_closed() {
    let mut pool: ThreadPool<u32> = ThreadPool::new(2);
    assert!(pool.is_open());
    pool.shutdown();
    assert!(!pool.is_open());
    pool.shutdown();
    assert!(!pool.is_open());
}

#[test]
fn jobs_may_be_closures() {
    let mut pool: ThreadPool<Box<dyn FnOnce() -> u32>> = ThreadPool::new(2);
    pool.execute(Box::new(|| 40 + 2));
    pool.execute(Box::new(|| 7));
    let mut results: Vec<u32> = Vec::new();
    for id in 0..2 {
        match pool.take(id) {
            Dispatch::Run(job) => results.push(job()),
            _ => panic!("a job was pending"),
        }
        pool.finish(id);
    }
    assert_eq!(results, vec![42, 7]);
}
