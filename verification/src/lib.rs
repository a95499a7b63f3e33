//! The dispatch core of a fixed-size worker pool.
//!
//! The pool is held as plain data: the workers and what each is doing, the
//! queue of pending jobs, and whether the pool still accepts jobs. Every
//! decision of the pool (which job a worker gets, when it waits, when it
//! exits, in what order workers are joined) is a function on that data with a
//! proved contract. The embedding program owns the threads and the lock: it
//! asks the pool what to do next and does it.

pub mod inductive;
pub mod laws;
pub mod model;
pub mod pool;
pub mod worker;
