//! A fixed-size worker pool: a fixed number of long-lived workers take jobs
//! from one shared queue, and shutdown lets them finish what was queued before
//! any of them is waited for.
//!
//! The pool owns the send side of the queue and the handles of its workers. It
//! builds the queue, offers jobs to it, closes it, and hands the workers out to
//! be joined, in the only order in which shutdown ends. It does not start or
//! join a thread itself: the host passes a spawner to `Threadpool::new`, runs
//! the loop of each worker by the rule of `Step::after_fetch`, and waits for
//! each handle that `Threadpool::join_next` returns.
//!
//! The module `protocol` describes pool, queue and workers together as a
//! transition system, and proves that a drained pool has run every job it
//! enqueued exactly once and that shutdown cannot hang.

pub mod pool;
pub mod protocol;
pub mod queue;
pub mod worker;

pub use pool::{Phase, PoolView, Submission, Threadpool};
pub use worker::{Step, Worker};
