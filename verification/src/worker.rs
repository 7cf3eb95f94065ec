//! One worker: its ordinal, the handle of its thread, and the rule of its loop.

use vstd::prelude::*;
use crate::queue::SharedReceiver;

verus! {

/// What a worker does after one blocking fetch from the shared queue.
#[derive(Debug)]
pub enum Step<J> {
    /// A job was delivered. The worker releases the queue lock, runs the job
    /// once on its own thread, and fetches again.
    Run(J),
    /// The queue is closed and empty. The worker leaves its loop; this is the
    /// only way a worker ends normally.
    Exit,
}

impl<J> Step<J> {
    /// The rule of the worker loop: a delivered job is run, a failed fetch ends
    /// the loop. The queue reports failure only once its send side is gone and
    /// its buffer is empty, so the reason of the failure plays no part.
    pub fn after_fetch<E>(fetched: Result<J, E>) -> (step: Self)
        ensures
            step == (match fetched {
                Ok(job) => Step::Run(job),
                Err(_) => Step::Exit,
            }),
    {
        match fetched {
            Ok(job) => Step::Run(job),
            Err(_) => Step::Exit,
        }
    }
}

/// A worker of the pool: an ordinal, used for diagnostics only, and the handle
/// of the one thread it stands for. The handle is present from construction
/// until it is taken to be joined, which happens at most once.
pub struct Worker<H> {
    id: usize,
    handle: Option<H>,
}

impl<H> Worker<H> {
    /// The worker's ordinal.
    pub closed spec fn ordinal(&self) -> usize {
        self.id
    }

    /// The handle of the worker's thread, while nobody has taken it.
    pub closed spec fn thread(&self) -> Option<H> {
        self.handle
    }

    /// Starts a worker: `spawn` starts its thread, given the ordinal and the
    /// shared receive side of the queue, and returns the thread's handle. The
    /// worker runs from here on; there is no separate start.
    pub fn new<J, F: Fn(usize, SharedReceiver<J>) -> H>(
        id: usize,
        receiver: SharedReceiver<J>,
        spawn: &F,
    ) -> (worker: Self)
        requires
            spawn.requires((id, receiver)),
        ensures
            worker.ordinal() == id,
            worker.thread() is Some,
            spawn.ensures((id, receiver), worker.thread().unwrap()),
    {
        let handle = spawn(id, receiver);
        Worker { id, handle: Some(handle) }
    }

    /// The worker's ordinal.
    pub fn id(&self) -> (id: usize)
        ensures
            id == self.ordinal(),
    {
        self.id
    }

    /// Whether the handle is still held, that is, the thread was not joined.
    pub fn is_running(&self) -> (running: bool)
        ensures
            running == self.thread().is_some(),
    {
        self.handle.is_some()
    }

    /// Gives up the handle so that the thread can be joined. A second call
    /// returns `None`.
    pub fn take_handle(&mut self) -> (handle: Option<H>)
        ensures
            handle == old(self).thread(),
            final(self).thread() is None,
            final(self).ordinal() == old(self).ordinal(),
    {
        self.handle.take()
    }
}

} // verus!
