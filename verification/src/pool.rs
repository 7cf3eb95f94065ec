//! The pool: the workers in construction order and the send side of the queue.

use vstd::prelude::*;
use std::sync::mpsc::Sender;
use std::sync::Arc;
use crate::queue::{open_queue, send, SharedReceiver};
use crate::worker::Worker;

verus! {

/// Where a pool stands in its life. A pool only moves forward.
#[derive(Clone, Copy, Debug, PartialEq, Eq, Structural)]
pub enum Phase {
    /// The send side is held: jobs are accepted.
    Active,
    /// The send side is gone, and some worker has not been joined yet.
    Closing,
    /// The send side is gone and every worker has been joined.
    Drained,
}

/// What became of a job handed to `execute`.
pub enum Submission<J> {
    /// The job is in the queue. Some worker will fetch it, unless all of them
    /// are taken down first.
    Enqueued,
    /// The queue refused the job, because no worker is left to receive it. The
    /// job comes back.
    Disconnected(J),
    /// The pool has been closed. The job comes back without having been
    /// offered to the queue.
    Discarded(J),
}

/// A pool as contracts see it.
pub struct PoolView<H> {
    /// The pool holds the send side of the queue.
    pub open: bool,
    /// One entry per worker, in construction order: the handle of its thread,
    /// or `None` once it was handed out to be joined.
    pub handles: Seq<Option<H>>,
    /// How many workers have been handed out.
    pub joined: nat,
}

impl<H> PoolView<H> {
    /// The number of workers the pool was built with.
    pub open spec fn size(self) -> nat {
        self.handles.len()
    }

    /// The pool has a worker; handles leave in construction order, so those
    /// missing are exactly the first `joined`; and none leaves while the send
    /// side is held.
    pub open spec fn wf(self) -> bool {
        &&& self.handles.len() >= 1
        &&& self.joined <= self.handles.len()
        &&& forall|i: int|
            0 <= i < self.handles.len() ==> ((#[trigger] self.handles[i]) is None <==> i
                < self.joined)
        &&& self.open ==> self.joined == 0
    }

    /// Where the pool stands in its life.
    pub open spec fn phase(self) -> Phase {
        if self.open {
            Phase::Active
        } else if self.joined < self.handles.len() {
            Phase::Closing
        } else {
            Phase::Drained
        }
    }

    /// The pool after its send side was given up.
    pub open spec fn closed(self) -> Self {
        PoolView { open: false, handles: self.handles, joined: self.joined }
    }

    /// The pool after shutdown: closed, with every worker handed out.
    pub open spec fn drained(self) -> Self {
        PoolView {
            open: false,
            handles: Seq::new(self.handles.len(), |i: int| None),
            joined: self.handles.len(),
        }
    }

    /// The pool after its next worker was handed out.
    pub open spec fn advanced(self) -> Self {
        PoolView {
            open: self.open,
            handles: self.handles.update(self.joined as int, None),
            joined: self.joined + 1,
        }
    }
}

/// Every entry of `handles` is held, and is what `spawn` returned for its
/// place in the sequence and `receiver`.
pub open spec fn spawned_on<J, H, F: Fn(usize, SharedReceiver<J>) -> H>(
    spawn: F,
    receiver: SharedReceiver<J>,
    handles: Seq<Option<H>>,
) -> bool {
    forall|i: int|
        0 <= i < handles.len() ==> (#[trigger] handles[i]) is Some && spawn.ensures(
            (i as usize, receiver),
            handles[i].unwrap(),
        )
}

/// A fixed set of workers and the send side of the queue that feeds them.
/// `J` is the type of a job, `H` the handle of a worker's thread.
#[verifier::reject_recursive_types(J)]
pub struct Threadpool<J, H> {
    workers: Vec<Worker<H>>,
    sender: Option<Sender<J>>,
    next: usize,
}

impl<J, H> View for Threadpool<J, H> {
    type V = PoolView<H>;

    closed spec fn view(&self) -> PoolView<H> {
        PoolView {
            open: self.sender is Some,
            handles: Seq::new(self.workers@.len(), |i: int| self.workers@[i].thread()),
            joined: self.next as nat,
        }
    }
}

impl<J, H> Threadpool<J, H> {
    /// Worker `i` carries the ordinal `i`.
    pub closed spec fn numbered(&self) -> bool {
        forall|i: int|
            0 <= i < self.workers@.len() ==> (#[trigger] self.workers@[i]).ordinal() == i
    }

    /// What every pool satisfies, from `new` on.
    pub open spec fn wf(&self) -> bool {
        self@.wf() && self.numbered()
    }

    /// Builds a pool of `n` workers round a new queue. `spawn` starts the
    /// thread of one worker, given its ordinal and the shared receive side of
    /// the queue, and returns the thread's handle. It is called once for each
    /// ordinal, in rising order, each time with a reference of its own to the
    /// same receive side.
    pub fn new<F: Fn(usize, SharedReceiver<J>) -> H>(n: usize, spawn: F) -> (pool: Self)
        requires
            n > 0,
            forall|i: usize, receiver: SharedReceiver<J>| i < n ==> spawn.requires((i, receiver)),
        ensures
            pool.wf(),
            pool@.open,
            pool@.joined == 0,
            pool@.size() == n,
            pool@.phase() == Phase::Active,
            exists|receiver: SharedReceiver<J>| #[trigger] spawned_on(spawn, receiver, pool@.handles),
    {
        let (sender, receiver) = open_queue::<J>();
        let mut workers: Vec<Worker<H>> = Vec::with_capacity(n);
        let mut i: usize = 0;
        while i < n
            invariant
                i <= n,
                workers@.len() == i,
                forall|k: usize, r: SharedReceiver<J>| k < n ==> spawn.requires((k, r)),
                forall|k: int|
                    0 <= k < i ==> {
                        &&& (#[trigger] workers@[k]).ordinal() == k
                        &&& workers@[k].thread() is Some
                        &&& spawn.ensures((k as usize, receiver), workers@[k].thread().unwrap())
                    },
            decreases n - i,
        {
            workers.push(Worker::new(i, Arc::clone(&receiver), &spawn));
            i += 1;
        }
        let pool = Threadpool { workers, sender: Some(sender), next: 0 };
        proof {
            assert(spawned_on(spawn, receiver, pool@.handles));
        }
        pool
    }

    /// The number of workers.
    pub fn size(&self) -> (n: usize)
        ensures
            n == self@.size(),
    {
        self.workers.len()
    }

    /// Where the pool stands in its life.
    pub fn phase(&self) -> (phase: Phase)
        ensures
            phase == self@.phase(),
    {
        if self.sender.is_some() {
            Phase::Active
        } else if self.next < self.workers.len() {
            Phase::Closing
        } else {
            Phase::Drained
        }
    }

    /// Hands `job` to the queue and returns at once, without waiting for it to
    /// run. A pool that was closed discards the job. The pool itself does not
    /// change.
    pub fn execute(&self, job: J) -> (outcome: Submission<J>)
        ensures
            !self@.open ==> outcome == Submission::Discarded(job),
            self@.open ==> outcome == Submission::<J>::Enqueued || outcome
                == Submission::Disconnected(job),
    {
        match &self.sender {
            Some(sender) => Submission::of_send(send(sender, job)),
            None => Submission::Discarded(job),
        }
    }

    /// First step of shutdown: drops the send side. Workers then see the queue
    /// fail once it is empty; what is buffered is still delivered. A second
    /// call changes nothing.
    pub fn close(&mut self)
        requires
            old(self).wf(),
        ensures
            final(self).wf(),
            final(self)@ == old(self)@.closed(),
    {
        self.sender = None;
    }

    /// Second step of shutdown, repeated: hands out the next worker to wait
    /// for, with its ordinal, in construction order. Returns `None` while the
    /// pool is still active, since waiting for a worker whose queue is open
    /// would never end, and once all workers were handed out.
    pub fn join_next(&mut self) -> (next: Option<(usize, H)>)
        requires
            old(self).wf(),
        ensures
            final(self).wf(),
            old(self)@.phase() == Phase::Closing ==> {
                &&& next == Some(
                    (old(self)@.joined as usize, old(self)@.handles[old(self)@.joined as int].unwrap()),
                )
                &&& final(self)@ == old(self)@.advanced()
            },
            old(self)@.phase() != Phase::Closing ==> {
                &&& next is None
                &&& final(self)@ == old(self)@
            },
    {
        if self.sender.is_some() || self.next >= self.workers.len() {
            return None;
        }
        let k: usize = self.next;
        let worker = &mut self.workers[k];
        let id: usize = worker.id();
        let handle = worker.take_handle();
        self.next = k + 1;
        proof {
            assert(final(self)@.handles =~= old(self)@.advanced().handles);
        }
        match handle {
            Some(h) => Some((id, h)),
            None => None,
        }
    }

    /// Shutdown as a whole: closes the queue, then hands each worker that was
    /// not handed out yet to `join`, in construction order. `join` waits for
    /// the thread of the worker. Afterwards the pool is drained.
    pub fn shutdown<F: Fn(usize, H)>(&mut self, join: F)
        requires
            old(self).wf(),
            forall|i: int|
                old(self)@.joined <= i < old(self)@.size() ==> join.requires(
                    (i as usize, (#[trigger] old(self)@.handles[i]).unwrap()),
                ),
        ensures
            final(self).wf(),
            final(self)@ == old(self)@.drained(),
            forall|i: int|
                old(self)@.joined <= i < old(self)@.size() ==> join.ensures(
                    (i as usize, (#[trigger] old(self)@.handles[i]).unwrap()),
                    (),
                ),
    {
        let ghost start = self@;
        self.close();
        loop
            invariant
                self.wf(),
                start.wf(),
                !self@.open,
                self@.size() == start.size(),
                start.joined <= self@.joined,
                forall|i: int|
                    self@.joined <= i < start.size() ==> #[trigger] self@.handles[i]
                        == start.handles[i],
                forall|i: int|
                    start.joined <= i < start.size() ==> join.requires(
                        (i as usize, (#[trigger] start.handles[i]).unwrap()),
                    ),
                forall|i: int|
                    start.joined <= i < self@.joined ==> join.ensures(
                        (i as usize, (#[trigger] start.handles[i]).unwrap()),
                        (),
                    ),
            ensures
                self@.joined == start.size(),
            decreases self@.size() - self@.joined,
        {
            match self.join_next() {
                Some((id, handle)) => {
                    join(id, handle);
                },
                None => {
                    break ;
                },
            }
        }
        proof {
            assert(self@.handles =~= start.drained().handles);
        }
    }
}

impl<J> Submission<J> {
    /// Reads the answer of the queue: no job handed back means that `job` was
    /// enqueued.
    pub fn of_send(refused: Option<J>) -> (outcome: Self)
        ensures
            outcome == (match refused {
                None => Submission::Enqueued,
                Some(job) => Submission::Disconnected(job),
            }),
    {
        match refused {
            None => Submission::Enqueued,
            Some(job) => Submission::Disconnected(job),
        }
    }
}

} // verus!
