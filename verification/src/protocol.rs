//! The pool, its queue and its workers as one transition system.
//!
//! Jobs are told apart by tickets: the job enqueued as the `k`-th, counting
//! from zero, has ticket `k`. The queue is first in, first out, so at any
//! moment it holds the tickets from `fetched` up to `accepted`.
//!
//! The system rests on three things that the queue and the threads are taken
//! to do. A fetch is one indivisible step, which the lock round the receive
//! side sees to; it returns the head of the queue if there is one, and fails
//! only when the send side is gone and the queue is empty. A job either
//! returns or takes its worker down with it. And the receive side lasts as
//! long as some worker is in its loop.

use vstd::prelude::*;
use vstd::set_lib::{lemma_int_range, set_int_range};
use crate::pool::{Phase, PoolView};

verus! {

/// What one worker is doing.
pub enum Activity {
    /// Waiting for the queue, or about to.
    Idle,
    /// Running the job with this ticket, with the queue lock released.
    Busy(int),
    /// Out of its loop after a failed fetch: the thread ends normally.
    Exited,
    /// Taken down by the job with this ticket, which failed. Nothing replaces
    /// the worker.
    Failed(int),
}

/// The ticket of the job that a worker in this state has fetched and that has
/// not returned.
pub open spec fn ticket(activity: Activity) -> Option<int> {
    match activity {
        Activity::Busy(t) => Some(t),
        Activity::Failed(t) => Some(t),
        _ => None,
    }
}

/// Something that happens to the system, in one indivisible step.
pub enum Event {
    /// The host hands a job to `execute`.
    Submit,
    /// The host gives up the send side.
    Close,
    /// The host's wait for the next worker, in construction order, returns
    /// normally.
    Join,
    /// The fetch of this worker returns the job at the head of the queue.
    Fetch(int),
    /// The job that this worker runs returns.
    Finish(int),
    /// The job that this worker runs fails and takes the worker down.
    Fail(int),
    /// The fetch of this worker fails.
    Disconnect(int),
}

/// The state of a pool, its queue and its workers.
pub struct System {
    /// The send side is held.
    pub open: bool,
    /// How many jobs were enqueued.
    pub accepted: nat,
    /// How many jobs were taken from the queue.
    pub fetched: nat,
    /// The tickets of the jobs that have returned, in the order of their return.
    pub done: Seq<int>,
    /// One entry per worker, in construction order.
    pub workers: Seq<Activity>,
    /// How many workers the host has joined.
    pub joined: nat,
}

impl System {
    /// The system right after a pool of `n` workers was built.
    pub open spec fn init(n: nat) -> System {
        System {
            open: true,
            accepted: 0,
            fetched: 0,
            done: Seq::empty(),
            workers: Seq::new(n, |w: int| Activity::Idle),
            joined: 0,
        }
    }

    /// Where the pool stands in its life.
    pub open spec fn phase(self) -> Phase {
        if self.open {
            Phase::Active
        } else if self.joined < self.workers.len() {
            Phase::Closing
        } else {
            Phase::Drained
        }
    }

    /// Worker `w` exists.
    pub open spec fn has(self, w: int) -> bool {
        0 <= w < self.workers.len()
    }

    /// Worker `w` exists and its thread is in its loop.
    pub open spec fn live(self, w: int) -> bool {
        self.has(w) && (self.workers[w] is Idle || self.workers[w] is Busy)
    }

    /// Some worker is in its loop, so the receive side of the queue exists.
    pub open spec fn staffed(self) -> bool {
        exists|w: int| #[trigger] self.live(w)
    }

    /// Some worker holds the job with ticket `t`: it runs it, or was taken down
    /// by it.
    pub open spec fn held(self, t: int) -> bool {
        exists|w: int| self.has(w) && ticket(#[trigger] self.workers[w]) == Some(t)
    }

    /// The tickets still buffered, head first.
    pub open spec fn queue(self) -> Seq<int> {
        Seq::new((self.accepted - self.fetched) as nat, |i: int| self.fetched + i)
    }

    /// A submission now would be enqueued: the send side is held, and the
    /// receive side has not gone with the last worker.
    pub open spec fn accepts(self) -> bool {
        self.open && self.staffed()
    }

    /// Whether `event` can happen now. The host may always submit and close. A
    /// fetch returns a job only to an idle worker and only if one is buffered;
    /// it fails only once the send side is gone and the buffer is empty. A wait
    /// returns normally only after the send side was given up and the worker
    /// next in line has left its loop by a failed fetch; the wait for a worker
    /// that was taken down ends the host instead.
    pub open spec fn enabled(self, event: Event) -> bool {
        match event {
            Event::Submit => true,
            Event::Close => true,
            Event::Join => !self.open && self.has(self.joined as int)
                && self.workers[self.joined as int] is Exited,
            Event::Fetch(w) => self.has(w) && self.workers[w] is Idle && self.fetched
                < self.accepted,
            Event::Finish(w) => self.has(w) && self.workers[w] is Busy,
            Event::Fail(w) => self.has(w) && self.workers[w] is Busy,
            Event::Disconnect(w) => self.has(w) && self.workers[w] is Idle && !self.open
                && self.fetched == self.accepted,
        }
    }

    /// The system after `event`. A job that is not enqueued gets no ticket.
    pub open spec fn apply(self, event: Event) -> System {
        match event {
            Event::Submit => if self.accepts() {
                System { accepted: self.accepted + 1, ..self }
            } else {
                self
            },
            Event::Close => System { open: false, ..self },
            Event::Join => System { joined: self.joined + 1, ..self },
            Event::Fetch(w) => System {
                fetched: self.fetched + 1,
                workers: self.workers.update(w, Activity::Busy(self.fetched as int)),
                ..self
            },
            Event::Finish(w) => System {
                done: self.done.push(self.workers[w]->Busy_0),
                workers: self.workers.update(w, Activity::Idle),
                ..self
            },
            Event::Fail(w) => System {
                workers: self.workers.update(w, Activity::Failed(self.workers[w]->Busy_0)),
                ..self
            },
            Event::Disconnect(w) => System {
                workers: self.workers.update(w, Activity::Exited),
                ..self
            },
        }
    }

    /// The system after the events of `trace`, in order.
    pub open spec fn run(self, trace: Seq<Event>) -> System
        decreases trace.len(),
    {
        if trace.len() == 0 {
            self
        } else {
            self.run(trace.drop_last()).apply(trace.last())
        }
    }

    /// Each event of `trace` can happen when its turn comes.
    pub open spec fn admits(self, trace: Seq<Event>) -> bool
        decreases trace.len(),
    {
        trace.len() == 0 || (self.admits(trace.drop_last()) && self.run(
            trace.drop_last(),
        ).enabled(trace.last()))
    }

    /// How many of the submissions of `trace` are enqueued.
    pub open spec fn enqueued(self, trace: Seq<Event>) -> nat
        decreases trace.len(),
    {
        if trace.len() == 0 {
            0
        } else {
            let before = self.run(trace.drop_last());
            let here: nat = if trace.last() is Submit && before.accepts() {
                1
            } else {
                0
            };
            self.enqueued(trace.drop_last()) + here
        }
    }

    /// What holds of every system that a pool can get into.
    pub open spec fn inv(self) -> bool {
        &&& self.workers.len() >= 1
        &&& self.fetched <= self.accepted
        &&& self.joined <= self.workers.len()
        &&& self.open ==> self.joined == 0
        &&& forall|w: int| 0 <= w < self.joined ==> #[trigger] self.workers[w] is Exited
        &&& forall|w: int|
            self.has(w) && #[trigger] self.workers[w] is Exited ==> !self.open && self.fetched
                == self.accepted
        &&& self.done.no_duplicates()
        &&& forall|k: int| 0 <= k < self.done.len() ==> 0 <= #[trigger] self.done[k] < self.fetched
        &&& forall|w: int|
            self.has(w) && ticket(#[trigger] self.workers[w]) is Some ==> {
                &&& 0 <= ticket(self.workers[w])->0 < self.fetched
                &&& !self.done.contains(ticket(self.workers[w])->0)
            }
        &&& forall|v: int, w: int|
            self.has(v) && self.has(w) && v != w && ticket(#[trigger] self.workers[v]) is Some
                ==> ticket(self.workers[v]) != ticket(#[trigger] self.workers[w])
        &&& forall|t: int|
            0 <= t < self.fetched ==> #[trigger] self.done.contains(t) || self.held(t)
    }

    /// The system and a pool agree on what both record.
    pub open spec fn tracks<H>(self, pool: PoolView<H>) -> bool {
        &&& self.open == pool.open
        &&& self.joined == pool.joined
        &&& self.workers.len() == pool.handles.len()
    }
}

/// Right after construction all `n` workers are live, nothing was submitted,
/// and the pool is active.
pub proof fn init_has_n_live_workers(n: nat)
    requires
        n >= 1,
    ensures
        System::init(n).inv(),
        System::init(n).workers.len() == n,
        forall|w: int| 0 <= w < n ==> System::init(n).live(w),
        System::init(n).phase() == Phase::Active,
        System::init(n).accepts(),
        System::init(n).queue() =~= Seq::<int>::empty(),
{
    assert(System::init(n).live(0));
}

/// A job that some worker held before a step that touches only worker `w` is
/// held after it, unless it is `w` that let go of it.
proof fn others_keep_their_jobs(s: System, r: System, w: int, t: int)
    requires
        s.has(w),
        r.workers == s.workers.update(w, r.workers[w]),
        s.held(t),
        ticket(s.workers[w]) != Some(t) || ticket(r.workers[w]) == Some(t),
    ensures
        r.held(t),
{
    let v = choose|v: int| s.has(v) && ticket(#[trigger] s.workers[v]) == Some(t);
    assert(r.has(v) && ticket(r.workers[v]) == Some(t));
}

/// No event that can happen breaks the invariant.
pub proof fn step_keeps_inv(s: System, event: Event)
    requires
        s.inv(),
        s.enabled(event),
    ensures
        s.apply(event).inv(),
{
    let r = s.apply(event);
    match event {
        Event::Fetch(w) => {
            assert forall|t: int| 0 <= t < r.fetched implies #[trigger] r.done.contains(t)
                || r.held(t) by {
                if t != s.fetched && !s.done.contains(t) {
                    others_keep_their_jobs(s, r, w, t);
                }
            }
        },
        Event::Finish(w) => {
            let t0 = s.workers[w]->Busy_0;
            assert forall|t: int| 0 <= t < r.fetched implies #[trigger] r.done.contains(t)
                || r.held(t) by {
                if t == t0 {
                    assert(r.done[s.done.len() as int] == t);
                } else if s.done.contains(t) {
                    let k = choose|k: int| 0 <= k < s.done.len() && s.done[k] == t;
                    assert(r.done[k] == t);
                } else {
                    others_keep_their_jobs(s, r, w, t);
                }
            }
        },
        Event::Fail(w) => {
            assert forall|t: int| 0 <= t < r.fetched implies #[trigger] r.done.contains(t)
                || r.held(t) by {
                if !s.done.contains(t) {
                    others_keep_their_jobs(s, r, w, t);
                }
            }
        },
        Event::Disconnect(w) => {
            assert forall|t: int| 0 <= t < r.fetched implies #[trigger] r.done.contains(t)
                || r.held(t) by {
                if !s.done.contains(t) {
                    others_keep_their_jobs(s, r, w, t);
                }
            }
        },
        _ => {},
    }
}

/// Every system reached from a fresh pool of at least one worker satisfies the
/// invariant.
pub proof fn reachable_keeps_inv(n: nat, trace: Seq<Event>)
    requires
        n >= 1,
        System::init(n).admits(trace),
    ensures
        System::init(n).run(trace).inv(),
    decreases trace.len(),
{
    if trace.len() > 0 {
        reachable_keeps_inv(n, trace.drop_last());
        step_keeps_inv(System::init(n).run(trace.drop_last()), trace.last());
    }
}

/// The jobs that got a ticket are the submissions that found the pool open and
/// a worker in its loop: none is lost on the way in, and none is accepted after
/// close.
pub proof fn accepted_counts_enqueued(s: System, trace: Seq<Event>)
    ensures
        s.run(trace).accepted == s.accepted + s.enqueued(trace),
    decreases trace.len(),
{
    if trace.len() > 0 {
        accepted_counts_enqueued(s, trace.drop_last());
    }
}

/// The size of a pool is fixed at construction: no event adds or removes a
/// worker.
pub proof fn size_is_fixed(s: System, trace: Seq<Event>)
    requires
        s.admits(trace),
    ensures
        s.run(trace).workers.len() == s.workers.len(),
    decreases trace.len(),
{
    if trace.len() > 0 {
        size_is_fixed(s, trace.drop_last());
    }
}

/// Once a pool is drained no worker is left in its loop, the queue is empty,
/// and every job that was enqueued has run exactly once: each ticket below
/// `accepted` stands once among the returned jobs, and nothing else does.
pub proof fn drained_has_run_every_job(s: System)
    requires
        s.inv(),
        s.phase() == Phase::Drained,
    ensures
        forall|w: int| s.has(w) ==> s.workers[w] is Exited,
        s.queue() =~= Seq::<int>::empty(),
        s.fetched == s.accepted,
        s.done.no_duplicates(),
        forall|t: int| s.done.contains(t) <==> 0 <= t < s.accepted,
        s.done.len() == s.accepted,
{
    let last = s.workers.len() - 1;
    assert(s.workers[last] is Exited);
    s.done.unique_seq_to_set();
    lemma_int_range(0, s.accepted as int);
    assert(s.done.to_set() =~= set_int_range(0, s.accepted as int));
}

/// The law of the pool, from construction to the end of teardown: whatever the
/// host and the workers did, in whatever order, when the last join has returned
/// every worker has left its loop and each job that was enqueued has run once
/// and only once.
pub proof fn teardown_leaves_nothing_behind(n: nat, trace: Seq<Event>)
    requires
        n >= 1,
        System::init(n).admits(trace),
        System::init(n).run(trace).phase() == Phase::Drained,
    ensures
        ({
            let end = System::init(n).run(trace);
            &&& end.workers.len() == n
            &&& forall|w: int| 0 <= w < n ==> end.workers[w] is Exited
            &&& end.done.len() == System::init(n).enqueued(trace)
            &&& end.done.no_duplicates()
            &&& forall|t: int| end.done.contains(t) <==> 0 <= t < System::init(n).enqueued(trace)
        }),
{
    let end = System::init(n).run(trace);
    reachable_keeps_inv(n, trace);
    accepted_counts_enqueued(System::init(n), trace);
    size_is_fixed(System::init(n), trace);
    drained_has_run_every_job(end);
}

/// The place of a phase in the life of a pool.
pub open spec fn rank(phase: Phase) -> nat {
    match phase {
        Phase::Active => 0,
        Phase::Closing => 1,
        Phase::Drained => 2,
    }
}

/// A pool never goes back to an earlier phase, and only the host moves it on:
/// `Close` out of active, `Join` out of closing.
pub proof fn phase_only_advances(s: System, event: Event)
    requires
        s.inv(),
        s.enabled(event),
    ensures
        rank(s.phase()) <= rank(s.apply(event).phase()),
        s.apply(event).phase() != s.phase() ==> event is Close || event is Join,
        s.apply(event).workers.len() == s.workers.len(),
{
}

/// Jobs leave the queue in the order in which they were accepted, and a job
/// submitted to a pool that is closed, or has lost all its workers, changes
/// nothing.
pub proof fn queue_is_first_in_first_out(s: System, w: int)
    requires
        s.inv(),
    ensures
        s.accepts() ==> s.apply(Event::Submit).queue() =~= s.queue().push(s.accepted as int),
        !s.accepts() ==> s.apply(Event::Submit) == s,
        s.enabled(Event::Fetch(w)) ==> {
            &&& s.queue().len() > 0
            &&& s.apply(Event::Fetch(w)).workers[w] == Activity::Busy(s.queue()[0])
            &&& s.apply(Event::Fetch(w)).queue() =~= s.queue().skip(1)
        },
{
}

/// What a worker in this state still has to do before its thread has ended.
pub open spec fn weight(activity: Activity) -> nat {
    match activity {
        Activity::Busy(_) => 2,
        Activity::Idle => 1,
        Activity::Exited => 0,
        Activity::Failed(_) => 0,
    }
}

/// The sum of the weights of `workers`.
pub open spec fn load(workers: Seq<Activity>) -> nat
    decreases workers.len(),
{
    if workers.len() == 0 {
        0
    } else {
        load(workers.drop_last()) + weight(workers.last())
    }
}

proof fn load_after_update(workers: Seq<Activity>, w: int, activity: Activity)
    requires
        0 <= w < workers.len(),
    ensures
        load(workers.update(w, activity)) + weight(workers[w]) == load(workers) + weight(activity),
    decreases workers.len(),
{
    let after = workers.update(w, activity);
    if w == workers.len() - 1 {
        assert(after.drop_last() =~= workers.drop_last());
    } else {
        load_after_update(workers.drop_last(), w, activity);
        assert(after.drop_last() =~= workers.drop_last().update(w, activity));
    }
}

impl System {
    /// A bound on the number of steps that workers and joins can still take
    /// once the send side is gone.
    pub open spec fn work_left(self) -> nat {
        (3 * (self.accepted - self.fetched) + load(self.workers) + (self.workers.len()
            - self.joined)) as nat
    }
}

/// Whether an event is a step of a worker or a join, not the host's to give
/// at will.
pub open spec fn is_move(event: Event) -> bool {
    !(event is Submit) && !(event is Close)
}

/// How many events of `trace` are moves.
pub open spec fn moves(trace: Seq<Event>) -> nat
    decreases trace.len(),
{
    if trace.len() == 0 {
        0
    } else {
        let here: nat = if is_move(trace.last()) {
            1
        } else {
            0
        };
        moves(trace.drop_last()) + here
    }
}

/// Teardown cannot get stuck. Once the send side is gone, a pool that is not
/// yet drained, and whose next worker in line was not taken down, can always
/// make a move, be the queue empty or not.
pub proof fn closing_pool_can_move(s: System)
    requires
        s.inv(),
        s.phase() == Phase::Closing,
        !(s.workers[s.joined as int] is Failed),
    ensures
        exists|e: Event| is_move(e) && #[trigger] s.enabled(e),
{
    let next = s.joined as int;
    match s.workers[next] {
        Activity::Exited => {
            assert(s.enabled(Event::Join));
        },
        Activity::Busy(_) => {
            assert(s.enabled(Event::Finish(next)));
        },
        Activity::Idle => {
            if s.fetched < s.accepted {
                assert(s.enabled(Event::Fetch(next)));
            } else {
                assert(s.enabled(Event::Disconnect(next)));
            }
        },
        Activity::Failed(_) => {},
    }
}

/// Once the send side is gone the host can add no work, and every move uses
/// some up.
pub proof fn move_uses_up_work(s: System, event: Event)
    requires
        s.inv(),
        !s.open,
        s.enabled(event),
    ensures
        !s.apply(event).open,
        s.apply(event).work_left() <= s.work_left(),
        is_move(event) ==> s.apply(event).work_left() < s.work_left(),
{
    match event {
        Event::Fetch(w) => {
            load_after_update(s.workers, w, Activity::Busy(s.fetched as int));
        },
        Event::Finish(w) => {
            load_after_update(s.workers, w, Activity::Idle);
        },
        Event::Fail(w) => {
            load_after_update(s.workers, w, Activity::Failed(s.workers[w]->Busy_0));
        },
        Event::Disconnect(w) => {
            load_after_update(s.workers, w, Activity::Exited);
        },
        _ => {},
    }
}

/// Teardown ends. From the moment the send side is gone, the moves that
/// workers and joins can make, in whatever order, are no more than the work that
/// was left at that moment.
pub proof fn teardown_is_bounded(s: System, trace: Seq<Event>)
    requires
        s.inv(),
        !s.open,
        s.admits(trace),
    ensures
        s.run(trace).inv(),
        !s.run(trace).open,
        moves(trace) + s.run(trace).work_left() <= s.work_left(),
    decreases trace.len(),
{
    if trace.len() > 0 {
        teardown_is_bounded(s, trace.drop_last());
        step_keeps_inv(s.run(trace.drop_last()), trace.last());
        move_uses_up_work(s.run(trace.drop_last()), trace.last());
    }
}

/// The steps of an executable pool are the host's events of the system: a
/// system that agrees with a pool before `close`, or before a `join_next` that
/// hands out a worker, agrees with it afterwards; and a submission is enqueued
/// only if the pool is open, and then unless every worker was taken down.
pub proof fn pool_steps_are_events<H>(s: System, pool: PoolView<H>)
    requires
        pool.wf(),
        s.tracks(pool),
    ensures
        s.phase() == pool.phase(),
        s.apply(Event::Close).tracks(pool.closed()),
        pool.phase() == Phase::Closing ==> s.apply(Event::Join).tracks(pool.advanced()),
        s.enabled(Event::Join) ==> pool.phase() == Phase::Closing,
        s.apply(Event::Submit).accepted == s.accepted + (if pool.open && s.staffed() {
            1nat
        } else {
            0nat
        }),
{
}

/// A worker that a failing job took down stays down: no event is its own any
/// more, none changes it, and the job that took it down never counts as run.
pub proof fn failed_worker_stays_down(s: System, w: int, event: Event)
    requires
        s.inv(),
        s.has(w),
        s.workers[w] is Failed,
        s.enabled(event),
    ensures
        event != Event::Fetch(w) && event != Event::Finish(w) && event != Event::Fail(w) && event
            != Event::Disconnect(w),
        s.apply(event).workers[w] == s.workers[w],
        !s.apply(event).done.contains(s.workers[w]->Failed_0),
        s.joined <= w,
        s.apply(event).phase() != Phase::Drained,
{
    step_keeps_inv(s, event);
}

/// A pool that has lost all its workers runs nothing any more: whatever
/// happens, no job is enqueued, fetched or finished, and the pool is never
/// drained.
pub proof fn pool_without_workers_runs_nothing(s: System, event: Event)
    requires
        s.inv(),
        forall|w: int| s.has(w) ==> s.workers[w] is Failed,
        s.enabled(event),
    ensures
        event is Submit || event is Close,
        s.apply(event).accepted == s.accepted,
        s.apply(event).fetched == s.fetched,
        s.apply(event).done == s.done,
        s.apply(event).workers == s.workers,
        s.apply(event).phase() != Phase::Drained,
{
    assert(!s.staffed());
    assert(s.has(0));
}

} // verus!
