use std::cell::RefCell;
use std::sync::mpsc::channel;
use std::sync::{Arc, Mutex};

use threadpool::queue::SharedReceiver;
use threadpool::{Phase, Step, Submission, Threadpool, Worker};

/// A pool whose "threads" are plain numbers: worker `id` gets handle `10 * id + 7`.
/// Nothing keeps the receive side, so the queue refuses every job.
fn plain(n: usize) -> Threadpool<u32, usize> {
    Threadpool::new(n, |id: usize, _receiver| id * 10 + 7)
}

#[test]
fn new_builds_one_worker_per_slot() {
    for n in [1usize, 2, 4, 17] {
        let pool = plain(n);
        assert_eq!(pool.size(), n);
        assert_eq!(pool.phase(), Phase::Active);
    }
}

#[test]
fn new_spawns_each_ordinal_once_in_rising_order() {
    let seen: RefCell<Vec<usize>> = RefCell::new(Vec::new());
    let pool: Threadpool<u8, usize> = Threadpool::new(5, |id: usize, _receiver| {
        seen.borrow_mut().push(id);
        id
    });
    assert_eq!(pool.size(), 5);
    assert_eq!(*seen.borrow(), vec![0, 1, 2, 3, 4]);
}

#[test]
fn execute_gets_the_job_back_when_no_worker_is_left() {
    let pool = plain(2);
    match pool.execute(41) {
        Submission::Disconnected(job) => assert_eq!(job, 41),
        _ => panic!("no receive side is left to take the job"),
    }
    assert_eq!(pool.phase(), Phase::Active);
}

#[test]
fn execute_after_close_discards_the_job() {
    let mut pool = plain(2);
    pool.close();
    match pool.execute(41) {
        Submission::Discarded(job) => assert_eq!(job, 41),
        _ => panic!("a closed pool offers nothing to the queue"),
    }
    assert_eq!(pool.phase(), Phase::Closing);
}

#[test]
fn close_moves_an_active_pool_on_and_no_other() {
    let mut pool = plain(3);
    pool.close();
    assert_eq!(pool.phase(), Phase::Closing);
    pool.close();
    assert_eq!(pool.phase(), Phase::Closing);
    assert_eq!(pool.size(), 3);
    assert_eq!(pool.join_next(), Some((0, 7)));
    pool.close();
    assert_eq!(pool.join_next(), Some((1, 17)));
}

#[test]
fn join_next_yields_nothing_while_active() {
    let mut pool = plain(3);
    assert_eq!(pool.join_next(), None);
    assert_eq!(pool.join_next(), None);
    assert_eq!(pool.phase(), Phase::Active);
    pool.close();
    assert_eq!(pool.join_next(), Some((0, 7)));
}

#[test]
fn join_next_hands_workers_out_in_construction_order() {
    let mut pool = plain(3);
    pool.close();
    assert_eq!(pool.join_next(), Some((0, 7)));
    assert_eq!(pool.phase(), Phase::Closing);
    assert_eq!(pool.join_next(), Some((1, 17)));
    assert_eq!(pool.phase(), Phase::Closing);
    assert_eq!(pool.join_next(), Some((2, 27)));
    assert_eq!(pool.phase(), Phase::Drained);
    assert_eq!(pool.join_next(), None);
    assert_eq!(pool.phase(), Phase::Drained);
    assert_eq!(pool.size(), 3);
}

#[test]
fn a_drained_pool_stays_drained() {
    let mut pool = plain(1);
    pool.close();
    assert_eq!(pool.join_next(), Some((0, 7)));
    assert_eq!(pool.phase(), Phase::Drained);
    pool.close();
    assert_eq!(pool.join_next(), None);
    assert!(matches!(pool.execute(3), Submission::Discarded(3)));
    assert_eq!(pool.phase(), Phase::Drained);
}

#[test]
fn of_send_reads_the_answer_of_the_queue() {
    assert!(matches!(Submission::<u8>::of_send(None), Submission::Enqueued));
    assert!(matches!(Submission::of_send(Some(9u8)), Submission::Disconnected(9)));
}

#[test]
fn worker_keeps_its_ordinal_and_gives_its_handle_once() {
    let (_sender, receiver) = channel::<u8>();
    let receiver: SharedReceiver<u8> = Arc::new(Mutex::new(receiver));
    let spawn = |id: usize, _receiver: SharedReceiver<u8>| id + 100;
    let mut worker = Worker::new(3, receiver, &spawn);
    assert_eq!(worker.id(), 3);
    assert!(worker.is_running());
    assert_eq!(worker.take_handle(), Some(103));
    assert!(!worker.is_running());
    assert_eq!(worker.take_handle(), None);
    assert_eq!(worker.id(), 3);
}

#[test]
fn worker_starts_on_the_receiver_it_was_given() {
    let (sender, receiver) = channel::<u8>();
    let receiver: SharedReceiver<u8> = Arc::new(Mutex::new(receiver));
    let spawn = |_id: usize, receiver: SharedReceiver<u8>| receiver;
    let mut worker = Worker::new(0, Arc::clone(&receiver), &spawn);
    let seat = worker.take_handle().unwrap();
    assert!(Arc::ptr_eq(&seat, &receiver));
    sender.send(5).unwrap();
    assert_eq!(seat.lock().unwrap().try_recv(), Ok(5));
}

#[test]
fn a_delivered_job_is_run_and_a_failed_fetch_ends_the_loop() {
    let delivered: Result<u32, ()> = Ok(9);
    match Step::after_fetch(delivered) {
        Step::Run(job) => assert_eq!(job, 9),
        Step::Exit => panic!("a delivered job is run"),
    }
    let closed: Result<u32, &str> = Err("disconnected");
    assert!(matches!(Step::after_fetch(closed), Step::Exit));
}

#[test]
fn shutdown_joins_every_worker_in_construction_order() {
    let joined: RefCell<Vec<(usize, usize)>> = RefCell::new(Vec::new());
    let mut pool = plain(3);
    pool.shutdown(|id: usize, handle: usize| joined.borrow_mut().push((id, handle)));
    assert_eq!(*joined.borrow(), vec![(0, 7), (1, 17), (2, 27)]);
    assert_eq!(pool.phase(), Phase::Drained);
    assert_eq!(pool.size(), 3);
    assert_eq!(pool.join_next(), None);
    assert!(matches!(pool.execute(1), Submission::Discarded(1)));
}

#[test]
fn shutdown_joins_only_what_is_left() {
    let joined: RefCell<Vec<(usize, usize)>> = RefCell::new(Vec::new());
    let mut pool = plain(4);
    pool.close();
    assert_eq!(pool.join_next(), Some((0, 7)));
    assert_eq!(pool.join_next(), Some((1, 17)));
    pool.shutdown(|id: usize, handle: usize| joined.borrow_mut().push((id, handle)));
    assert_eq!(*joined.borrow(), vec![(2, 27), (3, 37)]);
    assert_eq!(pool.phase(), Phase::Drained);
    pool.shutdown(|id: usize, handle: usize| joined.borrow_mut().push((id, handle)));
    assert_eq!(joined.borrow().len(), 2);
    assert_eq!(pool.phase(), Phase::Drained);
}
