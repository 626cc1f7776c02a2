use std::cell::Cell;
use std::cell::RefCell;
use std::rc::Rc;

use thread_pool::worker::{decide, turn};
use thread_pool::{Action, Message, SharedReceiver, ShutdownError, ThreadPool, WorkerState};

type Job = Box<dyn FnOnce()>;

type Shared = SharedReceiver<Job>;

/// A worker that runs on the caller's thread: it is handed its end of the
/// queue when it is started, and goes through its loop when it is joined.
struct Deferred {
    id: usize,
    receiver: Shared,
}

fn start(id: usize, receiver: Shared) -> Deferred {
    Deferred { id, receiver }
}

/// The worker's loop: receive, run, until the stop order.
fn work(worker: Deferred) -> bool {
    loop {
        match turn(&worker.receiver) {
            Ok(WorkerState::Running) => {}
            Ok(WorkerState::Terminated) => return true,
            Err(_) => return false,
        }
    }
}

/// Submits `jobs` jobs to a pool of `size` workers, shuts it down and returns
/// how often each job ran.
fn run_counted(size: usize, jobs: usize) -> Vec<u32> {
    let runs: Rc<RefCell<Vec<u32>>> = Rc::new(RefCell::new(vec![0; jobs]));
    let mut pool: ThreadPool<Job, Deferred> = ThreadPool::new(size, start);
    for k in 0..jobs {
        let runs = Rc::clone(&runs);
        let job: Job = Box::new(move || runs.borrow_mut()[k] += 1);
        assert!(pool.execute(job).is_ok());
    }
    assert_eq!(pool.shutdown(work), Ok(()));
    let counted = runs.borrow().clone();
    counted
}

#[test]
fn new_starts_one_worker_per_index_in_order() {
    let started = RefCell::new(Vec::new());
    let pool: ThreadPool<Job, usize> = ThreadPool::new(4, |id: usize, _rx: Shared| {
        started.borrow_mut().push(id);
        id
    });
    assert_eq!(pool.size(), 4);
    assert_eq!(*started.borrow(), vec![0, 1, 2, 3]);
}

#[test]
fn pool_of_one_has_one_worker() {
    let pool: ThreadPool<Job, Deferred> = ThreadPool::new(1, start);
    assert_eq!(pool.size(), 1);
}

#[test]
fn workers_share_one_receiving_end() {
    let seen: RefCell<Vec<SharedReceiver<u32>>> = RefCell::new(Vec::new());
    let pool: ThreadPool<u32, usize> = ThreadPool::new(3, |id: usize, rx: SharedReceiver<u32>| {
        seen.borrow_mut().push(rx);
        id
    });
    let seen = seen.borrow();
    assert_eq!(seen.len(), 3);
    for job in [11, 22, 33, 44] {
        assert_eq!(pool.execute(job), Ok(()));
    }
    // Whichever handle is asked, the oldest message of the one queue comes out.
    assert!(matches!(seen[2].receive(), Ok(Message::NewJob(11))));
    assert!(matches!(seen[0].receive(), Ok(Message::NewJob(22))));
    assert!(matches!(seen[1].receive(), Ok(Message::NewJob(33))));
    assert!(matches!(seen[0].receive(), Ok(Message::NewJob(44))));
}

#[test]
fn thousand_jobs_on_four_workers_count_to_thousand() {
    let counter = Rc::new(Cell::new(0u32));
    let mut pool: ThreadPool<Job, Deferred> = ThreadPool::new(4, start);
    for _ in 0..1000 {
        let counter = Rc::clone(&counter);
        let job: Job = Box::new(move || counter.set(counter.get() + 1));
        assert!(pool.execute(job).is_ok());
    }
    assert_eq!(pool.shutdown(work), Ok(()));
    assert_eq!(counter.get(), 1000);
}

#[test]
fn every_job_runs_exactly_once_before_shutdown_returns() {
    for size in 1..=5 {
        for jobs in [0usize, 1, 2, 7, 40] {
            assert_eq!(run_counted(size, jobs), vec![1; jobs]);
        }
    }
}

#[test]
fn shutdown_without_jobs_joins_every_worker() {
    let joined = RefCell::new(Vec::new());
    let mut pool: ThreadPool<Job, Deferred> = ThreadPool::new(3, start);
    let done = pool.shutdown(|worker: Deferred| {
        joined.borrow_mut().push(worker.id);
        work(worker)
    });
    assert_eq!(done, Ok(()));
    assert_eq!(*joined.borrow(), vec![0, 1, 2]);
}

#[test]
fn jobs_start_in_the_order_of_submission() {
    let order: Rc<RefCell<Vec<usize>>> = Rc::new(RefCell::new(Vec::new()));
    let mut pool: ThreadPool<Job, Deferred> = ThreadPool::new(3, start);
    for k in 0..50 {
        let order = Rc::clone(&order);
        let job: Job = Box::new(move || order.borrow_mut().push(k));
        assert!(pool.execute(job).is_ok());
    }
    assert_eq!(pool.shutdown(work), Ok(()));
    assert_eq!(*order.borrow(), (0..50).collect::<Vec<usize>>());
}

#[test]
fn job_submitted_before_shutdown_has_run_when_shutdown_returns() {
    let ran = Rc::new(Cell::new(false));
    let mut pool: ThreadPool<Job, Deferred> = ThreadPool::new(1, start);
    let flag = Rc::clone(&ran);
    let job: Job = Box::new(move || flag.set(true));
    assert!(pool.execute(job).is_ok());
    assert!(!ran.get());
    assert_eq!(pool.shutdown(work), Ok(()));
    assert!(ran.get());
}

#[test]
fn two_pools_in_sequence_join_all_their_workers() {
    for _ in 0..2 {
        let joined = Cell::new(0usize);
        let mut pool: ThreadPool<Job, Deferred> = ThreadPool::new(2, start);
        let done = pool.shutdown(|worker: Deferred| {
            joined.set(joined.get() + 1);
            work(worker)
        });
        assert_eq!(done, Ok(()));
        assert_eq!(joined.get(), pool.size());
    }
}

#[test]
fn execute_returns_the_job_when_no_receiver_is_left() {
    let pool: ThreadPool<u32, usize> =
        ThreadPool::new(2, |id: usize, _rx: SharedReceiver<u32>| id);
    assert_eq!(pool.execute(42), Err(42));
    assert_eq!(pool.execute(7), Err(7));
}

#[test]
fn shutdown_reports_closed_queue_and_joins_nobody() {
    let calls = Cell::new(0u32);
    let mut pool: ThreadPool<u32, usize> =
        ThreadPool::new(2, |id: usize, _rx: SharedReceiver<u32>| id);
    let done = pool.shutdown(|_h: usize| {
        calls.set(calls.get() + 1);
        true
    });
    assert_eq!(done, Err(ShutdownError::QueueClosed(0)));
    assert_eq!(calls.get(), 0);
    assert_eq!(pool.size(), 2);
}

#[test]
fn shutdown_stops_at_the_first_failed_join() {
    let asked = RefCell::new(Vec::new());
    let mut pool: ThreadPool<Job, Deferred> = ThreadPool::new(3, start);
    let done = pool.shutdown(|worker: Deferred| {
        asked.borrow_mut().push(worker.id);
        worker.id != 1
    });
    assert_eq!(done, Err(ShutdownError::JoinFailed(1)));
    assert_eq!(*asked.borrow(), vec![0, 1]);

    // The workers behind the failure were left joinable; those before it were not.
    asked.borrow_mut().clear();
    let again = pool.shutdown(|worker: Deferred| {
        asked.borrow_mut().push(worker.id);
        true
    });
    assert_eq!(again, Ok(()));
    assert_eq!(*asked.borrow(), vec![2]);
}

#[test]
fn shutdown_sends_one_stop_order_per_worker() {
    let kept: RefCell<Option<Shared>> = RefCell::new(None);
    let mut pool: ThreadPool<Job, usize> = ThreadPool::new(3, |id: usize, rx: Shared| {
        *kept.borrow_mut() = Some(rx);
        id
    });
    let receiver = kept.borrow_mut().take().unwrap();
    assert_eq!(pool.shutdown(|_h: usize| true), Ok(()));
    drop(pool);
    let mut orders = 0;
    while let Ok(msg) = receiver.receive() {
        assert!(matches!(decide(msg), Action::Exit));
        orders += 1;
    }
    assert_eq!(orders, 3);
}

#[test]
fn execute_after_shutdown_hands_the_job_back() {
    let ran = Rc::new(Cell::new(0u32));
    let mut pool: ThreadPool<Job, Deferred> = ThreadPool::new(2, start);
    assert_eq!(pool.shutdown(work), Ok(()));
    let counter = Rc::clone(&ran);
    let job: Job = Box::new(move || counter.set(counter.get() + 1));
    match pool.execute(job) {
        Ok(()) => panic!("a queue without receivers took a job"),
        Err(back) => back(),
    }
    assert_eq!(ran.get(), 1);
}
