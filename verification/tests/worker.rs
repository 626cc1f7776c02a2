use std::cell::Cell;
use std::cell::RefCell;
use std::rc::Rc;

use thread_pool::worker::{decide, handle, turn};
use thread_pool::{
    Action, Message, ReceiveError, SharedReceiver, ShutdownError, ThreadPool, Worker, WorkerState,
};

type Shared = SharedReceiver<u32>;

/// Builds a pool whose workers never run, and hands out the receiving end
/// that its first worker was started on.
fn pool_with_receiver(size: usize) -> (ThreadPool<u32, usize>, Shared) {
    let kept: RefCell<Option<Shared>> = RefCell::new(None);
    let pool = ThreadPool::new(size, |id: usize, rx: Shared| {
        if id == 0 {
            *kept.borrow_mut() = Some(rx);
        }
        id
    });
    let rx = kept.borrow_mut().take().unwrap();
    (pool, rx)
}

#[test]
fn message_job_wraps_the_job() {
    assert!(matches!(Message::job(7u32), Message::NewJob(7)));
}

#[test]
fn decide_runs_a_new_job() {
    assert!(matches!(decide(Message::NewJob(41u32)), Action::Run(41)));
}

#[test]
fn decide_exits_on_terminate() {
    assert!(matches!(decide(Message::<u32>::Terminate), Action::Exit));
}

#[test]
fn new_worker_holds_the_handle_that_spawn_returned() {
    let (_pool, rx) = pool_with_receiver(1);
    let seen = Cell::new(usize::MAX);
    let spawn = |id: usize, _rx: Shared| {
        seen.set(id);
        id * 10
    };
    let mut worker = Worker::new(3, rx, &spawn);
    assert_eq!(seen.get(), 3);
    assert_eq!(worker.id(), 3);
    assert!(worker.is_joinable());
    assert_eq!(worker.take_thread(), Some(30));
}

#[test]
fn thread_handle_is_taken_once() {
    let (_pool, rx) = pool_with_receiver(1);
    let spawn = |id: usize, _rx: Shared| id + 100;
    let mut worker = Worker::new(5, rx, &spawn);
    assert_eq!(worker.take_thread(), Some(105));
    assert!(!worker.is_joinable());
    assert_eq!(worker.take_thread(), None);
    assert_eq!(worker.id(), 5);
}

#[test]
fn retire_without_signal_reports_closed_queue_and_keeps_handle() {
    let (_pool, rx) = pool_with_receiver(1);
    let spawn = |id: usize, _rx: Shared| id;
    let mut worker = Worker::new(2, rx, &spawn);
    let calls = Cell::new(0u32);
    let join = |_h: usize| {
        calls.set(calls.get() + 1);
        true
    };
    assert_eq!(worker.retire(false, &join), Err(ShutdownError::QueueClosed(2)));
    assert_eq!(calls.get(), 0);
    assert!(worker.is_joinable());
}

#[test]
fn retire_joins_the_thread() {
    let (_pool, rx) = pool_with_receiver(1);
    let spawn = |id: usize, _rx: Shared| id + 1;
    let mut worker = Worker::new(6, rx, &spawn);
    let joined = RefCell::new(Vec::new());
    let join = |h: usize| {
        joined.borrow_mut().push(h);
        true
    };
    assert_eq!(worker.retire(true, &join), Ok(()));
    assert_eq!(*joined.borrow(), vec![7]);
    assert!(!worker.is_joinable());
}

#[test]
fn retire_reports_failed_join() {
    let (_pool, rx) = pool_with_receiver(1);
    let spawn = |id: usize, _rx: Shared| id;
    let mut worker = Worker::new(4, rx, &spawn);
    let join = |_h: usize| false;
    assert_eq!(worker.retire(true, &join), Err(ShutdownError::JoinFailed(4)));
    assert!(!worker.is_joinable());
}

#[test]
fn retire_twice_joins_once() {
    let (_pool, rx) = pool_with_receiver(1);
    let spawn = |id: usize, _rx: Shared| id;
    let mut worker = Worker::new(0, rx, &spawn);
    let calls = Cell::new(0u32);
    let join = |_h: usize| {
        calls.set(calls.get() + 1);
        true
    };
    assert_eq!(worker.retire(true, &join), Ok(()));
    assert_eq!(worker.retire(true, &join), Ok(()));
    assert_eq!(calls.get(), 1);
}

#[test]
fn receive_hands_out_messages_in_the_order_sent() {
    let (pool, rx) = pool_with_receiver(2);
    assert_eq!(pool.execute(10), Ok(()));
    assert_eq!(pool.execute(20), Ok(()));
    assert_eq!(pool.execute(30), Ok(()));
    assert!(matches!(rx.receive(), Ok(Message::NewJob(10))));
    assert!(matches!(rx.receive(), Ok(Message::NewJob(20))));
    assert!(matches!(rx.receive(), Ok(Message::NewJob(30))));
}

#[test]
fn stop_order_arrives_behind_the_jobs() {
    let (mut pool, rx) = pool_with_receiver(1);
    assert_eq!(pool.execute(1), Ok(()));
    assert_eq!(pool.execute(2), Ok(()));
    assert_eq!(pool.shutdown(|_h: usize| true), Ok(()));
    assert!(matches!(rx.receive().map(decide), Ok(Action::Run(1))));
    assert!(matches!(rx.receive().map(decide), Ok(Action::Run(2))));
    assert!(matches!(rx.receive().map(decide), Ok(Action::Exit)));
}

#[test]
fn handle_runs_the_job_once_and_goes_on() {
    let runs = Cell::new(0u32);
    let state = handle(Message::NewJob(|| runs.set(runs.get() + 1)));
    assert_eq!(state, WorkerState::Running);
    assert_eq!(runs.get(), 1);
}

#[test]
fn handle_stops_on_terminate() {
    let state = handle(Message::<fn()>::Terminate);
    assert_eq!(state, WorkerState::Terminated);
}

#[test]
fn turn_runs_jobs_until_the_stop_order() {
    let log: Rc<RefCell<Vec<u32>>> = Rc::new(RefCell::new(Vec::new()));
    let kept: RefCell<Option<SharedReceiver<Box<dyn FnOnce()>>>> = RefCell::new(None);
    let mut pool: ThreadPool<Box<dyn FnOnce()>, usize> = ThreadPool::new(1, |id: usize, rx| {
        *kept.borrow_mut() = Some(rx);
        id
    });
    let rx = kept.borrow_mut().take().unwrap();
    for k in [3u32, 1, 2] {
        let log = Rc::clone(&log);
        assert!(pool.execute(Box::new(move || log.borrow_mut().push(k))).is_ok());
    }
    assert_eq!(pool.shutdown(|_h: usize| true), Ok(()));
    assert_eq!(turn(&rx), Ok(WorkerState::Running));
    assert_eq!(*log.borrow(), vec![3]);
    assert_eq!(turn(&rx), Ok(WorkerState::Running));
    assert_eq!(turn(&rx), Ok(WorkerState::Running));
    assert_eq!(*log.borrow(), vec![3, 1, 2]);
    assert_eq!(turn(&rx), Ok(WorkerState::Terminated));
    drop(pool);
    assert_eq!(turn(&rx), Err(ReceiveError::Disconnected));
}

#[test]
fn receive_reports_disconnected_when_the_pool_is_gone() {
    let (pool, rx) = pool_with_receiver(1);
    assert_eq!(pool.execute(9), Ok(()));
    drop(pool);
    assert!(matches!(rx.receive(), Ok(Message::NewJob(9))));
    assert!(matches!(rx.receive(), Err(ReceiveError::Disconnected)));
    assert!(matches!(rx.receive(), Err(ReceiveError::Disconnected)));
}
