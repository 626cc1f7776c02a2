//! The pool: a fixed set of workers and the sending end of their queue.

use vstd::prelude::*;
use crate::message::Message;
use crate::queue::SharedReceiver;
use crate::worker::Worker;
use std::sync::mpsc::Sender;

verus! {

/// Why shutdown stopped before every worker was joined.
#[derive(Clone, Copy, Debug, PartialEq, Eq)]
pub enum ShutdownError {
    /// The queue refused the stop order for this worker: its receiving end
    /// is gone.
    QueueClosed(usize),
    /// Waiting for this worker's thread reported that the thread had failed.
    JoinFailed(usize),
}

/// A fixed-size pool. `J` is the type of a job, `H` the type of a thread's
/// handle.
#[verifier::reject_recursive_types(J)]
pub struct ThreadPool<J, H> {
    workers: Vec<Worker<H>>,
    sender: Sender<Message<J>>,
}

/// `worker` holds the handle that `spawn` returned for its index and this
/// handle to the receiving end.
pub open spec fn started<J, H, F: Fn(usize, SharedReceiver<J>) -> H>(
    worker: Worker<H>,
    spawn: F,
    receiver: SharedReceiver<J>,
) -> bool {
    match worker.handle() {
        Some(h) => spawn.ensures((worker.index(), receiver), h),
        None => false,
    }
}

/// Every worker was started by `spawn` on the same receiving end.
pub open spec fn all_started<J, H, F: Fn(usize, SharedReceiver<J>) -> H>(
    workers: Seq<Worker<H>>,
    spawn: F,
    receiver: SharedReceiver<J>,
) -> bool {
    forall|i: int| 0 <= i < workers.len() ==> started(#[trigger] workers[i], spawn, receiver)
}

/// The first `upto` workers of `after` have given up their handles, and
/// `join` waited with success for each handle that `before` still held.
pub open spec fn retired<H, F: Fn(H) -> bool>(
    before: Seq<Worker<H>>,
    after: Seq<Worker<H>>,
    join: F,
    upto: int,
) -> bool {
    forall|i: int|
        0 <= i < upto ==> (#[trigger] after[i]).handle().is_none() && (before[i].handle() matches Some(
            h,
        ) ==> join.ensures((h,), true))
}

/// From `from` on, the workers of `after` are those of `before`.
pub open spec fn untouched<H>(before: Seq<Worker<H>>, after: Seq<Worker<H>>, from: int) -> bool {
    forall|i: int| from <= i < before.len() ==> #[trigger] after[i] == before[i]
}

impl<J, H> ThreadPool<J, H> {
    /// The workers, in the order of their indices.
    pub closed spec fn workers(&self) -> Seq<Worker<H>> {
        self.workers@
    }

    /// The number of workers.
    pub open spec fn len(&self) -> nat {
        self.workers().len()
    }

    /// A pool has at least one worker, and worker `i` stands at place `i`.
    pub open spec fn wf(&self) -> bool {
        &&& self.len() > 0
        &&& forall|i: int| 0 <= i < self.len() ==> (#[trigger] self.workers()[i]).index() == i
    }

    /// Builds a pool of `size` workers on a new queue. `spawn` is called
    /// once per worker, in the order of the indices, with the worker's index
    /// and its handle to the shared receiving end, and returns the handle of
    /// the thread it started.
    pub fn new<F>(size: usize, spawn: F) -> (pool: Self) where F: Fn(usize, SharedReceiver<J>) -> H
        requires
            size > 0,
            forall|id: usize, receiver: SharedReceiver<J>|
                id < size ==> spawn.requires((id, receiver)),
        ensures
            pool.wf(),
            pool.len() == size,
            exists|receiver: SharedReceiver<J>| all_started(pool.workers(), spawn, receiver),
    {
        let (sender, receiver) = crate::queue::open();
        let receiver = SharedReceiver::new(receiver);
        let mut workers: Vec<Worker<H>> = Vec::with_capacity(size);
        let mut id: usize = 0;
        while id < size
            invariant
                id <= size,
                workers.len() == id,
                forall|id: usize, receiver: SharedReceiver<J>|
                    id < size ==> spawn.requires((id, receiver)),
                forall|i: int| 0 <= i < id ==> (#[trigger] workers[i]).index() == i,
                all_started(workers@, spawn, receiver),
            decreases size - id,
        {
            let worker = Worker::new(id, receiver.share(), &spawn);
            workers.push(worker);
            id += 1;
        }
        ThreadPool { workers, sender }
    }

    /// The number of workers.
    pub fn size(&self) -> (n: usize)
        ensures
            n == self.len(),
    {
        self.workers.len()
    }

    /// Hands a job to the pool: it is put on the queue as `NewJob`, behind
    /// everything sent before. The call does not wait for the job to run,
    /// and nothing tells the caller when it has. The job comes back only if
    /// the queue's receiving end is gone.
    pub fn execute(&self, job: J) -> (refused: Result<(), J>)
        ensures
            refused matches Err(back) ==> back == job,
    {
        refusal(crate::queue::send(&self.sender, Message::job(job)))
    }

    /// Stops the pool. For each worker, in the order of the indices: one
    /// stop order is put on the queue, then the worker's handle is taken and
    /// `join` waits for its thread. The first failure ends the shutdown and
    /// is returned; the workers behind it are left as they were.
    ///
    /// A stop order goes to whichever worker receives next, not to the one
    /// that is joined next. What this order of steps guarantees all the
    /// same, and when the wait cannot end, is proved in `protocol`.
    pub fn shutdown<F>(&mut self, join: F) -> (done: Result<(), ShutdownError>) where
        F: Fn(H) -> bool,

        requires
            old(self).wf(),
            forall|h: H| join.requires((h,)),
        ensures
            final(self).wf(),
            final(self).len() == old(self).len(),
            match done {
                Ok(()) => retired(
                    old(self).workers(),
                    final(self).workers(),
                    join,
                    old(self).len() as int,
                ),
                Err(ShutdownError::QueueClosed(k)) => {
                    &&& k < old(self).len()
                    &&& retired(old(self).workers(), final(self).workers(), join, k as int)
                    &&& untouched(old(self).workers(), final(self).workers(), k as int)
                },
                Err(ShutdownError::JoinFailed(k)) => {
                    &&& k < old(self).len()
                    &&& retired(old(self).workers(), final(self).workers(), join, k as int)
                    &&& final(self).workers()[k as int].handle().is_none()
                    &&& old(self).workers()[k as int].handle() matches Some(h) && join.ensures(
                        (h,),
                        false,
                    )
                    &&& untouched(old(self).workers(), final(self).workers(), k + 1)
                },
            },
    {
        let n: usize = self.workers.len();
        let mut i: usize = 0;
        while i < n
            invariant
                i <= n,
                n == self.workers.len(),
                self.wf(),
                self.len() == old(self).len(),
                forall|h: H| join.requires((h,)),
                retired(old(self).workers(), self.workers(), join, i as int),
                untouched(old(self).workers(), self.workers(), i as int),
            decreases n - i,
        {
            let signalled = crate::queue::send(&self.sender, Message::Terminate).is_ok();
            let ghost before = self.workers();
            let done = self.workers[i].retire(signalled, &join);
            proof {
                assert(before[i as int] == old(self).workers()[i as int]);
                assert(forall|k: int| 0 <= k < n && k != i ==> self.workers()[k] == before[k]);
            }
            match done {
                Ok(()) => {},
                Err(e) => {
                    return Err(e);
                },
            }
            i += 1;
        }
        Ok(())
    }
}

/// What `execute` tells its caller for each outcome of putting a job on the
/// queue: the queue took it, or the job comes back. `sent` is the outcome; a
/// message that comes back is the job that was sent, never a stop order.
pub fn refusal<J>(sent: Result<(), Message<J>>) -> (refused: Result<(), J>)
    requires
        sent matches Err(back) ==> back is NewJob,
    ensures
        match sent {
            Ok(()) => refused == Ok::<(), J>(()),
            Err(back) => refused == Err::<(), J>(back->NewJob_0),
        },
{
    match sent {
        Ok(()) => Ok(()),
        Err(back) => match back {
            Message::NewJob(job) => Err(job),
            Message::Terminate => vstd::pervasive::unreached(),
        },
    }
}

} // verus!
