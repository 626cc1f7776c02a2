//! One worker: its place in the pool, the handle of its thread, and what it
//! does with each message it receives.

use vstd::prelude::*;
use crate::queue::ReceiveError;
use crate::queue::SharedReceiver;
use crate::message::Message;
use crate::pool::ShutdownError;

verus! {

/// Where a worker stands between two messages.
#[derive(Clone, Copy, Debug, PartialEq, Eq)]
pub enum WorkerState {
    /// In its loop: it will receive again.
    Running,
    /// Out of its loop, for good.
    Terminated,
}

/// What a worker does next.
pub enum Action<J> {
    /// Run this job to completion, then receive again.
    Run(J),
    /// Leave the loop; the thread ends.
    Exit,
}

/// A worker's reaction to a message: a job is run, the stop order ends the
/// loop.
pub open spec fn react<J>(msg: Message<J>) -> Action<J> {
    match msg {
        Message::NewJob(job) => Action::Run(job),
        Message::Terminate => Action::Exit,
    }
}

/// What waiting for worker `id` came to: `joined` is what the wait reported.
pub open spec fn join_outcome(id: usize, joined: bool) -> Result<(), ShutdownError> {
    if joined {
        Ok(())
    } else {
        Err(ShutdownError::JoinFailed(id))
    }
}

/// A member of the pool: its index, and the handle of its thread until
/// shutdown takes it.
pub struct Worker<H> {
    id: usize,
    thread: Option<H>,
}

impl<H> Worker<H> {
    /// The worker's index in the pool.
    pub closed spec fn index(&self) -> usize {
        self.id
    }

    /// The handle of the worker's thread, while it has not been taken.
    pub closed spec fn handle(&self) -> Option<H> {
        self.thread
    }

    /// Starts worker `id` on the shared receiving end. `spawn` starts the
    /// thread and returns its handle; the new worker holds that handle.
    pub fn new<J, F>(id: usize, receiver: SharedReceiver<J>, spawn: &F) -> (worker: Self) where
        F: Fn(usize, SharedReceiver<J>) -> H,

        requires
            spawn.requires((id, receiver)),
        ensures
            worker.index() == id,
            worker.handle() matches Some(h) && spawn.ensures((id, receiver), h),
    {
        let thread = spawn(id, receiver);
        Worker { id, thread: Some(thread) }
    }

    /// The worker's index in the pool.
    pub fn id(&self) -> (id: usize)
        ensures
            id == self.index(),
    {
        self.id
    }

    /// True while the thread's handle has not been taken.
    pub fn is_joinable(&self) -> (b: bool)
        ensures
            b == self.handle().is_some(),
    {
        self.thread.is_some()
    }

    /// Takes the thread's handle out of the worker. It is there to be taken
    /// once: a second call finds nothing.
    pub fn take_thread(&mut self) -> (taken: Option<H>)
        ensures
            taken == old(self).handle(),
            final(self).handle().is_none(),
            final(self).index() == old(self).index(),
    {
        self.thread.take()
    }

    /// The worker's part of shutdown, once the stop order for it has been
    /// put on the queue; `signalled` says whether the queue took the order.
    ///
    /// If it did not, nothing is touched and the queue is reported closed.
    /// Otherwise the handle is taken and `join` waits for the thread; a
    /// worker whose handle is already gone has nothing to wait for.
    pub fn retire<F>(&mut self, signalled: bool, join: &F) -> (done: Result<(), ShutdownError>) where
        F: Fn(H) -> bool,

        requires
            old(self).handle() matches Some(h) ==> join.requires((h,)),
        ensures
            final(self).index() == old(self).index(),
            match (signalled, old(self).handle()) {
                (false, _) => {
                    &&& *final(self) == *old(self)
                    &&& done == Err::<(), ShutdownError>(
                        ShutdownError::QueueClosed(old(self).index()),
                    )
                },
                (true, None) => {
                    &&& *final(self) == *old(self)
                    &&& done == Ok::<(), ShutdownError>(())
                },
                (true, Some(h)) => {
                    &&& final(self).handle().is_none()
                    &&& join.ensures((h,), done.is_ok())
                    &&& done == join_outcome(old(self).index(), done.is_ok())
                },
            },
    {
        if !signalled {
            return Err(ShutdownError::QueueClosed(self.id));
        }
        match self.thread.take() {
            Some(thread) => {
                let joined = join(thread);
                if joined {
                    Ok(())
                } else {
                    Err(ShutdownError::JoinFailed(self.id))
                }
            },
            None => Ok(()),
        }
    }
}

/// The worker's reaction to a message.
pub fn decide<J>(msg: Message<J>) -> (action: Action<J>)
    ensures
        action == react(msg),
{
    match msg {
        Message::NewJob(job) => Action::Run(job),
        Message::Terminate => Action::Exit,
    }
}

/// Acts on a message as a worker does: a job is run to completion, here
/// and now, and the worker goes on; the stop order ends the worker.
pub fn handle<J: FnOnce()>(msg: Message<J>) -> (state: WorkerState)
    requires
        msg matches Message::NewJob(job) ==> job.requires(()),
    ensures
        match msg {
            Message::NewJob(job) => state == WorkerState::Running && job.ensures((), ()),
            Message::Terminate => state == WorkerState::Terminated,
        },
{
    match decide(msg) {
        Action::Run(job) => {
            job();
            WorkerState::Running
        },
        Action::Exit => WorkerState::Terminated,
    }
}

/// One turn of a worker's loop: receive, then answer what arrived as `respond` does, whatever
/// it was. A worker repeats this for as long as the result is `Running`.
pub fn turn<J: FnOnce()>(receiver: &SharedReceiver<J>) -> (next: Result<WorkerState, ReceiveError>)
    requires
        forall|job: J| job.requires(()),
    ensures
        exists|got: Result<Message<J>, ReceiveError>| turn_result(got, next),
{
    let got = receiver.receive();
    let ghost received = got;
    let next = respond(got);
    assert(turn_result(received, next));
    next
}

/// Whether `next` is where a turn of the loop leaves a worker that received
/// `got`: behind a job that has run and returned, out of the loop on the
/// stop order, or with the error that receiving gave.
pub open spec fn turn_result<J: FnOnce()>(
    got: Result<Message<J>, ReceiveError>,
    next: Result<WorkerState, ReceiveError>,
) -> bool {
    match got {
        Ok(Message::NewJob(job)) => next == Ok::<WorkerState, ReceiveError>(WorkerState::Running)
            && job.ensures((), ()),
        Ok(Message::Terminate) => next == Ok::<WorkerState, ReceiveError>(
            WorkerState::Terminated,
        ),
        Err(e) => next == Err::<WorkerState, ReceiveError>(e),
    }
}

/// What a worker does with the outcome of receiving: it acts on a message,
/// and passes an error on.
pub fn respond<J: FnOnce()>(got: Result<Message<J>, ReceiveError>) -> (next: Result<
    WorkerState,
    ReceiveError,
>)
    requires
        got matches Ok(Message::NewJob(job)) ==> job.requires(()),
    ensures
        turn_result(got, next),
{
    match got {
        Ok(msg) => Ok(handle(msg)),
        Err(e) => Err(e),
    }
}

} // verus!
