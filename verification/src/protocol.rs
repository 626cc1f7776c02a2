//! The pool and its workers as a transition system, and what shutdown
//! guarantees of every interleaving.
//!
//! The threads of a running pool are out of any one function's sight, so the
//! guarantees that matter most (no job is lost, none runs twice, shutdown
//! waits for all of them) cannot be the postcondition of a single call. They
//! are stated here of a model in which each step is one thing that one
//! thread does: the owner submits a job or takes a step of shutdown, a
//! worker receives a message or finishes its job. The model takes from the
//! rest of the crate what the code decides: a worker reacts to a message as
//! [`react`] says, and shutdown sends one stop order and then joins one
//! worker, in the order of the indices. From the queue it assumes what
//! `std::sync::mpsc` provides: messages leave in the order in which they
//! arrived, each to one receiver.
//!
//! Jobs in the model return. A job that panics takes its worker with it, and
//! nothing here speaks of a pool in which that has happened.
//!
//! The model itself is defined here. [`always`] proves what is true of
//! every state that the model can reach, [`guarantees`] what follows for
//! jobs and workers, and [`progress`] when shutdown comes to an end and when
//! it cannot.

pub mod always;
pub mod guarantees;
pub mod progress;

use vstd::prelude::*;
use crate::message::Message;
use crate::worker::react;
use crate::worker::Action;

verus! {

/// What a worker is doing.
pub enum Phase {
    /// Blocked on the queue, or about to be.
    Waiting,
    /// Running a job; `job` is the job's place in the order of submission.
    Running { job: nat },
    /// Out of its loop: the thread has ended.
    Stopped,
}

/// The state of a pool, its queue and its workers.
#[verifier::ext_equal]
pub struct System<J> {
    /// One phase per worker, by index.
    pub workers: Seq<Phase>,
    /// The messages on the queue, oldest first.
    pub queue: Seq<Message<J>>,
    /// Every job that was submitted, in the order of submission.
    pub submitted: Seq<J>,
    /// Every job that a worker has received, in the order of receipt.
    pub started: Seq<J>,
    /// The jobs that have returned, each by its place in the order of
    /// submission, in the order in which they returned.
    pub finished: Seq<nat>,
    /// The number of stop orders that shutdown has sent.
    pub signals: nat,
    /// The number of workers that shutdown has joined.
    pub joined: nat,
}

/// One step of one thread.
pub enum Event<J> {
    /// The owner submits a job.
    Execute { job: J },
    /// A waiting worker takes the oldest message from the queue.
    Receive { worker: nat },
    /// A worker's job returns.
    Complete { worker: nat },
    /// Shutdown puts a stop order on the queue.
    Signal,
    /// Shutdown's wait for the next worker's thread ends.
    Join,
}

/// A new pool of `size` workers: all waiting, nothing on the queue.
pub open spec fn init<J>(size: nat) -> System<J> {
    System {
        workers: Seq::new(size, |w: int| Phase::Waiting),
        queue: Seq::empty(),
        submitted: Seq::empty(),
        started: Seq::empty(),
        finished: Seq::empty(),
        signals: 0,
        joined: 0,
    }
}

/// Whether `event` can happen in `s`.
///
/// Jobs are submitted only while shutdown has not begun. Shutdown sends the
/// stop order for a worker when it has joined all workers before it, and its
/// wait for that worker ends only when the worker's thread has ended.
pub open spec fn enabled<J>(s: System<J>, event: Event<J>) -> bool {
    match event {
        Event::Execute { job } => s.signals == 0,
        Event::Receive { worker } => {
            &&& worker < s.workers.len()
            &&& s.workers[worker as int] is Waiting
            &&& s.queue.len() > 0
        },
        Event::Complete { worker } => {
            &&& worker < s.workers.len()
            &&& s.workers[worker as int] is Running
        },
        Event::Signal => s.signals == s.joined && s.joined < s.workers.len(),
        Event::Join => {
            &&& s.signals == s.joined + 1
            &&& s.joined < s.workers.len()
            &&& s.workers[s.joined as int] is Stopped
        },
    }
}

/// The state after `event` has happened in `s`.
pub open spec fn apply<J>(s: System<J>, event: Event<J>) -> System<J> {
    match event {
        Event::Execute { job } => System {
            queue: s.queue.push(Message::NewJob(job)),
            submitted: s.submitted.push(job),
            ..s
        },
        Event::Receive { worker } => match react(s.queue.first()) {
            Action::Run(job) => System {
                workers: s.workers.update(worker as int, Phase::Running { job: s.started.len() }),
                queue: s.queue.drop_first(),
                started: s.started.push(job),
                ..s
            },
            Action::Exit => System {
                workers: s.workers.update(worker as int, Phase::Stopped),
                queue: s.queue.drop_first(),
                ..s
            },
        },
        Event::Complete { worker } => System {
            workers: s.workers.update(worker as int, Phase::Waiting),
            finished: s.finished.push(s.workers[worker as int]->job),
            ..s
        },
        Event::Signal => System {
            queue: s.queue.push(Message::Terminate),
            signals: s.signals + 1,
            ..s
        },
        Event::Join => System { joined: s.joined + 1, ..s },
    }
}

/// The state after `events` have happened, one after the other, in `s`.
pub open spec fn run<J>(s: System<J>, events: Seq<Event<J>>) -> System<J>
    decreases events.len(),
{
    if events.len() == 0 {
        s
    } else {
        apply(run(s, events.drop_last()), events.last())
    }
}

/// Whether `events` can happen, one after the other, in `s`.
pub open spec fn admissible<J>(s: System<J>, events: Seq<Event<J>>) -> bool
    decreases events.len(),
{
    events.len() > 0 ==> admissible(s, events.drop_last()) && enabled(
        run(s, events.drop_last()),
        events.last(),
    )
}

/// The jobs that `events` submit, in order.
pub open spec fn executed<J>(events: Seq<Event<J>>) -> Seq<J>
    decreases events.len(),
{
    if events.len() == 0 {
        Seq::empty()
    } else {
        match events.last() {
            Event::Execute { job } => executed(events.drop_last()).push(job),
            _ => executed(events.drop_last()),
        }
    }
}

/// An event that can happen after `events` extends them.
pub proof fn lemma_extend<J>(s: System<J>, events: Seq<Event<J>>, event: Event<J>)
    requires
        admissible(s, events),
        enabled(run(s, events), event),
    ensures
        admissible(s, events.push(event)),
        run(s, events.push(event)) == apply(run(s, events), event),
        executed(events.push(event)) == match event {
            Event::Execute { job } => executed(events).push(job),
            _ => executed(events),
        },
{
    assert(events.push(event).drop_last() =~= events);
}

/// Whether no event at all can happen in `s`.
pub open spec fn stuck<J>(s: System<J>) -> bool {
    forall|event: Event<J>| !enabled(s, event)
}

} // verus!
