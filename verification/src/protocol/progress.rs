//! Whether shutdown comes to an end.

use vstd::prelude::*;
use crate::message::Message;
use crate::protocol::Event;
use crate::protocol::Phase;
use crate::protocol::System;
use crate::protocol::admissible;
use crate::protocol::always::lemma_run_inv;
use crate::protocol::always::lemma_stopped_bounds;
use crate::protocol::always::pending;
use crate::protocol::always::stopped;
use crate::protocol::apply;
use crate::protocol::enabled;
use crate::protocol::executed;
use crate::protocol::init;
use crate::protocol::lemma_extend;
use crate::protocol::run;
use crate::protocol::stuck;

verus! {

/// Shutdown has a next step for as long as each stop order reaches the
/// worker that shutdown waits for: if no worker behind the one that is to be
/// joined next has stopped, some event can happen. With one worker that is
/// always so.
pub proof fn lemma_shutdown_proceeds_while_later_workers_run<J>(size: nat, events: Seq<Event<J>>)
    requires
        admissible(init::<J>(size), events),
        run(init::<J>(size), events).joined < size,
        forall|w: int|
            run(init::<J>(size), events).joined < w < size ==> !(#[trigger] run(
                init::<J>(size),
                events,
            ).workers[w] is Stopped),
    ensures
        !stuck(run(init::<J>(size), events)),
{
    let s = run(init::<J>(size), events);
    lemma_run_inv(size, events);
    if s.signals == s.joined {
        assert(enabled(s, Event::<J>::Signal));
    } else {
        match s.workers[s.joined as int] {
            Phase::Stopped => {
                assert(enabled(s, Event::<J>::Join));
            },
            Phase::Running { job } => {
                assert(enabled(s, Event::<J>::Complete { worker: s.joined }));
            },
            Phase::Waiting => {
                lemma_stopped_prefix(s.workers, s.joined as int);
                assert(pending(s).len() > 0);
                assert(enabled(s, Event::<J>::Receive { worker: s.joined }));
            },
        }
    }
}

/// If no worker from `from` on has stopped, at most `from` have.
proof fn lemma_stopped_prefix(workers: Seq<Phase>, from: int)
    requires
        0 <= from <= workers.len(),
        forall|w: int| from <= w < workers.len() ==> !(#[trigger] workers[w] is Stopped),
    ensures
        stopped(workers) <= from,
    decreases workers.len(),
{
    if workers.len() > from {
        lemma_stopped_prefix(workers.drop_last(), from);
    } else {
        lemma_stopped_bounds(workers);
    }
}

/// A pool of `size` workers to which `jobs` were submitted, of which the
/// first `done` have run and returned, and whose first `joined` workers have
/// taken a stop order each and have been joined; all other workers wait.
pub open spec fn settled<J>(size: nat, jobs: Seq<J>, done: nat, joined: nat) -> System<J> {
    System {
        workers: Seq::new(
            size,
            |w: int|
                if w < joined {
                    Phase::Stopped
                } else {
                    Phase::Waiting
                },
        ),
        queue: Seq::new((jobs.len() - done) as nat, |i: int| Message::NewJob(jobs[done + i])),
        submitted: jobs,
        started: jobs.take(done as int),
        finished: Seq::new(done, |i: int| i as nat),
        signals: joined,
        joined,
    }
}

/// Events that submit `jobs`, let the first worker run the first `done` of
/// them, and then stop and join the first `joined` workers.
proof fn lemma_reach_settled<J>(size: nat, jobs: Seq<J>, done: nat, joined: nat) -> (events: Seq<
    Event<J>,
>)
    requires
        size >= 1,
        done <= jobs.len(),
        joined <= size,
        joined > 0 ==> done == jobs.len(),
    ensures
        admissible(init::<J>(size), events),
        executed(events) == jobs,
        run(init::<J>(size), events) == settled(size, jobs, done, joined),
    decreases joined, done, jobs.len(),
{
    let s0 = init::<J>(size);
    if joined > 0 {
        let before = lemma_reach_settled(size, jobs, done, (joined - 1) as nat);
        let worker = (joined - 1) as nat;
        let a = settled(size, jobs, done, worker);
        lemma_extend(s0, before, Event::Signal);
        let signalled = before.push(Event::Signal);
        let b = apply(a, Event::<J>::Signal);
        assert(b.queue.first() == Message::<J>::Terminate);
        lemma_extend(s0, signalled, Event::Receive { worker });
        let received = signalled.push(Event::Receive { worker });
        let c = apply(b, Event::<J>::Receive { worker });
        lemma_extend(s0, received, Event::Join);
        let d = apply(c, Event::<J>::Join);
        assert(d =~= settled(size, jobs, done, joined));
        received.push(Event::Join)
    } else if done > 0 {
        let before = lemma_reach_settled(size, jobs, (done - 1) as nat, 0);
        let a = settled(size, jobs, (done - 1) as nat, 0);
        assert(a.queue.first() == Message::NewJob(jobs[done - 1]));
        lemma_extend(s0, before, Event::Receive { worker: 0 });
        let received = before.push(Event::Receive { worker: 0 });
        let b = apply(a, Event::<J>::Receive { worker: 0 });
        lemma_extend(s0, received, Event::Complete { worker: 0 });
        let c = apply(b, Event::<J>::Complete { worker: 0 });
        assert(c =~= settled(size, jobs, done, 0));
        received.push(Event::Complete { worker: 0 })
    } else if jobs.len() > 0 {
        let before = lemma_reach_settled(size, jobs.drop_last(), 0, 0);
        let a = settled(size, jobs.drop_last(), 0, 0);
        lemma_extend(s0, before, Event::Execute { job: jobs.last() });
        let b = apply(a, Event::Execute { job: jobs.last() });
        assert(b =~= settled(size, jobs, 0, 0));
        assert(jobs.drop_last().push(jobs.last()) =~= jobs);
        before.push(Event::Execute { job: jobs.last() })
    } else {
        assert(s0 =~= settled(size, jobs, 0, 0));
        assert(executed(Seq::<Event<J>>::empty()) =~= jobs);
        Seq::empty()
    }
}

/// Shutdown can return, whatever the size of the pool and whatever jobs were
/// submitted: there are events that submit exactly these jobs and end with
/// every worker joined.
pub proof fn lemma_shutdown_can_return<J>(size: nat, jobs: Seq<J>) -> (events: Seq<Event<J>>)
    requires
        size >= 1,
    ensures
        admissible(init::<J>(size), events),
        executed(events) == jobs,
        run(init::<J>(size), events).joined == size,
{
    lemma_reach_settled(size, jobs, jobs.len(), size)
}

/// Shutdown can wait for ever. The stop order that shutdown sends before it
/// waits for a worker goes to whichever worker receives next. In a pool of
/// two, let the second worker take the first stop order: shutdown then waits
/// for the first worker, which waits for a message that nobody will send.
pub proof fn lemma_shutdown_can_wait_for_ever<J>() -> (events: Seq<Event<J>>)
    ensures
        admissible(init::<J>(2), events),
        run(init::<J>(2), events).joined < 2,
        stuck(run(init::<J>(2), events)),
{
    let s0 = init::<J>(2);
    let none = Seq::<Event<J>>::empty();
    lemma_extend(s0, none, Event::Signal);
    let one = none.push(Event::Signal);
    let s1 = apply(s0, Event::<J>::Signal);
    assert(s1.queue.first() == Message::<J>::Terminate);
    lemma_extend(s0, one, Event::Receive { worker: 1 });
    let two = one.push(Event::Receive { worker: 1 });
    let s2 = apply(s1, Event::<J>::Receive { worker: 1 });
    assert(s2.queue.len() == 0);
    assert(s2.workers[0] is Waiting);
    assert(s2.workers[1] is Stopped);
    two
}

} // verus!
