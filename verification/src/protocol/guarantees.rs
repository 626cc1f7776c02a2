//! What the invariant means for jobs and workers.

use vstd::prelude::*;
use crate::message::Message;
use crate::protocol::Event;
use crate::protocol::Phase;
use crate::protocol::System;
use crate::protocol::admissible;
use crate::protocol::always::lemma_run_inv;
use crate::protocol::always::lemma_stopped_bounds;
use crate::protocol::always::pending;
use crate::protocol::always::running_apart;
use crate::protocol::always::stopped;
use crate::protocol::apply;
use crate::protocol::executed;
use crate::protocol::init;
use crate::protocol::lemma_extend;
use crate::protocol::run;

verus! {

/// The natural numbers below `bound`.
pub open spec fn below(bound: nat) -> Set<nat> {
    Set::new(|k: nat| k < bound)
}

/// There are `bound` natural numbers below `bound`.
proof fn lemma_below_len(bound: nat)
    ensures
        below(bound).finite(),
        below(bound).len() == bound,
    decreases bound,
{
    if bound == 0 {
        assert(below(bound) =~= Set::empty());
    } else {
        let lower = (bound - 1) as nat;
        lemma_below_len(lower);
        assert(below(lower).insert(lower) =~= below(bound));
    }
}

/// When shutdown has joined every worker, every job that was submitted has
/// been received by a worker, in the order of submission, and has returned,
/// once: the record of returns lists each job's place exactly once. Nothing
/// is left on the queue.
pub proof fn lemma_shutdown_runs_every_job_once<J>(size: nat, events: Seq<Event<J>>)
    requires
        size >= 1,
        admissible(init::<J>(size), events),
        run(init::<J>(size), events).joined == size,
    ensures
        run(init::<J>(size), events).started == executed(events),
        run(init::<J>(size), events).finished.len() == executed(events).len(),
        run(init::<J>(size), events).finished.no_duplicates(),
        forall|k: nat|
            k < executed(events).len() ==> #[trigger] run(
                init::<J>(size),
                events,
            ).finished.contains(k),
        run(init::<J>(size), events).queue.len() == 0,
{
    let s = run(init::<J>(size), events);
    lemma_run_inv(size, events);
    lemma_stopped_bounds(s.workers);
    assert(stopped(s.workers) == size);
    assert(s.started =~= s.submitted);
    assert forall|k: nat| k < s.submitted.len() implies #[trigger] s.finished.contains(k) by {
        if s.workers.contains(Phase::Running { job: k }) {
            let w = choose|w: int| 0 <= w < s.workers.len() && s.workers[w] == Phase::Running {
                job: k,
            };
            assert(s.workers[w] is Stopped);
        }
    }
    assert(s.finished.to_set() =~= below(s.submitted.len())) by {
        assert forall|k: nat| s.finished.to_set().contains(k) implies below(
            s.submitted.len(),
        ).contains(k) by {
            let i = choose|i: int| 0 <= i < s.finished.len() && s.finished[i] == k;
            assert(s.finished[i] < s.started.len());
        }
    }
    s.finished.unique_seq_to_set();
    lemma_below_len(s.submitted.len());
}

/// Every worker that shutdown has joined has left its loop. When shutdown
/// has joined them all, no worker of the pool is left running.
pub proof fn lemma_joined_workers_have_stopped<J>(size: nat, events: Seq<Event<J>>, worker: nat)
    requires
        admissible(init::<J>(size), events),
        worker < run(init::<J>(size), events).joined,
    ensures
        worker < size,
        run(init::<J>(size), events).workers[worker as int] is Stopped,
{
    lemma_run_inv(size, events);
}

/// Shutdown does not cut a job short: while a worker runs a job, shutdown
/// has not got past that worker, and so has not returned.
pub proof fn lemma_shutdown_waits_for_running_job<J>(
    size: nat,
    events: Seq<Event<J>>,
    worker: nat,
)
    requires
        admissible(init::<J>(size), events),
        worker < size,
        run(init::<J>(size), events).workers[worker as int] is Running,
    ensures
        run(init::<J>(size), events).joined <= worker,
        run(init::<J>(size), events).joined < size,
{
    lemma_run_inv(size, events);
}

/// The queue drops and reorders nothing. At every moment the jobs that
/// workers have received are the first of the submitted jobs, in the order
/// of submission, and the queue holds the rest, in that order, before any
/// stop order.
pub proof fn lemma_jobs_start_in_submission_order<J>(size: nat, events: Seq<Event<J>>)
    requires
        admissible(init::<J>(size), events),
    ensures
        run(init::<J>(size), events).submitted == executed(events),
        run(init::<J>(size), events).started.len() <= executed(events).len(),
        run(init::<J>(size), events).started == executed(events).take(
            run(init::<J>(size), events).started.len() as int,
        ),
        run(init::<J>(size), events).queue == pending(run(init::<J>(size), events)),
{
    lemma_run_inv(size, events);
}

/// No job runs twice, whether or not shutdown has begun: the record of
/// returns never lists a job's place a second time, and a job that is still
/// running is not on it.
pub proof fn lemma_no_job_runs_twice<J>(size: nat, events: Seq<Event<J>>)
    requires
        admissible(init::<J>(size), events),
    ensures
        run(init::<J>(size), events).finished.no_duplicates(),
        running_apart(run(init::<J>(size), events).workers),
        forall|w: int|
            0 <= w < size && #[trigger] run(init::<J>(size), events).workers[w] is Running ==> !run(
                init::<J>(size),
                events,
            ).finished.contains(run(init::<J>(size), events).workers[w]->job),
{
    lemma_run_inv(size, events);
}

/// Shutdown sends exactly one stop order per worker that it joins, and never
/// more than there are workers.
pub proof fn lemma_one_stop_order_per_worker<J>(size: nat, events: Seq<Event<J>>)
    requires
        admissible(init::<J>(size), events),
    ensures
        run(init::<J>(size), events).joined <= run(init::<J>(size), events).signals <= size,
        run(init::<J>(size), events).signals <= run(init::<J>(size), events).joined + 1,
        stopped(run(init::<J>(size), events).workers) <= run(init::<J>(size), events).signals,
        run(init::<J>(size), events).joined == size ==> run(init::<J>(size), events).signals
            == size && stopped(run(init::<J>(size), events).workers) == size,
{
    let s = run(init::<J>(size), events);
    lemma_run_inv(size, events);
    lemma_stopped_bounds(s.workers);
}

/// In a pool of one worker the jobs return in the order of submission, and
/// the job that runs, if any, is the one behind the last that returned.
pub open spec fn in_turn<J>(s: System<J>) -> bool {
    &&& s.workers.len() == 1
    &&& forall|i: int| 0 <= i < s.finished.len() ==> #[trigger] s.finished[i] == i
    &&& match s.workers[0] {
        Phase::Running { job } => job == s.finished.len() && s.started.len() == job + 1,
        _ => s.started.len() == s.finished.len(),
    }
}

/// With one worker, jobs return in the order in which they were submitted:
/// the job that returns in place `i` is the job that was submitted in place
/// `i`.
pub proof fn lemma_single_worker_runs_jobs_in_order<J>(events: Seq<Event<J>>)
    requires
        admissible(init::<J>(1), events),
    ensures
        in_turn(run(init::<J>(1), events)),
    decreases events.len(),
{
    if events.len() > 0 {
        lemma_single_worker_runs_jobs_in_order(events.drop_last());
        let s = run(init::<J>(1), events.drop_last());
        let t = run(init::<J>(1), events);
        assert(t == apply(s, events.last()));
        match events.last() {
            Event::Execute { job } => {},
            Event::Receive { worker } => {},
            Event::Complete { worker } => {
                assert forall|i: int| 0 <= i < t.finished.len() implies #[trigger] t.finished[i]
                    == i by {
                    if i < s.finished.len() {
                        assert(s.finished[i] == i);
                    }
                }
            },
            Event::Signal => {},
            Event::Join => {},
        }
    }
}

/// With two workers, jobs need not return in the order in which they were
/// submitted: each worker takes one of two jobs, and the second job returns
/// first.
pub proof fn lemma_two_workers_can_finish_out_of_order<J>(first: J, second: J) -> (events: Seq<
    Event<J>,
>)
    ensures
        admissible(init::<J>(2), events),
        executed(events) == seq![first, second],
        run(init::<J>(2), events).finished == seq![1nat, 0nat],
{
    let s0 = init::<J>(2);
    let e0 = Seq::<Event<J>>::empty();
    lemma_extend(s0, e0, Event::Execute { job: first });
    let e1 = e0.push(Event::Execute { job: first });
    let s1 = apply(s0, Event::Execute { job: first });
    lemma_extend(s0, e1, Event::Execute { job: second });
    let e2 = e1.push(Event::Execute { job: second });
    let s2 = apply(s1, Event::Execute { job: second });
    assert(s2.queue.first() == Message::NewJob(first));
    lemma_extend(s0, e2, Event::Receive { worker: 0 });
    let e3 = e2.push(Event::Receive { worker: 0 });
    let s3 = apply(s2, Event::<J>::Receive { worker: 0 });
    assert(s3.queue.first() == Message::NewJob(second));
    lemma_extend(s0, e3, Event::Receive { worker: 1 });
    let e4 = e3.push(Event::Receive { worker: 1 });
    let s4 = apply(s3, Event::<J>::Receive { worker: 1 });
    lemma_extend(s0, e4, Event::Complete { worker: 1 });
    let e5 = e4.push(Event::Complete { worker: 1 });
    let s5 = apply(s4, Event::<J>::Complete { worker: 1 });
    lemma_extend(s0, e5, Event::Complete { worker: 0 });
    let s6 = apply(s5, Event::<J>::Complete { worker: 0 });
    assert(s6.finished =~= seq![1nat, 0nat]);
    assert(executed(e0) =~= Seq::<J>::empty());
    e5.push(Event::Complete { worker: 0 })
}

} // verus!
