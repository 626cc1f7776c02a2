//! What is true of the pool after any events that can happen.

use vstd::prelude::*;
use crate::message::Message;
use crate::protocol::Event;
use crate::protocol::Phase;
use crate::protocol::System;
use crate::protocol::admissible;
use crate::protocol::apply;
use crate::protocol::enabled;
use crate::protocol::executed;
use crate::protocol::init;
use crate::protocol::run;

verus! {

/// The number of workers that have stopped.
pub open spec fn stopped(workers: Seq<Phase>) -> nat
    decreases workers.len(),
{
    if workers.len() == 0 {
        0
    } else {
        stopped(workers.drop_last()) + if workers.last() is Stopped {
            1nat
        } else {
            0nat
        }
    }
}

/// What the queue holds when it has lost and reordered nothing: the jobs
/// that no worker has received yet, in the order of submission, and behind
/// them the stop orders that no worker has received yet.
pub open spec fn pending<J>(s: System<J>) -> Seq<Message<J>> {
    Seq::new(
        (s.submitted.len() - s.started.len()) as nat,
        |i: int| Message::NewJob(s.submitted[s.started.len() + i]),
    ) + Seq::new((s.signals - stopped(s.workers)) as nat, |i: int| Message::Terminate)
}

/// No two workers run the same job.
pub open spec fn running_apart(workers: Seq<Phase>) -> bool {
    forall|a: int, b: int|
        0 <= a < workers.len() && 0 <= b < workers.len() && a != b && workers[a] is Running
            ==> #[trigger] workers[a] != #[trigger] workers[b]
}

/// What holds of a pool of `size` workers after any events that can happen.
pub open spec fn inv<J>(size: nat, s: System<J>) -> bool {
    &&& s.workers.len() == size
    &&& s.joined <= s.signals <= s.joined + 1
    &&& s.signals <= size
    &&& stopped(s.workers) <= s.signals
    &&& s.started.len() <= s.submitted.len()
    &&& s.started =~= s.submitted.take(s.started.len() as int)
    &&& stopped(s.workers) > 0 ==> s.started.len() == s.submitted.len()
    &&& s.queue =~= pending(s)
    &&& forall|w: int| 0 <= w < s.joined ==> #[trigger] s.workers[w] is Stopped
    &&& forall|w: int|
        0 <= w < size && #[trigger] s.workers[w] is Running ==> s.workers[w]->job < s.started.len()
            && !s.finished.contains(s.workers[w]->job)
    &&& running_apart(s.workers)
    &&& forall|k: nat|
        k < s.started.len() ==> #[trigger] s.finished.contains(k) || s.workers.contains(
            Phase::Running { job: k },
        )
    &&& s.finished.no_duplicates()
    &&& forall|i: int| 0 <= i < s.finished.len() ==> #[trigger] s.finished[i] < s.started.len()
}

/// Changing one worker's phase changes the number of stopped workers by
/// that worker alone.
proof fn lemma_stopped_update(workers: Seq<Phase>, w: int, phase: Phase)
    requires
        0 <= w < workers.len(),
    ensures
        stopped(workers.update(w, phase)) + (if workers[w] is Stopped {
            1nat
        } else {
            0nat
        }) == stopped(workers) + (if phase is Stopped {
            1nat
        } else {
            0nat
        }),
    decreases workers.len(),
{
    let changed = workers.update(w, phase);
    if w == workers.len() - 1 {
        assert(changed.drop_last() =~= workers.drop_last());
    } else {
        assert(changed.drop_last() =~= workers.drop_last().update(w, phase));
        lemma_stopped_update(workers.drop_last(), w, phase);
    }
}

/// The number of stopped workers is at most the number of workers; it is
/// that number when all have stopped, and zero when none has.
pub proof fn lemma_stopped_bounds(workers: Seq<Phase>)
    ensures
        stopped(workers) <= workers.len(),
        (forall|w: int| 0 <= w < workers.len() ==> workers[w] is Stopped) ==> stopped(workers)
            == workers.len(),
        (forall|w: int| 0 <= w < workers.len() ==> !(workers[w] is Stopped)) ==> stopped(workers)
            == 0,
    decreases workers.len(),
{
    if workers.len() > 0 {
        lemma_stopped_bounds(workers.drop_last());
    }
}

/// A new pool satisfies the invariant.
proof fn lemma_init_inv<J>(size: nat)
    ensures
        inv(size, init::<J>(size)),
{
    let s = init::<J>(size);
    lemma_stopped_bounds(s.workers);
}

/// Submitting a job keeps the invariant.
proof fn lemma_execute_inv<J>(size: nat, s: System<J>, job: J)
    requires
        inv(size, s),
        enabled(s, Event::Execute { job }),
    ensures
        inv(size, apply(s, Event::Execute { job })),
{
    let t = apply(s, Event::Execute { job });
    assert(t.queue =~= pending(t));
    assert(t.started =~= t.submitted.take(t.started.len() as int));
}

/// A worker's taking a message keeps the invariant.
proof fn lemma_receive_inv<J>(size: nat, s: System<J>, worker: nat)
    requires
        inv(size, s),
        enabled(s, Event::<J>::Receive { worker }),
    ensures
        inv(size, apply(s, Event::<J>::Receive { worker })),
{
    let t = apply(s, Event::<J>::Receive { worker });
    let w = worker as int;
    let first = s.queue.first();
    assert(first == pending(s)[0]);
    if s.started.len() < s.submitted.len() {
        let k = s.started.len();
        assert(first == Message::NewJob(s.submitted[k as int]));
        lemma_stopped_update(s.workers, w, Phase::Running { job: k });
        assert(t.started =~= t.submitted.take(t.started.len() as int));
        assert(t.queue =~= pending(t));
        assert(t.workers[w] == Phase::Running { job: k });
        assert forall|j: nat| j < t.started.len() implies #[trigger] t.finished.contains(j)
            || t.workers.contains(Phase::Running { job: j }) by {
            if j < k {
                if !s.finished.contains(j) {
                    let v = choose|v: int|
                        0 <= v < s.workers.len() && s.workers[v] == Phase::Running { job: j };
                    assert(t.workers[v] == Phase::Running { job: j });
                }
            }
        }
        assert(inv(size, t));
    } else {
        assert(first == Message::<J>::Terminate);
        lemma_stopped_update(s.workers, w, Phase::Stopped);
        assert(t.queue =~= pending(t));
        assert forall|j: nat| j < t.started.len() implies #[trigger] t.finished.contains(j)
            || t.workers.contains(Phase::Running { job: j }) by {
            if !s.finished.contains(j) {
                let v = choose|v: int|
                    0 <= v < s.workers.len() && s.workers[v] == Phase::Running { job: j };
                assert(t.workers[v] == Phase::Running { job: j });
            }
        }
        assert(inv(size, t));
    }
}

/// A job's return keeps the invariant.
proof fn lemma_complete_inv<J>(size: nat, s: System<J>, worker: nat)
    requires
        inv(size, s),
        enabled(s, Event::<J>::Complete { worker }),
    ensures
        inv(size, apply(s, Event::<J>::Complete { worker })),
{
    let t = apply(s, Event::<J>::Complete { worker });
    let w = worker as int;
    let k = s.workers[w]->job;
    lemma_stopped_update(s.workers, w, Phase::Waiting);
    assert(t.queue =~= pending(t));
    assert(t.finished.last() == k);
    assert forall|j: nat| j < t.started.len() implies #[trigger] t.finished.contains(j)
        || t.workers.contains(Phase::Running { job: j }) by {
        if j == k {
            assert(t.finished[t.finished.len() - 1] == j);
        } else if s.finished.contains(j) {
            let i = choose|i: int| 0 <= i < s.finished.len() && s.finished[i] == j;
            assert(t.finished[i] == j);
        } else {
            let v = choose|v: int|
                0 <= v < s.workers.len() && s.workers[v] == Phase::Running { job: j };
            assert(t.workers[v] == Phase::Running { job: j });
        }
    }
    assert forall|v: int| 0 <= v < size && #[trigger] t.workers[v] is Running implies t.workers[v]->job
        < t.started.len() && !t.finished.contains(t.workers[v]->job) by {
        assert(s.workers[v] == t.workers[v]);
        assert(s.workers[v] != s.workers[w]);
        if t.finished.contains(t.workers[v]->job) {
            let i = choose|i: int| 0 <= i < t.finished.len() && t.finished[i] == t.workers[v]->job;
            if i < s.finished.len() {
                assert(s.finished[i] == t.workers[v]->job);
            }
        }
    }
    assert(t.finished.no_duplicates()) by {
        assert forall|i: int, j: int|
            0 <= i < t.finished.len() && 0 <= j < t.finished.len() && i != j implies t.finished[i]
            != t.finished[j] by {
            if i < s.finished.len() {
                assert(s.finished[i] == t.finished[i]);
            }
            if j < s.finished.len() {
                assert(s.finished[j] == t.finished[j]);
            }
        }
    }
    assert(inv(size, t));
}

/// Sending a stop order keeps the invariant.
proof fn lemma_signal_inv<J>(size: nat, s: System<J>)
    requires
        inv(size, s),
        enabled(s, Event::<J>::Signal),
    ensures
        inv(size, apply(s, Event::<J>::Signal)),
{
    let t = apply(s, Event::<J>::Signal);
    assert(t.queue =~= pending(t));
}

/// The end of a wait keeps the invariant.
proof fn lemma_join_inv<J>(size: nat, s: System<J>)
    requires
        inv(size, s),
        enabled(s, Event::<J>::Join),
    ensures
        inv(size, apply(s, Event::<J>::Join)),
{
    let t = apply(s, Event::<J>::Join);
    assert(t.queue =~= pending(t));
}

/// Every step that can happen keeps the invariant.
pub proof fn lemma_step_inv<J>(size: nat, s: System<J>, event: Event<J>)
    requires
        inv(size, s),
        enabled(s, event),
    ensures
        inv(size, apply(s, event)),
{
    match event {
        Event::Execute { job } => lemma_execute_inv(size, s, job),
        Event::Receive { worker } => lemma_receive_inv(size, s, worker),
        Event::Complete { worker } => lemma_complete_inv(size, s, worker),
        Event::Signal => lemma_signal_inv(size, s),
        Event::Join => lemma_join_inv(size, s),
    }
}

/// The invariant holds after any events that can happen in a new pool, and
/// the jobs on record as submitted are those that the events submit.
pub proof fn lemma_run_inv<J>(size: nat, events: Seq<Event<J>>)
    requires
        admissible(init::<J>(size), events),
    ensures
        inv(size, run(init::<J>(size), events)),
        run(init::<J>(size), events).submitted == executed(events),
    decreases events.len(),
{
    if events.len() == 0 {
        lemma_init_inv::<J>(size);
    } else {
        lemma_run_inv(size, events.drop_last());
        lemma_step_inv(size, run(init::<J>(size), events.drop_last()), events.last());
    }
}

} // verus!
