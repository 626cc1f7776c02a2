//! The unit that travels on the shared queue.

use vstd::prelude::*;

verus! {

/// What a worker finds on the queue: a job to run, or the order to stop.
pub enum Message<J> {
    /// One job, to be run exactly once by the worker that receives it.
    NewJob(J),
    /// Tells the receiving worker to leave its loop.
    Terminate,
}

impl<J> Message<J> {
    /// Wraps a job for the queue.
    pub fn job(job: J) -> (msg: Self)
        ensures
            msg == Message::NewJob(job),
    {
        Message::NewJob(job)
    }
}

} // verus!
