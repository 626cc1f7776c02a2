//! A fixed-size pool of worker threads fed from one shared queue.
//!
//! The crate holds the pool's rules: what a worker does with each message,
//! how the pool is built, how work is handed over and how the pool is torn
//! down. Threads themselves are supplied by the caller, as a function that
//! starts one and a function that waits for one, so that every decision the
//! pool makes is checked by Verus.
//!
//! `protocol` describes the pool and its workers as a transition system and
//! proves what shutdown guarantees of every interleaving.

pub mod message;
pub mod pool;
pub mod protocol;
pub mod queue;
pub mod worker;

pub use message::Message;
pub use pool::ShutdownError;
pub use pool::ThreadPool;
pub use queue::ReceiveError;
pub use queue::SharedReceiver;
pub use worker::Action;
pub use worker::Worker;
pub use worker::WorkerState;
