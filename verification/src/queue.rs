//! The shared queue: a `std::sync::mpsc` channel whose receiving end sits
//! behind a `Mutex`, so that the workers take turns at it.
//!
//! Verus sees none of the std types from the inside. Each of the private
//! functions below makes one std call, and its contract is taken on trust:
//! it says what std documents of the call, and nothing about what other
//! threads have put on the queue or taken from it.

use vstd::prelude::*;
use crate::message::Message;
use std::sync::mpsc::Receiver;
use std::sync::mpsc::RecvError;
use std::sync::mpsc::SendError;
use std::sync::mpsc::Sender;
use std::sync::Arc;
use std::sync::Mutex;
use std::sync::MutexGuard;
use std::sync::PoisonError;

verus! {

/// `std::sync::mpsc::Sender`, the sending end of the queue; opaque.
#[verifier::external_type_specification]
#[verifier::external_body]
#[verifier::reject_recursive_types(T)]
pub struct ExSender<T>(Sender<T>);

/// `std::sync::mpsc::Receiver`, the receiving end of the queue; opaque.
#[verifier::external_type_specification]
#[verifier::external_body]
#[verifier::reject_recursive_types(T)]
pub struct ExReceiver<T>(Receiver<T>);

/// `std::sync::mpsc::RecvError`, the error of `Receiver::recv`; opaque.
#[verifier::external_type_specification]
#[verifier::external_body]
pub struct ExRecvError(RecvError);

/// `std::sync::Mutex`; opaque.
#[verifier::external_type_specification]
#[verifier::external_body]
#[verifier::reject_recursive_types(T)]
pub struct ExMutex<T: ?Sized>(Mutex<T>);

/// `std::sync::MutexGuard`, a turn at what a `Mutex` guards; opaque.
#[verifier::external_type_specification]
#[verifier::external_body]
#[verifier::reject_recursive_types(T)]
pub struct ExMutexGuard<'a, T: ?Sized + 'a>(MutexGuard<'a, T>);

/// `std::sync::PoisonError`, the error of `Mutex::lock`; opaque.
#[verifier::external_type_specification]
#[verifier::external_body]
#[verifier::reject_recursive_types(T)]
pub struct ExPoisonError<T>(PoisonError<T>);

/// `std::sync::mpsc::channel`: a new unbounded queue, as its two ends.
/// Nothing is claimed of them.
#[verifier::external_body]
pub(crate) fn open<J>() -> (ends: (Sender<Message<J>>, Receiver<Message<J>>)) {
    std::sync::mpsc::channel()
}

/// `Mutex::new` around the receiving end. Nothing is claimed of the result.
#[verifier::external_body]
fn guard<J>(receiver: Receiver<Message<J>>) -> (guarded: Mutex<Receiver<Message<J>>>) {
    Mutex::new(receiver)
}

/// `Arc::clone`: a second handle to the same shared value. To Verus an `Arc`
/// is the value it points to, so the two handles are equal.
#[verifier::external_body]
fn share<J>(receiver: &Arc<Mutex<Receiver<Message<J>>>>) -> (other: Arc<
    Mutex<Receiver<Message<J>>>,
>)
    ensures
        other == *receiver,
{
    Arc::clone(receiver)
}

/// `Sender::send`. The call does not wait. std hands the message back inside
/// the error when the receiving end is gone; the contract says that the
/// message in the error is the one that was given, and nothing about when
/// the send succeeds.
#[verifier::external_body]
pub(crate) fn send<J>(sender: &Sender<Message<J>>, msg: Message<J>) -> (sent: Result<
    (),
    Message<J>,
>)
    ensures
        sent matches Err(back) ==> back == msg,
{
    match sender.send(msg) {
        Ok(()) => Ok(()),
        Err(SendError(back)) => Err(back),
    }
}

/// `Mutex::lock`: waits for the turn at the receiving end. The error is
/// std's word that an earlier holder panicked. Nothing is claimed of either
/// outcome. std leaves open what happens when the calling thread holds the
/// lock already; `SharedReceiver::receive` is the only caller, and its turn
/// has ended when it returns.
#[verifier::external_body]
fn lock<'a, J>(receiver: &'a Mutex<Receiver<Message<J>>>) -> (turn: Result<
    MutexGuard<'a, Receiver<Message<J>>>,
    PoisonError<MutexGuard<'a, Receiver<Message<J>>>>,
>) {
    receiver.lock()
}

/// `Receiver::recv`: waits for the oldest message on the queue. The error is
/// std's word that every sender is gone and the queue is empty. Which
/// message arrives, and when, depends on the other threads, so nothing is
/// claimed of it.
#[verifier::external_body]
fn recv<'a, J>(turn: &MutexGuard<'a, Receiver<Message<J>>>) -> (got: Result<
    Message<J>,
    RecvError,
>) {
    turn.recv()
}

/// Why a worker could not take a message from the queue.
#[derive(Clone, Copy, Debug, PartialEq, Eq)]
pub enum ReceiveError {
    /// An earlier holder of the receiving end panicked during its turn.
    Poisoned,
    /// The pool's sending end is gone and the queue is empty.
    Disconnected,
}

/// The receiving end as the workers hold it: one receiver, shared by all of
/// them, entered by one at a time. The only way in is [`receive`], so no
/// thread holds a turn for longer than it takes to remove one message.
///
/// [`receive`]: SharedReceiver::receive
#[verifier::reject_recursive_types(J)]
pub struct SharedReceiver<J> {
    inner: Arc<Mutex<Receiver<Message<J>>>>,
}

impl<J> SharedReceiver<J> {
    /// Puts the receiving end of a queue where workers can share it.
    pub(crate) fn new(receiver: Receiver<Message<J>>) -> (shared: Self) {
        SharedReceiver { inner: Arc::new(guard(receiver)) }
    }

    /// Another handle to the same receiving end.
    pub(crate) fn share(&self) -> (other: Self)
        ensures
            other == *self,
    {
        SharedReceiver { inner: share(&self.inner) }
    }

    /// Waits for a turn at the receiving end, and then for the oldest
    /// message on the queue, and takes it. Waiting and taking are one turn:
    /// no message goes to two workers. The turn has ended when this function
    /// returns, so that the others can receive while the caller runs its
    /// job.
    pub fn receive(&self) -> (got: Result<Message<J>, ReceiveError>) {
        match granted(lock(&self.inner)) {
            Ok(turn) => delivered(recv(&turn)),
            Err(e) => Err(e),
        }
    }
}

/// What a worker is told when it asks for its turn at the receiving end:
/// the turn, or that the lock is poisoned. `turn` is what `Mutex::lock`
/// returned.
pub fn granted<'a, T>(turn: Result<MutexGuard<'a, T>, PoisonError<MutexGuard<'a, T>>>) -> (told:
    Result<MutexGuard<'a, T>, ReceiveError>)
    ensures
        match turn {
            Ok(held) => told == Ok::<MutexGuard<'a, T>, ReceiveError>(held),
            Err(_) => told == Err::<MutexGuard<'a, T>, ReceiveError>(ReceiveError::Poisoned),
        },
{
    match turn {
        Ok(held) => Ok(held),
        Err(_) => Err(ReceiveError::Poisoned),
    }
}

/// What a worker is told at the end of its wait for a message: the message,
/// or that the queue is disconnected. `got` is what `Receiver::recv`
/// returned.
pub fn delivered<J>(got: Result<Message<J>, RecvError>) -> (told: Result<Message<J>, ReceiveError>)
    ensures
        match got {
            Ok(msg) => told == Ok::<Message<J>, ReceiveError>(msg),
            Err(_) => told == Err::<Message<J>, ReceiveError>(ReceiveError::Disconnected),
        },
{
    match got {
        Ok(msg) => Ok(msg),
        Err(_) => Err(ReceiveError::Disconnected),
    }
}

} // verus!
