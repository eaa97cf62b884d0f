//! The channel between the decode workers and the drawing loop.

use vstd::prelude::*;
use crossbeam_channel::{Receiver, SendError, Sender, TryRecvError};
use crate::thumbnail::{PendingResult, PendingView};

verus! {

/// `crossbeam_channel::Sender`, the sending end of a channel: opaque.
#[verifier::external_type_specification]
#[verifier::external_body]
#[verifier::reject_recursive_types(T)]
pub struct ExSender<T>(Sender<T>);

/// `crossbeam_channel::Receiver`, the receiving end of a channel: opaque.
#[verifier::external_type_specification]
#[verifier::external_body]
#[verifier::reject_recursive_types(T)]
pub struct ExReceiver<T>(Receiver<T>);

/// `crossbeam_channel::TryRecvError`, with its two variants `Empty` and
/// `Disconnected`.
#[verifier::external_type_specification]
pub struct ExTryRecvError(TryRecvError);

/// `crossbeam_channel::SendError`, which hands an unsent message back: opaque.
#[verifier::external_type_specification]
#[verifier::external_body]
#[verifier::reject_recursive_types(T)]
pub struct ExSendError<T>(SendError<T>);

/// `crossbeam_channel::unbounded` makes a channel of unlimited capacity and
/// returns its two ends. Nothing is claimed of them.
pub assume_specification<T>[ crossbeam_channel::unbounded::<T> ]() -> (ends: (
    Sender<T>,
    Receiver<T>,
));

/// `Receiver::try_recv` returns at once: a message, or the reason why none
/// was to be had. Which of them depends on the other threads, so nothing is
/// claimed of the result.
pub assume_specification<T>[ Receiver::<T>::try_recv ](receiver: &Receiver<T>) -> (polled: Result<
    T,
    TryRecvError,
>);

/// `Sender::send` puts a message into the channel, or fails when the
/// receiving end is gone. Which of them depends on the other threads, so
/// nothing is claimed of the result.
pub assume_specification<T>[ Sender::<T>::send ](sender: &Sender<T>, msg: T) -> (sent: Result<
    (),
    SendError<T>,
>);

/// What one look into the channel gave.
#[derive(Debug, PartialEq, Eq)]
pub enum Poll {
    /// A result was waiting.
    Item(PendingResult),
    /// Nothing is waiting, but workers may still send.
    Empty,
    /// Nothing is waiting and no worker is left to send.
    Disconnected,
}

/// What a `Poll` is, as a mathematical value.
pub ghost enum PollView {
    Item(PendingView),
    Empty,
    Disconnected,
}

impl View for Poll {
    type V = PollView;

    open spec fn view(&self) -> PollView {
        match self {
            Poll::Item(item) => PollView::Item(item@),
            Poll::Empty => PollView::Empty,
            Poll::Disconnected => PollView::Disconnected,
        }
    }
}

/// Looks into the channel without waiting. What is found there depends on
/// the workers; `poll_of` says what each answer of the channel becomes.
pub fn poll(receiver: &Receiver<PendingResult>) -> (polled: Poll) {
    poll_of(receiver.try_recv())
}

/// Hands `item` to the drawing loop. `false` means that the loop has gone
/// and the item is lost. Whether the loop is still there depends on the
/// other thread; `was_sent` says what each answer of the channel becomes.
pub fn deliver(sender: &Sender<PendingResult>, item: PendingResult) -> (delivered: bool) {
    was_sent(sender.send(item))
}

/// What an answer of the channel to a poll stands for: the message, or the
/// reason why there was none.
pub open spec fn poll_for(answer: Result<PendingResult, TryRecvError>) -> PollView {
    match answer {
        Ok(item) => PollView::Item(item@),
        Err(TryRecvError::Empty) => PollView::Empty,
        Err(TryRecvError::Disconnected) => PollView::Disconnected,
    }
}

/// Turns the channel's answer to a poll into a `Poll`.
pub fn poll_of(answer: Result<PendingResult, TryRecvError>) -> (polled: Poll)
    ensures
        polled@ == poll_for(answer),
{
    match answer {
        Ok(item) => Poll::Item(item),
        Err(TryRecvError::Empty) => Poll::Empty,
        Err(TryRecvError::Disconnected) => Poll::Disconnected,
    }
}

/// Whether the channel took the message: it did unless it answered with an
/// error, which means that the receiving end is gone.
pub fn was_sent(answer: Result<(), SendError<PendingResult>>) -> (delivered: bool)
    ensures
        delivered == answer is Ok,
{
    match answer {
        Ok(_) => true,
        Err(_) => false,
    }
}

} // verus!
