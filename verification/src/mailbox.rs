//! The bounded channel that serves as an actor's mailbox.

use vstd::prelude::*;
use tokio::sync::mpsc::error::{SendError, TrySendError};
use tokio::sync::mpsc::{Receiver, Sender};
use crate::message::Message;

verus! {

/// `tokio::sync::mpsc::Sender`: the sending half of a bounded channel. Its
/// inside is hidden; what is known of one is said through [`sender_bound`].
#[verifier::external_type_specification]
#[verifier::external_body]
#[verifier::reject_recursive_types(T)]
pub struct ExSender<T>(Sender<T>);

/// `tokio::sync::mpsc::Receiver`: the receiving half of a bounded channel.
/// Its inside is hidden; what is known of one is said through
/// [`receiver_bound`] and [`receiver_closed`].
#[verifier::external_type_specification]
#[verifier::external_body]
#[verifier::reject_recursive_types(T)]
pub struct ExReceiver<T>(Receiver<T>);

/// What `tokio::sync::mpsc::Sender::max_capacity` reports: the number of
/// messages that the mailbox behind the sender can buffer. It is the bound
/// the mailbox was created with and never changes.
pub uninterp spec fn sender_bound(tx: Sender<Message>) -> usize;

/// What `tokio::sync::mpsc::Receiver::max_capacity` reports: the number of
/// messages that the mailbox behind the receiver can buffer. It is the bound
/// the mailbox was created with and never changes.
pub uninterp spec fn receiver_bound(rx: Receiver<Message>) -> usize;

/// The largest bound a mailbox can be created with: the platform's largest
/// `usize` shifted right by three bits, which is the most permits that
/// tokio's semaphore takes.
pub open spec fn max_mailbox_capacity() -> int {
    (usize::MAX as int) / 8
}

/// `tokio::sync::mpsc::error::SendError`: the answer of a mailbox that
/// refused a message because its receiving half is closed or gone.
#[verifier::external_type_specification]
#[verifier::external_body]
#[verifier::reject_recursive_types(T)]
pub struct ExSendError<T>(SendError<T>);

/// Whether the receiving half has been closed by a call of
/// `tokio::sync::mpsc::Receiver::close`. A mailbox is created open, and once
/// closed it stays closed.
pub uninterp spec fn receiver_closed(rx: Receiver<Message>) -> bool;

/// `tokio::sync::mpsc::channel`: creates a bounded channel. The call panics
/// on a bound of zero or above the semaphore's permit limit, which the
/// precondition leaves out. Both halves report the bound they were made with,
/// and the receiving half starts open.
#[verifier::external_body]
pub(crate) fn bounded_channel(capacity: usize) -> (r: (Sender<Message>, Receiver<Message>))
    requires
        0 < capacity <= max_mailbox_capacity(),
    ensures
        sender_bound(r.0) == capacity,
        receiver_bound(r.1) == capacity,
        !receiver_closed(r.1),
{
    tokio::sync::mpsc::channel(capacity)
}

/// What a mailbox answers to a message that is offered to it without
/// waiting.
#[derive(Debug, PartialEq, Eq, Structural)]
pub enum Offer {
    /// The message is in the mailbox.
    Accepted,
    /// The mailbox is full: here is the message again.
    Full(Message),
    /// The mailbox is closed: here is the message again.
    Closed(Message),
}

/// `tokio::sync::mpsc::Sender::try_send`: puts the message into the mailbox
/// if there is room, and never waits. Which answer comes depends on what the
/// mailbox holds at that moment; a message that is refused comes back as it
/// was offered.
#[verifier::external_body]
pub(crate) fn offer(tx: &Sender<Message>, msg: Message) -> (r: Offer)
    ensures
        r matches Offer::Full(m) ==> m == msg,
        r matches Offer::Closed(m) ==> m == msg,
{
    match tx.try_send(msg) {
        Ok(()) => Offer::Accepted,
        Err(TrySendError::Full(m)) => Offer::Full(m),
        Err(TrySendError::Closed(m)) => Offer::Closed(m),
    }
}

/// `tokio::sync::mpsc::Receiver::close`: stops the mailbox from accepting
/// further messages, so that later sends fail. Messages already buffered stay
/// receivable, and the bound is untouched.
#[verifier::external_body]
pub(crate) fn close_receiver(rx: &mut Receiver<Message>)
    ensures
        receiver_closed(*final(rx)),
        receiver_bound(*final(rx)) == receiver_bound(*old(rx)),
{
    rx.close();
}

} // verus!
