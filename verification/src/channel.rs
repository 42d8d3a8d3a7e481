use vstd::prelude::*;

verus! {

/// The sending end of a one-message channel.
#[verifier::external_type_specification]
#[verifier::external_body]
#[verifier::reject_recursive_types(T)]
pub struct ExReplySender<T>(oneshot::Sender<T>);

/// The receiving end of a one-message channel.
#[verifier::external_type_specification]
#[verifier::external_body]
#[verifier::reject_recursive_types(T)]
pub struct ExReplyReceiver<T>(oneshot::Receiver<T>);

/// What `oneshot::Sender::send` returns when nobody can receive any more;
/// it holds the message that was not sent.
#[verifier::external_type_specification]
#[verifier::external_body]
#[verifier::reject_recursive_types(T)]
pub struct ExReplySendError<T>(oneshot::SendError<T>);

/// What waiting on a `oneshot::Receiver` returns when the channel closed
/// without a message.
#[verifier::external_type_specification]
#[verifier::external_body]
pub struct ExReplyRecvError(oneshot::RecvError);

/// The sending end of a worker's queue.
#[verifier::external_type_specification]
#[verifier::external_body]
#[verifier::reject_recursive_types(T)]
pub struct ExQueueSender<T>(std::sync::mpsc::Sender<T>);

/// What `std::sync::mpsc::Sender::send` returns when the queue's receiver
/// is gone; it holds the message that was not sent.
#[verifier::external_type_specification]
#[verifier::external_body]
#[verifier::reject_recursive_types(T)]
pub struct ExQueueSendError<T>(std::sync::mpsc::SendError<T>);

/// `oneshot::channel` makes a new channel and returns its two ends.
/// Nothing is claimed of them.
pub assume_specification<T>[ oneshot::channel::<T> ]() -> (oneshot::Sender<T>, oneshot::Receiver<T>);

/// `oneshot::Sender::send` puts the message into the channel without
/// blocking, and fails if the receiver was dropped before. Which of the
/// two happens is not claimed.
pub assume_specification<T>[ oneshot::Sender::<T>::send ](
    sender: oneshot::Sender<T>,
    message: T,
) -> Result<(), oneshot::SendError<T>>;

/// `std::sync::mpsc::Sender::send` appends the message to the queue
/// without blocking, and fails if the queue's receiver is gone. Which of
/// the two happens is not claimed.
pub assume_specification<T>[ std::sync::mpsc::Sender::<T>::send ](
    queue: &std::sync::mpsc::Sender<T>,
    message: T,
) -> Result<(), std::sync::mpsc::SendError<T>>;

} // verus!
