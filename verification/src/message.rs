use vstd::prelude::*;
use crate::element::Element;
use crate::error::MatrixError;
use crate::vector::{dot_outcome, dot_product, Vector};

verus! {

/// The work for one output cell: a row of the left matrix, a column of the
/// right one, and the offset in the output buffer where the result belongs.
pub struct MsgInput<T> {
    pub idx: usize,
    pub row: Vector<T>,
    pub col: Vector<T>,
}

/// The result for one output cell, with the offset it belongs to.
pub struct MsgOutput<T> {
    pub idx: usize,
    pub value: T,
}

/// What a worker hands back for one work item: the result, or why there is none.
pub type Reply<T> = Result<MsgOutput<T>, MatrixError>;

/// A work item on its way to a worker, with the sending end of the
/// one-message channel on which the worker answers.
#[verifier::reject_recursive_types(T)]
pub struct Msg<T> {
    pub input: MsgInput<T>,
    pub sender: oneshot::Sender<Reply<T>>,
}

/// Where a worker stands between two steps.
#[derive(Debug, Clone, Copy, PartialEq, Eq, Structural)]
pub enum WorkerState {
    /// Ready for the next item on its queue.
    Waiting,
    /// Done for good: its queue is closed.
    Stopped,
}

/// What a worker finds when it looks at its queue.
#[verifier::reject_recursive_types(T)]
pub enum QueueEvent<T> {
    /// The next item.
    Item(Msg<T>),
    /// No item, and none will come: every sender of the queue is gone.
    Closed,
}

impl<T> MsgInput<T> {
    /// Puts the three parts of a work item together.
    pub fn new(idx: usize, row: Vector<T>, col: Vector<T>) -> (input: Self)
        ensures
            input.idx == idx,
            input.row == row,
            input.col == col,
    {
        Self { idx, row, col }
    }
}

impl<T> Msg<T> {
    /// Pairs a work item with the channel for its answer.
    pub fn new(input: MsgInput<T>, sender: oneshot::Sender<Reply<T>>) -> (msg: Self)
        ensures
            msg.input == input,
            msg.sender == sender,
    {
        Self { input, sender }
    }
}

/// Does the work of one item: the dot product of its row and its column,
/// labelled with the item's offset.
///
/// Fails as the dot product does: with `DimensionMismatch` when row and
/// column differ in length, with `Overflow` when `T` cannot hold the sum.
pub fn compute<T: Element>(input: MsgInput<T>) -> (reply: Reply<T>)
    ensures
        match reply {
            Ok(output) => output.idx == input.idx && dot_outcome(input.row@, input.col@) == Ok::<
                int,
                MatrixError,
            >(output.value.value()),
            Err(e) => dot_outcome(input.row@, input.col@) == Err::<int, MatrixError>(e),
        },
{
    let idx: usize = input.idx;
    match dot_product(input.row, input.col) {
        Ok(value) => Ok(MsgOutput { idx, value }),
        Err(e) => Err(e),
    }
}

/// One step of a worker: does the work of the item and sends the reply,
/// a result or a failure, on the item's own channel.
///
/// Returns `SendFailure` when the reply could not be delivered because
/// nobody waits for it any more; whether that happens is up to the other
/// end of the channel.
pub fn serve<T: Element>(msg: Msg<T>) -> (r: Result<(), MatrixError>)
    ensures
        r is Err ==> r == Err::<(), MatrixError>(MatrixError::SendFailure),
{
    let reply: Reply<T> = compute(msg.input);
    delivered(msg.sender.send(reply))
}

/// What a worker reports of an attempt to send its reply.
pub fn delivered<T>(sent: Result<(), oneshot::SendError<Reply<T>>>) -> (r: Result<(), MatrixError>)
    ensures
        sent is Ok ==> r == Ok::<(), MatrixError>(()),
        sent is Err ==> r == Err::<(), MatrixError>(MatrixError::SendFailure),
{
    match sent {
        Ok(()) => Ok(()),
        Err(_) => Err(MatrixError::SendFailure),
    }
}

/// One turn of a worker's loop, from the state it is in and what it found
/// at its queue to the state it goes on in and a report of the turn.
///
/// A waiting worker serves an item and waits again, whatever became of the
/// item: a failed computation is sent as the reply, a reply that could not
/// be delivered is reported as `SendFailure`, and neither stops the worker.
/// A closed queue stops it, and a stopped worker stays stopped and serves
/// nothing.
pub fn worker_step<T: Element>(state: WorkerState, event: QueueEvent<T>) -> (next: (
    WorkerState,
    Result<(), MatrixError>,
))
    ensures
        next.0 == (if state == WorkerState::Waiting && event is Item {
            WorkerState::Waiting
        } else {
            WorkerState::Stopped
        }),
        next.0 == WorkerState::Stopped ==> next.1 is Ok,
        next.1 is Err ==> next.1 == Err::<(), MatrixError>(MatrixError::SendFailure),
{
    match state {
        WorkerState::Waiting => match event {
            QueueEvent::Item(msg) => (WorkerState::Waiting, serve(msg)),
            QueueEvent::Closed => (WorkerState::Stopped, Ok(())),
        },
        WorkerState::Stopped => (WorkerState::Stopped, Ok(())),
    }
}

} // verus!
