use vstd::prelude::*;
use crate::error::MatrixError;
use crate::matrix::{work_item, Matrix};
use crate::message::{Msg, MsgInput, Reply};

verus! {

/// The number of workers in a pool unless the caller decides otherwise.
pub const NUM_THREADS: usize = 4;

/// The worker that gets the item with offset `idx` in a pool of `workers`:
/// items go round the pool in turn.
pub fn worker_for(idx: usize, workers: usize) -> (w: usize)
    requires
        workers > 0,
    ensures
        w == idx % workers,
        w < workers,
{
    idx % workers
}

/// Hands out the cells of the product of `a` and `b` to a pool of workers.
///
/// Fails with `DimensionMismatch`, before anything is sent, exactly when
/// `a` has not as many columns as `b` has rows. Otherwise every cell, in
/// row-major order, is made into a work item with a channel of its own for
/// the answer and put on the queue of the worker whose turn it is; the
/// receiving ends come back in the order of the cells. An item whose queue
/// is closed is dropped, which closes its channel: whoever waits on its
/// receiving end learns of it there.
pub fn dispatch<T: Copy>(
    pool: &Vec<std::sync::mpsc::Sender<Msg<T>>>,
    a: &Matrix<T>,
    b: &Matrix<T>,
) -> (r: Result<Vec<oneshot::Receiver<Reply<T>>>, MatrixError>)
    requires
        pool@.len() > 0,
        a.wf(),
        b.wf(),
        a.cols() == b.rows() ==> a.rows() * b.cols() <= usize::MAX,
    ensures
        a.cols() != b.rows() ==> r is Err && r->Err_0 == MatrixError::DimensionMismatch,
        a.cols() == b.rows() ==> r is Ok && r->Ok_0@.len() == a.rows() * b.cols(),
{
    if a.col() != b.row() {
        return Err(MatrixError::DimensionMismatch);
    }
    let rows: usize = a.row();
    let cols: usize = b.col();
    let mut receivers: Vec<oneshot::Receiver<Reply<T>>> = Vec::with_capacity(rows * cols);
    let mut i: usize = 0;
    while i < rows
        invariant
            pool@.len() > 0,
            a.wf(),
            b.wf(),
            rows == a.rows(),
            cols == b.cols(),
            rows * cols <= usize::MAX,
            i <= rows,
            receivers@.len() == i * cols,
        decreases rows - i,
    {
        let mut j: usize = 0;
        while j < cols
            invariant
                pool@.len() > 0,
                a.wf(),
                b.wf(),
                rows == a.rows(),
                cols == b.cols(),
                rows * cols <= usize::MAX,
                i < rows,
                j <= cols,
                receivers@.len() == i * cols + j,
            decreases cols - j,
        {
            let input: MsgInput<T> = work_item(a, b, i, j);
            let worker: usize = worker_for(input.idx, pool.len());
            let (sender, receiver) = oneshot::channel();
            let msg: Msg<T> = Msg::new(input, sender);
            match pool[worker].send(msg) {
                Ok(()) => {},
                Err(_) => {},
            }
            receivers.push(receiver);
            j = j + 1;
        }
        proof {
            assert(i * cols + cols == (i + 1) * cols) by (nonlinear_arith);
        }
        i = i + 1;
    }
    Ok(receivers)
}

} // verus!
