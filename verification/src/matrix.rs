use vstd::prelude::*;
use vstd::std_specs::ops::MulSpecImpl;
use vstd::string::StringExecFns;
use crate::text::{decimal, decimal_of_unsigned};
use crate::element::Element;
use crate::error::MatrixError;
use crate::message::{compute, MsgInput, MsgOutput, Reply};
use crate::vector::{dot, dot_fits, dot_outcome, dot_prefix, Vector};

verus! {

/// A dense matrix: `row * col` elements in one buffer, row after row.
pub struct Matrix<T> {
    data: Vec<T>,
    row: usize,
    col: usize,
}

impl<T> View for Matrix<T> {
    type V = Seq<T>;

    /// The elements, row after row.
    closed spec fn view(&self) -> Seq<T> {
        self.data@
    }
}

impl<T> Matrix<T> {
    /// The number of rows.
    pub closed spec fn rows(&self) -> nat {
        self.row as nat
    }

    /// The number of columns.
    pub closed spec fn cols(&self) -> nat {
        self.col as nat
    }

    /// Both dimensions are positive and the buffer holds exactly
    /// `rows * cols` elements.
    pub open spec fn wf(&self) -> bool {
        &&& self.rows() > 0
        &&& self.cols() > 0
        &&& self@.len() == self.rows() * self.cols()
    }

    /// The element in row `i`, column `j`.
    pub open spec fn at(&self, i: int, j: int) -> T {
        self@[i * self.cols() + j]
    }

    /// Row `i`, from left to right.
    pub open spec fn row_seq(&self, i: int) -> Seq<T> {
        Seq::new(self.cols(), |k: int| self.at(i, k))
    }

    /// Column `j`, from top to bottom.
    pub open spec fn col_seq(&self, j: int) -> Seq<T> {
        Seq::new(self.rows(), |k: int| self.at(k, j))
    }

    /// Makes a `row` by `col` matrix from its elements, given row after row.
    pub fn new(data: Vec<T>, row: usize, col: usize) -> (m: Self)
        requires
            row > 0,
            col > 0,
            data@.len() == row * col,
        ensures
            m.wf(),
            m.rows() == row,
            m.cols() == col,
            m@ == data@,
    {
        Self { data, row, col }
    }

    /// The buffer of a matrix is never longer than a `usize` can count.
    pub proof fn lemma_len_fits(&self)
        ensures
            self@.len() <= usize::MAX,
    {
        assert(self.data.len() == self.data@.len());
    }

    /// The number of rows.
    pub fn row(&self) -> (n: usize)
        ensures
            n == self.rows(),
    {
        self.row
    }

    /// The number of columns.
    pub fn col(&self) -> (n: usize)
        ensures
            n == self.cols(),
    {
        self.col
    }

    /// The elements, row after row.
    pub fn data(&self) -> (data: &Vec<T>)
        ensures
            data@ == self@,
    {
        &self.data
    }
}

/// The offset of a cell determines its row and its column.
pub proof fn lemma_cell_index(i: int, j: int, cols: int)
    requires
        0 <= i,
        0 <= j < cols,
    ensures
        (i * cols + j) / cols == i,
        (i * cols + j) % cols == j,
{
    vstd::arithmetic::div_mod::lemma_fundamental_div_mod_converse(i * cols + j, cols, i, j);
}

/// A cell of a `rows` by `cols` matrix lies inside the buffer.
pub proof fn lemma_cell_index_bound(i: int, j: int, rows: int, cols: int)
    requires
        0 <= i < rows,
        0 <= j < cols,
    ensures
        0 <= i * cols + j < rows * cols,
        i * cols + cols <= rows * cols,
{
    assert(i * cols + cols <= rows * cols) by (nonlinear_arith)
        requires
            0 <= i < rows,
            0 < cols,
    ;
    assert(0 <= i * cols) by (nonlinear_arith)
        requires
            0 <= i,
            0 < cols,
    ;
}

impl<T: Copy> Matrix<T> {
    /// A copy of row `i`.
    pub fn row_vector(&self, i: usize) -> (v: Vector<T>)
        requires
            self.wf(),
            i < self.rows(),
        ensures
            v@ == self.row_seq(i as int),
    {
        let mut items: Vec<T> = Vec::with_capacity(self.col);
        let mut k: usize = 0;
        proof {
            self.lemma_len_fits();
            lemma_cell_index_bound(i as int, 0, self.row as int, self.col as int);
        }
        let start: usize = i * self.col;
        while k < self.col
            invariant
                self.wf(),
                i < self.rows(),
                k <= self.col,
                start == i * self.col,
                start + self.col <= self@.len() <= usize::MAX,
                items@.len() == k,
                forall|t: int| 0 <= t < k ==> items@[t] == self.at(i as int, t),
            decreases self.col - k,
        {
            items.push(self.data[start + k]);
            k = k + 1;
        }
        assert(items@ =~= self.row_seq(i as int));
        Vector::new(items)
    }

    /// A copy of column `j`, gathered with a step of one row.
    pub fn column_vector(&self, j: usize) -> (v: Vector<T>)
        requires
            self.wf(),
            j < self.cols(),
        ensures
            v@ == self.col_seq(j as int),
    {
        let mut items: Vec<T> = Vec::with_capacity(self.row);
        let mut k: usize = 0;
        while k < self.row
            invariant
                self.wf(),
                j < self.cols(),
                k <= self.row,
                items@.len() == k,
                forall|t: int| 0 <= t < k ==> items@[t] == self.at(t, j as int),
            decreases self.row - k,
        {
            proof {
                self.lemma_len_fits();
                lemma_cell_index_bound(k as int, j as int, self.row as int, self.col as int);
            }
            items.push(self.data[k * self.col + j]);
            k = k + 1;
        }
        assert(items@ =~= self.col_seq(j as int));
        Vector::new(items)
    }
}

/// The cells after a result has been written where it belongs; a result
/// that names no cell changes nothing.
pub open spec fn placed<T>(cells: Seq<T>, output: MsgOutput<T>) -> Seq<T> {
    if output.idx < cells.len() {
        cells.update(output.idx as int, output.value)
    } else {
        cells
    }
}

/// The cells after a reply has been taken in: a result is placed, a
/// failure changes nothing.
pub open spec fn accepted<T>(cells: Seq<T>, reply: Reply<T>) -> Seq<T> {
    match reply {
        Ok(output) => placed(cells, output),
        Err(_) => cells,
    }
}

/// What taking in a reply comes to: success for a result that names a
/// cell, `IndexOutOfRange` for one that names none, and for a failure the
/// failure itself.
pub open spec fn accept_outcome<T>(cells: Seq<T>, reply: Reply<T>) -> Result<(), MatrixError> {
    match reply {
        Ok(output) => if output.idx < cells.len() {
            Ok(())
        } else {
            Err(MatrixError::IndexOutOfRange)
        },
        Err(e) => Err(e),
    }
}

impl<T> Matrix<T> {
    /// Writes a result into the cell that it names.
    ///
    /// Fails with `IndexOutOfRange`, changing nothing, exactly when the
    /// matrix has no cell at that offset.
    pub fn place(&mut self, output: MsgOutput<T>) -> (r: Result<(), MatrixError>)
        requires
            old(self).wf(),
        ensures
            final(self).wf(),
            final(self).rows() == old(self).rows(),
            final(self).cols() == old(self).cols(),
            final(self)@ == placed(old(self)@, output),
            r == accept_outcome(old(self)@, Ok::<MsgOutput<T>, MatrixError>(output)),
    {
        if output.idx < self.data.len() {
            self.data.set(output.idx, output.value);
            Ok(())
        } else {
            Err(MatrixError::IndexOutOfRange)
        }
    }

    /// Takes in what a worker handed back: a result is placed, a failure
    /// is passed on and leaves the matrix as it was.
    pub fn accept(&mut self, reply: Reply<T>) -> (r: Result<(), MatrixError>)
        requires
            old(self).wf(),
        ensures
            final(self).wf(),
            final(self).rows() == old(self).rows(),
            final(self).cols() == old(self).cols(),
            final(self)@ == accepted(old(self)@, reply),
            r == accept_outcome(old(self)@, reply),
    {
        match reply {
            Ok(output) => self.place(output),
            Err(e) => Err(e),
        }
    }

    /// Takes in what waiting on an item's channel gave: a reply is
    /// accepted; a channel that closed without one fails with
    /// `ChannelClosed` and leaves the matrix as it was.
    pub fn collect(&mut self, received: Result<Reply<T>, oneshot::RecvError>) -> (r: Result<
        (),
        MatrixError,
    >)
        requires
            old(self).wf(),
        ensures
            final(self).wf(),
            final(self).rows() == old(self).rows(),
            final(self).cols() == old(self).cols(),
            match received {
                Ok(reply) => final(self)@ == accepted(old(self)@, reply) && r == accept_outcome(
                    old(self)@,
                    reply,
                ),
                Err(_) => final(self)@ == old(self)@ && r == Err::<(), MatrixError>(
                    MatrixError::ChannelClosed,
                ),
            },
    {
        match received {
            Ok(reply) => self.accept(reply),
            Err(_) => Err(MatrixError::ChannelClosed),
        }
    }
}

impl<T: Element> Matrix<T> {
    /// A `row` by `col` matrix whose every element is zero.
    pub fn zeroed(row: usize, col: usize) -> (m: Self)
        requires
            row > 0,
            col > 0,
            row * col <= usize::MAX,
        ensures
            m.wf(),
            m.rows() == row,
            m.cols() == col,
            forall|k: int| 0 <= k < m@.len() ==> (#[trigger] m@[k]).value() == 0,
    {
        let len: usize = row * col;
        let mut data: Vec<T> = Vec::with_capacity(len);
        let mut k: usize = 0;
        while k < len
            invariant
                k <= len,
                data@.len() == k,
                forall|t: int| 0 <= t < k ==> (#[trigger] data@[t]).value() == 0,
            decreases len - k,
        {
            data.push(T::zero());
            k = k + 1;
        }
        Self { data, row, col }
    }

    /// Whether this matrix is the product of `a` and `b`: it has the rows
    /// of `a`, the columns of `b`, and each cell stands for the dot product
    /// of the matching row of `a` and column of `b`.
    pub open spec fn is_product_of(&self, a: &Matrix<T>, b: &Matrix<T>) -> bool {
        &&& self.wf()
        &&& self.rows() == a.rows()
        &&& self.cols() == b.cols()
        &&& forall|i: int, j: int|
            0 <= i < self.rows() && 0 <= j < self.cols() ==> (#[trigger] self.at(i, j)).value()
                == dot(a.row_seq(i), b.col_seq(j))
    }
}

/// Whether every cell of the product of `a` and `b` can be accumulated in `T`.
pub open spec fn product_fits<T: Element>(a: &Matrix<T>, b: &Matrix<T>) -> bool {
    forall|i: int, j: int|
        0 <= i < a.rows() && 0 <= j < b.cols() ==> dot_fits(
            #[trigger] a.row_seq(i),
            #[trigger] b.col_seq(j),
        )
}

/// The sum of the first `n` terms of cell `(i, j)` of the product, taken
/// straight from the two buffers.
pub open spec fn entry_sum<T: Element>(a: &Matrix<T>, b: &Matrix<T>, i: int, j: int, n: nat) -> int
    decreases n,
{
    if n == 0 {
        0
    } else {
        entry_sum(a, b, i, j, (n - 1) as nat) + a.at(i, n - 1).value() * b.at(n - 1, j).value()
    }
}

/// The dot product of a row of `a` and a column of `b` is the sum that the
/// three nested loops of the schoolbook method compute for that cell.
pub proof fn lemma_dot_is_entry_sum<T: Element>(
    a: &Matrix<T>,
    b: &Matrix<T>,
    i: int,
    j: int,
    n: nat,
)
    requires
        n <= a.cols(),
        n <= b.rows(),
    ensures
        dot_prefix(a.row_seq(i), b.col_seq(j), n) == entry_sum(a, b, i, j, n),
    decreases n,
{
    if n > 0 {
        lemma_dot_is_entry_sum(a, b, i, j, (n - 1) as nat);
    }
}

/// Each cell of a product is the sum that the schoolbook method computes
/// for it: over `k`, the element in row `i`, column `k` of `a` times the
/// element in row `k`, column `j` of `b`.
pub proof fn lemma_product_cells<T: Element>(a: &Matrix<T>, b: &Matrix<T>, m: &Matrix<T>)
    requires
        a.cols() == b.rows(),
        m.is_product_of(a, b),
    ensures
        forall|i: int, j: int|
            0 <= i < a.rows() && 0 <= j < b.cols() ==> (#[trigger] m.at(i, j)).value()
                == entry_sum(a, b, i, j, a.cols()),
{
    assert forall|i: int, j: int| 0 <= i < a.rows() && 0 <= j < b.cols() implies (#[trigger] m.at(
        i,
        j,
    )).value() == entry_sum(a, b, i, j, a.cols()) by {
        lemma_dot_is_entry_sum(a, b, i, j, a.cols());
    }
}

/// Two cells with the same offset are the same cell.
pub proof fn lemma_cell_index_unique(i: int, j: int, p: int, q: int, cols: int)
    requires
        0 <= i,
        0 <= p,
        0 <= j < cols,
        0 <= q < cols,
        i * cols + j == p * cols + q,
    ensures
        i == p,
        j == q,
{
    lemma_cell_index(i, j, cols);
    lemma_cell_index(p, q, cols);
}

/// The product of two matrices is determined by them: any two matrices
/// that are the product of `a` and `b` hold the same elements.
pub proof fn lemma_product_unique<T: Element>(
    a: &Matrix<T>,
    b: &Matrix<T>,
    m1: &Matrix<T>,
    m2: &Matrix<T>,
)
    requires
        m1.is_product_of(a, b),
        m2.is_product_of(a, b),
    ensures
        m1.rows() == m2.rows(),
        m1.cols() == m2.cols(),
        m1@ == m2@,
{
    let cols = m1.cols() as int;
    assert forall|k: int| 0 <= k < m1@.len() implies m1@[k] == m2@[k] by {
        let i = k / cols;
        let j = k % cols;
        vstd::arithmetic::div_mod::lemma_fundamental_div_mod(k, cols);
        vstd::arithmetic::div_mod::lemma_div_pos_is_pos(k, cols);
        assert(i < m1.rows()) by (nonlinear_arith)
            requires
                0 <= k < m1.rows() * cols,
                k == cols * i + j,
                0 <= j < cols,
        ;
        assert(cols * i == i * cols) by (nonlinear_arith);
        assert(m1.at(i, j) == m1@[k]);
        assert(m2.at(i, j) == m2@[k]);
        T::lemma_value_injective(m1.at(i, j), m2.at(i, j));
    }
    assert(m1@ =~= m2@);
}

/// Whether a result is the right one for the cell that it names in the
/// product of `a` and `b`.
pub open spec fn right_for<T: Element>(a: &Matrix<T>, b: &Matrix<T>, output: MsgOutput<T>) -> bool {
    &&& output.idx < a.rows() * b.cols()
    &&& output.value.value() == dot(
        a.row_seq(output.idx as int / b.cols() as int),
        b.col_seq(output.idx as int % b.cols() as int),
    )
}

/// What a worker computes for the work item of cell `(i, j)` is the right
/// result for that cell.
pub proof fn lemma_computed_is_right<T: Element>(
    a: &Matrix<T>,
    b: &Matrix<T>,
    i: int,
    j: int,
    input: MsgInput<T>,
    output: MsgOutput<T>,
)
    requires
        0 <= i < a.rows(),
        0 <= j < b.cols(),
        input.idx == i * b.cols() + j,
        input.row@ == a.row_seq(i),
        input.col@ == b.col_seq(j),
        output.idx == input.idx,
        dot_outcome(input.row@, input.col@) == Ok::<int, MatrixError>(output.value.value()),
    ensures
        right_for(a, b, output),
{
    lemma_cell_index(i, j, b.cols() as int);
    lemma_cell_index_bound(i, j, a.rows() as int, b.cols() as int);
}

/// Whether one of the first `n` results names the cell at `offset`.
pub open spec fn named<T>(outputs: Seq<MsgOutput<T>>, n: nat, offset: int) -> bool {
    exists|k: int| 0 <= k < n && (#[trigger] outputs[k]).idx == offset
}

/// The cells after the first `n` results have been placed one after another.
pub open spec fn placed_all<T>(cells: Seq<T>, outputs: Seq<MsgOutput<T>>, n: nat) -> Seq<T>
    decreases n,
{
    if n == 0 {
        cells
    } else {
        placed(placed_all(cells, outputs, (n - 1) as nat), outputs[n - 1])
    }
}

/// After right results have been placed, every cell that one of them
/// names holds what the product has there.
pub proof fn lemma_placed_cells<T: Element>(
    a: &Matrix<T>,
    b: &Matrix<T>,
    start: Seq<T>,
    outputs: Seq<MsgOutput<T>>,
    n: nat,
)
    requires
        n <= outputs.len(),
        forall|k: int| 0 <= k < outputs.len() ==> right_for(a, b, #[trigger] outputs[k]),
    ensures
        placed_all(start, outputs, n).len() == start.len(),
        forall|offset: int|
            0 <= offset < start.len() && #[trigger] named(outputs, n, offset) ==> placed_all(
                start,
                outputs,
                n,
            )[offset].value() == dot(
                a.row_seq(offset / b.cols() as int),
                b.col_seq(offset % b.cols() as int),
            ),
    decreases n,
{
    if n > 0 {
        lemma_placed_cells(a, b, start, outputs, (n - 1) as nat);
        let before = placed_all(start, outputs, (n - 1) as nat);
        let last = outputs[n - 1];
        assert forall|offset: int|
            0 <= offset < start.len() && #[trigger] named(outputs, n, offset) implies placed_all(
            start,
            outputs,
            n,
        )[offset].value() == dot(
            a.row_seq(offset / b.cols() as int),
            b.col_seq(offset % b.cols() as int),
        ) by {
            if last.idx != offset {
                let k = choose|k: int| 0 <= k < n && (#[trigger] outputs[k]).idx == offset;
                assert(k < n - 1);
                assert(named(outputs, (n - 1) as nat, offset));
            }
        }
    }
}

/// Results may come in any order: once a right result for every cell has
/// been placed, whatever the order and whatever the buffer held before,
/// the matrix is the product.
pub proof fn lemma_placed_in_any_order<T: Element>(
    a: &Matrix<T>,
    b: &Matrix<T>,
    m: &Matrix<T>,
    start: Seq<T>,
    outputs: Seq<MsgOutput<T>>,
)
    requires
        m.wf(),
        m.rows() == a.rows(),
        m.cols() == b.cols(),
        start.len() == m@.len(),
        forall|k: int| 0 <= k < outputs.len() ==> right_for(a, b, #[trigger] outputs[k]),
        forall|offset: int| 0 <= offset < start.len() ==> named(outputs, outputs.len(), offset),
        m@ == placed_all(start, outputs, outputs.len()),
    ensures
        m.is_product_of(a, b),
{
    lemma_placed_cells(a, b, start, outputs, outputs.len());
    assert forall|i: int, j: int| 0 <= i < m.rows() && 0 <= j < m.cols() implies (#[trigger] m.at(
        i,
        j,
    )).value() == dot(a.row_seq(i), b.col_seq(j)) by {
        let offset = i * m.cols() + j;
        lemma_cell_index(i, j, m.cols() as int);
        lemma_cell_index_bound(i, j, m.rows() as int, m.cols() as int);
        assert(named(outputs, outputs.len(), offset));
    }
}

/// The work item for cell `(i, j)` of the product of `a` and `b`: row `i`
/// of `a`, column `j` of `b`, and the cell's offset in the output buffer.
pub fn work_item<T: Copy>(a: &Matrix<T>, b: &Matrix<T>, i: usize, j: usize) -> (input: MsgInput<T>)
    requires
        a.wf(),
        b.wf(),
        i < a.rows(),
        j < b.cols(),
        a.rows() * b.cols() <= usize::MAX,
    ensures
        input.idx == i * b.cols() + j,
        input.row@ == a.row_seq(i as int),
        input.col@ == b.col_seq(j as int),
{
    let row: Vector<T> = a.row_vector(i);
    let col: Vector<T> = b.column_vector(j);
    proof {
        lemma_cell_index_bound(i as int, j as int, a.row as int, b.col as int);
    }
    let idx: usize = i * b.col + j;
    MsgInput::new(idx, row, col)
}

/// What multiplying `a` by `b` in `T` comes to, but for the cells of the
/// product: a mismatch if `a` has not as many columns as `b` has rows, else
/// an overflow if some cell cannot be accumulated, else success.
pub open spec fn product_outcome<T: Element>(a: &Matrix<T>, b: &Matrix<T>) -> Result<
    (),
    MatrixError,
> {
    if a.cols() != b.rows() {
        Err(MatrixError::DimensionMismatch)
    } else if !product_fits(a, b) {
        Err(MatrixError::Overflow)
    } else {
        Ok(())
    }
}

/// Whether `r` is what multiplying `a` by `b` in `T` gives: the error that
/// `product_outcome` names, or else a matrix that is their product.
pub open spec fn is_multiply_result<T: Element>(
    a: &Matrix<T>,
    b: &Matrix<T>,
    r: Result<Matrix<T>, MatrixError>,
) -> bool {
    match r {
        Ok(m) => product_outcome(a, b) == Ok::<(), MatrixError>(()) && m.is_product_of(a, b),
        Err(e) => product_outcome(a, b) == Err::<(), MatrixError>(e),
    }
}

/// Multiplying the same two matrices again gives the same again: the same
/// error, or a matrix of the same shape with the same elements.
pub proof fn lemma_multiply_repeatable<T: Element>(
    a: &Matrix<T>,
    b: &Matrix<T>,
    first: Result<Matrix<T>, MatrixError>,
    second: Result<Matrix<T>, MatrixError>,
)
    requires
        is_multiply_result(a, b, first),
        is_multiply_result(a, b, second),
    ensures
        match (first, second) {
            (Ok(m1), Ok(m2)) => m1.rows() == m2.rows() && m1.cols() == m2.cols() && m1@ == m2@,
            (Err(e1), Err(e2)) => e1 == e2,
            _ => false,
        },
{
    match (first, second) {
        (Ok(m1), Ok(m2)) => {
            lemma_product_unique(a, b, &m1, &m2);
        },
        _ => {},
    }
}

/// Multiplies `a` by `b`, cell by cell in row-major order: each cell is
/// made into a work item, computed on its own, and placed by its offset.
///
/// Fails with `DimensionMismatch`, before doing any work, exactly when
/// `a` has not as many columns as `b` has rows, and otherwise with
/// `Overflow` exactly when some cell cannot be accumulated in `T`.
pub fn multiply<T: Element>(a: &Matrix<T>, b: &Matrix<T>) -> (r: Result<Matrix<T>, MatrixError>)
    requires
        a.wf(),
        b.wf(),
        a.cols() == b.rows() ==> a.rows() * b.cols() <= usize::MAX,
    ensures
        is_multiply_result(a, b, r),
{
    if a.col != b.row {
        return Err(MatrixError::DimensionMismatch);
    }
    let rows: usize = a.row;
    let cols: usize = b.col;
    let mut out: Matrix<T> = Matrix::zeroed(rows, cols);
    let mut i: usize = 0;
    while i < rows
        invariant
            a.wf(),
            b.wf(),
            a.cols() == b.rows(),
            rows == a.rows(),
            cols == b.cols(),
            rows * cols <= usize::MAX,
            out.wf(),
            out.rows() == rows,
            out.cols() == cols,
            i <= rows,
            forall|p: int, q: int|
                0 <= p < i && 0 <= q < cols ==> dot_fits(
                    #[trigger] a.row_seq(p),
                    #[trigger] b.col_seq(q),
                ),
            forall|p: int, q: int|
                0 <= p < i && 0 <= q < cols ==> (#[trigger] out.at(p, q)).value() == dot(
                    a.row_seq(p),
                    b.col_seq(q),
                ),
        decreases rows - i,
    {
        let mut j: usize = 0;
        while j < cols
            invariant
                a.wf(),
                b.wf(),
                a.cols() == b.rows(),
                rows == a.rows(),
                cols == b.cols(),
                rows * cols <= usize::MAX,
                out.wf(),
                out.rows() == rows,
                out.cols() == cols,
                i < rows,
                j <= cols,
                forall|p: int, q: int|
                    0 <= p < i && 0 <= q < cols ==> dot_fits(
                        #[trigger] a.row_seq(p),
                        #[trigger] b.col_seq(q),
                    ),
                forall|q: int| 0 <= q < j ==> dot_fits(a.row_seq(i as int), #[trigger] b.col_seq(q)),
                forall|p: int, q: int|
                    0 <= p < i && 0 <= q < cols ==> (#[trigger] out.at(p, q)).value() == dot(
                        a.row_seq(p),
                        b.col_seq(q),
                    ),
                forall|q: int|
                    0 <= q < j ==> (#[trigger] out.at(i as int, q)).value() == dot(
                        a.row_seq(i as int),
                        b.col_seq(q),
                    ),
            decreases cols - j,
        {
            let input: MsgInput<T> = work_item(a, b, i, j);
            proof {
                lemma_cell_index_bound(i as int, j as int, rows as int, cols as int);
            }
            let reply: Reply<T> = compute(input);
            if reply.is_err() {
                proof {
                    assert(!dot_fits(a.row_seq(i as int), b.col_seq(j as int)));
                }
            }
            let ghost before = out;
            match out.accept(reply) {
                Ok(()) => {},
                Err(e) => {
                    return Err(e);
                },
            }
            proof {
                assert forall|p: int, q: int| 0 <= p < i && 0 <= q < cols implies (
                #[trigger] out.at(p, q)).value() == dot(a.row_seq(p), b.col_seq(q)) by {
                    lemma_cell_index_bound(p, q, rows as int, cols as int);
                    if p * cols + q == i * cols + j {
                        lemma_cell_index_unique(p, q, i as int, j as int, cols as int);
                    }
                    assert(out.at(p, q) == before.at(p, q));
                }
                assert forall|q: int| 0 <= q < j + 1 implies (#[trigger] out.at(
                    i as int,
                    q,
                )).value() == dot(a.row_seq(i as int), b.col_seq(q)) by {
                    lemma_cell_index_bound(i as int, q, rows as int, cols as int);
                    if q < j {
                        if i * cols + q == i * cols + j {
                            lemma_cell_index_unique(i as int, q, i as int, j as int, cols as int);
                        }
                        assert(out.at(i as int, q) == before.at(i as int, q));
                    }
                }
            }
            j = j + 1;
        }
        i = i + 1;
    }
    Ok(out)
}

impl<T: Element> MulSpecImpl for Matrix<T> {
    /// The product is described by what `*` ensures, not by a value.
    open spec fn obeys_mul_spec() -> bool {
        false
    }

    /// `*` is for operands whose product exists.
    open spec fn mul_req(self, rhs: Matrix<T>) -> bool {
        &&& self.wf()
        &&& rhs.wf()
        &&& self.rows() * rhs.cols() <= usize::MAX
        &&& product_outcome(&self, &rhs) is Ok
    }

    /// Left open: a product is known by its elements, which `*` ensures.
    open spec fn mul_spec(self, rhs: Matrix<T>) -> Matrix<T> {
        arbitrary()
    }
}

impl<T: Element> core::ops::Mul for Matrix<T> {
    type Output = Matrix<T>;

    /// The product of two matrices that have one.
    fn mul(self, rhs: Matrix<T>) -> (m: Matrix<T>)
        ensures
            m.is_product_of(&self, &rhs),
    {
        match multiply(&self, &rhs) {
            Ok(m) => m,
            Err(_) => vstd::pervasive::unreached(),
        }
    }
}

/// The first `n` cells of row `i` in decimal, with one space between neighbours.
pub open spec fn row_text<T: Element>(m: &Matrix<T>, i: int, n: nat) -> Seq<char>
    decreases n,
{
    if n == 0 {
        Seq::empty()
    } else if n == 1 {
        decimal(m.at(i, 0).value())
    } else {
        row_text(m, i, (n - 1) as nat) + seq![' '] + decimal(m.at(i, n - 1).value())
    }
}

/// The first `n` rows, with a comma and a space between neighbours.
pub open spec fn rows_text<T: Element>(m: &Matrix<T>, n: nat) -> Seq<char>
    decreases n,
{
    if n == 0 {
        Seq::empty()
    } else if n == 1 {
        row_text(m, 0, m.cols())
    } else {
        rows_text(m, (n - 1) as nat) + seq![',', ' '] + row_text(m, n - 1, m.cols())
    }
}

/// The text of a matrix: its rows between braces.
pub open spec fn matrix_text<T: Element>(m: &Matrix<T>) -> Seq<char> {
    seq!['{'] + rows_text(m, m.rows()) + seq!['}']
}

/// The text of a matrix for debugging: its dimensions, then its rows.
pub open spec fn matrix_debug_text<T: Element>(m: &Matrix<T>) -> Seq<char> {
    seq!['M', 'a', 't', 'r', 'i', 'x', '(', 'r', 'o', 'w', '='] + decimal(m.rows() as int)
        + seq![',', ' ', 'c', 'o', 'l', '='] + decimal(m.cols() as int) + seq![',', ' ']
        + matrix_text(m) + seq![')']
}

impl<T: Element> Matrix<T> {
    /// Writes the matrix as `{1 2 3, 4 5 6}`: a space between the cells
    /// of a row, a comma and a space between rows.
    pub fn to_string(&self) -> (s: String)
        requires
            self.wf(),
        ensures
            s@ == matrix_text(self),
    {
        let mut s: String = String::from_str("{");
        proof {
            reveal_strlit("{");
            reveal_strlit("}");
            reveal_strlit(" ");
            reveal_strlit(", ");
            self.lemma_len_fits();
        }
        let mut i: usize = 0;
        while i < self.row
            invariant
                self.wf(),
                self@.len() <= usize::MAX,
                i <= self.row,
                "{"@ == seq!['{'],
                " "@ == seq![' '],
                ", "@ == seq![',', ' '],
                s@ == seq!['{'] + rows_text(self, i as nat),
            decreases self.row - i,
        {
            if i != 0 {
                s.append(", ");
            }
            let ghost head = s@;
            let mut j: usize = 0;
            while j < self.col
                invariant
                    self.wf(),
                    self@.len() <= usize::MAX,
                    i < self.row,
                    j <= self.col,
                    " "@ == seq![' '],
                    s@ == head + row_text(self, i as int, j as nat),
                decreases self.col - j,
            {
                if j != 0 {
                    s.append(" ");
                }
                proof {
                    lemma_cell_index_bound(i as int, j as int, self.row as int, self.col as int);
                }
                let cell: String = self.data[i * self.col + j].to_text();
                s.append(cell.as_str());
                j = j + 1;
                assert(s@ =~= head + row_text(self, i as int, j as nat));
            }
            i = i + 1;
            assert(s@ =~= seq!['{'] + rows_text(self, i as nat));
        }
        s.append("}");
        s
    }

    /// Writes the matrix as `Matrix(row=2, col=3, {1 2 3, 4 5 6})`.
    pub fn to_debug_string(&self) -> (s: String)
        requires
            self.wf(),
        ensures
            s@ == matrix_debug_text(self),
    {
        proof {
            reveal_strlit("Matrix(row=");
            reveal_strlit(", col=");
            reveal_strlit(", ");
            reveal_strlit(")");
        }
        let mut s: String = String::from_str("Matrix(row=");
        let rows: String = decimal_of_unsigned(self.row as u128);
        s.append(rows.as_str());
        s.append(", col=");
        let cols: String = decimal_of_unsigned(self.col as u128);
        s.append(cols.as_str());
        s.append(", ");
        let body: String = self.to_string();
        s.append(body.as_str());
        s.append(")");
        assert(s@ =~= matrix_debug_text(self));
        s
    }
}

} // verus!
