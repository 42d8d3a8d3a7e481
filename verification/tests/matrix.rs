use concurrency::{multiply, Matrix, MatrixError, MsgOutput};

#[test]
fn test_matrix_multiply() {
    let a = Matrix::new(vec![1, 2, 3, 4, 5, 6], 2, 3);
    let b = Matrix::new(vec![1, 2, 3, 4, 5, 6], 3, 2);

    let c = a * b;

    assert_eq!(c.col(), 2);
    assert_eq!(c.row(), 2);
    assert_eq!(c.data(), &vec![22, 28, 49, 64]);
    assert_eq!(c.to_debug_string(), "Matrix(row=2, col=2, {22 28, 49 64})");
}

#[test]
fn test_matrix_display() {
    let a = Matrix::new(vec![1, 2, 3, 4], 2, 2);
    let b = Matrix::new(vec![1, 2, 3, 4], 2, 2);

    let c = a * b;

    assert_eq!(c.data(), &vec![7, 10, 15, 22]);
    assert_eq!(c.to_string(), "{7 10, 15 22}");
}

#[test]
fn test_a_can_not_multiply_b() {
    let a = Matrix::new(vec![1, 2, 3, 4, 5, 6], 2, 3);
    let b = Matrix::new(vec![1, 2, 3, 4], 2, 2);
    let c = multiply(&a, &b);
    assert!(c.is_err());
}

#[test]
fn multiply_two_by_three_with_three_by_two() {
    let a = Matrix::new(vec![1, 2, 3, 4, 5, 6], 2, 3);
    let b = Matrix::new(vec![1, 2, 3, 4, 5, 6], 3, 2);
    let c = multiply(&a, &b).ok().unwrap();
    assert_eq!(c.row(), 2);
    assert_eq!(c.col(), 2);
    assert_eq!(c.data(), &vec![22, 28, 49, 64]);
}

#[test]
fn multiply_two_by_two_with_itself() {
    let a = Matrix::new(vec![1, 2, 3, 4], 2, 2);
    let b = Matrix::new(vec![1, 2, 3, 4], 2, 2);
    let c = multiply(&a, &b).ok().unwrap();
    assert_eq!(c.data(), &vec![7, 10, 15, 22]);
}

#[test]
fn multiply_rejects_mismatched_shapes() {
    let a = Matrix::new(vec![1, 2, 3, 4, 5, 6], 2, 3);
    let b = Matrix::new(vec![1, 2, 3, 4], 2, 2);
    assert_eq!(multiply(&a, &b).err(), Some(MatrixError::DimensionMismatch));
}

#[test]
fn multiply_rejects_mismatched_shapes_before_overflow() {
    let a = Matrix::new(vec![i32::MAX, i32::MAX], 1, 2);
    let b = Matrix::new(vec![i32::MAX], 1, 1);
    assert_eq!(multiply(&a, &b).err(), Some(MatrixError::DimensionMismatch));
}

#[test]
fn multiply_reports_a_cell_that_overflows() {
    let a = Matrix::new(vec![1, 0, 0, i32::MAX], 2, 2);
    let b = Matrix::new(vec![1, 0, 0, 2], 2, 2);
    assert_eq!(multiply(&a, &b).err(), Some(MatrixError::Overflow));
}

#[test]
fn multiply_row_by_column_and_column_by_row() {
    let row = Matrix::new(vec![1, 2, 3], 1, 3);
    let column = Matrix::new(vec![4, 5, 6], 3, 1);
    let inner = multiply(&row, &column).ok().unwrap();
    assert_eq!((inner.row(), inner.col()), (1, 1));
    assert_eq!(inner.data(), &vec![32]);
    let outer = multiply(&column, &row).ok().unwrap();
    assert_eq!((outer.row(), outer.col()), (3, 3));
    assert_eq!(outer.data(), &vec![4, 8, 12, 5, 10, 15, 6, 12, 18]);
}

#[test]
fn multiply_is_not_commutative() {
    let a = Matrix::new(vec![1, 2, 3, 4], 2, 2);
    let b = Matrix::new(vec![0, 1, 1, 0], 2, 2);
    assert_eq!(multiply(&a, &b).ok().unwrap().data(), &vec![2, 1, 4, 3]);
    assert_eq!(multiply(&b, &a).ok().unwrap().data(), &vec![3, 4, 1, 2]);
}

#[test]
fn multiply_twice_gives_identical_results() {
    let a = Matrix::new(vec![3i64, -1, 4, 1, -5, 9, 2, 6, -5, 3, 5, 8], 3, 4);
    let b = Matrix::new(vec![2i64, 7, 1, -8, 2, 8, 1, 8], 4, 2);
    let first = multiply(&a, &b).ok().unwrap();
    let second = multiply(&a, &b).ok().unwrap();
    assert_eq!(first.row(), second.row());
    assert_eq!(first.col(), second.col());
    assert_eq!(first.data(), second.data());
    assert_eq!(first.data(), &vec![14, 69, 9, -43, 11, 45]);
}

fn numbered(n: usize, seed: i64) -> Vec<i64> {
    (0..n * n).map(|k| (k as i64 * 7 + seed) % 23 - 11).collect()
}

fn schoolbook(a: &[i64], b: &[i64], n: usize) -> Vec<i64> {
    let mut out = vec![0i64; n * n];
    for i in 0..n {
        for j in 0..n {
            for k in 0..n {
                out[i * n + j] += a[i * n + k] * b[k * n + j];
            }
        }
    }
    out
}

fn square_product_matches_schoolbook(n: usize) {
    let left = numbered(n, 3);
    let right = numbered(n, 5);
    let expected = schoolbook(&left, &right, n);
    let a = Matrix::new(left, n, n);
    let b = Matrix::new(right, n, n);
    let c = multiply(&a, &b).ok().unwrap();
    assert_eq!(c.row(), n);
    assert_eq!(c.col(), n);
    assert_eq!(c.data(), &expected);
}

#[test]
fn multiply_one_by_one() {
    square_product_matches_schoolbook(1);
    let a = Matrix::new(vec![6i64], 1, 1);
    let b = Matrix::new(vec![7i64], 1, 1);
    assert_eq!(multiply(&a, &b).ok().unwrap().data(), &vec![42]);
}

#[test]
fn multiply_sixteen_by_sixteen() {
    square_product_matches_schoolbook(16);
}

#[test]
fn multiply_257_by_257() {
    square_product_matches_schoolbook(257);
}

#[test]
fn new_keeps_shape_and_elements() {
    let m = Matrix::new(vec![1u8, 2, 3, 4, 5, 6], 3, 2);
    assert_eq!(m.row(), 3);
    assert_eq!(m.col(), 2);
    assert_eq!(m.data(), &vec![1, 2, 3, 4, 5, 6]);
}

#[test]
fn rows_are_contiguous_and_columns_strided() {
    let m = Matrix::new(vec![1, 2, 3, 4, 5, 6], 2, 3);
    assert_eq!(*m.row_vector(0), vec![1, 2, 3]);
    assert_eq!(*m.row_vector(1), vec![4, 5, 6]);
    assert_eq!(*m.column_vector(0), vec![1, 4]);
    assert_eq!(*m.column_vector(1), vec![2, 5]);
    assert_eq!(*m.column_vector(2), vec![3, 6]);
}

#[test]
fn zeroed_is_all_zero() {
    let m: Matrix<i16> = Matrix::zeroed(2, 3);
    assert_eq!(m.row(), 2);
    assert_eq!(m.col(), 3);
    assert_eq!(m.data(), &vec![0; 6]);
}

#[test]
fn place_writes_the_named_cell_only() {
    let mut m: Matrix<i32> = Matrix::zeroed(2, 2);
    assert_eq!(m.place(MsgOutput { idx: 2, value: 9 }), Ok(()));
    assert_eq!(m.data(), &vec![0, 0, 9, 0]);
    assert_eq!(m.place(MsgOutput { idx: 0, value: -4 }), Ok(()));
    assert_eq!(m.data(), &vec![-4, 0, 9, 0]);
    assert_eq!(m.place(MsgOutput { idx: 2, value: 1 }), Ok(()));
    assert_eq!(m.data(), &vec![-4, 0, 1, 0]);
}

#[test]
fn place_rejects_an_offset_outside_the_matrix() {
    let mut m: Matrix<i32> = Matrix::zeroed(2, 2);
    assert_eq!(m.place(MsgOutput { idx: 4, value: 9 }), Err(MatrixError::IndexOutOfRange));
    assert_eq!(m.data(), &vec![0, 0, 0, 0]);
}

#[test]
fn accept_places_results_and_passes_failures_on() {
    let mut m: Matrix<i32> = Matrix::zeroed(1, 2);
    assert_eq!(m.accept(Ok(MsgOutput { idx: 1, value: 5 })), Ok(()));
    assert_eq!(m.data(), &vec![0, 5]);
    assert_eq!(m.accept(Err(MatrixError::Overflow)), Err(MatrixError::Overflow));
    assert_eq!(m.accept(Err(MatrixError::SendFailure)), Err(MatrixError::SendFailure));
    assert_eq!(
        m.accept(Ok(MsgOutput { idx: 2, value: 5 })),
        Err(MatrixError::IndexOutOfRange)
    );
    assert_eq!(m.data(), &vec![0, 5]);
}

#[test]
fn text_of_a_single_cell() {
    let m = Matrix::new(vec![-17], 1, 1);
    assert_eq!(m.to_string(), "{-17}");
    assert_eq!(m.to_debug_string(), "Matrix(row=1, col=1, {-17})");
}

#[test]
fn text_of_rows_and_columns() {
    let wide = Matrix::new(vec![1, 2, 3, 4, 5, 6], 2, 3);
    assert_eq!(wide.to_string(), "{1 2 3, 4 5 6}");
    let tall = Matrix::new(vec![1, 2, 3, 4, 5, 6], 3, 2);
    assert_eq!(tall.to_string(), "{1 2, 3 4, 5 6}");
    assert_eq!(tall.to_debug_string(), "Matrix(row=3, col=2, {1 2, 3 4, 5 6})");
    let row = Matrix::new(vec![0, -10, 200], 1, 3);
    assert_eq!(row.to_string(), "{0 -10 200}");
    let column = Matrix::new(vec![0u64, 10, u64::MAX], 3, 1);
    assert_eq!(column.to_string(), "{0, 10, 18446744073709551615}");
}

#[test]
fn text_of_a_matrix_with_many_rows() {
    let m = Matrix::new(vec![7u8; 12], 12, 1);
    assert_eq!(
        m.to_debug_string(),
        "Matrix(row=12, col=1, {7, 7, 7, 7, 7, 7, 7, 7, 7, 7, 7, 7})"
    );
}
