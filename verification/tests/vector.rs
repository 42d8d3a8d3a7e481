use concurrency::{dot_product, MatrixError, Vector};

#[test]
fn dot_product_sums_the_products() {
    let a = Vector::new(vec![1, 2, 3]);
    let b = Vector::new(vec![4, 5, 6]);
    assert_eq!(dot_product(a, b), Ok(32));
}

#[test]
fn dot_product_handles_negative_elements() {
    let a = Vector::new(vec![-1i64, 2, -3]);
    let b = Vector::new(vec![4i64, -5, 6]);
    assert_eq!(dot_product(a, b), Ok(-32));
}

#[test]
fn dot_product_of_empty_vectors_is_zero() {
    let a: Vector<i32> = Vector::new(vec![]);
    let b: Vector<i32> = Vector::new(vec![]);
    assert_eq!(dot_product(a, b), Ok(0));
}

#[test]
fn dot_product_does_not_depend_on_operand_order() {
    let left = dot_product(Vector::new(vec![2u32, 7, 1, 8]), Vector::new(vec![3u32, 1, 4, 1]));
    let right = dot_product(Vector::new(vec![3u32, 1, 4, 1]), Vector::new(vec![2u32, 7, 1, 8]));
    assert_eq!(left, Ok(25));
    assert_eq!(left, right);
}

#[test]
fn dot_product_rejects_unequal_lengths() {
    let a = Vector::new(vec![1, 2, 3]);
    let b = Vector::new(vec![1, 2]);
    assert_eq!(dot_product(a, b), Err(MatrixError::DimensionMismatch));
    let a = Vector::new(vec![1, 2]);
    let b = Vector::new(vec![1, 2, 3]);
    assert_eq!(dot_product(a, b), Err(MatrixError::DimensionMismatch));
}

#[test]
fn dot_product_rejects_unequal_lengths_before_overflow() {
    let a = Vector::new(vec![i32::MAX, 1]);
    let b = Vector::new(vec![2]);
    assert_eq!(dot_product(a, b), Err(MatrixError::DimensionMismatch));
}

#[test]
fn dot_product_reports_a_product_that_overflows() {
    let a = Vector::new(vec![i32::MAX]);
    let b = Vector::new(vec![2]);
    assert_eq!(dot_product(a, b), Err(MatrixError::Overflow));
}

#[test]
fn dot_product_reports_a_sum_that_overflows() {
    let a = Vector::new(vec![100i8, 100]);
    let b = Vector::new(vec![1i8, 1]);
    assert_eq!(dot_product(a, b), Err(MatrixError::Overflow));
}

#[test]
fn dot_product_reports_a_partial_sum_that_overflows() {
    // The whole sum is 127, but the first two terms alone do not fit.
    let a = Vector::new(vec![100i8, 100, -73]);
    let b = Vector::new(vec![1i8, 1, 1]);
    assert_eq!(dot_product(a, b), Err(MatrixError::Overflow));
}

#[test]
fn dot_product_reaches_the_limits_of_the_type() {
    let a = Vector::new(vec![127i8]);
    let b = Vector::new(vec![1i8]);
    assert_eq!(dot_product(a, b), Ok(127));
    let a = Vector::new(vec![-128i8]);
    let b = Vector::new(vec![1i8]);
    assert_eq!(dot_product(a, b), Ok(-128));
}

#[test]
fn vector_keeps_its_elements() {
    let v = Vector::new(vec![5, 6, 7]);
    assert_eq!(v.len(), 3);
    assert_eq!(*v.get(0), 5);
    assert_eq!(*v.get(2), 7);
    assert_eq!(v[1], 6);
    assert_eq!(*v, vec![5, 6, 7]);
}
