use lars::common::MathError;
use lars::matrix;
use lars::matrix::Matrix;
use lars::vector;
use lars::vector::Vector;

#[test]
fn new_fills_with_default() {
    let m = Matrix::new(3, 5, 3i64);
    assert_eq!(m.get_rows(), 3);
    assert_eq!(m.get_cols(), 5);
    for r in 0..3 {
        for c in 0..5 {
            assert_eq!(m.get(r, c).unwrap(), 3);
        }
    }
}

#[test]
fn from_wraps_row_major() {
    let m = matrix::from(2, 3, &[1i64, 2, 3, 4, 5, 6]);
    assert_eq!(m.get(0, 0).unwrap(), 1);
    assert_eq!(m.get(0, 1).unwrap(), 2);
    assert_eq!(m.get(0, 2).unwrap(), 3);
    assert_eq!(m.get(1, 0).unwrap(), 4);
    assert_eq!(m.get(1, 1).unwrap(), 5);
    assert_eq!(m.get(1, 2).unwrap(), 6);
}

#[test]
fn get_and_set_check_bounds() {
    let mut m = Matrix::new(2, 3, 0i32);
    assert!(matches!(m.get(2, 0), Err(MathError::IndexOutOfRange)));
    assert!(matches!(m.get(0, 3), Err(MathError::IndexOutOfRange)));
    assert!(matches!(m.set(2, 0, 1), Err(MathError::IndexOutOfRange)));
    assert!(matches!(m.set(0, 3, 1), Err(MathError::IndexOutOfRange)));
    assert!(m.equals(&Matrix::new(2, 3, 0i32)));
    m.set(1, 2, 9).unwrap();
    assert_eq!(m.get(1, 2).unwrap(), 9);
    assert_eq!(m.get(1, 1).unwrap(), 0);
}

#[test]
fn setting_the_diagonal_builds_the_identity() {
    // Matrix::new(2,2,0) then set(0,0,1); set(1,1,1) equals identity(2)
    let mut m = Matrix::new(2, 2, 0i64);
    m.set(0, 0, 1).unwrap();
    m.set(1, 1, 1).unwrap();
    assert!(m.equals(&matrix::identity(2)));
}

#[test]
fn identity_has_ones_on_the_diagonal() {
    let m: Matrix<u32> = matrix::identity(3);
    for r in 0..3 {
        for c in 0..3 {
            assert_eq!(m.get(r, c).unwrap(), if r == c { 1 } else { 0 });
        }
    }
}

#[test]
fn identity_times_matrix_returns_the_matrix() {
    // identity(r) * A == A for square A
    let a = matrix::from(2, 2, &[1i64, 2, 3, 4]);
    let i2: Matrix<i64> = matrix::identity(2);
    assert!(i2.mul(&a).unwrap().equals(&a));
    let b = matrix::from(3, 3, &[5i64, -1, 0, 2, 7, 3, 9, 4, -6]);
    let i3: Matrix<i64> = matrix::identity(3);
    assert!(i3.mul(&b).unwrap().equals(&b));
}

#[test]
fn matrix_product_uses_standard_semantics() {
    // [1 2; 3 4] * [5 6; 7 8] == [19 22; 43 50]
    let a = matrix::from(2, 2, &[1i64, 2, 3, 4]);
    let b = matrix::from(2, 2, &[5i64, 6, 7, 8]);
    let p = a.mul(&b).unwrap();
    assert!(p.equals(&matrix::from(2, 2, &[19i64, 22, 43, 50])));
}

#[test]
fn matrix_product_of_rectangular_shapes() {
    let a = matrix::from(2, 3, &[1i64, 2, 3, 4, 5, 6]);
    let b = matrix::from(3, 2, &[7i64, 8, 9, 10, 11, 12]);
    let p = a.mul(&b).unwrap();
    assert_eq!(p.get_rows(), 2);
    assert_eq!(p.get_cols(), 2);
    assert!(p.equals(&matrix::from(2, 2, &[58i64, 64, 139, 154])));
}

#[test]
fn matrix_product_requires_cols_equal_rows() {
    let a = matrix::from(2, 3, &[1i64, 2, 3, 4, 5, 6]);
    let b = matrix::from(2, 3, &[1i64, 2, 3, 4, 5, 6]);
    assert!(matches!(a.mul(&b), Err(MathError::DimensionMismatch)));
}

#[test]
fn matrix_quotient_accumulates_elementwise_quotients() {
    // cell (n,m) is the sum over k of lhs[n,k] / rhs[k,m]
    let a = matrix::from(2, 2, &[8i64, 9, 12, 15]);
    let b = matrix::from(2, 2, &[2i64, 3, 4, 5]);
    let q = a.div(&b).unwrap();
    // (8/2 + 9/4, 8/3 + 9/5, 12/2 + 15/4, 12/3 + 15/5)
    assert!(q.equals(&matrix::from(2, 2, &[6i64, 3, 9, 7])));
    let c = matrix::from(3, 2, &[1i64, 2, 3, 4, 5, 6]);
    assert!(matches!(a.div(&c), Err(MathError::DimensionMismatch)));
}

#[test]
fn add_and_sub_are_elementwise() {
    let a = matrix::from(2, 2, &[1i64, 2, 3, 4]);
    let b = matrix::from(2, 2, &[10i64, 20, 30, 40]);
    assert!(a.add(&b).unwrap().equals(&matrix::from(2, 2, &[11i64, 22, 33, 44])));
    assert!(b.sub(&a).unwrap().equals(&matrix::from(2, 2, &[9i64, 18, 27, 36])));
    let c = matrix::from(2, 3, &[0i64; 6]);
    assert!(matches!(a.add(&c), Err(MathError::DimensionMismatch)));
    assert!(matches!(a.sub(&c), Err(MathError::DimensionMismatch)));
}

#[test]
fn scalar_broadcasts() {
    let m = matrix::from(2, 2, &[1i64, 2, 3, 4]);
    assert!(m.add_scalar(10).equals(&matrix::from(2, 2, &[11i64, 12, 13, 14])));
    assert!(m.sub_scalar(1).equals(&matrix::from(2, 2, &[0i64, 1, 2, 3])));
    assert!(m.mul_scalar(3).equals(&matrix::from(2, 2, &[3i64, 6, 9, 12])));
    assert!(m.div_scalar(2).equals(&matrix::from(2, 2, &[0i64, 1, 1, 2])));
}

#[test]
fn neg_negates_every_entry() {
    let m = matrix::from(2, 2, &[1i64, -2, 0, 4]);
    assert!(m.neg().equals(&matrix::from(2, 2, &[-1i64, 2, 0, -4])));
}

#[test]
fn transposed_exchanges_rows_and_columns() {
    // a 2x3 matrix of [1,2,3,4,5,6] transposes to a 3x2 with rows [1,4], [2,5], [3,6]
    let m = matrix::from(2, 3, &[1i64, 2, 3, 4, 5, 6]);
    let t = m.transposed();
    assert_eq!(t.get_rows(), 3);
    assert_eq!(t.get_cols(), 2);
    assert!(t.equals(&matrix::from(3, 2, &[1i64, 4, 2, 5, 3, 6])));
    // the original is untouched
    assert!(m.equals(&matrix::from(2, 3, &[1i64, 2, 3, 4, 5, 6])));
}

#[test]
fn transpose_works_in_place() {
    let mut m = matrix::from(2, 3, &[1i64, 2, 3, 4, 5, 6]);
    m.transpose();
    assert!(m.equals(&matrix::from(3, 2, &[1i64, 4, 2, 5, 3, 6])));
    m.transpose();
    assert!(m.equals(&matrix::from(2, 3, &[1i64, 2, 3, 4, 5, 6])));
}

#[test]
fn transpose_round_trips_on_squares_too() {
    let mut m = matrix::from(2, 2, &[1i64, 2, 3, 4]);
    m.transpose();
    assert!(m.equals(&matrix::from(2, 2, &[1i64, 3, 2, 4])));
}

#[test]
fn reshape_keeps_the_buffer() {
    let mut m = matrix::from(4, 4, &[0i64; 16]);
    m.reshape(8, 2).unwrap();
    assert_eq!(m.get_rows(), 8);
    assert_eq!(m.get_cols(), 2);
}

#[test]
fn reshape_round_trip_reproduces_the_matrix() {
    // reshaping m x n to n x m and back reproduces the flattened content
    let original = matrix::from(2, 3, &[1i64, 2, 3, 4, 5, 6]);
    let mut m = matrix::from(2, 3, &[1i64, 2, 3, 4, 5, 6]);
    m.reshape(3, 2).unwrap();
    assert_eq!(m.get_vector(), original.get_vector());
    m.reshape(2, 3).unwrap();
    assert!(m.equals(&original));
}

#[test]
fn reshape_rejects_a_changed_element_count() {
    let mut m = matrix::from(2, 3, &[1i64, 2, 3, 4, 5, 6]);
    assert!(matches!(m.reshape(2, 2), Err(MathError::ShapeMismatch)));
    assert!(m.equals(&matrix::from(2, 3, &[1i64, 2, 3, 4, 5, 6])));
}

#[test]
fn trace_of_identity_is_the_size() {
    for k in 1..6usize {
        let m: Matrix<i64> = matrix::identity(k);
        assert_eq!(m.trace().unwrap(), k as i64);
    }
}

#[test]
fn trace_sums_the_diagonal() {
    let m = matrix::from(2, 2, &[1i64, 2, 3, 4]);
    assert_eq!(m.trace().unwrap(), 5);
}

#[test]
fn trace_requires_a_square_matrix() {
    let m = matrix::from(2, 3, &[1i64, 2, 3, 4, 5, 6]);
    assert!(matches!(m.trace(), Err(MathError::NotSquare)));
}

#[test]
fn matrix_times_vector_is_a_dot_product_per_row() {
    let m = matrix::from(2, 3, &[1i64, 2, 3, 4, 5, 6]);
    let v = vector::from(&[1i64, 2, 3]);
    let p = m.mul_vector(&v).unwrap();
    assert!(p.equals(&vector::from(&[14i64, 32])));
    let short = vector::from(&[1i64, 2]);
    assert!(matches!(m.mul_vector(&short), Err(MathError::DimensionMismatch)));
}

#[test]
fn matrix_plus_vector_folds_each_row() {
    let m = matrix::from(2, 3, &[1i64, 2, 3, 4, 5, 6]);
    let v = vector::from(&[1i64, 2, 3]);
    let s = m.add_vector(&v).unwrap();
    // (1+1)+(2+2)+(3+3) and (4+1)+(5+2)+(6+3)
    assert!(s.equals(&vector::from(&[12i64, 21])));
}

#[test]
fn matrix_minus_vector_folds_each_row() {
    let m = matrix::from(2, 3, &[1i64, 2, 3, 4, 5, 6]);
    let v = vector::from(&[1i64, 2, 3]);
    let d = m.sub_vector(&v).unwrap();
    // (1-1)+(2-2)+(3-3) and (4-1)+(5-2)+(6-3)
    assert!(d.equals(&vector::from(&[0i64, 9])));
}

#[test]
fn matrix_divided_by_vector_folds_each_row() {
    let m = matrix::from(2, 2, &[8i64, 9, 10, 12]);
    let v = vector::from(&[2i64, 3]);
    let q = m.div_vector(&v).unwrap();
    // 8/2 + 9/3 and 10/2 + 12/3
    assert!(q.equals(&vector::from(&[7i64, 9])));
}

#[test]
fn vector_side_operations_match_the_matrix_side() {
    let m = matrix::from(2, 3, &[1i64, 2, 3, 4, 5, 6]);
    let v = vector::from(&[1i64, 2, 3]);
    assert!(v.mul_matrix(&m).unwrap().equals(&m.mul_vector(&v).unwrap()));
    assert!(v.add_matrix(&m).unwrap().equals(&m.add_vector(&v).unwrap()));
    assert!(v.sub_matrix(&m).unwrap().equals(&m.sub_vector(&v).unwrap()));
    let d = matrix::from(2, 2, &[8i64, 9, 10, 12]);
    let w = vector::from(&[2i64, 3]);
    assert!(w.div_matrix(&d).unwrap().equals(&d.div_vector(&w).unwrap()));
    assert!(matches!(w.mul_matrix(&m), Err(MathError::DimensionMismatch)));
}

#[test]
fn equality_is_reflexive_symmetric_and_shape_sensitive() {
    let a: Matrix<i64> = matrix::zeros(2, 3);
    let b: Matrix<i64> = matrix::zeros(3, 2);
    let c: Matrix<i64> = matrix::zeros(2, 3);
    assert!(a.equals(&a));
    assert!(a.equals(&c));
    assert!(c.equals(&a));
    // same flattened contents, different shape: never equal
    assert!(!a.equals(&b));
    assert!(!b.equals(&a));
    let d = matrix::from(2, 3, &[0i64, 0, 0, 0, 0, 1]);
    assert!(!a.equals(&d));
}

#[test]
fn zeros_and_zeros_like_match_shapes() {
    let m = Matrix::new(3, 5, 7i64);
    let z = matrix::zeros_like(m);
    assert_eq!(z.get_rows(), 3);
    assert_eq!(z.get_cols(), 5);
    for r in 0..3 {
        for c in 0..5 {
            assert_eq!(z.get(r, c).unwrap(), 0);
        }
    }
    let z2: Matrix<u8> = matrix::zeros(2, 2);
    assert!(z2.equals(&Matrix::new(2, 2, 0u8)));
}

#[test]
fn get_vector_returns_row_major_content() {
    let m = matrix::from(2, 2, &[1i64, 2, 3, 4]);
    assert_eq!(m.get_vector(), vec![1i64, 2, 3, 4]);
}

#[test]
fn clone_copies_shape_and_content() {
    let m = matrix::from(2, 2, &[1i64, 2, 3, 4]);
    let c = m.clone();
    assert!(m.equals(&c));
}

#[test]
fn random_has_requested_shape() {
    let m: Matrix<u8> = matrix::random(3, 5);
    assert_eq!(m.get_rows(), 3);
    assert_eq!(m.get_cols(), 5);
    assert_eq!(m.get_vector().len(), 15);
}
