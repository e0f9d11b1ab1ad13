use ray_trace_challenge::matrix::{Axis, Matrix};

#[test]
fn test_transpose() {
    let i = vec![
        0.0, 9.0, 3.0, 0.0, 9.0, 8.0, 0.0, 8.0, 1.0, 8.0, 5.0, 3.0, 0.0, 0.0, 5.0, 8.0,
    ];
    let i = Matrix::from_iter(4, 4, i);
    let r = vec![
        0.0, 9.0, 1.0, 0.0, 9.0, 8.0, 8.0, 0.0, 3.0, 0.0, 5.0, 5.0, 0.0, 8.0, 3.0, 8.0,
    ];
    let r = Matrix::from_iter(4, 4, r);
    assert_eq!(i.transpose(), r);
}

#[test]
fn test_identity_transpose() {
    let out: Matrix<f64> = Matrix::identity(4, 0.0, 1.0);
    let out = out.transpose();
    assert_eq!(out, Matrix::identity(4, 0.0, 1.0));
}

#[test]
fn test_three_submatrix() {
    let i = Matrix::from_iter(3, 3, vec![1.0, 5.0, 0.0, -3.0, 2.0, 7.0, 0.0, 6.0, -3.0]);
    let p = Matrix::from_iter(2, 2, vec![-3.0, 2.0, 0.0, 6.0]);
    assert_eq!(i.submatrix(0, 2), p);
}

#[test]
fn test_four_submatrix() {
    let i = Matrix::from_iter(
        4,
        4,
        vec![
            -6.0, 1.0, 1.0, 6.0, -8.0, 5.0, 8.0, 6.0, -1.0, 0.0, 8.0, 2.0, -7.0, 1.0, -1.0, 1.0,
        ],
    );
    let p = Matrix::from_iter(3, 3, vec![-6.0, 1.0, 6.0, -8.0, 8.0, 6.0, -7.0, -1.0, 1.0]);
    assert_eq!(i.submatrix(2, 1), p);
}

#[test]
fn identity_has_ones_on_the_diagonal_only() {
    let m = Matrix::identity(3, 0i64, 1i64);
    for r in 0..3 {
        for c in 0..3 {
            assert_eq!(m.get(r, c), Some(if r == c { 1 } else { 0 }));
        }
    }
    assert_eq!(m.rows(), 3);
    assert_eq!(m.cols(), 3);
}

#[test]
fn from_iter_keeps_only_the_cells_needed() {
    let m = Matrix::from_iter(2, 2, vec![1, 2, 3, 4, 5, 6]);
    assert_eq!(m, Matrix::from_iter(2, 2, vec![1, 2, 3, 4]));
    assert_eq!(m.get(1, 0), Some(3));
}

#[test]
fn get_and_set_outside_the_matrix() {
    let mut m = Matrix::new(2, 3, 0u8);
    assert_eq!(m.get(2, 0), None);
    assert_eq!(m.get(0, 3), None);
    assert!(!m.set(0, 3, 9));
    assert_eq!(m, Matrix::new(2, 3, 0u8));
    assert!(m.set(1, 2, 9));
    assert_eq!(m.get(1, 2), Some(9));
    assert_eq!(m.get(2, 1), None);
}

#[test]
fn rows_and_columns() {
    let m = Matrix::from_iter(2, 3, vec![1, 2, 3, 4, 5, 6]);
    assert_eq!(m.get_row(1), Some(vec![4, 5, 6]));
    assert_eq!(m.get_col(2), Some(vec![3, 6]));
    assert_eq!(m.get_row(2), None);
    assert_eq!(m.get_col(3), None);
}

#[test]
fn transpose_of_a_wide_matrix() {
    let m = Matrix::from_iter(2, 3, vec![1, 2, 3, 4, 5, 6]);
    let t = m.transpose();
    assert_eq!(t, Matrix::from_iter(3, 2, vec![1, 4, 2, 5, 3, 6]));
    assert_eq!(t.transpose(), m);
}

#[test]
fn submatrix_of_a_corner() {
    let m = Matrix::from_iter(3, 3, vec![1, 2, 3, 4, 5, 6, 7, 8, 9]);
    assert_eq!(m.submatrix(0, 0), Matrix::from_iter(2, 2, vec![5, 6, 8, 9]));
    assert_eq!(m.submatrix(2, 2), Matrix::from_iter(2, 2, vec![1, 2, 4, 5]));
}

#[test]
fn axes_are_distinct() {
    assert_ne!(Axis::X, Axis::Y);
    assert_ne!(Axis::Y, Axis::Z);
}
