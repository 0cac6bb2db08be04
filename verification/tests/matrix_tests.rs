use gfxcore::matrix::{MatrixError, TMat};

type M22 = TMat<i64, 2, 2>;
type M23 = TMat<i64, 2, 3>;
type M32 = TMat<i64, 3, 2>;

#[test]
fn try_from_accepts_exact_length() {
    let m = M22::try_from(vec![1, 2, 3, 4]).unwrap();
    assert_eq!(m.at(0, 0), 1);
    assert_eq!(m.at(1, 0), 2);
    assert_eq!(m.at(0, 1), 3);
    assert_eq!(m.at(1, 1), 4);
}

#[test]
fn try_from_rejects_wrong_length() {
    let r = M22::try_from(vec![1, 2, 3]);
    assert_eq!(r, Err(MatrixError::DimensionMismatch));
    let r = M22::try_from(vec![1, 2, 3, 4, 5]);
    assert_eq!(r, Err(MatrixError::DimensionMismatch));
}

#[test]
fn flat_round_trip() {
    let flat = vec![7, -1, 0, 42, 9, 13];
    let m = M23::try_from(flat.clone()).unwrap();
    assert_eq!(m.flatten(), flat);
}

#[test]
fn from_nested_takes_one_array_per_column() {
    let m = M23::from_nested([[1, 2], [3, 4], [5, 6]]);
    assert_eq!(m.flatten(), vec![1, 2, 3, 4, 5, 6]);
    assert_eq!(m.at(0, 2), 5);
    assert_eq!(m.at(1, 1), 4);
}

#[test]
fn fill_and_new() {
    let m = M22::fill(5);
    assert_eq!(m.flatten(), vec![5, 5, 5, 5]);
    let z = M22::new();
    assert_eq!(z.flatten(), vec![0, 0, 0, 0]);
}

#[test]
fn set_at_replaces_one_entry() {
    let mut m = M22::new();
    m.set_at(1, 0, 8);
    assert_eq!(m.flatten(), vec![0, 8, 0, 0]);
}

#[test]
fn transpose_swaps_rows_and_columns() {
    // Column-major: columns are [1, 2] and [3, 4] and [5, 6].
    let m = M23::try_from(vec![1, 2, 3, 4, 5, 6]).unwrap();
    let t: M32 = m.transpose();
    assert_eq!(t.at(0, 0), 1);
    assert_eq!(t.at(0, 1), 2);
    assert_eq!(t.at(1, 0), 3);
    assert_eq!(t.at(1, 1), 4);
    assert_eq!(t.at(2, 0), 5);
    assert_eq!(t.at(2, 1), 6);
}

#[test]
fn transpose_twice_is_identity() {
    let m = M23::try_from(vec![1, -2, 3, -4, 5, -6]).unwrap();
    let back: M23 = m.transpose().transpose();
    assert_eq!(back.flatten(), m.flatten());
}

#[test]
fn entrywise_operations() {
    let a = M22::try_from(vec![1, 2, 3, 4]).unwrap();
    let b = M22::try_from(vec![10, 20, 30, 40]).unwrap();
    assert_eq!(a.add_mat(&b).flatten(), vec![11, 22, 33, 44]);
    assert_eq!(b.sub_mat(&a).flatten(), vec![9, 18, 27, 36]);
    assert_eq!(a.mul_mat(&b).flatten(), vec![10, 40, 90, 160]);
    assert_eq!(a.add_scalar(1).flatten(), vec![2, 3, 4, 5]);
    assert_eq!(a.sub_scalar(1).flatten(), vec![0, 1, 2, 3]);
    assert_eq!(a.mul_scalar(3).flatten(), vec![3, 6, 9, 12]);
    assert_eq!(b.div_scalar(10).flatten(), vec![1, 2, 3, 4]);
}

#[test]
fn matmul_square() {
    // Columns [1, 3] and [2, 4]: the matrix ((1, 2), (3, 4)).
    let a = M22::try_from(vec![1, 3, 2, 4]).unwrap();
    // The matrix ((5, 6), (7, 8)).
    let b = M22::try_from(vec![5, 7, 6, 8]).unwrap();
    // ((1*5+2*7, 1*6+2*8), (3*5+4*7, 3*6+4*8)) = ((19, 22), (43, 50)).
    let p = M22::matmul(&a, &b);
    assert_eq!(p.flatten(), vec![19, 43, 22, 50]);
    let p2 = a.mm(&b);
    assert_eq!(p2.flatten(), vec![19, 43, 22, 50]);
}

#[test]
fn matmul_rectangular() {
    // 2x3 times 3x2 gives 2x2.
    let a = M23::try_from(vec![1, 4, 2, 5, 3, 6]).unwrap();
    let b = M32::try_from(vec![7, 9, 11, 8, 10, 12]).unwrap();
    let p: M22 = a.mm(&b);
    // Row (1,2,3) dot column (7,9,11) = 7 + 18 + 33 = 58, and so on.
    assert_eq!(p.flatten(), vec![58, 139, 64, 154]);
}

#[test]
fn matmul_is_associative() {
    let a = M22::try_from(vec![1, 3, 2, 4]).unwrap();
    let b = M22::try_from(vec![5, 7, 6, 8]).unwrap();
    let c = M22::try_from(vec![-1, 2, 0, 3]).unwrap();
    let left = a.mm(&b).mm(&c);
    let right = a.mm(&b.mm(&c));
    assert_eq!(left.flatten(), right.flatten());
}
