use geometry::matrix::Matrix;
use geometry::vector::Vector;

fn entries<const M: usize, const N: usize>(m: &Matrix<M, N>) -> Vec<Vec<i64>> {
    let mut rows = Vec::new();
    for r in 0..M {
        let mut row = Vec::new();
        for c in 0..N {
            row.push(m.get(r, c).unwrap());
        }
        rows.push(row);
    }
    rows
}

#[test]
fn zero_matrix() {
    let m: Matrix<2, 3> = Matrix::zero();
    assert_eq!(entries(&m), vec![vec![0, 0, 0], vec![0, 0, 0]]);
}

#[test]
fn identity_matrix() {
    let m: Matrix<3, 3> = Matrix::identity();
    assert_eq!(entries(&m), vec![vec![1, 0, 0], vec![0, 1, 0], vec![0, 0, 1]]);
}

#[test]
fn identity_times_identity_is_identity() {
    let product = Matrix::<3, 3>::identity().mul_matrix(Matrix::<3, 3>::identity());
    assert_eq!(entries(&product), entries(&Matrix::<3, 3>::identity()));
}

#[test]
fn identity_is_left_and_right_neutral() {
    let m = Matrix::from([[1i64, 2, 3], [4, 5, 6]]);
    assert_eq!(entries(&Matrix::<2, 2>::identity().mul_matrix(m)), entries(&m));
    assert_eq!(entries(&m.mul_matrix(Matrix::<3, 3>::identity())), entries(&m));
}

#[test]
fn matrix_multiply_concrete() {
    let a = Matrix::from((1i64, 2i64, 3i64, 4i64));
    let b = Matrix::from((5i64, 6i64, 7i64, 8i64));
    assert_eq!(entries(&a.mul_matrix(b)), vec![vec![19, 22], vec![43, 50]]);
}

#[test]
fn matrix_multiply_is_associative() {
    let a = Matrix::from([[1i64, -2, 3], [0, 4, -1]]);
    let b = Matrix::from([[2i64, 1], [-3, 5], [7, 0]]);
    let c = Matrix::from([[4i64, -1, 2, 0], [1, 3, -2, 5]]);
    let left = a.mul_matrix(b).mul_matrix(c);
    let right = a.mul_matrix(b.mul_matrix(c));
    assert_eq!(entries(&left), entries(&right));
}

#[test]
fn matrix_vector_multiply() {
    let m = Matrix::from([[1i64, 2], [3, 4], [5, 6]]);
    let v = Vector::from((7i64, 8i64));
    assert_eq!(m.mul_vector(v).components(), vec![23, 53, 83]);
}

#[test]
fn identity_fixes_every_vector() {
    let m: Matrix<3, 3> = Matrix::identity();
    let v = Vector::from((9i64, -4i64, 17i64));
    assert_eq!(m.mul_vector(v).components(), vec![9, -4, 17]);
}

#[test]
fn scale_matrix() {
    let m: Matrix<3, 3> = Matrix::scale(5);
    assert_eq!(entries(&m), vec![vec![5, 0, 0], vec![0, 5, 0], vec![0, 0, 5]]);
}

#[test]
fn scale_xy_xyz_xyzw() {
    assert_eq!(entries(&Matrix::scale_xy(2, 3)), vec![vec![2, 0], vec![0, 3]]);
    assert_eq!(
        entries(&Matrix::scale_xyz(2, 3, 4)),
        vec![vec![2, 0, 0], vec![0, 3, 0], vec![0, 0, 4]]
    );
    assert_eq!(
        entries(&Matrix::scale_xyzw(2, 3, 4, 5)),
        vec![
            vec![2, 0, 0, 0],
            vec![0, 3, 0, 0],
            vec![0, 0, 4, 0],
            vec![0, 0, 0, 5]
        ]
    );
}

#[test]
fn matrix_add_sub() {
    let a = Matrix::from((1i64, 2i64, 3i64, 4i64));
    let b = Matrix::from((10i64, 20i64, 30i64, 40i64));
    assert_eq!(entries(&a.add(b)), vec![vec![11, 22], vec![33, 44]]);
    assert_eq!(entries(&b.sub(a)), vec![vec![9, 18], vec![27, 36]]);
}

#[test]
fn matrix_add_assign_sub_assign() {
    let mut m = Matrix::from([[1i64, 1], [1, 1]]);
    m.add_assign(Matrix::from([[2i64, 3], [4, 5]]));
    assert_eq!(entries(&m), vec![vec![3, 4], vec![5, 6]]);
    m.sub_assign(Matrix::from([[1i64, 1], [1, 1]]));
    assert_eq!(entries(&m), vec![vec![2, 3], vec![4, 5]]);
}

#[test]
fn matrix_scalar_multiply() {
    let m = Matrix::from([[1i64, -2], [3, 0]]);
    assert_eq!(entries(&m.mul_scalar(-3)), vec![vec![-3, 6], vec![-9, 0]]);
    let mut n = Matrix::from([[2i64, 4], [6, 8]]);
    n.mul_scalar_assign(10);
    assert_eq!(entries(&n), vec![vec![20, 40], vec![60, 80]]);
}

#[test]
fn matrix_get_out_of_range_is_none() {
    let m: Matrix<2, 3> = Matrix::zero();
    assert_eq!(m.get(2, 0), None);
    assert_eq!(m.get(0, 3), None);
    assert_eq!(m.get(2, 3), None);
    assert_eq!(m.get(usize::MAX, 0), None);
}

#[test]
fn matrix_set_in_and_out_of_range() {
    let mut m: Matrix<2, 2> = Matrix::zero();
    assert!(m.set(0, 1, 9));
    assert_eq!(entries(&m), vec![vec![0, 9], vec![0, 0]]);
    assert!(!m.set(2, 0, 7));
    assert!(!m.set(0, 2, 7));
    assert_eq!(entries(&m), vec![vec![0, 9], vec![0, 0]]);
}

#[test]
fn from_rows() {
    let m = Matrix::from([[1i64, 2, 3], [4, 5, 6]]);
    assert_eq!(entries(&m), vec![vec![1, 2, 3], vec![4, 5, 6]]);
}
