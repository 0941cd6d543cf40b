use raytracer::units::matrix::Matrix;

#[test]
fn from() {
    let m = Matrix::from([
        [1.0, 2.0, 3.0, 4.0],
        [5.5, 6.5, 7.5, 8.5],
        [9.0, 10.0, 11.0, 12.0],
        [13.5, 14.5, 15.5, 16.5],
    ]);
    assert_eq!(m[0][0], 1.0);
}

#[test]
fn cmp() {
    let a = Matrix::from([
        [1.0, 2.0, 3.0, 4.0],
        [5.0, 6.0, 7.0, 8.0],
        [9.0, 10.0, 11.0, 12.0],
        [13.0, 14.0, 15.0, 16.0],
    ]);
    let b = Matrix::from([
        [1.0, 2.0, 3.0, 4.0],
        [5.0, 6.0, 7.0, 8.0],
        [9.0, 10.0, 11.0, 12.0],
        [13.0, 14.0, 15.0, 16.0],
    ]);
    assert_eq!(a, b);

    let c = Matrix::from([
        [3.0, 2.0, 3.0, 4.0],
        [5.0, 6.0, 7.0, 8.0],
        [9.0, 10.0, 11.0, 12.0],
        [13.0, 14.0, 15.0, 16.0],
    ]);
    assert!(a != c);
}

#[test]
fn transpose() {
    let a = Matrix::from([
        [0.0, 9.0, 3.0, 0.0],
        [9.0, 8.0, 0.0, 8.0],
        [1.0, 8.0, 5.0, 3.0],
        [0.0, 0.0, 5.0, 8.0],
    ])
    .transpose();

    let b = Matrix::from([
        [0.0, 9.0, 1.0, 0.0],
        [9.0, 8.0, 8.0, 0.0],
        [3.0, 0.0, 5.0, 5.0],
        [0.0, 8.0, 3.0, 8.0],
    ]);

    assert_eq!(a, b);
}

#[test]
fn submatrix() {
    let a = Matrix::from([[1.0, 5.0, 0.0], [-3.0, 2.0, 7.0], [0.0, 6.0, -3.0]]);
    let s = Matrix::from([[-3.0, 2.0], [0.0, 6.0]]);
    assert_eq!(a.submatrix(0, 2), s);

    let a = Matrix::from([
        [-6., 1., 1., 6.],
        [-8., 5., 8., 6.],
        [-1., 0., 8., 2.],
        [-7., 1., -1., 1.],
    ]);
    let s = Matrix::from([[-6., 1., 6.], [-8., 8., 6.], [-7., -1., 1.]]);
    assert_eq!(a.submatrix(2, 1), s);
}

#[test]
fn new_matrix_holds_defaults() {
    let m: Matrix<i32> = Matrix::new(3, 2);
    assert_eq!(m.width, 3);
    assert_eq!(m.height, 2);
    assert_eq!(m.data, [[0; 4]; 4]);
}

#[test]
fn smaller_grids_are_padded() {
    let m = Matrix::from([[1, 2], [3, 4]]);
    assert_eq!((m.width, m.height), (2, 2));
    assert_eq!(m.data, [[1, 2, 0, 0], [3, 4, 0, 0], [0; 4], [0; 4]]);
    let m = Matrix::from([[1, 2, 3], [4, 5, 6], [7, 8, 9]]);
    assert_eq!((m.width, m.height), (3, 3));
    assert_eq!(m.data, [[1, 2, 3, 0], [4, 5, 6, 0], [7, 8, 9, 0], [0; 4]]);
    assert_eq!(m[2], [7, 8, 9, 0]);
}

#[test]
fn transpose_twice_is_the_grid() {
    let m = Matrix::from([[1, 2, 3], [4, 5, 6], [7, 8, 9]]);
    assert_eq!(m.transpose().data, [[1, 4, 7, 0], [2, 5, 8, 0], [3, 6, 9, 0], [0; 4]]);
    assert_eq!(m.transpose().transpose(), m);
}

#[test]
fn transpose_of_a_flat_grid_keeps_its_sizes() {
    // two columns, one row
    let mut m: Matrix<i32> = Matrix::new(2, 1);
    m.data[0] = [5, 6, 0, 0];
    let t = m.transpose();
    assert_eq!((t.width, t.height), (2, 1));
    assert_eq!(t.data, [[5, 0, 0, 0], [6, 0, 0, 0], [0; 4], [0; 4]]);
}

#[test]
fn submatrix_of_the_last_row_and_column() {
    let m = Matrix::from([[1, 2, 3], [4, 5, 6], [7, 8, 9]]);
    assert_eq!(m.submatrix(2, 2), Matrix::from([[1, 2], [4, 5]]));
    // an index behind the grid takes nothing out but the last row and column
    assert_eq!(m.submatrix(7, 9), Matrix::from([[1, 2], [4, 5]]));
    let one = Matrix::from([[1, 2], [3, 4]]).submatrix(0, 0);
    assert_eq!((one.width, one.height), (1, 1));
    assert_eq!(one.data[0][0], 4);
}

#[test]
fn cofactor_sign_alternates() {
    assert!(!Matrix::<i32>::cofactor_negates(0, 0));
    assert!(Matrix::<i32>::cofactor_negates(1, 0));
    assert!(Matrix::<i32>::cofactor_negates(0, 1));
    assert!(!Matrix::<i32>::cofactor_negates(1, 1));
    assert!(Matrix::<i32>::cofactor_negates(2, 3));
}
