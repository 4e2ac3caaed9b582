use snake_net::error::NetworkError;
use snake_net::matrix::Matrix;

fn grid(rows: usize, cols: usize, cells: &[i64]) -> Matrix<i64> {
    Matrix::from_vec(rows, cols, cells.to_vec()).unwrap()
}

fn cells(m: &Matrix<i64>) -> Vec<i64> {
    m.data().clone()
}

#[test]
fn from_vec_checks_the_element_count() {
    assert!(Matrix::from_vec(2, 3, vec![1i64; 6]).is_ok());
    assert_eq!(Matrix::from_vec(2, 3, vec![1i64; 5]).unwrap_err(), NetworkError::DimensionMismatch);
    assert_eq!(Matrix::from_vec(0, 3, Vec::<i64>::new()).unwrap_err(), NetworkError::DimensionMismatch);
    assert_eq!(Matrix::from_vec(3, 0, Vec::<i64>::new()).unwrap_err(), NetworkError::DimensionMismatch);
    assert_eq!(
        Matrix::from_vec(usize::MAX, 2, vec![1i64; 2]).unwrap_err(),
        NetworkError::DimensionMismatch
    );
}

#[test]
fn get_reads_row_major_cells() {
    let m = grid(2, 3, &[1, 2, 3, 4, 5, 6]);
    assert_eq!(m.rows(), 2);
    assert_eq!(m.cols(), 3);
    assert_eq!(m.get(0, 0), Some(1));
    assert_eq!(m.get(0, 2), Some(3));
    assert_eq!(m.get(1, 0), Some(4));
    assert_eq!(m.get(1, 2), Some(6));
    assert_eq!(m.get(2, 0), None);
    assert_eq!(m.get(0, 3), None);
}

#[test]
fn multiply_is_the_matrix_product() {
    let a = grid(2, 3, &[1, 2, 3, 4, 5, 6]);
    let b = grid(3, 2, &[7, 8, 9, 10, 11, 12]);
    let p = a.multiply(&b).unwrap();
    assert_eq!((p.rows(), p.cols()), (2, 2));
    assert_eq!(cells(&p), vec![58, 64, 139, 154]);
    let q = b.multiply(&a).unwrap();
    assert_eq!((q.rows(), q.cols()), (3, 3));
    assert_eq!(cells(&q), vec![39, 54, 69, 49, 68, 87, 59, 82, 105]);
}

#[test]
fn multiply_rejects_shapes_that_do_not_chain() {
    let a = grid(2, 3, &[1, 2, 3, 4, 5, 6]);
    assert_eq!(a.multiply(&a).unwrap_err(), NetworkError::DimensionMismatch);
}

#[test]
fn multiply_by_identity_gives_the_matrix_back() {
    let a = grid(2, 3, &[1, -2, 3, 4, 5, -6]);
    let right = grid(3, 3, &[1, 0, 0, 0, 1, 0, 0, 0, 1]);
    let left = grid(2, 2, &[1, 0, 0, 1]);
    assert_eq!(cells(&a.multiply(&right).unwrap()), cells(&a));
    assert_eq!(cells(&left.multiply(&a).unwrap()), cells(&a));
}

#[test]
fn elementwise_operations_combine_cell_by_cell() {
    let a = grid(2, 2, &[1, 2, 3, 4]);
    let b = grid(2, 2, &[10, 20, 30, 40]);
    assert_eq!(cells(&a.add(&b).unwrap()), vec![11, 22, 33, 44]);
    assert_eq!(cells(&a.subtract(&b).unwrap()), vec![-9, -18, -27, -36]);
    assert_eq!(cells(&b.subtract(&a).unwrap()), vec![9, 18, 27, 36]);
    assert_eq!(cells(&a.hadamard(&b).unwrap()), vec![10, 40, 90, 160]);
    assert_eq!(cells(&a.scale(3)), vec![3, 6, 9, 12]);
}

#[test]
fn elementwise_operations_reject_different_shapes() {
    let a = grid(2, 3, &[1, 2, 3, 4, 5, 6]);
    let b = grid(3, 2, &[1, 2, 3, 4, 5, 6]);
    assert_eq!(a.add(&b).unwrap_err(), NetworkError::DimensionMismatch);
    assert_eq!(a.subtract(&b).unwrap_err(), NetworkError::DimensionMismatch);
    assert_eq!(a.hadamard(&b).unwrap_err(), NetworkError::DimensionMismatch);
}

#[test]
fn transpose_exchanges_rows_and_columns() {
    let a = grid(2, 3, &[1, 2, 3, 4, 5, 6]);
    let t = a.transpose();
    assert_eq!((t.rows(), t.cols()), (3, 2));
    assert_eq!(cells(&t), vec![1, 4, 2, 5, 3, 6]);
}

#[test]
fn transpose_twice_gives_the_matrix_back() {
    let a = grid(3, 4, &[1, 2, 3, 4, 5, 6, 7, 8, 9, 10, 11, 12]);
    let back = a.transpose().transpose();
    assert_eq!((back.rows(), back.cols()), (3, 4));
    assert_eq!(cells(&back), cells(&a));
}

#[test]
fn map_applies_the_function_to_every_cell() {
    let a = grid(2, 2, &[1, 2, 3, 4]);
    let m = a.map(&|x: i64| x * x + 1);
    assert_eq!((m.rows(), m.cols()), (2, 2));
    assert_eq!(cells(&m), vec![2, 5, 10, 17]);
    assert_eq!(cells(&a), vec![1, 2, 3, 4]);
}

#[test]
fn column_vectors_convert_both_ways() {
    let v = vec![7i64, 8, 9];
    let m = Matrix::from_column_vector(&v).unwrap();
    assert_eq!((m.rows(), m.cols()), (3, 1));
    assert_eq!(m.to_flat_vector().unwrap(), v);
    assert_eq!(
        Matrix::from_column_vector(&Vec::<i64>::new()).unwrap_err(),
        NetworkError::DimensionMismatch
    );
    let wide = grid(1, 3, &[7, 8, 9]);
    assert_eq!(wide.to_flat_vector().unwrap_err(), NetworkError::DimensionMismatch);
}

#[test]
fn random_draws_every_cell_from_the_sampler() {
    let m = Matrix::random(3, 2, &|| 5i64).unwrap();
    assert_eq!((m.rows(), m.cols()), (3, 2));
    assert_eq!(cells(&m), vec![5; 6]);
    assert_eq!(Matrix::random(0, 2, &|| 5i64).unwrap_err(), NetworkError::DimensionMismatch);
    assert_eq!(Matrix::random(2, 0, &|| 5i64).unwrap_err(), NetworkError::DimensionMismatch);
}

#[test]
fn integer_arithmetic_wraps() {
    let a = grid(1, 1, &[i64::MAX]);
    let b = grid(1, 1, &[1]);
    assert_eq!(cells(&a.add(&b).unwrap()), vec![i64::MIN]);
    assert_eq!(cells(&a.scale(2)), vec![-2]);
}
