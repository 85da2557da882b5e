use spmv::SparseSymmetricMatrix;
use spmv::Vector;

fn values(v: &Vector) -> Vec<i64> {
    let mut out = Vec::new();
    for i in 0..v.len() {
        out.push(v.get(i));
    }
    out
}

/// The 3x3 matrix [[2, 1, 0], [1, 2, 1], [0, 1, 2]].
fn tridiagonal() -> SparseSymmetricMatrix {
    let mut matrix = SparseSymmetricMatrix::new(3);
    matrix.set_diagonal(0, 2);
    matrix.set_diagonal(1, 2);
    matrix.set_diagonal(2, 2);
    matrix.add_edge(0, 1, 1);
    matrix.add_edge(1, 2, 1);
    matrix
}

#[test]
fn test_new() {
    let matrix = SparseSymmetricMatrix::new(3);
    assert_eq!(matrix.dim(), 3);
    assert_eq!(matrix.edges().len(), 0);
    assert_eq!(matrix.diagonal().len(), 3);
}

#[test]
fn test_multiply_identity() {
    let mut matrix = SparseSymmetricMatrix::new(3);
    matrix.set_diagonal(0, 1);
    matrix.set_diagonal(1, 1);
    matrix.set_diagonal(2, 1);

    let x = Vector::from_vec(vec![1, 2, 3]);
    let y = matrix.multiply(&x);

    assert_eq!(y.get(0), 1);
    assert_eq!(y.get(1), 2);
    assert_eq!(y.get(2), 3);
}

#[test]
fn test_multiply_with_edges() {
    let matrix = tridiagonal();

    let x = Vector::from_vec(vec![1, 2, 3]);
    let y = matrix.multiply(&x);

    // y[0] = 2*1 + 1*2 = 4
    // y[1] = 1*1 + 2*2 + 1*3 = 8
    // y[2] = 1*2 + 2*3 = 8
    assert_eq!(y.get(0), 4);
    assert_eq!(y.get(1), 8);
    assert_eq!(y.get(2), 8);
}

#[test]
fn test_multiply_into() {
    let matrix = tridiagonal();

    let x = Vector::from_vec(vec![1, 2, 3]);
    let mut y = Vector::zeros(3);
    matrix.multiply_into(&x, &mut y);

    assert_eq!(y.get(0), 4);
    assert_eq!(y.get(1), 8);
    assert_eq!(y.get(2), 8);
}

#[test]
fn test_scale_and_shift() {
    let mut matrix = SparseSymmetricMatrix::new(2);
    matrix.set_diagonal(0, 2);
    matrix.set_diagonal(1, 2);
    matrix.add_edge(0, 1, 1);

    // Create (2*A) - I
    let scaled = matrix.scale_and_shift(2, 1);

    // Diagonal should be 2*2 - 1 = 3
    assert_eq!(scaled.diagonal()[0], 3);
    assert_eq!(scaled.diagonal()[1], 3);

    // Off-diagonal should be 2*1 = 2
    assert_eq!(scaled.edges()[0].2, 2);
}

#[test]
fn new_is_zero_matrix() {
    let matrix = SparseSymmetricMatrix::new(4);
    assert_eq!(matrix.diagonal(), &[0, 0, 0, 0]);
    let y = matrix.multiply(&Vector::from_vec(vec![5, -6, 7, 8]));
    assert_eq!(values(&y), vec![0, 0, 0, 0]);
}

#[test]
fn new_of_dimension_zero() {
    let matrix = SparseSymmetricMatrix::new(0);
    assert_eq!(matrix.dim(), 0);
    let y = matrix.multiply(&Vector::from_vec(vec![]));
    assert_eq!(y.len(), 0);
}

#[test]
fn from_parts_keeps_its_parts() {
    let matrix = SparseSymmetricMatrix::from_parts(3, vec![(0, 2, 5), (1, 2, -1)], vec![1, 2, 3]);
    assert_eq!(matrix.dim(), 3);
    assert_eq!(matrix.edges(), &[(0, 2, 5), (1, 2, -1)]);
    assert_eq!(matrix.diagonal(), &[1, 2, 3]);
    // [[1, 0, 5], [0, 2, -1], [5, -1, 3]] * [1, 1, 1]
    let y = matrix.multiply(&Vector::from_vec(vec![1, 1, 1]));
    assert_eq!(values(&y), vec![6, 1, 7]);
}

#[test]
fn add_to_diagonal_accumulates() {
    let mut matrix = SparseSymmetricMatrix::new(2);
    matrix.set_diagonal(1, 4);
    matrix.add_to_diagonal(1, 3);
    matrix.add_to_diagonal(0, -2);
    assert_eq!(matrix.diagonal(), &[-2, 7]);
}

#[test]
fn set_diagonal_overwrites() {
    let mut matrix = SparseSymmetricMatrix::new(2);
    matrix.add_to_diagonal(0, 9);
    matrix.set_diagonal(0, 1);
    assert_eq!(matrix.diagonal(), &[1, 0]);
}

#[test]
fn add_edge_appends_in_order() {
    let mut matrix = SparseSymmetricMatrix::new(3);
    matrix.add_edge(1, 2, 7);
    matrix.add_edge(0, 1, -3);
    assert_eq!(matrix.edges(), &[(1, 2, 7), (0, 1, -3)]);
    assert_eq!(matrix.diagonal(), &[0, 0, 0]);
}

#[test]
fn duplicate_edges_add_up() {
    let mut matrix = SparseSymmetricMatrix::new(2);
    matrix.add_edge(0, 1, 2);
    matrix.add_edge(0, 1, 3);
    // [[0, 5], [5, 0]] * [1, 10]
    let y = matrix.multiply(&Vector::from_vec(vec![1, 10]));
    assert_eq!(values(&y), vec![50, 5]);
}

#[test]
fn product_is_symmetric_in_unit_vectors() {
    // A[i, j] = (A * e_j)[i] = (A * e_i)[j]
    let matrix = SparseSymmetricMatrix::from_parts(3, vec![(0, 2, 4), (0, 1, -2), (1, 2, 9)], vec![1, 2, 3]);
    for i in 0..3 {
        for j in 0..3 {
            let mut ei = vec![0; 3];
            ei[i] = 1;
            let mut ej = vec![0; 3];
            ej[j] = 1;
            let col_j = matrix.multiply(&Vector::from_vec(ej));
            let col_i = matrix.multiply(&Vector::from_vec(ei));
            assert_eq!(col_j.get(i), col_i.get(j));
        }
    }
}

#[test]
fn multiply_into_overwrites_previous_contents() {
    let matrix = tridiagonal();
    let x = Vector::from_vec(vec![1, 2, 3]);
    let mut y = Vector::from_vec(vec![100, -100, 7]);
    matrix.multiply_into(&x, &mut y);
    assert_eq!(values(&y), values(&matrix.multiply(&x)));
    assert_eq!(values(&y), vec![4, 8, 8]);
}

#[test]
fn negative_values_multiply() {
    let matrix = SparseSymmetricMatrix::from_parts(2, vec![(0, 1, -4)], vec![-1, 3]);
    // [[-1, -4], [-4, 3]] * [2, -5]
    let y = matrix.multiply(&Vector::from_vec(vec![2, -5]));
    assert_eq!(values(&y), vec![18, -23]);
}

#[test]
fn scaled_shifted_product_is_scaled_product_minus_shift() {
    let matrix = tridiagonal();
    let x = Vector::from_vec(vec![1, 2, 3]);
    let scaled = matrix.scale_and_shift(3, 2);
    assert_eq!(scaled.dim(), 3);
    assert_eq!(scaled.diagonal(), &[4, 4, 4]);
    assert_eq!(scaled.edges(), &[(0, 1, 3), (1, 2, 3)]);
    // 3 * [4, 8, 8] - 2 * [1, 2, 3]
    assert_eq!(values(&scaled.multiply(&x)), vec![10, 20, 18]);
}

#[test]
fn scale_and_shift_leaves_original_unchanged() {
    let matrix = tridiagonal();
    let _ = matrix.scale_and_shift(-1, 5);
    assert_eq!(matrix.diagonal(), &[2, 2, 2]);
    assert_eq!(matrix.edges(), &[(0, 1, 1), (1, 2, 1)]);
}

#[test]
fn vector_round_trip() {
    let v = Vector::from_vec(vec![3, -1, 4]);
    assert_eq!(v.len(), 3);
    assert_eq!(values(&v), vec![3, -1, 4]);
    let z = Vector::zeros(2);
    assert_eq!(values(&z), vec![0, 0]);
}

#[test]
fn clone_is_an_independent_copy() {
    let matrix = tridiagonal();
    let mut copy = matrix.clone();
    assert_eq!(copy.dim(), 3);
    assert_eq!(copy.edges(), matrix.edges());
    assert_eq!(copy.diagonal(), matrix.diagonal());
    copy.add_edge(0, 2, 5);
    copy.set_diagonal(1, -1);
    assert_eq!(matrix.edges(), &[(0, 1, 1), (1, 2, 1)]);
    assert_eq!(matrix.diagonal(), &[2, 2, 2]);
    assert_eq!(copy.edges(), &[(0, 1, 1), (1, 2, 1), (0, 2, 5)]);
}

#[test]
fn debug_is_available() {
    let matrix = SparseSymmetricMatrix::new(1);
    assert!(!format!("{:?}", matrix).is_empty());
    assert!(!format!("{:?}", Vector::zeros(1)).is_empty());
}

#[test]
fn product_is_linear() {
    let matrix = SparseSymmetricMatrix::from_parts(3, vec![(0, 2, 4), (0, 1, -2), (1, 2, 9)], vec![1, 2, 3]);
    let x = vec![1, -2, 3];
    let z = vec![4, 0, -5];
    let sum: Vec<i64> = x.iter().zip(z.iter()).map(|(a, b)| a + b).collect();
    let scaled: Vec<i64> = x.iter().map(|a| 7 * a).collect();
    let ax = values(&matrix.multiply(&Vector::from_vec(x)));
    let az = values(&matrix.multiply(&Vector::from_vec(z)));
    let a_sum = values(&matrix.multiply(&Vector::from_vec(sum)));
    let a_scaled = values(&matrix.multiply(&Vector::from_vec(scaled)));
    for r in 0..3 {
        assert_eq!(a_sum[r], ax[r] + az[r]);
        assert_eq!(a_scaled[r], 7 * ax[r]);
    }
}

#[test]
fn vector_set_and_to_vec() {
    let mut v = Vector::zeros(3);
    v.set(1, 42);
    v.set(2, -7);
    assert_eq!(v.to_vec(), vec![0, 42, -7]);
    assert_eq!(v.get(1), 42);
}
