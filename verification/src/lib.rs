//! Sparse symmetric matrices stored as a diagonal plus an edge list, with a
//! verified matrix-vector product.

pub mod array;
pub mod model;
pub mod sparse_symmetric_matrix;

pub use array::Vector;
pub use sparse_symmetric_matrix::SparseSymmetricMatrix;
