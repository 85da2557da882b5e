# spmv

Sparse symmetric matrices over `i64`, stored as a diagonal plus a list of
off-diagonal edges `(i, j, value)` with `i < j`, and their matrix-vector
product, verified with Verus.

- `src/model.rs`: the mathematical model (`MatrixView`), dense entries,
  the product `A * x`, and the lemmas relating the edge-by-edge product to it.
- `src/sparse_symmetric_matrix.rs`: `SparseSymmetricMatrix` and its operations.
- `src/array.rs`: `Vector`, a one-dimensional `ndarray` array of `i64`.
- `app/lib.rs`: the floating-point distance computation from kernel values.
