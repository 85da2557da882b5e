//! Sparse symmetric matrix representation and operations.

use vstd::prelude::*;

use crate::array::{vector_contents, Vector};
use crate::model::{
    fits_i64, joins, lemma_edge_form_is_product, lemma_edge_weight_scaled, scale_edges, scaled_edges_fit,
    Edge, MatrixView,
};

verus! {

/// A sparse symmetric matrix represented in edge list format.
///
/// Only one of the two symmetric off-diagonal entries is stored, as an edge
/// `(i, j, value)` with `i < j`; `A[i, j] = A[j, i]` is the sum of the
/// values of the edges between `i` and `j`. The diagonal is stored densely.
#[derive(Debug)]
pub struct SparseSymmetricMatrix {
    /// Number of rows/columns in the matrix
    n: usize,
    /// Off-diagonal entries: (row, col, value) where row < col
    edges: Vec<Edge>,
    /// Diagonal entries: diagonal[i] is the (i,i) element
    diagonal: Vec<i64>,
}

impl Clone for SparseSymmetricMatrix {
    /// A copy of the matrix, with the same dimension, edges and diagonal.
    fn clone(&self) -> (m: Self)
        ensures
            m@ == self@,
    {
        proof {
            use_type_invariant(self);
        }
        let mut edges: Vec<Edge> = Vec::with_capacity(self.edges.len());
        let mut k: usize = 0;
        while k < self.edges.len()
            invariant
                k <= self.edges@.len(),
                edges@ == self.edges@.take(k as int),
            decreases self.edges@.len() - k,
        {
            edges.push(self.edges[k]);
            assert(self.edges@.take(k + 1) =~= self.edges@.take(k as int).push(self.edges@[k as int]));
            k = k + 1;
        }
        let mut diagonal: Vec<i64> = Vec::with_capacity(self.diagonal.len());
        let mut i: usize = 0;
        while i < self.diagonal.len()
            invariant
                i <= self.diagonal@.len(),
                diagonal@ == self.diagonal@.take(i as int),
            decreases self.diagonal@.len() - i,
        {
            diagonal.push(self.diagonal[i]);
            assert(self.diagonal@.take(i + 1) =~= self.diagonal@.take(i as int).push(self.diagonal@[i as int]));
            i = i + 1;
        }
        assert(self.edges@.take(self.edges@.len() as int) =~= self.edges@);
        assert(self.diagonal@.take(self.diagonal@.len() as int) =~= self.diagonal@);
        SparseSymmetricMatrix { n: self.n, edges, diagonal }
    }
}

impl View for SparseSymmetricMatrix {
    type V = MatrixView;

    closed spec fn view(&self) -> MatrixView {
        MatrixView { n: self.n as nat, edges: self.edges@, diagonal: self.diagonal@ }
    }
}

impl SparseSymmetricMatrix {
    /// Every constructor establishes, and every method keeps, the shape of
    /// [`MatrixView::wf`].
    #[verifier::type_invariant]
    spec fn inv(self) -> bool {
        self@.wf()
    }

    /// Creates the zero matrix of dimension `n` (no edges, a zero diagonal).
    pub fn new(n: usize) -> (m: Self)
        ensures
            m@.wf(),
            m@.n == n,
            m@.edges == Seq::<Edge>::empty(),
            m@.diagonal == Seq::new(n as nat, |i: int| 0i64),
            forall|i: int, j: int| 0 <= i < n && 0 <= j < n ==> #[trigger] m@.entry(i, j) == 0,
    {
        let mut diagonal: Vec<i64> = Vec::new();
        let mut k: usize = 0;
        while k < n
            invariant
                k <= n,
                diagonal@ == Seq::new(k as nat, |i: int| 0i64),
            decreases n - k,
        {
            diagonal.push(0);
            k = k + 1;
        }
        SparseSymmetricMatrix { n, edges: Vec::new(), diagonal }
    }

    /// Creates a sparse symmetric matrix from edges and diagonal elements.
    /// Every edge `(i, j, _)` must have `i < j < n`, and the diagonal must
    /// hold `n` entries.
    pub fn from_parts(n: usize, edges: Vec<Edge>, diagonal: Vec<i64>) -> (m: Self)
        requires
            forall|k: int|
                0 <= k < edges.len() ==> (#[trigger] edges@[k]).0 < edges@[k].1 && edges@[k].1 < n,
            diagonal.len() == n,
        ensures
            m@.wf(),
            m@.n == n,
            m@.edges == edges@,
            m@.diagonal == diagonal@,
    {
        SparseSymmetricMatrix { n, edges, diagonal }
    }

    /// Returns the dimension of the matrix.
    pub fn dim(&self) -> (r: usize)
        ensures
            r == self@.n,
            self@.wf(),
    {
        proof {
            use_type_invariant(self);
        }
        self.n
    }

    /// Sets the diagonal element at `(i, i)`.
    pub fn set_diagonal(&mut self, i: usize, value: i64)
        requires
            i < old(self)@.n,
        ensures
            final(self)@.wf(),
            final(self)@.n == old(self)@.n,
            final(self)@.edges == old(self)@.edges,
            final(self)@.diagonal == old(self)@.diagonal.update(i as int, value),
            forall|a: int, b: int|
                0 <= a < old(self)@.n && 0 <= b < old(self)@.n ==> #[trigger] final(self)@.entry(a, b)
                    == if a == i && b == i {
                    value as int
                } else {
                    old(self)@.entry(a, b)
                },
    {
        let (n, edges, mut diagonal) = self.take_parts();
        diagonal.set(i, value);
        assert(edges@ == old(self)@.edges);
        *self = SparseSymmetricMatrix { n, edges, diagonal };
    }

    /// Adds `value` to the diagonal element at `(i, i)`.
    pub fn add_to_diagonal(&mut self, i: usize, value: i64)
        requires
            i < old(self)@.n,
            fits_i64(old(self)@.diagonal[i as int] + value),
        ensures
            final(self)@.wf(),
            final(self)@.n == old(self)@.n,
            final(self)@.edges == old(self)@.edges,
            final(self)@.diagonal == old(self)@.diagonal.update(
                i as int,
                (old(self)@.diagonal[i as int] + value) as i64,
            ),
            forall|a: int, b: int|
                0 <= a < old(self)@.n && 0 <= b < old(self)@.n ==> #[trigger] final(self)@.entry(a, b)
                    == old(self)@.entry(a, b) + if a == i && b == i {
                    value as int
                } else {
                    0
                },
    {
        let (n, edges, mut diagonal) = self.take_parts();
        let d = diagonal[i] + value;
        diagonal.set(i, d);
        assert(edges@ == old(self)@.edges);
        *self = SparseSymmetricMatrix { n, edges, diagonal };
    }

    /// Adds an off-diagonal edge `(i, j, value)`, which adds `value` to both
    /// `A[i, j]` and `A[j, i]`. Requires `i < j < n`.
    pub fn add_edge(&mut self, i: usize, j: usize, value: i64)
        requires
            i < j,
            j < old(self)@.n,
        ensures
            final(self)@.wf(),
            final(self)@.n == old(self)@.n,
            final(self)@.edges == old(self)@.edges.push((i, j, value)),
            final(self)@.diagonal == old(self)@.diagonal,
            forall|a: int, b: int|
                0 <= a < old(self)@.n && 0 <= b < old(self)@.n ==> #[trigger] final(self)@.entry(a, b)
                    == old(self)@.entry(a, b) + if joins((i, j, value), a, b) {
                    value as int
                } else {
                    0
                },
    {
        let (n, mut edges, diagonal) = self.take_parts();
        edges.push((i, j, value));
        assert forall|k: int| 0 <= k < edges@.len() implies (#[trigger] edges@[k]).0 < edges@[k].1
            && edges@[k].1 < n by {
            if k < old(self)@.edges.len() {
                assert(edges@[k] == old(self)@.edges[k]);
            }
        }
        assert(edges@.drop_last() =~= old(self)@.edges);
        *self = SparseSymmetricMatrix { n, edges, diagonal };
    }

    /// Moves the parts out of `self`, leaving the empty matrix in its place.
    fn take_parts(&mut self) -> (parts: (usize, Vec<Edge>, Vec<i64>))
        ensures
            (MatrixView { n: parts.0 as nat, edges: parts.1@, diagonal: parts.2@ }) == old(self)@,
            old(self)@.wf(),
    {
        proof {
            use_type_invariant(&*self);
        }
        let mut parts = SparseSymmetricMatrix { n: 0, edges: Vec::new(), diagonal: Vec::new() };
        std::mem::swap(self, &mut parts);
        (parts.n, parts.edges, parts.diagonal)
    }

    /// Computes the matrix-vector product: y = A * x
    ///
    /// Row `i` starts from `diagonal[i] * x[i]`; each edge `(i, j, value)`
    /// then adds `value * x[j]` to row `i` and `value * x[i]` to row `j`.
    pub fn multiply(&self, x: &Vector) -> (y: Vector)
        requires
            self@.n <= isize::MAX,
            vector_contents(*x).len() == self@.n,
            self@.product_fits(vector_contents(*x)),
        ensures
            vector_contents(y).len() == self@.n,
            forall|r: int|
                0 <= r < self@.n ==> vector_contents(y)[r] == self@.product_at(
                    vector_contents(*x),
                    r,
                ),
    {
        proof {
            use_type_invariant(self);
        }
        let mut y = Vector::zeros(self.n);
        self.accumulate_product(x, &mut y);
        y
    }

    /// Computes the matrix-vector product in-place: y = A * x
    pub fn multiply_into(&self, x: &Vector, y: &mut Vector)
        requires
            vector_contents(*x).len() == self@.n,
            vector_contents(*old(y)).len() == self@.n,
            self@.product_fits(vector_contents(*x)),
        ensures
            vector_contents(*final(y)).len() == self@.n,
            forall|r: int|
                0 <= r < self@.n ==> vector_contents(*final(y))[r] == self@.product_at(
                    vector_contents(*x),
                    r,
                ),
    {
        proof {
            use_type_invariant(self);
        }
        self.accumulate_product(x, y);
    }

    /// Overwrites `y` with `A * x`: first the diagonal terms, then the
    /// contributions of the edges, in the order of the edge list.
    fn accumulate_product(&self, x: &Vector, y: &mut Vector)
        requires
            self@.wf(),
            vector_contents(*x).len() == self@.n,
            vector_contents(*old(y)).len() == self@.n,
            self@.product_fits(vector_contents(*x)),
        ensures
            vector_contents(*final(y)).len() == self@.n,
            forall|r: int|
                0 <= r < self@.n ==> vector_contents(*final(y))[r] == self@.product_at(
                    vector_contents(*x),
                    r,
                ),
    {
        let ghost xs = vector_contents(*x);
        let ghost v = self@;
        assert(v.edges.take(0) =~= Seq::<Edge>::empty());
        let mut i: usize = 0;
        while i < self.n
            invariant
                v == self@,
                xs == vector_contents(*x),
                v.wf(),
                xs.len() == v.n,
                v.product_fits(xs),
                v.edges.take(0) =~= Seq::<Edge>::empty(),
                i <= v.n,
                vector_contents(*y).len() == v.n,
                forall|r: int| 0 <= r < i ==> vector_contents(*y)[r] == v.partial_product_at(xs, 0, r),
            decreases v.n - i,
        {
            assert(fits_i64(v.partial_product_at(xs, 0, i as int)));
            let d = self.diagonal[i] * x.get(i);
            y.set(i, d);
            i = i + 1;
        }
        let mut k: usize = 0;
        while k < self.edges.len()
            invariant
                v == self@,
                xs == vector_contents(*x),
                v.wf(),
                xs.len() == v.n,
                v.product_fits(xs),
                k <= v.edges.len(),
                vector_contents(*y).len() == v.n,
                forall|r: int| 0 <= r < v.n ==> vector_contents(*y)[r] == v.partial_product_at(xs, k as int, r),
            decreases v.edges.len() - k,
        {
            let e = self.edges[k];
            let a = e.0;
            let b = e.1;
            let value = e.2;
            assert(v.edges[k as int] == e);
            assert(v.edges.take(k + 1).drop_last() =~= v.edges.take(k as int));
            assert(v.edges.take(k + 1).last() == e);
            assert(fits_i64(v.partial_product_at(xs, k + 1, a as int)));
            assert(fits_i64(v.partial_product_at(xs, k + 1, b as int)));
            let ya = y.get(a) + value * x.get(b);
            y.set(a, ya);
            let yb = y.get(b) + value * x.get(a);
            y.set(b, yb);
            k = k + 1;
        }
        assert(v.edges.take(v.edges.len() as int) =~= v.edges);
        assert forall|r: int| 0 <= r < v.n implies vector_contents(*y)[r] == v.product_at(xs, r) by {
            lemma_edge_form_is_product(v, xs, r);
        }
    }

    /// Creates a scaled and shifted matrix: (scale * A) - shift * I
    ///
    /// Every edge value is multiplied by `scale`; every diagonal entry `d`
    /// becomes `scale * d - shift`.
    pub fn scale_and_shift(&self, scale: i64, shift: i64) -> (m: Self)
        requires
            scaled_edges_fit(self@.edges, scale),
            forall|i: int|
                0 <= i < self@.n ==> fits_i64(scale * #[trigger] self@.diagonal[i]) && fits_i64(
                    scale * self@.diagonal[i] - shift,
                ),
        ensures
            m@.wf(),
            m@.n == self@.n,
            m@.edges == scale_edges(self@.edges, scale),
            m@.diagonal == self@.diagonal.map_values(|d: i64| (scale * d - shift) as i64),
            forall|i: int, j: int|
                0 <= i < self@.n && 0 <= j < self@.n ==> #[trigger] m@.entry(i, j) == scale
                    * self@.entry(i, j) - if i == j {
                    shift as int
                } else {
                    0
                },
    {
        proof {
            use_type_invariant(self);
        }
        let ghost v = self@;
        let mut edges: Vec<Edge> = Vec::with_capacity(self.edges.len());
        let mut k: usize = 0;
        while k < self.edges.len()
            invariant
                v == self@,
                scaled_edges_fit(v.edges, scale),
                k <= v.edges.len(),
                edges@ == scale_edges(v.edges.take(k as int), scale),
            decreases v.edges.len() - k,
        {
            let e = self.edges[k];
            assert(v.edges[k as int] == e);
            assert(fits_i64(scale * v.edges[k as int].2));
            edges.push((e.0, e.1, scale * e.2));
            assert(v.edges.take(k + 1) =~= v.edges.take(k as int).push(e));
            k = k + 1;
        }
        assert(v.edges.take(v.edges.len() as int) =~= v.edges);
        let mut diagonal: Vec<i64> = Vec::with_capacity(self.n);
        let mut i: usize = 0;
        while i < self.diagonal.len()
            invariant
                v == self@,
                v.wf(),
                forall|t: int|
                    0 <= t < v.n ==> fits_i64(scale * #[trigger] v.diagonal[t]) && fits_i64(
                        scale * v.diagonal[t] - shift,
                    ),
                i <= v.n,
                diagonal@ == v.diagonal.take(i as int).map_values(
                    |d: i64| (scale * d - shift) as i64,
                ),
            decreases v.n - i,
        {
            let d = self.diagonal[i];
            assert(fits_i64(scale * v.diagonal[i as int]));
            diagonal.push(scale * d - shift);
            assert(v.diagonal.take(i + 1) =~= v.diagonal.take(i as int).push(d));
            i = i + 1;
        }
        assert(v.diagonal.take(v.n as int) =~= v.diagonal);
        let m = SparseSymmetricMatrix { n: self.n, edges, diagonal };
        assert forall|k: int| 0 <= k < m@.edges.len() implies (#[trigger] m@.edges[k]).0
            < m@.edges[k].1 && m@.edges[k].1 < m@.n by {
            assert(v.edges[k].0 < v.edges[k].1);
        }
        assert forall|i: int, j: int|
            0 <= i < v.n && 0 <= j < v.n implies #[trigger] m@.entry(i, j) == scale * v.entry(i, j)
                - if i == j {
                shift as int
            } else {
                0
            } by {
            if i != j {
                lemma_edge_weight_scaled(v.edges, scale, i, j);
            }
        }
        m
    }

    /// Returns a reference to the edges.
    pub fn edges(&self) -> (r: &[Edge])
        ensures
            r@ == self@.edges,
    {
        self.edges.as_slice()
    }

    /// Returns a reference to the diagonal.
    pub fn diagonal(&self) -> (r: &[i64])
        ensures
            r@ == self@.diagonal,
    {
        self.diagonal.as_slice()
    }
}

} // verus!
