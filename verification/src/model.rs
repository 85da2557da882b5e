//! The mathematical model of a sparse symmetric matrix: its dimension, its
//! list of off-diagonal edges and its diagonal, the dense entries they stand
//! for, and the matrix-vector product over the integers.

use vstd::prelude::*;

verus! {

/// An off-diagonal entry `(row, col, value)`, stored once for the pair with
/// `row < col`.
pub type Edge = (usize, usize, i64);

/// What a sparse symmetric matrix holds.
pub struct MatrixView {
    /// Number of rows and columns.
    pub n: nat,
    /// Off-diagonal entries in the order they were added.
    pub edges: Seq<Edge>,
    /// `diagonal[i]` is the entry at `(i, i)`.
    pub diagonal: Seq<i64>,
}

/// Whether `v` fits in an `i64`.
pub open spec fn fits_i64(v: int) -> bool {
    i64::MIN <= v <= i64::MAX
}

/// Whether edge `e` joins `i` and `j`, in either order.
pub open spec fn joins(e: Edge, i: int, j: int) -> bool {
    (e.0 == i && e.1 == j) || (e.0 == j && e.1 == i)
}

/// Sum of the values of the edges in `edges` that join `i` and `j`.
pub open spec fn edge_weight(edges: Seq<Edge>, i: int, j: int) -> int
    decreases edges.len(),
{
    if edges.len() == 0 {
        0
    } else {
        let e = edges.last();
        edge_weight(edges.drop_last(), i, j) + if joins(e, i, j) {
            e.2 as int
        } else {
            0
        }
    }
}

/// What the edges add to row `r` of the product with `x`, accumulated in the
/// order of the list: an edge `(i, j, v)` adds `v * x[j]` to row `i` and
/// `v * x[i]` to row `j`.
pub open spec fn edge_contribution(edges: Seq<Edge>, x: Seq<i64>, r: int) -> int
    decreases edges.len(),
{
    if edges.len() == 0 {
        0
    } else {
        let e = edges.last();
        edge_contribution(edges.drop_last(), x, r) + (if e.0 == r {
            e.2 * x[e.1 as int]
        } else {
            0
        }) + (if e.1 == r {
            e.2 * x[e.0 as int]
        } else {
            0
        })
    }
}

impl MatrixView {
    /// Diagonal of length `n` and every edge `(i, j, _)` with `i < j < n`.
    pub open spec fn wf(self) -> bool {
        &&& self.diagonal.len() == self.n
        &&& forall|k: int|
            0 <= k < self.edges.len() ==> (#[trigger] self.edges[k]).0 < self.edges[k].1
                && self.edges[k].1 < self.n
    }

    /// The dense entry at `(i, j)`: the diagonal on `i == j`, else the sum of
    /// the edges that join `i` and `j`.
    pub open spec fn entry(self, i: int, j: int) -> int {
        if i == j {
            self.diagonal[i] as int
        } else {
            edge_weight(self.edges, i, j)
        }
    }

    /// `sum_{j < m} entry(r, j) * x[j]`.
    pub open spec fn row_times(self, x: Seq<i64>, r: int, m: int) -> int
        decreases m,
    {
        if m <= 0 {
            0
        } else {
            self.row_times(x, r, m - 1) + self.entry(r, m - 1) * x[m - 1]
        }
    }

    /// Row `r` of the matrix-vector product `A * x`.
    pub open spec fn product_at(self, x: Seq<i64>, r: int) -> int {
        self.row_times(x, r, self.n as int)
    }

    /// Row `r` of `A * x` after the diagonal and the first `k` edges have
    /// been accumulated.
    pub open spec fn partial_product_at(self, x: Seq<i64>, k: int, r: int) -> int {
        self.diagonal[r] * x[r] + edge_contribution(self.edges.take(k), x, r)
    }

    /// Every value that the product computes on the way fits in an `i64`:
    /// each product of a stored value with an element of `x`, and each row
    /// after the diagonal and after every prefix of the edge list.
    pub open spec fn product_fits(self, x: Seq<i64>) -> bool {
        &&& forall|k: int|
            0 <= k < self.edges.len() ==> fits_i64(
                (#[trigger] self.edges[k]).2 * x[self.edges[k].1 as int],
            ) && fits_i64(self.edges[k].2 * x[self.edges[k].0 as int])
        &&& forall|k: int, r: int|
            0 <= k <= self.edges.len() && 0 <= r < self.n ==> fits_i64(
                #[trigger] self.partial_product_at(x, k, r),
            )
    }
}

/// Each edge with its value multiplied by `scale`.
pub open spec fn scale_edges(edges: Seq<Edge>, scale: i64) -> Seq<Edge> {
    edges.map_values(|e: Edge| (e.0, e.1, (scale * e.2) as i64))
}

/// Whether every scaled edge value fits in an `i64`.
pub open spec fn scaled_edges_fit(edges: Seq<Edge>, scale: i64) -> bool {
    forall|k: int| 0 <= k < edges.len() ==> fits_i64(scale * (#[trigger] edges[k]).2)
}

/// Scaling every edge value scales the sum of the edges between two indices.
pub proof fn lemma_edge_weight_scaled(edges: Seq<Edge>, scale: i64, i: int, j: int)
    requires
        scaled_edges_fit(edges, scale),
    ensures
        edge_weight(scale_edges(edges, scale), i, j) == scale * edge_weight(edges, i, j),
    decreases edges.len(),
{
    if edges.len() > 0 {
        let s = edges.drop_last();
        assert(scaled_edges_fit(s, scale)) by {
            assert forall|k: int| 0 <= k < s.len() implies fits_i64(scale * (#[trigger] s[k]).2) by {
                assert(s[k] == edges[k]);
            }
        }
        lemma_edge_weight_scaled(s, scale, i, j);
        assert(scale_edges(edges, scale).drop_last() =~= scale_edges(s, scale));
        let e = edges.last();
        assert(edges[edges.len() - 1] == e);
        let w = edge_weight(s, i, j);
        if joins(e, i, j) {
            assert(scale * (w + e.2) == scale * w + scale * e.2) by (nonlinear_arith);
        }
    }
}

/// The sum of the edges between `i` and `j` does not depend on their order.
pub proof fn lemma_edge_weight_symmetric(edges: Seq<Edge>, i: int, j: int)
    ensures
        edge_weight(edges, i, j) == edge_weight(edges, j, i),
    decreases edges.len(),
{
    if edges.len() > 0 {
        lemma_edge_weight_symmetric(edges.drop_last(), i, j);
    }
}

/// Adding edge `e` to the list changes `row_times` over the first `m`
/// columns by what `e` adds to row `r` among those columns.
proof fn lemma_row_times_push(v: MatrixView, e: Edge, x: Seq<i64>, r: int, m: int)
    requires
        e.0 < e.1,
    ensures
        (MatrixView { n: v.n, edges: v.edges.push(e), diagonal: v.diagonal }).row_times(x, r, m)
            == v.row_times(x, r, m) + (if e.0 == r && e.1 < m {
            e.2 * x[e.1 as int]
        } else {
            0
        }) + (if e.1 == r && e.0 < m {
            e.2 * x[e.0 as int]
        } else {
            0
        }),
    decreases m,
{
    let w = MatrixView { n: v.n, edges: v.edges.push(e), diagonal: v.diagonal };
    if m > 0 {
        lemma_row_times_push(v, e, x, r, m - 1);
        let j = m - 1;
        assert(w.edges.drop_last() =~= v.edges);
        let a = v.entry(r, j);
        let c = x[j] as int;
        if r != j && joins(e, r, j) {
            assert(w.entry(r, j) == a + e.2);
            assert((a + e.2) * c == a * c + e.2 * c) by (nonlinear_arith);
        } else {
            assert(w.entry(r, j) == a);
        }
    }
}

/// With no edges, row `r` over the first `m` columns is the diagonal term
/// alone, when `r` is among them.
proof fn lemma_row_times_no_edges(v: MatrixView, x: Seq<i64>, r: int, m: int)
    requires
        v.edges.len() == 0,
    ensures
        v.row_times(x, r, m) == if 0 <= r < m {
            v.diagonal[r] * x[r]
        } else {
            0
        },
    decreases m,
{
    if m > 0 {
        lemma_row_times_no_edges(v, x, r, m - 1);
    }
}

/// The product accumulated edge by edge is the dense product `A * x`.
pub proof fn lemma_edge_form_is_product(v: MatrixView, x: Seq<i64>, r: int)
    requires
        v.wf(),
        0 <= r < v.n,
    ensures
        v.diagonal[r] * x[r] + edge_contribution(v.edges, x, r) == v.product_at(x, r),
    decreases v.edges.len(),
{
    if v.edges.len() == 0 {
        lemma_row_times_no_edges(v, x, r, v.n as int);
    } else {
        let e = v.edges.last();
        let u = MatrixView { n: v.n, edges: v.edges.drop_last(), diagonal: v.diagonal };
        assert(u.wf()) by {
            assert forall|k: int| 0 <= k < u.edges.len() implies (#[trigger] u.edges[k]).0
                < u.edges[k].1 && u.edges[k].1 < u.n by {
                assert(u.edges[k] == v.edges[k]);
            }
        }
        lemma_edge_form_is_product(u, x, r);
        assert(v.edges[v.edges.len() - 1] == e);
        lemma_row_times_push(u, e, x, r, v.n as int);
        assert(u.edges.push(e) =~= v.edges);
    }
}

/// A sparse symmetric matrix is symmetric: `A[i, j] == A[j, i]` for all `i`, `j`.
pub proof fn lemma_entry_symmetric(v: MatrixView, i: int, j: int)
    ensures
        v.entry(i, j) == v.entry(j, i),
{
    lemma_edge_weight_symmetric(v.edges, i, j);
}

/// Helper for [`lemma_scaled_shifted_product`]: the same relation over the
/// first `m` columns.
proof fn lemma_row_times_scaled_shifted(
    v: MatrixView,
    w: MatrixView,
    scale: i64,
    shift: i64,
    x: Seq<i64>,
    r: int,
    m: int,
)
    requires
        0 <= r < v.n,
        m <= v.n,
        forall|i: int, j: int|
            0 <= i < v.n && 0 <= j < v.n ==> #[trigger] w.entry(i, j) == scale * v.entry(i, j)
                - if i == j {
                shift as int
            } else {
                0
            },
    ensures
        w.row_times(x, r, m) == scale * v.row_times(x, r, m) - if 0 <= r < m {
            shift * x[r]
        } else {
            0
        },
    decreases m,
{
    if m > 0 {
        lemma_row_times_scaled_shifted(v, w, scale, shift, x, r, m - 1);
        let j = m - 1;
        let a = v.entry(r, j);
        let c = x[j] as int;
        let p = v.row_times(x, r, m - 1);
        assert(w.entry(r, j) == scale * a - if r == j {
            shift as int
        } else {
            0
        });
        assert(scale * (p + a * c) == scale * p + (scale * a) * c) by (nonlinear_arith);
        assert((scale * a - shift) * c == (scale * a) * c - shift * c) by (nonlinear_arith);
    }
}

/// The product with a scaled and shifted matrix `scale * A - shift * I` is
/// `scale * (A * x) - shift * x`, row by row.
pub proof fn lemma_scaled_shifted_product(
    v: MatrixView,
    w: MatrixView,
    scale: i64,
    shift: i64,
    x: Seq<i64>,
    r: int,
)
    requires
        w.n == v.n,
        0 <= r < v.n,
        forall|i: int, j: int|
            0 <= i < v.n && 0 <= j < v.n ==> #[trigger] w.entry(i, j) == scale * v.entry(i, j)
                - if i == j {
                shift as int
            } else {
                0
            },
    ensures
        w.product_at(x, r) == scale * v.product_at(x, r) - shift * x[r],
{
    lemma_row_times_scaled_shifted(v, w, scale, shift, x, r, v.n as int);
}

/// `row_times` over the first `m` columns is additive in the vector.
proof fn lemma_row_times_additive(v: MatrixView, x: Seq<i64>, z: Seq<i64>, w: Seq<i64>, r: int, m: int)
    requires
        forall|j: int| 0 <= j < m ==> #[trigger] w[j] == x[j] + z[j],
    ensures
        v.row_times(w, r, m) == v.row_times(x, r, m) + v.row_times(z, r, m),
    decreases m,
{
    if m > 0 {
        lemma_row_times_additive(v, x, z, w, r, m - 1);
        let a = v.entry(r, m - 1);
        let (p, q) = (x[m - 1] as int, z[m - 1] as int);
        assert(w[m - 1] == p + q);
        assert(a * (p + q) == a * p + a * q) by (nonlinear_arith);
    }
}

/// `row_times` over the first `m` columns is homogeneous in the vector.
proof fn lemma_row_times_homogeneous(v: MatrixView, x: Seq<i64>, w: Seq<i64>, c: int, r: int, m: int)
    requires
        forall|j: int| 0 <= j < m ==> #[trigger] w[j] == c * x[j],
    ensures
        v.row_times(w, r, m) == c * v.row_times(x, r, m),
    decreases m,
{
    if m > 0 {
        lemma_row_times_homogeneous(v, x, w, c, r, m - 1);
        let a = v.entry(r, m - 1);
        let p = x[m - 1] as int;
        let q = v.row_times(x, r, m - 1);
        assert(w[m - 1] == c * p);
        assert(a * (c * p) == c * (a * p)) by (nonlinear_arith);
        assert(c * q + c * (a * p) == c * (q + a * p)) by (nonlinear_arith);
    }
}

/// The product is linear in the vector: `A (x + z) = A x + A z` and
/// `A (c x) = c (A x)`, row by row, for vectors `w` whose elements are
/// `x[j] + z[j]`, and `u` whose elements are `c * x[j]`.
pub proof fn lemma_product_linear(
    v: MatrixView,
    x: Seq<i64>,
    z: Seq<i64>,
    w: Seq<i64>,
    u: Seq<i64>,
    c: int,
    r: int,
)
    requires
        forall|j: int| 0 <= j < v.n ==> #[trigger] w[j] == x[j] + z[j],
        forall|j: int| 0 <= j < v.n ==> #[trigger] u[j] == c * x[j],
    ensures
        v.product_at(w, r) == v.product_at(x, r) + v.product_at(z, r),
        v.product_at(u, r) == c * v.product_at(x, r),
{
    lemma_row_times_additive(v, x, z, w, r, v.n as int);
    lemma_row_times_homogeneous(v, x, u, c, r, v.n as int);
}

} // verus!
