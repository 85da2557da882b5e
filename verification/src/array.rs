//! One-dimensional `ndarray` arrays of `i64`, the vectors that the
//! matrix-vector product reads and writes, seen through the sequence of
//! elements they hold.

use vstd::prelude::*;

verus! {

/// A one-dimensional `ndarray::Array1<i64>`, held in a private field and
/// read and written only through [`vector_contents`] and the methods below.
#[verifier::external_body]
#[derive(Debug)]
pub struct Vector {
    inner: ndarray::Array1<i64>,
}

/// The elements that a vector holds, in index order.
pub uninterp spec fn vector_contents(v: Vector) -> Seq<i64>;

impl Vector {
    /// `Array1::from_vec`: the array holding the elements of `v` in order.
    /// ndarray panics there only for zero-sized element types.
    #[verifier::external_body]
    pub fn from_vec(v: Vec<i64>) -> (r: Vector)
        ensures
            vector_contents(r) == v@,
    {
        Vector { inner: ndarray::Array1::from_vec(v) }
    }

    /// `Array1::zeros(n)`: an array of `n` elements, each `0`.
    /// ndarray panics when the element count overflows `isize`, hence the bound.
    #[verifier::external_body]
    pub fn zeros(n: usize) -> (r: Vector)
        requires
            n <= isize::MAX,
        ensures
            vector_contents(r) == Seq::new(n as nat, |i: int| 0i64),
    {
        Vector { inner: ndarray::Array1::zeros(n) }
    }

    /// `ArrayBase::len`: the number of elements the array holds.
    #[verifier::external_body]
    pub fn len(&self) -> (r: usize)
        ensures
            r == vector_contents(*self).len(),
    {
        self.inner.len()
    }

    /// Indexing `a[i]` (`Index` of `ArrayBase`): the element at position `i`.
    /// ndarray panics on an index out of bounds, hence the bound.
    #[verifier::external_body]
    pub fn get(&self, i: usize) -> (r: i64)
        requires
            i < vector_contents(*self).len(),
        ensures
            r == vector_contents(*self)[i as int],
    {
        self.inner[i]
    }

    /// Assignment `a[i] = v` (`IndexMut` of `ArrayBase`): position `i` now
    /// holds `v`; the length and every other position stay as they were.
    #[verifier::external_body]
    pub fn set(&mut self, i: usize, v: i64)
        requires
            i < vector_contents(*old(self)).len(),
        ensures
            vector_contents(*final(self)) == vector_contents(*old(self)).update(i as int, v),
    {
        self.inner[i] = v;
    }

    /// `ArrayBase::to_vec` (one-dimensional arrays): a vector of the
    /// elements in index order.
    #[verifier::external_body]
    pub fn to_vec(&self) -> (r: Vec<i64>)
        ensures
            r@ == vector_contents(*self),
    {
        self.inner.to_vec()
    }
}

} // verus!
