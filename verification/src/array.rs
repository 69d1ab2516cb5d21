//! The integer `ndarray` arrays that the library fills: the vector of
//! azimuthal mode orders and the three-index phase-coupling tensors.
//!
//! Verus cannot declare `ndarray::ArrayBase` (its `RawData` bound is a trait
//! that cannot be specified here), so each array is held in a private field of
//! a struct that Verus sees as opaque; the contents are named by the spec
//! functions below and every operation the library uses is a small wrapper.
use vstd::prelude::*;
use ndarray::{Array1, Array3};

verus! {

/// A one-dimensional `ndarray` array of mode orders.
#[verifier::external_body]
pub struct OrderVector {
    inner: Array1<i64>,
}

/// The elements of an order vector, in index order.
pub uninterp spec fn order_items(v: OrderVector) -> Seq<i64>;

impl OrderVector {
    /// Wraps `Array1::from_vec`: the array holds the vector's elements in order.
    #[verifier::external_body]
    pub(crate) fn from_vec(v: Vec<i64>) -> (a: OrderVector)
        ensures
            order_items(a) == v@,
    {
        OrderVector { inner: Array1::from_vec(v) }
    }

    /// Wraps `ArrayBase::len`: the number of elements.
    #[verifier::external_body]
    pub(crate) fn len(&self) -> (n: usize)
        ensures
            n == order_items(*self).len(),
    {
        self.inner.len()
    }

    /// Wraps indexing `a[i]`, which panics out of bounds: the `i`-th element.
    #[verifier::external_body]
    pub(crate) fn get(&self, i: usize) -> (x: i64)
        requires
            i < order_items(*self).len(),
        ensures
            x == order_items(*self)[i as int],
    {
        self.inner[i]
    }

    /// An order vector holding the given orders.
    pub fn new(orders: Vec<i64>) -> (a: OrderVector)
        ensures
            order_items(a) == orders@,
    {
        OrderVector::from_vec(orders)
    }

    /// The orders, in index order.
    pub fn orders(&self) -> (v: Vec<i64>)
        ensures
            v@ == order_items(*self),
    {
        let n = self.len();
        let mut v: Vec<i64> = Vec::new();
        let mut i: usize = 0;
        while i < n
            invariant
                i <= n,
                n == order_items(*self).len(),
                v@ == order_items(*self).take(i as int),
            decreases n - i,
        {
            v.push(self.get(i));
            i += 1;
            assert(v@ =~= order_items(*self).take(i as int));
        }
        assert(v@ =~= order_items(*self));
        v
    }
}

/// A three-dimensional `ndarray` array of integers.
#[verifier::external_body]
pub struct Tensor3 {
    inner: Array3<i64>,
}

/// The cells of a tensor, keyed by their three indices.
pub uninterp spec fn tensor_cells(t: Tensor3) -> Map<(int, int, int), i64>;

/// The extents of the three axes of a tensor, fixed when it was made.
pub uninterp spec fn tensor_shape(t: Tensor3) -> (int, int, int);

/// The index triples inside a box of the given extents.
pub open spec fn in_box(key: (int, int, int), shape: (int, int, int)) -> bool {
    &&& 0 <= key.0 < shape.0
    &&& 0 <= key.1 < shape.1
    &&& 0 <= key.2 < shape.2
}

/// The product of the non-zero extents, which `ndarray` requires to fit in `isize`.
pub open spec fn nonzero_product(d0: int, d1: int, d2: int) -> int {
    (if d0 == 0 { 1 } else { d0 }) * (if d1 == 0 { 1 } else { d1 }) * (if d2 == 0 { 1 } else { d2 })
}

impl Tensor3 {
    /// Wraps `Array3::zeros`, which panics when the product of the non-zero
    /// extents overflows `isize`: a tensor of the given shape filled with 0.
    #[verifier::external_body]
    pub(crate) fn zeros(d0: usize, d1: usize, d2: usize) -> (t: Tensor3)
        requires
            nonzero_product(d0 as int, d1 as int, d2 as int) <= isize::MAX,
        ensures
            tensor_shape(t) == (d0 as int, d1 as int, d2 as int),
            forall|key: (int, int, int)|
                #[trigger] tensor_cells(t).contains_key(key) <==> in_box(key, tensor_shape(t)),
            forall|key: (int, int, int)|
                in_box(key, tensor_shape(t)) ==> #[trigger] tensor_cells(t)[key] == 0,
    {
        Tensor3 { inner: Array3::zeros((d0, d1, d2)) }
    }

    /// Wraps `ArrayBase::dim`: the extents of the three axes.
    #[verifier::external_body]
    pub(crate) fn dim(&self) -> (d: (usize, usize, usize))
        ensures
            (d.0 as int, d.1 as int, d.2 as int) == tensor_shape(*self),
    {
        self.inner.dim()
    }

    /// Wraps indexing `t[[i, j, k]]`, which panics out of bounds: one cell.
    #[verifier::external_body]
    pub(crate) fn get(&self, i: usize, j: usize, k: usize) -> (x: i64)
        requires
            in_box((i as int, j as int, k as int), tensor_shape(*self)),
        ensures
            x == tensor_cells(*self)[(i as int, j as int, k as int)],
    {
        self.inner[[i, j, k]]
    }

    /// Wraps assignment `t[[i, j, k]] = x`, which panics out of bounds: that
    /// cell takes the value, every other cell and the shape stay.
    #[verifier::external_body]
    pub(crate) fn set(&mut self, i: usize, j: usize, k: usize, x: i64)
        requires
            in_box((i as int, j as int, k as int), tensor_shape(*old(self))),
        ensures
            tensor_shape(*final(self)) == tensor_shape(*old(self)),
            tensor_cells(*final(self)) == tensor_cells(*old(self)).insert(
                (i as int, j as int, k as int),
                x,
            ),
    {
        self.inner[[i, j, k]] = x;
    }

    /// The cells as nested vectors: `v[i][j][k]` is cell `(i, j, k)`.
    pub fn to_nested(&self) -> (v: Vec<Vec<Vec<i64>>>)
        ensures
            v.len() == tensor_shape(*self).0,
            forall|i: int| 0 <= i < v.len() ==> #[trigger] v@[i].len() == tensor_shape(*self).1,
            forall|i: int, j: int|
                0 <= i < v.len() && 0 <= j < v@[i].len() ==> #[trigger] v@[i]@[j].len()
                    == tensor_shape(*self).2,
            forall|i: int, j: int, k: int|
                in_box((i, j, k), tensor_shape(*self)) ==> #[trigger] v@[i]@[j]@[k]
                    == tensor_cells(*self)[(i, j, k)],
    {
        let (d0, d1, d2) = self.dim();
        let mut v: Vec<Vec<Vec<i64>>> = Vec::new();
        let mut i: usize = 0;
        while i < d0
            invariant
                i <= d0,
                (d0 as int, d1 as int, d2 as int) == tensor_shape(*self),
                v.len() == i,
                forall|a: int| 0 <= a < i ==> #[trigger] v@[a].len() == d1,
                forall|a: int, b: int|
                    0 <= a < i && 0 <= b < d1 ==> #[trigger] v@[a]@[b].len() == d2,
                forall|a: int, b: int, c: int|
                    0 <= a < i && 0 <= b < d1 && 0 <= c < d2 ==> #[trigger] v@[a]@[b]@[c]
                        == tensor_cells(*self)[(a, b, c)],
            decreases d0 - i,
        {
            let mut plane: Vec<Vec<i64>> = Vec::new();
            let mut j: usize = 0;
            while j < d1
                invariant
                    i < d0,
                    j <= d1,
                    (d0 as int, d1 as int, d2 as int) == tensor_shape(*self),
                    plane.len() == j,
                    forall|b: int| 0 <= b < j ==> #[trigger] plane@[b].len() == d2,
                    forall|b: int, c: int|
                        0 <= b < j && 0 <= c < d2 ==> #[trigger] plane@[b]@[c] == tensor_cells(
                            *self,
                        )[(i as int, b, c)],
                decreases d1 - j,
            {
                let mut line: Vec<i64> = Vec::new();
                let mut k: usize = 0;
                while k < d2
                    invariant
                        i < d0,
                        j < d1,
                        k <= d2,
                        (d0 as int, d1 as int, d2 as int) == tensor_shape(*self),
                        line.len() == k,
                        forall|c: int|
                            0 <= c < k ==> #[trigger] line@[c] == tensor_cells(*self)[(
                                i as int,
                                j as int,
                                c,
                            )],
                    decreases d2 - k,
                {
                    line.push(self.get(i, j, k));
                    k += 1;
                }
                plane.push(line);
                j += 1;
            }
            v.push(plane);
            i += 1;
        }
        v
    }
}

} // verus!
