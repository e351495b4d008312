//! Storage of discrete forms: dense row-major arrays for vertex and face
//! fields, and one packed buffer for the staggered edge field.
use crate::model::{at, edge_count, horizontal_count, vertex_count, vertical_count, face_count};
use vstd::arithmetic::div_mod::{lemma_fundamental_div_mod, lemma_fundamental_div_mod_converse};
use vstd::prelude::*;

verus! {

/// A dense two-dimensional array, stored row by row.
pub struct Array2d<T> {
    data: Vec<T>,
    rows: usize,
    cols: usize,
}

impl<T> View for Array2d<T> {
    type V = Seq<T>;

    closed spec fn view(&self) -> Seq<T> {
        self.data@
    }
}

impl<T: Copy> Array2d<T> {
    /// `(rows, columns)`.
    pub closed spec fn shape(&self) -> (nat, nat) {
        (self.rows as nat, self.cols as nat)
    }

    /// The buffer holds exactly one value per element.
    pub open spec fn wf(&self) -> bool {
        self@.len() == self.shape().0 * self.shape().1
    }

    /// An array of the given shape with every element equal to `value`.
    pub fn from_elem(rows: usize, cols: usize, value: T) -> (r: Self)
        requires
            rows * cols <= usize::MAX,
        ensures
            r.wf(),
            r.shape() == (rows as nat, cols as nat),
            r@ == Seq::new((rows * cols) as nat, |_i: int| value),
    {
        let n = rows * cols;
        let mut data: Vec<T> = Vec::with_capacity(n);
        let mut i: usize = 0;
        while i < n
            invariant
                i <= n,
                data@ == Seq::new(i as nat, |_k: int| value),
            decreases n - i,
        {
            data.push(value);
            i += 1;
            assert(data@ =~= Seq::new(i as nat, |_k: int| value));
        }
        Array2d { data, rows, cols }
    }

    /// The array of the given shape whose elements, row by row, are `data`;
    /// `None` when the length of `data` is not `rows * cols`.
    pub fn from_vec(rows: usize, cols: usize, data: Vec<T>) -> (r: Option<Self>)
        ensures
            r is Some <==> data@.len() == rows * cols,
            r is Some ==> r->0.wf() && r->0.shape() == (rows as nat, cols as nat) && r->0@
                == data@,
    {
        let n = data.len();
        let fits = if cols == 0 {
            n == 0
        } else {
            n % cols == 0 && n / cols == rows
        };
        proof {
            assert(cols * rows == rows * cols) by (nonlinear_arith);
            if cols > 0 {
                lemma_fundamental_div_mod(n as int, cols as int);
                if n == rows * cols {
                    lemma_fundamental_div_mod_converse(n as int, cols as int, rows as int, 0);
                }
            } else {
                assert(rows * 0 == 0) by (nonlinear_arith);
            }
        }
        if fits {
            Some(Array2d { data, rows, cols })
        } else {
            None
        }
    }

    pub fn rows(&self) -> (r: usize)
        ensures
            r == self.shape().0,
    {
        self.rows
    }

    pub fn cols(&self) -> (r: usize)
        ensures
            r == self.shape().1,
    {
        self.cols
    }

    /// Element `(r, c)`.
    pub fn get(&self, r: usize, c: usize) -> (v: T)
        requires
            self.wf(),
            r < self.shape().0,
            c < self.shape().1,
        ensures
            v == at(self@, self.shape().1 as int, r as int, c as int),
    {
        let n = self.data.len();
        proof {
            lemma_index_in_range(r as int, c as int, self.rows as int, self.cols as int);
        }
        self.data[r * self.cols + c]
    }

    /// Sets element `(r, c)` to `v`.
    pub fn set(&mut self, r: usize, c: usize, v: T)
        requires
            old(self).wf(),
            r < old(self).shape().0,
            c < old(self).shape().1,
        ensures
            final(self).wf(),
            final(self).shape() == old(self).shape(),
            final(self)@ == old(self)@.update(r * old(self).shape().1 + c, v),
    {
        let n = self.data.len();
        proof {
            lemma_index_in_range(r as int, c as int, self.rows as int, self.cols as int);
        }
        let i = r * self.cols + c;
        self.data.set(i, v);
    }

    /// The elements, row by row.
    pub fn as_slice(&self) -> (s: &[T])
        ensures
            s@ == self@,
    {
        self.data.as_slice()
    }

    /// Sets the element at position `i` of the row-by-row order to `v`.
    pub fn set_linear(&mut self, i: usize, v: T)
        requires
            i < old(self)@.len(),
        ensures
            final(self).shape() == old(self).shape(),
            final(self)@ == old(self)@.update(i as int, v),
    {
        self.data.set(i, v);
    }
}

/// A 1-form on a grid of `h × w` faces: the vertical block of shape
/// `(h+1) × w` followed by the horizontal block of shape `h × (w+1)`, in one
/// buffer.
pub struct Staggered2d<T> {
    data: Vec<T>,
    dim: (usize, usize),
}

impl<T> View for Staggered2d<T> {
    type V = Seq<T>;

    closed spec fn view(&self) -> Seq<T> {
        self.data@
    }
}

impl<T: Copy> Staggered2d<T> {
    /// `(h, w)`: the faces of the grid the form lives on.
    pub closed spec fn dims(&self) -> (nat, nat) {
        (self.dim.0 as nat, self.dim.1 as nat)
    }

    /// The buffer holds both blocks exactly.
    pub open spec fn wf(&self) -> bool {
        self@.len() == edge_count(self.dims().0 as int, self.dims().1 as int)
    }

    /// The form on `dim.0 × dim.1` faces with every edge equal to `value`.
    pub fn from_elem(dim: (usize, usize), value: T) -> (r: Self)
        requires
            edge_count(dim.0 as int, dim.1 as int) <= usize::MAX,
            vertex_count(dim.0 as int, dim.1 as int) <= usize::MAX,
        ensures
            r.wf(),
            r.dims() == (dim.0 as nat, dim.1 as nat),
            r@ == Seq::new(edge_count(dim.0 as int, dim.1 as int) as nat, |_i: int| value),
    {
        proof {
            lemma_edge_count_parts(dim.0 as int, dim.1 as int);
        }
        let n = dim.1 * (dim.0 + 1) + dim.0 * (dim.1 + 1);
        let mut data: Vec<T> = Vec::with_capacity(n);
        let mut i: usize = 0;
        while i < n
            invariant
                i <= n,
                data@ == Seq::new(i as nat, |_k: int| value),
            decreases n - i,
        {
            data.push(value);
            i += 1;
            assert(data@ =~= Seq::new(i as nat, |_k: int| value));
        }
        Staggered2d { data, dim }
    }

    /// `(h, w)`.
    pub fn dim(&self) -> (r: (usize, usize))
        ensures
            r.0 == self.dims().0,
            r.1 == self.dims().1,
    {
        self.dim
    }

    pub fn len(&self) -> (n: usize)
        ensures
            n == self@.len(),
    {
        self.data.len()
    }

    /// The vertical block (shape `(h+1) × w`) and the horizontal block
    /// (shape `h × (w+1)`), each row by row.
    pub fn split(&self) -> (r: (&[T], &[T]))
        requires
            self.wf(),
        ensures
            r.0@ == self@.subrange(0, vertical_count(self.dims().0 as int, self.dims().1 as int)),
            r.1@ == self@.subrange(
                vertical_count(self.dims().0 as int, self.dims().1 as int),
                self@.len() as int,
            ),
    {
        proof {
            lemma_edge_count_parts(self.dim.0 as int, self.dim.1 as int);
        }
        let n = self.data.len();
        let size_0 = self.dim.1 * self.dim.0 + self.dim.1;
        self.data.as_slice().split_at(size_0)
    }

    /// The two blocks of `split`, for writing.
    pub fn split_mut(&mut self) -> (r: (&mut [T], &mut [T]))
        requires
            old(self).wf(),
        ensures
            r.0@ == old(self)@.subrange(
                0,
                vertical_count(old(self).dims().0 as int, old(self).dims().1 as int),
            ),
            r.1@ == old(self)@.subrange(
                vertical_count(old(self).dims().0 as int, old(self).dims().1 as int),
                old(self)@.len() as int,
            ),
            final(self).dims() == old(self).dims(),
            final(self)@ == final(r.0)@ + final(r.1)@,
    {
        proof {
            lemma_edge_count_parts(self.dim.0 as int, self.dim.1 as int);
        }
        let n = self.data.len();
        let size_0 = self.dim.1 * self.dim.0 + self.dim.1;
        self.data.as_mut_slice().split_at_mut(size_0)
    }

    /// Both blocks as one sequence.
    pub fn view_linear(&self) -> (s: &[T])
        ensures
            s@ == self@,
    {
        self.data.as_slice()
    }

    /// Both blocks as one sequence, for writing.
    pub fn view_linear_mut(&mut self) -> (s: &mut [T])
        ensures
            s@ == old(self)@,
            final(self).dims() == old(self).dims(),
            final(self)@ == final(s)@,
    {
        self.data.as_mut_slice()
    }

    /// Sets the edge at position `i` of the buffer to `v`.
    pub fn set_linear(&mut self, i: usize, v: T)
        requires
            i < old(self)@.len(),
        ensures
            final(self).dims() == old(self).dims(),
            final(self)@ == old(self)@.update(i as int, v),
    {
        self.data.set(i, v);
    }
}

/// Position `r * cols + c` lies inside an array of `rows × cols`.
pub proof fn lemma_index_in_range(r: int, c: int, rows: int, cols: int)
    requires
        0 <= r < rows,
        0 <= c < cols,
    ensures
        0 <= r * cols + c < rows * cols,
        r * cols + cols <= rows * cols,
{
    assert(0 <= r * cols) by (nonlinear_arith)
        requires
            0 <= r,
            0 <= cols,
    ;
    assert((r + 1) * cols <= rows * cols) by (nonlinear_arith)
        requires
            r + 1 <= rows,
            0 <= cols,
    ;
    assert((r + 1) * cols == r * cols + cols) by (nonlinear_arith);
}

/// Position `i` of a row-major array of `rows × cols` is element
/// `(i / cols, i % cols)`.
pub proof fn lemma_row_col(i: int, rows: int, cols: int)
    requires
        0 <= i < rows * cols,
        cols > 0,
    ensures
        0 <= i / cols < rows,
        0 <= i % cols < cols,
        i == (i / cols) * cols + i % cols,
{
    lemma_fundamental_div_mod(i, cols);
    let (q, m) = (i / cols, i % cols);
    assert(0 <= m < cols);
    assert(0 <= q < rows) by (nonlinear_arith)
        requires
            i == cols * q + m,
            0 <= m < cols,
            0 <= i < rows * cols,
    ;
    assert(cols * q == q * cols) by (nonlinear_arith);
}

/// How the counts of a grid of `h × w` faces relate.
pub proof fn lemma_edge_count_parts(h: int, w: int)
    requires
        h >= 0,
        w >= 0,
    ensures
        0 <= vertical_count(h, w) <= edge_count(h, w),
        0 <= horizontal_count(h, w) <= edge_count(h, w),
        vertex_count(h, w) == h * w + h + w + 1,
        vertical_count(h, w) == w * h + w,
        0 <= w * h <= vertical_count(h, w),
        edge_count(h, w) == 2 * (h * w) + h + w,
        0 <= face_count(h, w) <= edge_count(h, w),
        h + 1 <= vertex_count(h, w),
        w + 1 <= vertex_count(h, w),
{
    assert(0 <= h * w) by (nonlinear_arith)
        requires
            h >= 0,
            w >= 0,
    ;
    assert(w * (h + 1) == h * w + w) by (nonlinear_arith);
    assert(w * h == h * w) by (nonlinear_arith);
    assert(h * (w + 1) == h * w + h) by (nonlinear_arith);
    assert((h + 1) * (w + 1) == h * w + h + w + 1) by (nonlinear_arith);
}

} // verus!
