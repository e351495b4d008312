//! A rectangular grid of `h × w` unit cells and its operators.
use crate::forms::{lemma_edge_count_parts, lemma_index_in_range, lemma_row_col, Array2d, Staggered2d};
use crate::manifold::{
    DiagonalMatrix, Hodge0, Hodge1, Hodge2, Manifold2d, NotImplemented, Shape2d,
    SparseMatrix,
};
use crate::model::{
    derivative0_dual, derivative0_primal, derivative1_primal, edge_count, face_count, halve_times,
    double_times, hodge0_to_dual, hodge0_to_primal, hodge1_to_dual, hodge1_to_primal, vertex_count,
    vertical_count,
};
use crate::scalar::Scalar;
use vstd::prelude::*;

verus! {

/// A grid of `h × w` faces, `h, w ≥ 1`, small enough that every count of its
/// elements fits in `usize`.
pub struct Grid2d {
    dim: (usize, usize),
}

impl Grid2d {
    #[verifier::type_invariant]
    spec fn sized(self) -> bool {
        &&& 1 <= self.dim.0
        &&& 1 <= self.dim.1
        &&& edge_count(self.dim.0 as int, self.dim.1 as int) <= usize::MAX
    }

    /// The grid of `dim.0 × dim.1` faces.
    pub fn new(dim: (usize, usize)) -> (g: Grid2d)
        requires
            1 <= dim.0,
            1 <= dim.1,
            edge_count(dim.0 as int, dim.1 as int) <= usize::MAX,
        ensures
            g.faces() == (dim.0 as nat, dim.1 as nat),
    {
        Grid2d { dim }
    }

    /// `(h, w)`.
    pub fn dim(&self) -> (r: (usize, usize))
        ensures
            r.0 == self.faces().0,
            r.1 == self.faces().1,
            1 <= r.0,
            1 <= r.1,
    {
        proof {
            use_type_invariant(self);
        }
        self.dim
    }

    /// `(h, w)`, with the facts the operators need about the counts.
    fn sizes(&self) -> (r: (usize, usize))
        ensures
            r.0 == self.faces().0,
            r.1 == self.faces().1,
            1 <= r.0,
            1 <= r.1,
            edge_count(r.0 as int, r.1 as int) <= usize::MAX,
            vertex_count(r.0 as int, r.1 as int) <= usize::MAX,
            vertical_count(r.0 as int, r.1 as int) == r.1 * r.0 + r.1,
            0 <= r.1 * r.0 <= vertical_count(r.0 as int, r.1 as int),
            vertex_count(r.0 as int, r.1 as int) == r.0 * r.1 + r.0 + r.1 + 1,
            edge_count(r.0 as int, r.1 as int) == 2 * (r.0 * r.1) + r.0 + r.1,
            face_count(r.0 as int, r.1 as int) <= edge_count(r.0 as int, r.1 as int),
            r.0 + 1 <= vertex_count(r.0 as int, r.1 as int),
            r.1 + 1 <= vertex_count(r.0 as int, r.1 as int),
    {
        proof {
            use_type_invariant(self);
            lemma_edge_count_parts(self.dim.0 as int, self.dim.1 as int);
            let (h, w) = (self.dim.0 as int, self.dim.1 as int);
            assert(h * w >= 1) by (nonlinear_arith)
                requires
                    h >= 1,
                    w >= 1,
            ;
        }
        self.dim
    }
}

impl Shape2d for Grid2d {
    closed spec fn faces(&self) -> (nat, nat) {
        (self.dim.0 as nat, self.dim.1 as nat)
    }
}

impl<T: Scalar> Hodge0<T> for Grid2d {
    fn apply(&self, dual: &mut Array2d<T>, primal: &Array2d<T>) {
        let (h, w) = self.sizes();
        let src = primal.as_slice();
        let n = src.len();
        let ghost model = hodge0_to_dual(h as int, w as int, primal@);
        let mut i: usize = 0;
        while i < n
            invariant
                i <= n,
                n == primal@.len(),
                src@ == primal@,
                dual@.len() == n,
                dual.shape() == old(dual).shape(),
                old(dual).wf(),
                old(dual)@.len() == n,
                w + 1 <= usize::MAX,
                h as int == self.faces().0,
                w as int == self.faces().1,
                model == hodge0_to_dual(h as int, w as int, primal@),
                forall|k: int| 0 <= k < i ==> dual@[k] == model[k],
            decreases n - i,
        {
            let r = i / (w + 1);
            let c = i % (w + 1);
            let x = src[i];
            let mut v = x;
            if r == 0 || r == h {
                v = v.half();
            }
            if c == 0 || c == w {
                v = v.half();
            }
            proof {
                assert(halve_times(x, 0) == x);
                assert(halve_times(x, 1) == x.half_spec());
                assert(halve_times(x, 2) == x.half_spec().half_spec());
            }
            dual.set_linear(i, v);
            i += 1;
        }
        assert(dual@ =~= model);
    }

    fn apply_inv(&self, primal: &mut Array2d<T>, dual: &Array2d<T>) {
        let (h, w) = self.sizes();
        let src = dual.as_slice();
        let n = src.len();
        let ghost model = hodge0_to_primal(h as int, w as int, dual@);
        let mut i: usize = 0;
        while i < n
            invariant
                i <= n,
                n == dual@.len(),
                src@ == dual@,
                primal@.len() == n,
                primal.shape() == old(primal).shape(),
                old(primal).wf(),
                old(primal)@.len() == n,
                w + 1 <= usize::MAX,
                h as int == self.faces().0,
                w as int == self.faces().1,
                model == hodge0_to_primal(h as int, w as int, dual@),
                forall|k: int| 0 <= k < i ==> primal@[k] == model[k],
            decreases n - i,
        {
            let r = i / (w + 1);
            let c = i % (w + 1);
            let x = src[i];
            let mut v = x;
            if r == 0 || r == h {
                v = v.add(v);
            }
            if c == 0 || c == w {
                v = v.add(v);
            }
            proof {
                assert(double_times(x, 0) == x);
                assert(double_times(x, 1) == x.add_spec(x));
                assert(double_times(x, 2) == x.add_spec(x).add_spec(x.add_spec(x)));
            }
            primal.set_linear(i, v);
            i += 1;
        }
        assert(primal@ =~= model);
    }
}

impl<T: Scalar> Hodge1<T> for Grid2d {
    fn apply(&self, dual: &mut Staggered2d<T>, primal: &Staggered2d<T>) {
        let (h, w) = self.sizes();
        let size_0 = w * h + w;
        let src = primal.view_linear();
        let n = src.len();
        let ghost model = hodge1_to_dual(h as int, w as int, primal@);
        let mut i: usize = 0;
        while i < n
            invariant
                i <= n,
                n == primal@.len(),
                src@ == primal@,
                dual@.len() == n,
                dual.dims() == old(dual).dims(),
                old(dual).wf(),
                old(dual)@.len() == n,
                size_0 == vertical_count(h as int, w as int),
                model == hodge1_to_dual(h as int, w as int, primal@),
                forall|k: int| 0 <= k < i ==> dual@[k] == model[k],
            decreases n - i,
        {
            let v = if i < size_0 {
                src[i]
            } else {
                src[i].neg()
            };
            dual.set_linear(i, v);
            i += 1;
        }
        assert(dual@ =~= model);
    }

    fn apply_inv(&self, primal: &mut Staggered2d<T>, dual: &Staggered2d<T>) {
        let (h, w) = self.sizes();
        let size_0 = w * h + w;
        let src = dual.view_linear();
        let n = src.len();
        let ghost model = hodge1_to_primal(h as int, w as int, dual@);
        let mut i: usize = 0;
        while i < n
            invariant
                i <= n,
                n == dual@.len(),
                src@ == dual@,
                primal@.len() == n,
                primal.dims() == old(primal).dims(),
                old(primal).wf(),
                old(primal)@.len() == n,
                size_0 == vertical_count(h as int, w as int),
                model == hodge1_to_primal(h as int, w as int, dual@),
                forall|k: int| 0 <= k < i ==> primal@[k] == model[k],
            decreases n - i,
        {
            let v = if i < size_0 {
                src[i].neg()
            } else {
                src[i]
            };
            primal.set_linear(i, v);
            i += 1;
        }
        assert(primal@ =~= model);
    }
}

/// Copies `src` into `dst`, which has as many elements.
fn copy_into<T: Scalar>(dst: &mut Array2d<T>, src: &Array2d<T>)
    requires
        old(dst).wf(),
        old(dst)@.len() == src@.len(),
    ensures
        final(dst).wf(),
        final(dst).shape() == old(dst).shape(),
        final(dst)@ == src@,
{
    let s = src.as_slice();
    let n = s.len();
    let mut i: usize = 0;
    while i < n
        invariant
            i <= n,
            n == src@.len(),
            s@ == src@,
            dst@.len() == n,
            dst.shape() == old(dst).shape(),
            old(dst).wf(),
            old(dst)@.len() == n,
            forall|k: int| 0 <= k < i ==> dst@[k] == src@[k],
        decreases n - i,
    {
        dst.set_linear(i, s[i]);
        i += 1;
    }
    assert(dst@ =~= src@);
}

impl<T: Scalar> Hodge2<T> for Grid2d {
    fn apply(&self, dual: &mut Array2d<T>, primal: &Array2d<T>) {
        copy_into(dual, primal);
    }

    fn apply_inv(&self, primal: &mut Array2d<T>, dual: &Array2d<T>) {
        copy_into(primal, dual);
    }
}

impl<T: Scalar> Manifold2d<T> for Grid2d {
    fn num_elem_0(&self) -> (n: usize) {
        let (h, w) = self.sizes();
        (h + 1) * (w + 1)
    }

    fn num_elem_1(&self) -> (n: usize) {
        let (h, w) = self.sizes();
        2 * (h * w) + h + w
    }

    fn num_elem_2(&self) -> (n: usize) {
        let (h, w) = self.sizes();
        h * w
    }

    fn new_simplex_0(&self) -> (r: Array2d<T>) {
        let (h, w) = self.sizes();
        Array2d::from_elem(h + 1, w + 1, T::zero())
    }

    fn new_simplex_1(&self) -> (r: Staggered2d<T>) {
        let dim = self.sizes();
        Staggered2d::from_elem(dim, T::zero())
    }

    fn new_simplex_2(&self) -> (r: Array2d<T>) {
        let (h, w) = self.sizes();
        Array2d::from_elem(h, w, T::zero())
    }

    fn derivative_0_primal(&self, edges: &mut Staggered2d<T>, vertices: &Array2d<T>) {
        let (h, w) = self.sizes();
        let size_0 = w * h + w;
        let v = vertices.as_slice();
        let n = edges.len();
        let ghost model = derivative0_primal(h as int, w as int, vertices@);
        let mut i: usize = 0;
        while i < n
            invariant
                i <= n,
                n == edge_count(h as int, w as int),
                edges@.len() == n,
                edges.dims() == old(edges).dims(),
                v@ == vertices@,
                v@.len() == vertex_count(h as int, w as int),
                vertex_count(h as int, w as int) <= usize::MAX,
                1 <= w,
                size_0 == vertical_count(h as int, w as int),
                size_0 == w * h + w,
                n - size_0 == h * (w + 1),
                model == derivative0_primal(h as int, w as int, vertices@),
                forall|k: int| 0 <= k < i ==> edges@[k] == model[k],
            decreases n - i,
        {
            let x;
            if i < size_0 {
                proof {
                    assert(w * (h + 1) == w * h + w) by (nonlinear_arith);
                    assert((h + 1) * w == w * (h + 1)) by (nonlinear_arith);
                    lemma_row_col(i as int, h + 1, w as int);
                }
                let r = i / w;
                let c = i % w;
                proof {
                    lemma_index_in_range(r as int, c + 1, h + 1, w + 1);
                }
                let base = r * (w + 1) + c;
                x = v[base + 1].sub(v[base]);
            } else {
                let j = i - size_0;
                proof {
                    lemma_row_col(j as int, h as int, w + 1);
                }
                let r = j / (w + 1);
                let c = j % (w + 1);
                proof {
                    lemma_index_in_range(r + 1, c as int, h + 1, w + 1);
                    lemma_index_in_range(r as int, c as int, h + 1, w + 1);
                }
                x = v[(r + 1) * (w + 1) + c].sub(v[r * (w + 1) + c]);
            }
            edges.set_linear(i, x);
            i += 1;
        }
        assert(edges@ =~= model);
    }

    fn derivative_0_dual(&self, edges: &mut Staggered2d<T>, faces: &Array2d<T>) {
        let (h, w) = self.sizes();
        let size_0 = w * h + w;
        let f = faces.as_slice();
        let n = edges.len();
        let ghost model = derivative0_dual(h as int, w as int, old(edges)@, faces@);
        let mut i: usize = 0;
        while i < n
            invariant
                i <= n,
                n == edge_count(h as int, w as int),
                edges@.len() == n,
                old(edges)@.len() == n,
                edges.dims() == old(edges).dims(),
                f@ == faces@,
                f@.len() == face_count(h as int, w as int),
                face_count(h as int, w as int) <= usize::MAX,
                1 <= w,
                size_0 == vertical_count(h as int, w as int),
                size_0 == w * h + w,
                n - size_0 == h * (w + 1),
                model == derivative0_dual(h as int, w as int, old(edges)@, faces@),
                forall|k: int| 0 <= k < i ==> edges@[k] == model[k],
                forall|k: int| i <= k < n ==> edges@[k] == old(edges)@[k],
            decreases n - i,
        {
            if i < size_0 {
                proof {
                    assert(w * (h + 1) == w * h + w) by (nonlinear_arith);
                    assert((h + 1) * w == w * (h + 1)) by (nonlinear_arith);
                    lemma_row_col(i as int, h + 1, w as int);
                }
                let r = i / w;
                let c = i % w;
                if 1 <= r && r < h {
                    proof {
                        lemma_index_in_range(r as int, c as int, h as int, w as int);
                        lemma_index_in_range(r - 1, c as int, h as int, w as int);
                    }
                    let x = f[r * w + c].sub(f[(r - 1) * w + c]).neg();
                    edges.set_linear(i, x);
                }
            } else {
                let j = i - size_0;
                proof {
                    lemma_row_col(j as int, h as int, w + 1);
                }
                let r = j / (w + 1);
                let c = j % (w + 1);
                if 1 <= c && c < w {
                    proof {
                        lemma_index_in_range(r as int, c as int, h as int, w as int);
                        lemma_index_in_range(r as int, c - 1, h as int, w as int);
                    }
                    let x = f[r * w + c - 1].sub(f[r * w + c]);
                    edges.set_linear(i, x);
                }
            }
            i += 1;
        }
        assert(edges@ =~= model);
    }

    fn derivative_1_primal(&self, faces: &mut Array2d<T>, edges: &Staggered2d<T>) {
        let (h, w) = self.sizes();
        let size_0 = w * h + w;
        let e = edges.view_linear();
        let n = h * w;
        let ghost model = derivative1_primal(h as int, w as int, edges@);
        proof {
            assert(faces@.len() == h * w);
        }
        let mut i: usize = 0;
        while i < n
            invariant
                i <= n,
                n == face_count(h as int, w as int),
                n == h * w,
                faces@.len() == n,
                old(faces)@.len() == n,
                faces.shape() == old(faces).shape(),
                e@ == edges@,
                e@.len() == edge_count(h as int, w as int),
                1 <= w,
                size_0 == vertical_count(h as int, w as int),
                size_0 == w * h + w,
                e@.len() - size_0 == h * (w + 1),
                model == derivative1_primal(h as int, w as int, edges@),
                forall|k: int| 0 <= k < i ==> faces@[k] == model[k],
            decreases n - i,
        {
            proof {
                lemma_row_col(i as int, h as int, w as int);
            }
            let r = i / w;
            let c = i % w;
            proof {
                assert(w * (h + 1) == (h + 1) * w) by (nonlinear_arith);
                lemma_index_in_range(r + 1, c as int, h + 1, w as int);
                lemma_index_in_range(r as int, c as int, h + 1, w as int);
                lemma_index_in_range(r as int, c + 1, h as int, w + 1);
            }
            let top = e[r * w + c];
            let bottom = e[(r + 1) * w + c];
            let left = e[size_0 + r * (w + 1) + c];
            let right = e[size_0 + r * (w + 1) + c + 1];
            let x = bottom.neg().add(top).sub(left).add(right);
            faces.set_linear(i, x);
            i += 1;
        }
        assert(faces@ =~= model);
    }

    fn derivative_1_dual(&self, vertices: &mut Array2d<T>, edges: &Staggered2d<T>) -> (r: Result<
        (),
        NotImplemented,
    >) {
        Err(NotImplemented)
    }

    fn hodge_0_primal(&self, dual: &mut Array2d<T>, primal: &Array2d<T>) {
        Hodge0::apply(self, dual, primal)
    }

    fn hodge_2_dual(&self, primal: &mut Array2d<T>, dual: &Array2d<T>) {
        Hodge2::apply_inv(self, primal, dual)
    }

    fn hodge_1_primal(&self, dual: &mut Staggered2d<T>, primal: &Staggered2d<T>) {
        Hodge1::apply(self, dual, primal)
    }

    fn hodge_1_dual(&self, primal: &mut Staggered2d<T>, dual: &Staggered2d<T>) {
        Hodge1::apply_inv(self, primal, dual)
    }

    fn hodge_2_primal(&self, dual: &mut Array2d<T>, primal: &Array2d<T>) {
        Hodge2::apply(self, dual, primal)
    }

    fn hodge_0_dual(&self, primal: &mut Array2d<T>, dual: &Array2d<T>) {
        Hodge0::apply_inv(self, primal, dual)
    }

    fn derivative_0_primal_matrix(&self) -> (r: Result<SparseMatrix<T>, NotImplemented>) {
        Err(NotImplemented)
    }

    fn derivative_0_dual_matrix(&self) -> (r: Result<SparseMatrix<T>, NotImplemented>) {
        Err(NotImplemented)
    }

    fn derivative_1_primal_matrix(&self) -> (r: Result<SparseMatrix<T>, NotImplemented>) {
        Err(NotImplemented)
    }

    fn derivative_1_dual_matrix(&self) -> (r: Result<SparseMatrix<T>, NotImplemented>) {
        Err(NotImplemented)
    }

    fn hodge_0_primal_matrix(&self) -> (r: Result<DiagonalMatrix<T>, NotImplemented>) {
        Err(NotImplemented)
    }

    fn hodge_1_primal_matrix(&self) -> (r: Result<DiagonalMatrix<T>, NotImplemented>) {
        Err(NotImplemented)
    }

    fn hodge_2_primal_matrix(&self) -> (r: Result<DiagonalMatrix<T>, NotImplemented>) {
        Err(NotImplemented)
    }

    fn hodge_0_dual_matrix(&self) -> (r: Result<DiagonalMatrix<T>, NotImplemented>) {
        Err(NotImplemented)
    }

    fn hodge_1_dual_matrix(&self) -> (r: Result<DiagonalMatrix<T>, NotImplemented>) {
        Err(NotImplemented)
    }

    fn hodge_2_dual_matrix(&self) -> (r: Result<DiagonalMatrix<T>, NotImplemented>) {
        Err(NotImplemented)
    }
}

} // verus!
