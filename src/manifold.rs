//! The operator families of a two-dimensional manifold: one Hodge star per
//! form degree, and the exterior derivatives.
use crate::forms::{Array2d, Staggered2d};
use crate::model::{
    derivative0_dual, derivative0_primal, derivative1_primal, edge_count, face_count,
    hodge0_to_dual, hodge0_to_primal, hodge1_to_dual, hodge1_to_primal, vertex_count,
};
use crate::scalar::Scalar;
use std::marker::PhantomData;
use vstd::prelude::*;

verus! {

/// The signal of an operation that is declared but has no implementation.
#[derive(Clone, Copy, Debug, PartialEq, Eq)]
pub struct NotImplemented;

/// A matrix of shape `(rows, columns)` given by its non-zero entries.
pub struct SparseMatrix<T> {
    pub shape: (usize, usize),
    pub entries: Vec<(usize, usize, T)>,
}

/// A square matrix given by its diagonal.
pub struct DiagonalMatrix<T> {
    pub diagonal: Vec<T>,
}

/// A rectangular grid, measured in faces.
pub trait Shape2d {
    /// `(h, w)`: the number of faces along each axis.
    spec fn faces(&self) -> (nat, nat);
}

/// The shape of the vertex array of a grid of `faces`.
pub open spec fn vertex_shape(faces: (nat, nat)) -> (nat, nat) {
    (faces.0 + 1, faces.1 + 1)
}

/// Hodge star of 0-forms, on the `(h+1) × (w+1)` vertex array.
pub trait Hodge0<T: Scalar>: Shape2d {
    /// Primal to dual: `dual = μ · primal`, with `μ` a quarter at the four
    /// corners, a half elsewhere on the boundary and one inside.
    fn apply(&self, dual: &mut Array2d<T>, primal: &Array2d<T>)
        requires
            primal.wf(),
            primal.shape() == vertex_shape(self.faces()),
            old(dual).wf(),
            old(dual).shape() == vertex_shape(self.faces()),
        ensures
            final(dual).wf(),
            final(dual).shape() == old(dual).shape(),
            final(dual)@ == hodge0_to_dual(self.faces().0 as int, self.faces().1 as int, primal@),
    ;

    /// Dual to primal: `primal = dual / μ`.
    fn apply_inv(&self, primal: &mut Array2d<T>, dual: &Array2d<T>)
        requires
            dual.wf(),
            dual.shape() == vertex_shape(self.faces()),
            old(primal).wf(),
            old(primal).shape() == vertex_shape(self.faces()),
        ensures
            final(primal).wf(),
            final(primal).shape() == old(primal).shape(),
            final(primal)@ == hodge0_to_primal(self.faces().0 as int, self.faces().1 as int, dual@),
    ;
}

/// Hodge star of 1-forms, on the staggered edge buffer.
pub trait Hodge1<T: Scalar>: Shape2d {
    /// Primal to dual: vertical block kept, horizontal block negated.
    fn apply(&self, dual: &mut Staggered2d<T>, primal: &Staggered2d<T>)
        requires
            primal.wf(),
            primal.dims() == self.faces(),
            old(dual).wf(),
            old(dual).dims() == self.faces(),
        ensures
            final(dual).wf(),
            final(dual).dims() == old(dual).dims(),
            final(dual)@ == hodge1_to_dual(self.faces().0 as int, self.faces().1 as int, primal@),
    ;

    /// Dual to primal: vertical block negated, horizontal block kept.
    fn apply_inv(&self, primal: &mut Staggered2d<T>, dual: &Staggered2d<T>)
        requires
            dual.wf(),
            dual.dims() == self.faces(),
            old(primal).wf(),
            old(primal).dims() == self.faces(),
        ensures
            final(primal).wf(),
            final(primal).dims() == old(primal).dims(),
            final(primal)@ == hodge1_to_primal(self.faces().0 as int, self.faces().1 as int, dual@),
    ;
}

/// Hodge star of 2-forms, on the `h × w` face array: the identity both ways.
pub trait Hodge2<T: Scalar>: Shape2d {
    fn apply(&self, dual: &mut Array2d<T>, primal: &Array2d<T>)
        requires
            primal.wf(),
            primal.shape() == self.faces(),
            old(dual).wf(),
            old(dual).shape() == self.faces(),
        ensures
            final(dual).wf(),
            final(dual).shape() == old(dual).shape(),
            final(dual)@ == primal@,
    ;

    fn apply_inv(&self, primal: &mut Array2d<T>, dual: &Array2d<T>)
        requires
            dual.wf(),
            dual.shape() == self.faces(),
            old(primal).wf(),
            old(primal).shape() == self.faces(),
        ensures
            final(primal).wf(),
            final(primal).shape() == old(primal).shape(),
            final(primal)@ == dual@,
    ;
}

/// The façade over one grid: sizes, zeroed storage, exterior derivatives and
/// the Hodge stars by their primal/dual names.
pub trait Manifold2d<T: Scalar>: Hodge0<T> + Hodge1<T> + Hodge2<T> {
    /// Number of vertices, `(h+1)(w+1)`.
    fn num_elem_0(&self) -> (n: usize)
        ensures
            n == vertex_count(self.faces().0 as int, self.faces().1 as int),
    ;

    /// Number of edges, `w(h+1) + h(w+1)`.
    fn num_elem_1(&self) -> (n: usize)
        ensures
            n == edge_count(self.faces().0 as int, self.faces().1 as int),
    ;

    /// Number of faces, `hw`.
    fn num_elem_2(&self) -> (n: usize)
        ensures
            n == face_count(self.faces().0 as int, self.faces().1 as int),
    ;

    /// A zero 0-form: one value per vertex.
    fn new_simplex_0(&self) -> (r: Array2d<T>)
        ensures
            r.wf(),
            r.shape() == vertex_shape(self.faces()),
            r@ == Seq::new(
                vertex_count(self.faces().0 as int, self.faces().1 as int) as nat,
                |_i: int| T::zero_spec(),
            ),
    ;

    /// A zero 1-form: one value per edge.
    fn new_simplex_1(&self) -> (r: Staggered2d<T>)
        ensures
            r.wf(),
            r.dims() == self.faces(),
            r@ == Seq::new(
                edge_count(self.faces().0 as int, self.faces().1 as int) as nat,
                |_i: int| T::zero_spec(),
            ),
    ;

    /// A zero 2-form: one value per face.
    fn new_simplex_2(&self) -> (r: Array2d<T>)
        ensures
            r.wf(),
            r.shape() == self.faces(),
            r@ == Seq::new(
                face_count(self.faces().0 as int, self.faces().1 as int) as nat,
                |_i: int| T::zero_spec(),
            ),
    ;

    /// Exterior derivative of a primal 0-form into a primal 1-form.
    fn derivative_0_primal(&self, edges: &mut Staggered2d<T>, vertices: &Array2d<T>)
        requires
            vertices.wf(),
            vertices.shape() == vertex_shape(self.faces()),
            old(edges).wf(),
            old(edges).dims() == self.faces(),
        ensures
            final(edges).wf(),
            final(edges).dims() == old(edges).dims(),
            final(edges)@ == derivative0_primal(
                self.faces().0 as int,
                self.faces().1 as int,
                vertices@,
            ),
    ;

    /// Exterior derivative of a dual 0-form, stored on the faces, into a dual
    /// 1-form; the outer rows and columns of edges keep their values.
    fn derivative_0_dual(&self, edges: &mut Staggered2d<T>, faces: &Array2d<T>)
        requires
            faces.wf(),
            faces.shape() == self.faces(),
            old(edges).wf(),
            old(edges).dims() == self.faces(),
        ensures
            final(edges).wf(),
            final(edges).dims() == old(edges).dims(),
            final(edges)@ == derivative0_dual(
                self.faces().0 as int,
                self.faces().1 as int,
                old(edges)@,
                faces@,
            ),
    ;

    /// Exterior derivative of a primal 1-form into a primal 2-form.
    fn derivative_1_primal(&self, faces: &mut Array2d<T>, edges: &Staggered2d<T>)
        requires
            edges.wf(),
            edges.dims() == self.faces(),
            old(faces).wf(),
            old(faces).shape() == self.faces(),
        ensures
            final(faces).wf(),
            final(faces).shape() == old(faces).shape(),
            final(faces)@ == derivative1_primal(
                self.faces().0 as int,
                self.faces().1 as int,
                edges@,
            ),
    ;

    /// Exterior derivative of a dual 1-form: not implemented; the output is
    /// left as it was.
    fn derivative_1_dual(&self, vertices: &mut Array2d<T>, edges: &Staggered2d<T>) -> (r: Result<
        (),
        NotImplemented,
    >)
        ensures
            r == Err::<(), NotImplemented>(NotImplemented),
            *final(vertices) == *old(vertices),
    ;

    /// Hodge star of a primal 0-form.
    fn hodge_0_primal(&self, dual: &mut Array2d<T>, primal: &Array2d<T>)
        requires
            primal.wf(),
            primal.shape() == vertex_shape(self.faces()),
            old(dual).wf(),
            old(dual).shape() == vertex_shape(self.faces()),
        ensures
            final(dual).wf(),
            final(dual).shape() == old(dual).shape(),
            final(dual)@ == hodge0_to_dual(self.faces().0 as int, self.faces().1 as int, primal@),
    ;

    /// Hodge star of a dual 2-form: the inverse star on the face array.
    fn hodge_2_dual(&self, primal: &mut Array2d<T>, dual: &Array2d<T>)
        requires
            dual.wf(),
            dual.shape() == self.faces(),
            old(primal).wf(),
            old(primal).shape() == self.faces(),
        ensures
            final(primal).wf(),
            final(primal).shape() == old(primal).shape(),
            final(primal)@ == dual@,
    ;

    /// Hodge star of a primal 1-form.
    fn hodge_1_primal(&self, dual: &mut Staggered2d<T>, primal: &Staggered2d<T>)
        requires
            primal.wf(),
            primal.dims() == self.faces(),
            old(dual).wf(),
            old(dual).dims() == self.faces(),
        ensures
            final(dual).wf(),
            final(dual).dims() == old(dual).dims(),
            final(dual)@ == hodge1_to_dual(self.faces().0 as int, self.faces().1 as int, primal@),
    ;

    /// Hodge star of a dual 1-form.
    fn hodge_1_dual(&self, primal: &mut Staggered2d<T>, dual: &Staggered2d<T>)
        requires
            dual.wf(),
            dual.dims() == self.faces(),
            old(primal).wf(),
            old(primal).dims() == self.faces(),
        ensures
            final(primal).wf(),
            final(primal).dims() == old(primal).dims(),
            final(primal)@ == hodge1_to_primal(self.faces().0 as int, self.faces().1 as int, dual@),
    ;

    /// Hodge star of a primal 2-form.
    fn hodge_2_primal(&self, dual: &mut Array2d<T>, primal: &Array2d<T>)
        requires
            primal.wf(),
            primal.shape() == self.faces(),
            old(dual).wf(),
            old(dual).shape() == self.faces(),
        ensures
            final(dual).wf(),
            final(dual).shape() == old(dual).shape(),
            final(dual)@ == primal@,
    ;

    /// Hodge star of a dual 0-form: the inverse star on the vertex array.
    fn hodge_0_dual(&self, primal: &mut Array2d<T>, dual: &Array2d<T>)
        requires
            dual.wf(),
            dual.shape() == vertex_shape(self.faces()),
            old(primal).wf(),
            old(primal).shape() == vertex_shape(self.faces()),
        ensures
            final(primal).wf(),
            final(primal).shape() == old(primal).shape(),
            final(primal)@ == hodge0_to_primal(self.faces().0 as int, self.faces().1 as int, dual@),
    ;

    /// Not implemented.
    fn derivative_0_primal_matrix(&self) -> (r: Result<SparseMatrix<T>, NotImplemented>)
        ensures
            r is Err,
    ;

    /// Not implemented.
    fn derivative_0_dual_matrix(&self) -> (r: Result<SparseMatrix<T>, NotImplemented>)
        ensures
            r is Err,
    ;

    /// Not implemented.
    fn derivative_1_primal_matrix(&self) -> (r: Result<SparseMatrix<T>, NotImplemented>)
        ensures
            r is Err,
    ;

    /// Not implemented.
    fn derivative_1_dual_matrix(&self) -> (r: Result<SparseMatrix<T>, NotImplemented>)
        ensures
            r is Err,
    ;

    /// Not implemented.
    fn hodge_0_primal_matrix(&self) -> (r: Result<DiagonalMatrix<T>, NotImplemented>)
        ensures
            r is Err,
    ;

    /// Not implemented.
    fn hodge_1_primal_matrix(&self) -> (r: Result<DiagonalMatrix<T>, NotImplemented>)
        ensures
            r is Err,
    ;

    /// Not implemented.
    fn hodge_2_primal_matrix(&self) -> (r: Result<DiagonalMatrix<T>, NotImplemented>)
        ensures
            r is Err,
    ;

    /// Not implemented.
    fn hodge_0_dual_matrix(&self) -> (r: Result<DiagonalMatrix<T>, NotImplemented>)
        ensures
            r is Err,
    ;

    /// Not implemented.
    fn hodge_1_dual_matrix(&self) -> (r: Result<DiagonalMatrix<T>, NotImplemented>)
        ensures
            r is Err,
    ;

    /// Not implemented.
    fn hodge_2_dual_matrix(&self) -> (r: Result<DiagonalMatrix<T>, NotImplemented>)
        ensures
            r is Err,
    ;
}

/// A discrete Laplacian, built on the operators of a manifold.
pub struct Laplacian<'a, T: Scalar, M: Manifold2d<T>> {
    pub manifold: &'a M,
    pub marker: PhantomData<T>,
}

impl<'a, T: Scalar, M: Manifold2d<T>> Laplacian<'a, T, M> {
    pub fn new(manifold: &'a M) -> (r: Self)
        ensures
            r.manifold == manifold,
    {
        Laplacian { manifold, marker: PhantomData }
    }
}

} // verus!
