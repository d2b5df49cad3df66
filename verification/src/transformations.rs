use vstd::prelude::*;
use crate::matrix::Matrix;

verus! {

/// A transform of space: its matrix, the inverse of the matrix, and the
/// transpose of the inverse, which takes normals where the matrix takes
/// points.
///
/// The arithmetic of matrices is the caller's: `multiply` gives the product
/// of two matrices, and `invert` the inverse of one.
#[derive(Clone, Copy, Debug, PartialEq, Eq)]
pub struct Transform {
    pub matrix: Matrix,
    pub inverse_matrix: Matrix,
    pub inverse_transpose_matrix: Matrix,
}

impl Transform {
    /// The third matrix is the transpose of the second.
    pub open spec fn consistent(self) -> bool {
        self.inverse_transpose_matrix.cols@ == self.inverse_matrix.transposed()
    }

    /// Whether the transform is the one of the matrix: its inverse is what
    /// `invert` makes of the matrix.
    pub open spec fn made_of<I: Fn(&Matrix) -> Matrix>(self, matrix: Matrix, invert: I) -> bool {
        &&& self.matrix == matrix
        &&& invert.ensures((&matrix,), self.inverse_matrix)
        &&& self.consistent()
    }

    /// Whether the transform is `first` followed by the transform of the
    /// matrix `then`.
    pub open spec fn follows<M: Fn(&Matrix, &Matrix) -> Matrix, I: Fn(&Matrix) -> Matrix>(
        self,
        first: Transform,
        then: Matrix,
        multiply: M,
        invert: I,
    ) -> bool {
        &&& multiply.ensures((&then, &first.matrix), self.matrix)
        &&& self.made_of(self.matrix, invert)
    }

    /// The transform that leaves every point where it is.
    pub open spec fn is_identity(self) -> bool {
        &&& self.matrix.cols@ == Matrix::spec_identity()
        &&& self.inverse_matrix.cols@ == Matrix::spec_identity()
        &&& self.inverse_transpose_matrix.cols@ == Matrix::spec_identity()
    }

    /// Whether two transforms are the same, matrix by matrix.
    pub fn same(&self, other: &Transform) -> (same: bool)
        ensures
            same == (*self == *other),
    {
        self.matrix.same(&other.matrix) && self.inverse_matrix.same(&other.inverse_matrix)
            && self.inverse_transpose_matrix.same(&other.inverse_transpose_matrix)
    }

    pub fn new() -> (transform: Self)
        ensures
            transform.is_identity(),
            transform.consistent(),
    {
        Self::identity()
    }

    pub fn identity() -> (transform: Self)
        ensures
            transform.is_identity(),
            transform.consistent(),
    {
        let transform = Self {
            matrix: Matrix::identity(),
            inverse_matrix: Matrix::identity(),
            inverse_transpose_matrix: Matrix::identity(),
        };
        proof {
            crate::matrix::lemma_identity_is_its_transpose(transform.inverse_matrix);
        }
        transform
    }

    /// The transform of a matrix.
    pub fn from_matrix<I: Fn(&Matrix) -> Matrix>(matrix: Matrix, invert: &I) -> (transform: Self)
        requires
            forall|m: &Matrix| #[trigger] invert.requires((m,)),
        ensures
            transform.made_of(matrix, *invert),
    {
        let inverse_matrix: Matrix = invert(&matrix);
        Self { matrix, inverse_matrix, inverse_transpose_matrix: inverse_matrix.transpose() }
    }

    /// This transform followed by the other.
    pub fn apply<M: Fn(&Matrix, &Matrix) -> Matrix, I: Fn(&Matrix) -> Matrix>(
        self,
        other: &Transform,
        multiply: &M,
        invert: &I,
    ) -> (transform: Self)
        requires
            forall|a: &Matrix, b: &Matrix| #[trigger] multiply.requires((a, b)),
            forall|m: &Matrix| #[trigger] invert.requires((m,)),
        ensures
            transform.follows(self, other.matrix, *multiply, *invert),
    {
        Transform::from_matrix(multiply(&other.matrix, &self.matrix), invert)
    }

    /// This transform followed by a move by the given amounts.
    pub fn with_translation<M: Fn(&Matrix, &Matrix) -> Matrix, I: Fn(&Matrix) -> Matrix>(
        self,
        x: i64,
        y: i64,
        z: i64,
        multiply: &M,
        invert: &I,
    ) -> (transform: Self)
        requires
            forall|a: &Matrix, b: &Matrix| #[trigger] multiply.requires((a, b)),
            forall|m: &Matrix| #[trigger] invert.requires((m,)),
        ensures
            exists|step: Matrix|
                step.cols@ == Matrix::spec_identity().update(12, x).update(13, y).update(14, z)
                    && #[trigger] transform.follows(self, step, *multiply, *invert),
    {
        let step: Matrix = Matrix::translation(x, y, z);
        let transform = Transform::from_matrix(multiply(&step, &self.matrix), invert);
        assert(transform.follows(self, step, *multiply, *invert));
        transform
    }

    /// This transform followed by a stretch by the given factors.
    pub fn with_scale<M: Fn(&Matrix, &Matrix) -> Matrix, I: Fn(&Matrix) -> Matrix>(
        self,
        x: i64,
        y: i64,
        z: i64,
        multiply: &M,
        invert: &I,
    ) -> (transform: Self)
        requires
            forall|a: &Matrix, b: &Matrix| #[trigger] multiply.requires((a, b)),
            forall|m: &Matrix| #[trigger] invert.requires((m,)),
        ensures
            exists|step: Matrix|
                step.cols@ == Matrix::spec_identity().update(0, x).update(5, y).update(10, z)
                    && #[trigger] transform.follows(self, step, *multiply, *invert),
    {
        let step: Matrix = Matrix::scaling(x, y, z);
        let transform = Transform::from_matrix(multiply(&step, &self.matrix), invert);
        assert(transform.follows(self, step, *multiply, *invert));
        transform
    }

    /// This transform followed by the transform of a matrix, such as a
    /// turn about an axis.
    pub fn with_matrix<M: Fn(&Matrix, &Matrix) -> Matrix, I: Fn(&Matrix) -> Matrix>(
        self,
        step: &Matrix,
        multiply: &M,
        invert: &I,
    ) -> (transform: Self)
        requires
            forall|a: &Matrix, b: &Matrix| #[trigger] multiply.requires((a, b)),
            forall|m: &Matrix| #[trigger] invert.requires((m,)),
        ensures
            transform.follows(self, *step, *multiply, *invert),
    {
        Transform::from_matrix(multiply(step, &self.matrix), invert)
    }
}

impl Default for Transform {
    fn default() -> (transform: Self)
        ensures
            transform.is_identity(),
            transform.consistent(),
    {
        Self::identity()
    }
}

} // verus!
