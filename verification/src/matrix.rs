use vstd::prelude::*;
use crate::scalar;

verus! {

/// A matrix of four rows and four columns of ranks, stored column by
/// column.
#[derive(Clone, Copy, Debug, PartialEq, Eq)]
pub struct Matrix {
    pub cols: [i64; 16],
}

impl Matrix {
    /// The rank in the given row of the given column.
    pub open spec fn at(self, row: int, col: int) -> i64 {
        self.cols@[col * 4 + row]
    }

    /// The matrix with rows and columns exchanged.
    pub open spec fn transposed(self) -> Seq<i64> {
        Seq::new(16, |k: int| self.cols@[(k % 4) * 4 + k / 4])
    }

    /// The matrix that maps every point to itself.
    pub open spec fn spec_identity() -> Seq<i64> {
        seq![
            scalar::ONE, 0, 0, 0,
            0, scalar::ONE, 0, 0,
            0, 0, scalar::ONE, 0,
            0, 0, 0, scalar::ONE,
        ]
    }

    /// Whether two matrices are the same, entry by entry.
    pub fn same(&self, other: &Matrix) -> (same: bool)
        ensures
            same == (*self == *other),
    {
        let mut k: usize = 0;
        while k < 16
            invariant
                k <= 16,
                forall|j: int| 0 <= j < k ==> self.cols@[j] == other.cols@[j],
            decreases 16 - k,
        {
            if self.cols[k] != other.cols[k] {
                return false;
            }
            k += 1;
        }
        assert(self.cols =~= other.cols);
        true
    }

    pub fn new(cols: [i64; 16]) -> (m: Self)
        ensures
            m.cols == cols,
    {
        Self { cols }
    }

    pub fn identity() -> (m: Self)
        ensures
            m.cols@ == Matrix::spec_identity(),
    {
        let m = Self {
            cols: [
                scalar::ONE, 0, 0, 0,
                0, scalar::ONE, 0, 0,
                0, 0, scalar::ONE, 0,
                0, 0, 0, scalar::ONE,
            ],
        };
        assert(m.cols@ =~= Matrix::spec_identity());
        m
    }

    /// The matrix that moves every point by the given amounts: the
    /// identity, with the amounts in its last column.
    pub fn translation(x: i64, y: i64, z: i64) -> (m: Self)
        ensures
            m.cols@ == Matrix::spec_identity().update(12, x).update(13, y).update(14, z),
    {
        let m = Self {
            cols: [
                scalar::ONE, 0, 0, 0,
                0, scalar::ONE, 0, 0,
                0, 0, scalar::ONE, 0,
                x, y, z, scalar::ONE,
            ],
        };
        assert(m.cols@ =~= Matrix::spec_identity().update(12, x).update(13, y).update(14, z));
        m
    }

    /// The matrix that stretches every point by the given factors: the
    /// identity, with the factors on its diagonal.
    pub fn scaling(x: i64, y: i64, z: i64) -> (m: Self)
        ensures
            m.cols@ == Matrix::spec_identity().update(0, x).update(5, y).update(10, z),
    {
        let m = Self {
            cols: [
                x, 0, 0, 0,
                0, y, 0, 0,
                0, 0, z, 0,
                0, 0, 0, scalar::ONE,
            ],
        };
        assert(m.cols@ =~= Matrix::spec_identity().update(0, x).update(5, y).update(10, z));
        m
    }

    pub fn transpose(&self) -> (t: Matrix)
        ensures
            t.cols@ == self.transposed(),
            forall|row: int, col: int|
                0 <= row < 4 && 0 <= col < 4 ==> #[trigger] t.at(row, col) == self.at(col, row),
    {
        let c = &self.cols;
        let t = Matrix {
            cols: [
                c[0], c[4], c[8], c[12],
                c[1], c[5], c[9], c[13],
                c[2], c[6], c[10], c[14],
                c[3], c[7], c[11], c[15],
            ],
        };
        assert(t.cols@ =~= self.transposed());
        t
    }
}

/// Exchanging rows and columns twice gives the matrix back.
pub proof fn lemma_transposed_twice(m: Matrix, t: Matrix)
    requires
        t.cols@ == m.transposed(),
    ensures
        t.transposed() == m.cols@,
{
    assert(t.transposed() =~= m.cols@);
}

/// The identity is its own transpose.
pub proof fn lemma_identity_is_its_transpose(m: Matrix)
    requires
        m.cols@ == Matrix::spec_identity(),
    ensures
        m.transposed() == Matrix::spec_identity(),
{
    assert(m.transposed() =~= Matrix::spec_identity());
}

} // verus!
