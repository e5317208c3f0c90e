use vstd::prelude::*;
use crate::math::errors::SubmatrixIndexError;
use crate::math::index::skip;
use crate::math::matrix2::Matrix2;
use crate::math::tuple2::Tuple2;
use crate::math::tuple3::Tuple3;

verus! {

/// A 3 x 3 matrix, held as its three columns.
#[derive(Clone, Copy, Debug, PartialEq)]
pub struct Matrix3<T> {
    pub c0: Tuple3<T>,
    pub c1: Tuple3<T>,
    pub c2: Tuple3<T>,
}

impl<T: Copy> Matrix3<T> {
    /// The column with index `column`.
    pub open spec fn column(self, column: int) -> Tuple3<T> {
        if column == 0 {
            self.c0
        } else if column == 1 {
            self.c1
        } else {
            self.c2
        }
    }

    /// The entry in row `row` of column `column`.
    pub open spec fn entry(self, row: int, column: int) -> T {
        self.column(column)@[row]
    }

    /// The matrix with rows and columns swapped.
    pub open spec fn spec_transposed(self) -> Self {
        Matrix3 {
            c0: Tuple3 { x: self.entry(0, 0), y: self.entry(0, 1), z: self.entry(0, 2) },
            c1: Tuple3 { x: self.entry(1, 0), y: self.entry(1, 1), z: self.entry(1, 2) },
            c2: Tuple3 { x: self.entry(2, 0), y: self.entry(2, 1), z: self.entry(2, 2) },
        }
    }

    /// Column `j` of the matrix without row `row` and column `column`.
    pub open spec fn spec_subcolumn(self, row: int, column: int, j: int) -> Tuple2<T> {
        Tuple2 {
            x: self.entry(skip(0, row), skip(j, column)),
            y: self.entry(skip(1, row), skip(j, column)),
        }
    }

    /// The matrix without row `row` and column `column`.
    pub open spec fn spec_submatrix(self, row: int, column: int) -> Matrix2<T> {
        Matrix2 {
            c0: self.spec_subcolumn(row, column, 0),
            c1: self.spec_subcolumn(row, column, 1),
        }
    }

    pub fn new(c0: Tuple3<T>, c1: Tuple3<T>, c2: Tuple3<T>) -> (m: Self)
        ensures
            m == (Matrix3 { c0, c1, c2 }),
    {
        Matrix3 { c0, c1, c2 }
    }

    /// The first row.
    pub fn r0(&self) -> (row: Tuple3<T>)
        ensures
            row@ == seq![self.entry(0, 0), self.entry(0, 1), self.entry(0, 2)],
    {
        Tuple3::new(self.c0.x(), self.c1.x(), self.c2.x())
    }

    /// The second row.
    pub fn r1(&self) -> (row: Tuple3<T>)
        ensures
            row@ == seq![self.entry(1, 0), self.entry(1, 1), self.entry(1, 2)],
    {
        Tuple3::new(self.c0.y(), self.c1.y(), self.c2.y())
    }

    /// The third row.
    pub fn r2(&self) -> (row: Tuple3<T>)
        ensures
            row@ == seq![self.entry(2, 0), self.entry(2, 1), self.entry(2, 2)],
    {
        Tuple3::new(self.c0.z(), self.c1.z(), self.c2.z())
    }

    /// Swaps rows and columns in place.
    pub fn transpose(&mut self)
        ensures
            *final(self) == old(self).spec_transposed(),
    {
        let r0 = self.r0();
        let r1 = self.r1();
        let r2 = self.r2();
        self.c0 = r0;
        self.c1 = r1;
        self.c2 = r2;
    }

    /// The matrix with rows and columns swapped.
    pub fn transposed(&self) -> (m: Self)
        ensures
            m == self.spec_transposed(),
    {
        Matrix3::new(self.r0(), self.r1(), self.r2())
    }

    /// The matrix without row `row` and column `column`; an index outside
    /// the matrix is an error.
    pub fn submatrix(&self, row: usize, column: usize) -> (sub: Result<
        Matrix2<T>,
        SubmatrixIndexError,
    >)
        ensures
            row < 3 && column < 3 ==> sub == Ok::<Matrix2<T>, SubmatrixIndexError>(
                self.spec_submatrix(row as int, column as int),
            ),
            row >= 3 || column >= 3 ==> sub == Err::<Matrix2<T>, SubmatrixIndexError>(
                SubmatrixIndexError,
            ),
    {
        if row >= 3 || column >= 3 {
            Err(SubmatrixIndexError)
        } else {
            let (c0, c1) = match column {
                0 => (self.c1, self.c2),
                1 => (self.c0, self.c2),
                _ => (self.c0, self.c1),
            };
            let (sc0, sc1) = match row {
                0 => (c0.yz(), c1.yz()),
                1 => (c0.xz(), c1.xz()),
                _ => (c0.xy(), c1.xy()),
            };
            Ok(Matrix2::new(sc0, sc1))
        }
    }

    /// Entry `(row, column)` of the transpose is entry `(column, row)` of
    /// the matrix.
    pub proof fn transposed_swaps_entries(self, row: int, column: int)
        requires
            0 <= row < 3,
            0 <= column < 3,
        ensures
            self.spec_transposed().entry(row, column) == self.entry(column, row),
    {
    }

    /// Transposing twice gives the matrix back.
    pub proof fn transposed_twice(self)
        ensures
            self.spec_transposed().spec_transposed() == self,
    {
    }

    /// The submatrix keeps every entry that lies neither in the removed row
    /// nor in the removed column, in its old order.
    pub proof fn submatrix_keeps_entries(self, row: int, column: int, i: int, j: int)
        requires
            0 <= row < 3,
            0 <= column < 3,
            0 <= i < 2,
            0 <= j < 2,
        ensures
            self.spec_submatrix(row, column).entry(i, j) == self.entry(
                skip(i, row),
                skip(j, column),
            ),
    {
    }
}

} // verus!
