use vstd::prelude::*;
use crate::math::errors::SubmatrixIndexError;
use crate::math::index::skip;
use crate::math::matrix3::Matrix3;
use crate::math::tuple3::Tuple3;
use crate::math::tuple4::Tuple4;

verus! {

/// A 4 x 4 matrix, held as its four columns.
#[derive(Clone, Copy, Debug, PartialEq)]
pub struct Matrix4<T> {
    pub c0: Tuple4<T>,
    pub c1: Tuple4<T>,
    pub c2: Tuple4<T>,
    pub c3: Tuple4<T>,
}

impl<T: Copy> Matrix4<T> {
    /// The column with index `column`.
    pub open spec fn column(self, column: int) -> Tuple4<T> {
        if column == 0 {
            self.c0
        } else if column == 1 {
            self.c1
        } else if column == 2 {
            self.c2
        } else {
            self.c3
        }
    }

    /// The entry in row `row` of column `column`.
    pub open spec fn entry(self, row: int, column: int) -> T {
        self.column(column)@[row]
    }

    /// Row `row` of the matrix, as a column of its transpose.
    pub open spec fn spec_row(self, row: int) -> Tuple4<T> {
        Tuple4 {
            x: self.entry(row, 0),
            y: self.entry(row, 1),
            z: self.entry(row, 2),
            w: self.entry(row, 3),
        }
    }

    /// The matrix with rows and columns swapped.
    pub open spec fn spec_transposed(self) -> Self {
        Matrix4 {
            c0: self.spec_row(0),
            c1: self.spec_row(1),
            c2: self.spec_row(2),
            c3: self.spec_row(3),
        }
    }

    /// Column `j` of the matrix without row `row` and column `column`.
    pub open spec fn spec_subcolumn(self, row: int, column: int, j: int) -> Tuple3<T> {
        Tuple3 {
            x: self.entry(skip(0, row), skip(j, column)),
            y: self.entry(skip(1, row), skip(j, column)),
            z: self.entry(skip(2, row), skip(j, column)),
        }
    }

    /// The matrix without row `row` and column `column`.
    pub open spec fn spec_submatrix(self, row: int, column: int) -> Matrix3<T> {
        Matrix3 {
            c0: self.spec_subcolumn(row, column, 0),
            c1: self.spec_subcolumn(row, column, 1),
            c2: self.spec_subcolumn(row, column, 2),
        }
    }

    pub fn new(c0: Tuple4<T>, c1: Tuple4<T>, c2: Tuple4<T>, c3: Tuple4<T>) -> (m: Self)
        ensures
            m == (Matrix4 { c0, c1, c2, c3 }),
    {
        Matrix4 { c0, c1, c2, c3 }
    }

    /// The first row.
    pub fn r0(&self) -> (row: Tuple4<T>)
        ensures
            row == self.spec_row(0),
    {
        Tuple4::new(self.c0.x(), self.c1.x(), self.c2.x(), self.c3.x())
    }

    /// The second row.
    pub fn r1(&self) -> (row: Tuple4<T>)
        ensures
            row == self.spec_row(1),
    {
        Tuple4::new(self.c0.y(), self.c1.y(), self.c2.y(), self.c3.y())
    }

    /// The third row.
    pub fn r2(&self) -> (row: Tuple4<T>)
        ensures
            row == self.spec_row(2),
    {
        Tuple4::new(self.c0.z(), self.c1.z(), self.c2.z(), self.c3.z())
    }

    /// The fourth row.
    pub fn r3(&self) -> (row: Tuple4<T>)
        ensures
            row == self.spec_row(3),
    {
        Tuple4::new(self.c0.w(), self.c1.w(), self.c2.w(), self.c3.w())
    }

    /// Swaps rows and columns in place.
    pub fn transpose(&mut self)
        ensures
            *final(self) == old(self).spec_transposed(),
    {
        let r0 = self.r0();
        let r1 = self.r1();
        let r2 = self.r2();
        let r3 = self.r3();
        self.c0 = r0;
        self.c1 = r1;
        self.c2 = r2;
        self.c3 = r3;
    }

    /// The matrix with rows and columns swapped.
    pub fn transposed(&self) -> (m: Self)
        ensures
            m == self.spec_transposed(),
    {
        Matrix4::new(self.r0(), self.r1(), self.r2(), self.r3())
    }

    /// The matrix without row `row` and column `column`; an index outside
    /// the matrix is an error.
    pub fn submatrix(&self, row: usize, column: usize) -> (sub: Result<
        Matrix3<T>,
        SubmatrixIndexError,
    >)
        ensures
            row < 4 && column < 4 ==> sub == Ok::<Matrix3<T>, SubmatrixIndexError>(
                self.spec_submatrix(row as int, column as int),
            ),
            row >= 4 || column >= 4 ==> sub == Err::<Matrix3<T>, SubmatrixIndexError>(
                SubmatrixIndexError,
            ),
    {
        if row >= 4 || column >= 4 {
            Err(SubmatrixIndexError)
        } else {
            let (c0, c1, c2) = match column {
                0 => (self.c1, self.c2, self.c3),
                1 => (self.c0, self.c2, self.c3),
                2 => (self.c0, self.c1, self.c3),
                _ => (self.c0, self.c1, self.c2),
            };
            let (sc0, sc1, sc2) = match row {
                0 => (c0.yzw(), c1.yzw(), c2.yzw()),
                1 => (c0.xzw(), c1.xzw(), c2.xzw()),
                2 => (c0.xyw(), c1.xyw(), c2.xyw()),
                _ => (c0.xyz(), c1.xyz(), c2.xyz()),
            };
            Ok(Matrix3::new(sc0, sc1, sc2))
        }
    }

    /// Entry `(row, column)` of the transpose is entry `(column, row)` of
    /// the matrix.
    pub proof fn transposed_swaps_entries(self, row: int, column: int)
        requires
            0 <= row < 4,
            0 <= column < 4,
        ensures
            self.spec_transposed().entry(row, column) == self.entry(column, row),
    {
    }

    /// Transposing twice gives the matrix back.
    pub proof fn transposed_twice(self)
        ensures
            self.spec_transposed().spec_transposed() == self,
    {
    }

    /// The submatrix keeps every entry that lies neither in the removed row
    /// nor in the removed column, in its old order.
    pub proof fn submatrix_keeps_entries(self, row: int, column: int, i: int, j: int)
        requires
            0 <= row < 4,
            0 <= column < 4,
            0 <= i < 3,
            0 <= j < 3,
        ensures
            self.spec_submatrix(row, column).entry(i, j) == self.entry(
                skip(i, row),
                skip(j, column),
            ),
    {
    }
}

} // verus!
