use vstd::prelude::*;
use crate::math::tuple2::Tuple2;

verus! {

/// A 2 x 2 matrix, held as its two columns.
#[derive(Clone, Copy, Debug, PartialEq)]
pub struct Matrix2<T> {
    pub c0: Tuple2<T>,
    pub c1: Tuple2<T>,
}

impl<T: Copy> Matrix2<T> {
    /// The column with index `column`.
    pub open spec fn column(self, column: int) -> Tuple2<T> {
        if column == 0 {
            self.c0
        } else {
            self.c1
        }
    }

    /// The entry in row `row` of column `column`.
    pub open spec fn entry(self, row: int, column: int) -> T {
        self.column(column)@[row]
    }

    /// The matrix with rows and columns swapped.
    pub open spec fn spec_transposed(self) -> Self {
        Matrix2 {
            c0: Tuple2 { x: self.entry(0, 0), y: self.entry(0, 1) },
            c1: Tuple2 { x: self.entry(1, 0), y: self.entry(1, 1) },
        }
    }

    pub fn new(c0: Tuple2<T>, c1: Tuple2<T>) -> (m: Self)
        ensures
            m == (Matrix2 { c0, c1 }),
    {
        Matrix2 { c0, c1 }
    }

    /// The first row.
    pub fn r0(&self) -> (row: Tuple2<T>)
        ensures
            row@ == seq![self.entry(0, 0), self.entry(0, 1)],
    {
        Tuple2::new(self.c0.x(), self.c1.x())
    }

    /// The second row.
    pub fn r1(&self) -> (row: Tuple2<T>)
        ensures
            row@ == seq![self.entry(1, 0), self.entry(1, 1)],
    {
        Tuple2::new(self.c0.y(), self.c1.y())
    }

    /// Swaps rows and columns in place.
    pub fn transpose(&mut self)
        ensures
            *final(self) == old(self).spec_transposed(),
    {
        let r0 = self.r0();
        let r1 = self.r1();
        self.c0 = r0;
        self.c1 = r1;
    }

    /// The matrix with rows and columns swapped.
    pub fn transposed(&self) -> (m: Self)
        ensures
            m == self.spec_transposed(),
    {
        Matrix2::new(self.r0(), self.r1())
    }

    /// Entry `(row, column)` of the transpose is entry `(column, row)` of
    /// the matrix.
    pub proof fn transposed_swaps_entries(self, row: int, column: int)
        requires
            0 <= row < 2,
            0 <= column < 2,
        ensures
            self.spec_transposed().entry(row, column) == self.entry(column, row),
    {
    }

    /// Transposing twice gives the matrix back.
    pub proof fn transposed_twice(self)
        ensures
            self.spec_transposed().spec_transposed() == self,
    {
    }
}

} // verus!
