use vstd::prelude::*;

verus! {

/// Index, in a matrix, of what stands at index `i` once the row or column
/// `removed` is taken out.
pub open spec fn skip(i: int, removed: int) -> int {
    if i < removed {
        i
    } else {
        i + 1
    }
}

/// The cofactor of the entry in row `row` of column `column` is the minor
/// with its sign turned: this holds exactly where `row + column` is odd.
pub open spec fn sign_turns(row: int, column: int) -> bool {
    (row + column) % 2 == 1
}

/// Whether the cofactor of the entry in row `row` of column `column` is
/// the minor with its sign turned.
pub fn cofactor_negates(row: usize, column: usize) -> (negates: bool)
    ensures
        negates == sign_turns(row as int, column as int),
{
    (row % 2) != (column % 2)
}

/// The signs of the cofactors form a chequerboard: the entry in the first
/// row of the first column keeps its sign, and the sign turns from each
/// entry to the next in its row and in its column.
pub proof fn cofactor_signs_alternate(row: int, column: int)
    requires
        0 <= row,
        0 <= column,
    ensures
        !sign_turns(0, 0),
        sign_turns(row + 1, column) != sign_turns(row, column),
        sign_turns(row, column + 1) != sign_turns(row, column),
        sign_turns(row, column) == sign_turns(column, row),
{
}

} // verus!
