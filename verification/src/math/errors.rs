use vstd::prelude::*;

verus! {

/// A matrix with determinant zero was asked for its inverse.
#[derive(Clone, Copy, Debug, PartialEq, Eq)]
pub struct MatrixInversionError;

/// A cross product was asked of a point; it is defined of vectors only.
#[derive(Clone, Copy, Debug, PartialEq, Eq)]
pub struct PointCrossProductError;

/// A submatrix was asked for with a row or column outside the matrix.
#[derive(Clone, Copy, Debug, PartialEq, Eq)]
pub struct SubmatrixIndexError;

impl MatrixInversionError {
    /// What went wrong, in words.
    pub fn message(&self) -> (text: String)
        ensures
            text@ == "Attempted inversion on non-invertible Matrix!"@,
    {
        "Attempted inversion on non-invertible Matrix!".to_owned()
    }
}

impl PointCrossProductError {
    /// What went wrong, in words.
    pub fn message(&self) -> (text: String)
        ensures
            text@ == "Attempted cross product with point!"@,
    {
        "Attempted cross product with point!".to_owned()
    }
}

impl SubmatrixIndexError {
    /// What went wrong, in words.
    pub fn message(&self) -> (text: String)
        ensures
            text@ == "Attempted obtaining submatrix with row or column index out of bounds!"@,
    {
        "Attempted obtaining submatrix with row or column index out of bounds!".to_owned()
    }
}

} // verus!
