//! The closed catalog of matrix field kinds.
//!
//! A matrix is an ordered sequence of equal-width columns; each column is a
//! run of `rows` 32-bit float lanes. Rectangular shapes from 2x2 through
//! 4x4 are supported. `MatrixNxM` has `N` columns of `M` rows; the square
//! shapes shorten the name to `Matrix2`, `Matrix3`, `Matrix4`.

use vstd::prelude::*;

verus! {

/// One matrix field kind of the catalog.
#[derive(Clone, Copy, PartialEq, Eq, Structural, Debug)]
pub enum MatrixKind {
    /// Two columns of two rows.
    Matrix2,
    /// Two columns of three rows.
    Matrix2x3,
    /// Two columns of four rows.
    Matrix2x4,
    /// Three columns of two rows.
    Matrix3x2,
    /// Three columns of three rows.
    Matrix3,
    /// Three columns of four rows.
    Matrix3x4,
    /// Four columns of two rows.
    Matrix4x2,
    /// Four columns of three rows.
    Matrix4x3,
    /// Four columns of four rows.
    Matrix4,
}

impl MatrixKind {
    /// Number of columns of this matrix kind.
    pub open spec fn spec_cols(self) -> int {
        match self {
            MatrixKind::Matrix2 => 2,
            MatrixKind::Matrix2x3 => 2,
            MatrixKind::Matrix2x4 => 2,
            MatrixKind::Matrix3x2 => 3,
            MatrixKind::Matrix3 => 3,
            MatrixKind::Matrix3x4 => 3,
            MatrixKind::Matrix4x2 => 4,
            MatrixKind::Matrix4x3 => 4,
            MatrixKind::Matrix4 => 4,
        }
    }

    /// Number of rows of this matrix kind: the lane count of one column.
    pub open spec fn spec_rows(self) -> int {
        match self {
            MatrixKind::Matrix2 => 2,
            MatrixKind::Matrix2x3 => 3,
            MatrixKind::Matrix2x4 => 4,
            MatrixKind::Matrix3x2 => 2,
            MatrixKind::Matrix3 => 3,
            MatrixKind::Matrix3x4 => 4,
            MatrixKind::Matrix4x2 => 2,
            MatrixKind::Matrix4x3 => 3,
            MatrixKind::Matrix4 => 4,
        }
    }

    /// Number of columns of this matrix kind.
    pub fn cols(&self) -> (r: u16)
        ensures
            r as int == self.spec_cols(),
            2 <= r <= 4,
    {
        match self {
            MatrixKind::Matrix2 => 2,
            MatrixKind::Matrix2x3 => 2,
            MatrixKind::Matrix2x4 => 2,
            MatrixKind::Matrix3x2 => 3,
            MatrixKind::Matrix3 => 3,
            MatrixKind::Matrix3x4 => 3,
            MatrixKind::Matrix4x2 => 4,
            MatrixKind::Matrix4x3 => 4,
            MatrixKind::Matrix4 => 4,
        }
    }

    /// Number of rows of this matrix kind.
    pub fn rows(&self) -> (r: u16)
        ensures
            r as int == self.spec_rows(),
            2 <= r <= 4,
    {
        match self {
            MatrixKind::Matrix2 => 2,
            MatrixKind::Matrix2x3 => 3,
            MatrixKind::Matrix2x4 => 4,
            MatrixKind::Matrix3x2 => 2,
            MatrixKind::Matrix3 => 3,
            MatrixKind::Matrix3x4 => 4,
            MatrixKind::Matrix4x2 => 2,
            MatrixKind::Matrix4x3 => 3,
            MatrixKind::Matrix4 => 4,
        }
    }
}

} // verus!
