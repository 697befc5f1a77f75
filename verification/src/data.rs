//! The data of a regression: a design matrix and the responses observed for
//! its rows.

use vstd::prelude::*;
use crate::errors::LeastSquaresError;
use crate::real_matrix::RealMatrix;

verus! {

/// The design matrix `x`, one row for each observation, and the response
/// matrix `y` with a row for each row of `x`. The data is never modified.
#[derive(Debug, PartialEq)]
pub struct Data {
    pub x: RealMatrix,
    pub y: RealMatrix,
}

impl Clone for Data {
    /// Data with copies of both matrices.
    fn clone(&self) -> (copy: Data)
        ensures
            copy.x.same_as(&self.x),
            copy.y.same_as(&self.y),
            copy.x.row_major() == self.x.row_major(),
            copy.y.row_major() == self.y.row_major(),
    {
        Data { x: self.x.clone(), y: self.y.clone() }
    }
}

/// The error for a response matrix whose number of rows differs from that of
/// the design matrix: what was needed is a matrix of `x_rows` rows.
pub open spec fn row_mismatch(x_rows: nat, y_rows: nat, y_cols: nat) -> LeastSquaresError {
    LeastSquaresError::DimensionMismatch {
        expected_rows: x_rows as usize,
        expected_cols: y_cols as usize,
        found_rows: y_rows as usize,
        found_cols: y_cols as usize,
    }
}

impl Data {
    /// The response has one row for each row of the design matrix.
    pub open spec fn wf(&self) -> bool {
        self.x.rows() == self.y.rows()
    }

    /// Takes ownership of the two matrices, if they have the same number of
    /// rows.
    pub fn new(x: RealMatrix, y: RealMatrix) -> (r: Result<Data, LeastSquaresError>)
        ensures
            match r {
                Ok(data) => x.rows() == y.rows() && data.x == x && data.y == y && data.wf(),
                Err(e) => x.rows() != y.rows() && e == row_mismatch(x.rows(), y.rows(), y.cols()),
            },
    {
        let x_rows: usize = x.n_rows();
        let y_rows: usize = y.n_rows();
        if x_rows == y_rows {
            Ok(Data { x, y })
        } else {
            let y_cols: usize = y.n_cols();
            Err(
                LeastSquaresError::DimensionMismatch {
                    expected_rows: x_rows,
                    expected_cols: y_cols,
                    found_rows: y_rows,
                    found_cols: y_cols,
                },
            )
        }
    }

    /// The design matrix.
    pub fn x(&self) -> (r: &RealMatrix)
        ensures
            *r == self.x,
    {
        &self.x
    }

    /// The response matrix.
    pub fn y(&self) -> (r: &RealMatrix)
        ensures
            *r == self.y,
    {
        &self.y
    }
}

} // verus!
