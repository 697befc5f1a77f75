//! The interface between a model and the procedure that fits it.

use vstd::prelude::*;
use crate::errors::LmFitterError;
use crate::real_matrix::RealMatrix;

verus! {

/// A procedure that fits a linear model to its data.
///
/// The library makes no assumption on what an implementation returns: a
/// model takes the coefficients only after it has checked them against its
/// data.
pub trait FitLinearModel {
    /// Computes the coefficient matrix: a row for each column of `x`, a
    /// column for each column of `y`.
    fn fit(&self) -> Result<RealMatrix, LmFitterError>;

    /// The design matrix.
    fn x(&self) -> &RealMatrix;

    /// The response matrix.
    fn y(&self) -> &RealMatrix;
}

} // verus!
