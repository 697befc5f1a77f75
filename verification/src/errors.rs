//! The errors that the library reports.

use vstd::prelude::*;

verus! {

/// What can go wrong in the matrix container and in the decomposition and
/// solve steps.
#[derive(Debug, Clone, Copy, PartialEq, Eq, Structural)]
pub enum LeastSquaresError {
    /// Two shapes that had to agree do not: the shape that was needed, and the
    /// shape that was met.
    DimensionMismatch { expected_rows: usize, expected_cols: usize, found_rows: usize, found_cols: usize },
    /// A matrix holds an infinite value or a NaN.
    NonFiniteInput,
    /// What a decomposition handed back cannot be the outcome of one: a pivot
    /// order that is no permutation, or a rank beyond the matrix.
    NumericalFailure,
    /// A matrix of the shape asked for would be larger than any allocation
    /// can be.
    MemoryAllocationFailure,
}

/// What can go wrong while a model is fitted or queried.
#[derive(Debug, Clone, Copy, PartialEq, Eq, Structural)]
pub enum LmFitterError {
    /// Two shapes that had to agree do not: the shape that was needed, and the
    /// shape that was met.
    DimensionMismatch { expected_rows: usize, expected_cols: usize, found_rows: usize, found_cols: usize },
    /// A tolerance that is zero, negative or NaN.
    InvalidTolerance,
    /// A matrix holds an infinite value or a NaN.
    NonFiniteInput,
    /// What a decomposition handed back cannot be the outcome of one.
    NumericalFailure,
    /// The buffers of a fit would be larger than any allocation can be.
    MemoryAllocationFailure,
    /// The model has no coefficients yet.
    ModelNotFitted,
}

impl LmFitterError {
    /// The fitting error that stands for an error of a decomposition or solve
    /// step.
    pub open spec fn of(error: LeastSquaresError) -> LmFitterError {
        match error {
            LeastSquaresError::DimensionMismatch { expected_rows, expected_cols, found_rows, found_cols } =>
                LmFitterError::DimensionMismatch { expected_rows, expected_cols, found_rows, found_cols },
            LeastSquaresError::NonFiniteInput => LmFitterError::NonFiniteInput,
            LeastSquaresError::NumericalFailure => LmFitterError::NumericalFailure,
            LeastSquaresError::MemoryAllocationFailure => LmFitterError::MemoryAllocationFailure,
        }
    }

    /// Carries an error of a decomposition or solve step over to the fitting
    /// level, variant by variant.
    pub fn from_least_squares(error: LeastSquaresError) -> (r: LmFitterError)
        ensures
            r == Self::of(error),
    {
        match error {
            LeastSquaresError::DimensionMismatch { expected_rows, expected_cols, found_rows, found_cols } =>
                LmFitterError::DimensionMismatch { expected_rows, expected_cols, found_rows, found_cols },
            LeastSquaresError::NonFiniteInput => LmFitterError::NonFiniteInput,
            LeastSquaresError::NumericalFailure => LmFitterError::NumericalFailure,
            LeastSquaresError::MemoryAllocationFailure => LmFitterError::MemoryAllocationFailure,
        }
    }
}

} // verus!
