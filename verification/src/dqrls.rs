//! A least-squares solver that owns its solution: the coefficients of one
//! problem, and the pivot vector with an entry for each predictor.

use vstd::prelude::*;
use crate::binary64::positive;
use crate::data::{row_mismatch, Data};
use crate::errors::{LeastSquaresError, LmFitterError};
use crate::fitters::qr_decomposition_fitter::{same_shape, shape_mismatch};
use crate::linalg::qr_factorization::{rank_of, unpivoted_cell, unpivoted_cells, QrResult};
use crate::real_matrix::{shape_fits, RealMatrix};
use crate::types::Tolerance;

verus! {

/// One least-squares problem with its coefficients: those it was made with,
/// until `solve` has taken a solution.
#[derive(Debug)]
pub struct FortranDqrls<'a> {
    data: &'a Data,
    tolerance: Tolerance,
    coefficients: RealMatrix,
    pivot_vector_for_x: Vec<usize>,
}

impl<'a> FortranDqrls<'a> {
    /// The data of the problem.
    pub closed spec fn data_of(&self) -> &'a Data {
        self.data
    }

    /// The tolerance of the problem.
    pub closed spec fn tolerance_of(&self) -> Tolerance {
        self.tolerance
    }

    /// The coefficients that the solver holds.
    pub closed spec fn coefficients_of(&self) -> RealMatrix {
        self.coefficients
    }

    /// The pivot vector, an entry for each predictor: the pivot order of the
    /// last solve, zeros before the first.
    pub closed spec fn pivots_of(&self) -> Seq<usize> {
        self.pivot_vector_for_x@
    }

    /// The buffers have the sizes that the data asks for: coefficients with
    /// a row for each predictor and a column for each response, and a pivot
    /// vector with an entry for each predictor.
    pub open spec fn wf(&self) -> bool {
        &&& self.coefficients_of().rows() == self.data_of().x.cols()
        &&& self.coefficients_of().cols() == self.data_of().y.cols()
        &&& self.pivots_of().len() == self.data_of().x.cols()
    }

    /// Why no solver can be made for the data and the coefficients given, if
    /// that is so; the first of: a pivot vector that cannot be allocated;
    /// coefficients of another shape than a row for each predictor and a
    /// column for each response; where none are given, coefficients that
    /// cannot be allocated.
    pub open spec fn setup_error(data: &Data, coefficients: Option<RealMatrix>) -> Option<LmFitterError> {
        if !shape_fits(data.x.cols(), 1) {
            Some(LmFitterError::MemoryAllocationFailure)
        } else {
            match coefficients {
                Some(given) => if given.rows() == data.x.cols() && given.cols() == data.y.cols() {
                    None
                } else {
                    Some(LmFitterError::of(shape_mismatch(data.x.cols(), data.y.cols(), &given)))
                },
                None => if shape_fits(data.x.cols(), data.y.cols()) {
                    None
                } else {
                    Some(LmFitterError::MemoryAllocationFailure)
                },
            }
        }
    }

    /// A solver for the data, with zero-filled buffers sized from the data:
    /// a pivot vector with an entry for each predictor, and coefficients with
    /// a row for each predictor and a column for each response. Coefficients
    /// to start from may be given in place of the zeros; they must have that
    /// shape.
    pub fn new(data: &'a Data, tolerance: Tolerance, coefficients: Option<RealMatrix>) -> (r: Result<
        Self,
        LmFitterError,
    >)
        ensures
            match r {
                Ok(solver) => {
                    &&& Self::setup_error(data, coefficients) is None
                    &&& solver.wf()
                    &&& solver.data_of() == data
                    &&& solver.tolerance_of() == tolerance
                    &&& solver.pivots_of() == Seq::new(data.x.cols(), |k: int| 0usize)
                    &&& match coefficients {
                        Some(given) => solver.coefficients_of() == given,
                        None => {
                            &&& solver.coefficients_of().cells() == Seq::new(
                                data.x.cols() * data.y.cols(),
                                |k: int| 0u64,
                            )
                            &&& solver.coefficients_of().row_major()
                        },
                    }
                },
                Err(e) => Self::setup_error(data, coefficients) == Some(e),
            },
    {
        let n_predictors: usize = data.x().n_cols();
        let n_responses: usize = data.y().n_cols();
        if !RealMatrix::can_hold(n_predictors, 1) {
            return Err(LmFitterError::MemoryAllocationFailure);
        }
        let coefficients: RealMatrix = match coefficients {
            Some(given) => {
                let shape: [usize; 2] = given.shape();
                if !(shape[0] == n_predictors && shape[1] == n_responses) {
                    return Err(
                        LmFitterError::DimensionMismatch {
                            expected_rows: n_predictors,
                            expected_cols: n_responses,
                            found_rows: shape[0],
                            found_cols: shape[1],
                        },
                    );
                }
                given
            },
            None => {
                if !RealMatrix::can_hold(n_predictors, n_responses) {
                    return Err(LmFitterError::MemoryAllocationFailure);
                }
                RealMatrix::with_shape(n_predictors, n_responses)
            },
        };
        let pivots: Vec<usize> = vec![0usize; n_predictors];
        proof {
            assert(pivots@ =~= Seq::new(data.x.cols(), |k: int| 0usize));
        }
        Ok(FortranDqrls { data, tolerance, coefficients, pivot_vector_for_x: pivots })
    }

    /// The design matrix.
    pub fn x(&self) -> (r: &RealMatrix)
        ensures
            *r == self.data_of().x,
    {
        self.data.x()
    }

    /// The response matrix.
    pub fn y(&self) -> (r: &RealMatrix)
        ensures
            *r == self.data_of().y,
    {
        self.data.y()
    }

    /// The encoding of the tolerance, which is strictly greater than zero.
    pub fn tol(&self) -> (r: u64)
        ensures
            r == self.tolerance_of().bits(),
            positive(r),
    {
        self.tolerance.value()
    }

    /// The coefficients that the solver holds: those it was made with, or
    /// those of the last solve.
    pub fn coefficients(&self) -> (r: &RealMatrix)
        ensures
            *r == self.coefficients_of(),
    {
        &self.coefficients
    }

    /// The pivot vector: the pivot order of the last solve, zeros before the
    /// first.
    pub fn pivots(&self) -> (r: &Vec<usize>)
        ensures
            r@ == self.pivots_of(),
    {
        &self.pivot_vector_for_x
    }

    /// What is wrong with a decomposition and its pivoted coefficients, if
    /// anything; the first of: a response with another number of rows than
    /// the design matrix; a state that is not well formed; a working matrix
    /// of another shape than the design matrix; coefficients without a row
    /// for each predictor and a column for each response; a rank that is not
    /// the number of leading diagonal entries of the triangular factor whose
    /// magnitude exceeds the threshold.
    pub open spec fn solve_error(&self, qr: &QrResult, threshold: u64, pivoted: &RealMatrix) -> Option<
        LmFitterError,
    > {
        let x = &self.data_of().x;
        let y = &self.data_of().y;
        if x.rows() != y.rows() {
            Some(LmFitterError::of(row_mismatch(x.rows(), y.rows(), y.cols())))
        } else if !qr.wf() {
            Some(LmFitterError::NumericalFailure)
        } else if !same_shape(&qr.r, x) {
            Some(LmFitterError::of(shape_mismatch(x.rows(), x.cols(), &qr.r)))
        } else if !(pivoted.rows() == x.cols() && pivoted.cols() == y.cols()) {
            Some(LmFitterError::of(shape_mismatch(x.cols(), y.cols(), pivoted)))
        } else if qr.rank != rank_of(&qr.r, threshold) {
            Some(LmFitterError::NumericalFailure)
        } else {
            None
        }
    }

    /// Takes the solution from a decomposition with its rank, from the
    /// threshold of the rank (the tolerance times the scale of the
    /// decomposition) and from the coefficients in pivoted order: the solver
    /// then holds the pivot order, and the coefficients in the order of the
    /// columns of the design matrix, with zero for the columns beyond the
    /// rank. Where the data, the decomposition and the coefficients do not fit
    /// one another, or the rank is not the one that the diagonal and the
    /// threshold give, the solver stays as it was.
    pub fn solve(&mut self, qr: &QrResult, threshold: u64, pivoted: &RealMatrix) -> (r: Result<
        (),
        LmFitterError,
    >)
        requires
            old(self).wf(),
        ensures
            final(self).wf(),
            final(self).data_of() == old(self).data_of(),
            final(self).tolerance_of() == old(self).tolerance_of(),
            match r {
                Ok(_) => {
                    &&& old(self).solve_error(qr, threshold, pivoted) is None
                    &&& old(self).data_of().x.rows() == old(self).data_of().y.rows()
                    &&& qr.rank == rank_of(&qr.r, threshold)
                    &&& final(self).pivots_of() == qr.pivot@
                    &&& final(self).coefficients_of().row_major() == pivoted.row_major()
                    &&& final(self).coefficients_of().cells() == unpivoted_cells(
                        pivoted,
                        qr.pivot@,
                        qr.rank as int,
                    )
                    &&& forall|i: int, j: int|
                        0 <= i < pivoted.rows() && 0 <= j < pivoted.cols() ==> final(self).coefficients_of().at(
                            qr.pivot@[i] as int,
                            j,
                        ) == #[trigger] unpivoted_cell(pivoted, qr.rank as int, i, j)
                },
                Err(e) => old(self).solve_error(qr, threshold, pivoted) == Some(e) && *final(self) == *old(
                    self,
                ),
            },
    {
        let x_shape: [usize; 2] = self.data.x().shape();
        let y_shape: [usize; 2] = self.data.y().shape();
        let n_responses: usize = y_shape[1];
        if x_shape[0] != y_shape[0] {
            return Err(
                LmFitterError::DimensionMismatch {
                    expected_rows: x_shape[0],
                    expected_cols: y_shape[1],
                    found_rows: y_shape[0],
                    found_cols: y_shape[1],
                },
            );
        }
        if !qr.is_valid() {
            return Err(LmFitterError::NumericalFailure);
        }
        let r_shape: [usize; 2] = qr.r.shape();
        if !(r_shape[0] == x_shape[0] && r_shape[1] == x_shape[1]) {
            return Err(
                LmFitterError::DimensionMismatch {
                    expected_rows: x_shape[0],
                    expected_cols: x_shape[1],
                    found_rows: r_shape[0],
                    found_cols: r_shape[1],
                },
            );
        }
        let shape: [usize; 2] = pivoted.shape();
        if !(shape[0] == x_shape[1] && shape[1] == n_responses) {
            return Err(
                LmFitterError::DimensionMismatch {
                    expected_rows: x_shape[1],
                    expected_cols: n_responses,
                    found_rows: shape[0],
                    found_cols: shape[1],
                },
            );
        }
        if !qr.has_rank_of(threshold) {
            return Err(LmFitterError::NumericalFailure);
        }
        match qr.coefficients(pivoted) {
            Ok(beta) => {
                self.coefficients = beta;
                self.pivot_vector_for_x = qr.pivot.clone();
                Ok(())
            },
            Err(e) => Err(LmFitterError::from_least_squares(e)),
        }
    }
}

} // verus!
