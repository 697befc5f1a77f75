//! A least-squares problem for the QR method: what is checked before the
//! decomposition, the buffers it works in, and what is handed back after it.

use vstd::prelude::*;
use crate::binary64::{all_finite, positive};
use crate::check_that_2d_matrix_x_is_numeric;
use crate::check_that_x_and_y_have_the_same_number_of_rows;
use crate::data::{row_mismatch, Data};
use crate::errors::{LeastSquaresError, LmFitterError};
use crate::linalg::qr_factorization::{rank_of, unpivoted_cell, unpivoted_cells, QrResult};
use crate::real_matrix::{shape_fits, RealMatrix};
use crate::types::{Tolerance, DEFAULT_TOL};

verus! {

/// What a least-squares solve hands back.
#[derive(Debug, PartialEq)]
pub struct FortranLeastSquaresReturn {
    /// The coefficients of the linear model: a row for each column of the
    /// design matrix, in the order of its columns.
    pub beta: RealMatrix,
    /// The responses less the fitted values.
    pub residuals: RealMatrix,
    /// The responses with the orthogonal factor applied.
    pub q_transposed_times_y: RealMatrix,
    /// The reflectors of the decomposition.
    pub qr_decomp_auxiliary_information: RealMatrix,
}

impl FortranLeastSquaresReturn {
    /// Puts the four parts together.
    pub fn new(
        beta: RealMatrix,
        residuals: RealMatrix,
        q_transposed_times_y: RealMatrix,
        qr_decomp_auxiliary_information: RealMatrix,
    ) -> (r: Self)
        ensures
            r.beta == beta,
            r.residuals == residuals,
            r.q_transposed_times_y == q_transposed_times_y,
            r.qr_decomp_auxiliary_information == qr_decomp_auxiliary_information,
    {
        FortranLeastSquaresReturn { beta, residuals, q_transposed_times_y, qr_decomp_auxiliary_information }
    }
}

/// Both matrices have the same numbers of rows and of columns.
pub open spec fn same_shape(a: &RealMatrix, b: &RealMatrix) -> bool {
    a.rows() == b.rows() && a.cols() == b.cols()
}

/// The error for a matrix that was to have `n_rows` rows and `n_cols`
/// columns and has not.
pub open spec fn shape_mismatch(n_rows: nat, n_cols: nat, found: &RealMatrix) -> LeastSquaresError {
    LeastSquaresError::DimensionMismatch {
        expected_rows: n_rows as usize,
        expected_cols: n_cols as usize,
        found_rows: found.rows() as usize,
        found_cols: found.cols() as usize,
    }
}

/// Tests that a matrix has the given shape.
fn check_shape(n_rows: usize, n_cols: usize, found: &RealMatrix) -> (r: Result<(), LeastSquaresError>)
    ensures
        match r {
            Ok(_) => found.rows() == n_rows && found.cols() == n_cols,
            Err(e) => !(found.rows() == n_rows && found.cols() == n_cols) && e == shape_mismatch(
                n_rows as nat,
                n_cols as nat,
                found,
            ),
        },
{
    let shape: [usize; 2] = found.shape();
    if shape[0] == n_rows && shape[1] == n_cols {
        Ok(())
    } else {
        Err(
            LeastSquaresError::DimensionMismatch {
                expected_rows: n_rows,
                expected_cols: n_cols,
                found_rows: shape[0],
                found_cols: shape[1],
            },
        )
    }
}

/// A least-squares problem: the data, and the tolerance for the rank where
/// one is given.
#[derive(Debug)]
pub struct FortranLeastSquaresQrDecomposition<'a> {
    pub data: &'a Data,
    pub tol: Option<Tolerance>,
}

impl<'a> FortranLeastSquaresQrDecomposition<'a> {
    /// The problem over the data.
    pub fn new(data: &'a Data, tol: Option<Tolerance>) -> (r: Self)
        ensures
            r.data == data,
            r.tol == tol,
    {
        Self { data, tol }
    }

    /// What is wrong with the data, if anything: a response with another
    /// number of rows than the design matrix comes first, then a cell that is
    /// not finite.
    pub open spec fn input_error(&self) -> Option<LmFitterError> {
        if self.data.x.rows() != self.data.y.rows() {
            Some(
                LmFitterError::of(row_mismatch(self.data.x.rows(), self.data.y.rows(), self.data.y.cols())),
            )
        } else if !all_finite(self.data.x.cells()) || !all_finite(self.data.y.cells()) {
            Some(LmFitterError::NonFiniteInput)
        } else {
            None
        }
    }

    /// Checks the data before any arithmetic: the shapes first, then that
    /// every cell of both matrices is finite.
    pub fn check(&self) -> (r: Result<(), LmFitterError>)
        ensures
            match r {
                Ok(_) => self.input_error() is None,
                Err(e) => self.input_error() == Some(e),
            },
    {
        match check_that_x_and_y_have_the_same_number_of_rows(self.data.x(), self.data.y()) {
            Ok(_) => {},
            Err(e) => {
                return Err(LmFitterError::from_least_squares(e));
            },
        }
        match check_that_2d_matrix_x_is_numeric(self.data.x()) {
            Ok(_) => {},
            Err(e) => {
                return Err(LmFitterError::from_least_squares(e));
            },
        }
        match check_that_2d_matrix_x_is_numeric(self.data.y()) {
            Ok(_) => Ok(()),
            Err(e) => Err(LmFitterError::from_least_squares(e)),
        }
    }

    /// The number of observations, of predictors and of responses, as the
    /// 32-bit integers of a LINPACK-style interface.
    pub fn get_dimensions(&self) -> (r: (libc::c_int, libc::c_int, libc::c_int))
        requires
            self.data.x.rows() <= i32::MAX,
            self.data.x.cols() <= i32::MAX,
            self.data.y.cols() <= i32::MAX,
        ensures
            r.0 == self.data.x.rows(),
            r.1 == self.data.x.cols(),
            r.2 == self.data.y.cols(),
    {
        let x_shape: [usize; 2] = self.data.x().shape();
        let n_responses: usize = self.data.y().n_cols();
        (x_shape[0] as i32, x_shape[1] as i32, n_responses as i32)
    }

    /// Zero-filled row-major matrices for the solution: the coefficients with
    /// a row for each predictor, the residuals and the transformed responses
    /// with a row for each observation; each with a column for each response.
    pub fn allocate_solution_arrays(&self) -> (r: Result<(RealMatrix, RealMatrix, RealMatrix), LeastSquaresError>)
        ensures
            match r {
                Ok((b, rsd, qty)) => {
                    &&& self.solution_fits()
                    &&& b.rows() == self.data.x.cols() && b.cols() == self.data.y.cols()
                    &&& rsd.rows() == self.data.x.rows() && rsd.cols() == self.data.y.cols()
                    &&& qty.rows() == self.data.x.rows() && qty.cols() == self.data.y.cols()
                    &&& b.cells() == Seq::new(b.rows() * b.cols(), |k: int| 0u64)
                    &&& rsd.cells() == Seq::new(rsd.rows() * rsd.cols(), |k: int| 0u64)
                    &&& qty.cells() == Seq::new(qty.rows() * qty.cols(), |k: int| 0u64)
                    &&& b.row_major() && rsd.row_major() && qty.row_major()
                },
                Err(e) => !self.solution_fits() && e == LeastSquaresError::MemoryAllocationFailure,
            },
    {
        let x_shape: [usize; 2] = self.data.x().shape();
        let n_responses: usize = self.data.y().n_cols();
        if !RealMatrix::can_hold(x_shape[1], n_responses) || !RealMatrix::can_hold(x_shape[0], n_responses) {
            return Err(LeastSquaresError::MemoryAllocationFailure);
        }
        Ok(
            (
                RealMatrix::with_shape(x_shape[1], n_responses),
                RealMatrix::with_shape(x_shape[0], n_responses),
                RealMatrix::with_shape(x_shape[0], n_responses),
            ),
        )
    }

    /// The matrices of the solution can be allocated.
    pub open spec fn solution_fits(&self) -> bool {
        &&& shape_fits(self.data.x.cols(), self.data.y.cols())
        &&& shape_fits(self.data.x.rows(), self.data.y.cols())
    }

    /// Zero-filled work arrays with an entry for each predictor: the column
    /// pivots, the auxiliary information of the decomposition, and the
    /// remaining column norms.
    pub fn allocate_auxiliary_arrays(&self) -> (r: Result<
        (Vec<libc::c_int>, Vec<u64>, Vec<u64>),
        LeastSquaresError,
    >)
        ensures
            match r {
                Ok((pivots, auxiliary, work)) => {
                    &&& shape_fits(self.data.x.cols(), 1)
                    &&& pivots@ == Seq::new(self.data.x.cols(), |k: int| 0i32)
                    &&& auxiliary@ == Seq::new(self.data.x.cols(), |k: int| 0u64)
                    &&& work@ == Seq::new(self.data.x.cols(), |k: int| 0u64)
                },
                Err(e) => !shape_fits(self.data.x.cols(), 1) && e == LeastSquaresError::MemoryAllocationFailure,
            },
    {
        let n_predictors: usize = self.data.x().n_cols();
        if !RealMatrix::can_hold(n_predictors, 1) {
            return Err(LeastSquaresError::MemoryAllocationFailure);
        }
        let pivots: Vec<i32> = vec![0i32; n_predictors];
        let auxiliary: Vec<u64> = vec![0u64; n_predictors];
        let work: Vec<u64> = vec![0u64; n_predictors];
        proof {
            assert(pivots@ =~= Seq::new(self.data.x.cols(), |k: int| 0i32));
            assert(auxiliary@ =~= Seq::new(self.data.x.cols(), |k: int| 0u64));
            assert(work@ =~= Seq::new(self.data.x.cols(), |k: int| 0u64));
        }
        Ok((pivots, auxiliary, work))
    }

    /// The encoding of the tolerance: the one given, else the default. It is
    /// strictly greater than zero.
    pub fn tol(&self) -> (r: u64)
        ensures
            r == match self.tol {
                Some(t) => t.bits(),
                None => DEFAULT_TOL,
            },
            positive(r),
    {
        match &self.tol {
            Some(t) => t.value(),
            None => DEFAULT_TOL,
        }
    }

    /// What is wrong with what a decomposition and solve handed back, if
    /// anything; the first of: a response with another number of rows than
    /// the design matrix; a decomposition state that is not well formed; a
    /// working matrix of another shape than the design matrix; pivoted
    /// coefficients without a row for each predictor and a column for each
    /// response; residuals, then transformed responses, of another shape than
    /// the response matrix; a rank that is not the number of leading diagonal
    /// entries of the triangular factor whose magnitude exceeds the
    /// threshold.
    pub open spec fn outcome_error(
        &self,
        qr: &QrResult,
        threshold: u64,
        pivoted: &RealMatrix,
        residuals: &RealMatrix,
        qty: &RealMatrix,
    ) -> Option<LeastSquaresError> {
        let x = &self.data.x;
        let y = &self.data.y;
        if x.rows() != y.rows() {
            Some(row_mismatch(x.rows(), y.rows(), y.cols()))
        } else if !qr.wf() {
            Some(LeastSquaresError::NumericalFailure)
        } else if !same_shape(&qr.r, x) {
            Some(shape_mismatch(x.rows(), x.cols(), &qr.r))
        } else if !(pivoted.rows() == x.cols() && pivoted.cols() == y.cols()) {
            Some(shape_mismatch(x.cols(), y.cols(), pivoted))
        } else if !same_shape(residuals, y) {
            Some(shape_mismatch(y.rows(), y.cols(), residuals))
        } else if !same_shape(qty, y) {
            Some(shape_mismatch(y.rows(), y.cols(), qty))
        } else if qr.rank != rank_of(&qr.r, threshold) {
            Some(LeastSquaresError::NumericalFailure)
        } else {
            None
        }
    }

    /// Completes a solve from what the arithmetic produced: the state of the
    /// decomposition with its rank, the threshold of the rank (the tolerance
    /// times the scale of the decomposition), the coefficients in pivoted
    /// order, the residuals and the transformed responses. All of it is
    /// checked against the data, and the rank against the diagonal of the
    /// triangular factor. The coefficients are put back in the order of the
    /// columns of the design matrix, with zero for the columns beyond the
    /// rank.
    pub fn dqrls(
        &self,
        qr: QrResult,
        threshold: u64,
        pivoted: RealMatrix,
        residuals: RealMatrix,
        qty: RealMatrix,
    ) -> (r: Result<FortranLeastSquaresReturn, LeastSquaresError>)
        ensures
            match r {
                Ok(solved) => {
                    &&& self.outcome_error(&qr, threshold, &pivoted, &residuals, &qty) is None
                    &&& self.data.x.rows() == self.data.y.rows()
                    &&& qr.rank == rank_of(&qr.r, threshold)
                    &&& solved.residuals == residuals
                    &&& solved.q_transposed_times_y == qty
                    &&& solved.qr_decomp_auxiliary_information == qr.q
                    &&& solved.beta.rows() == self.data.x.cols()
                    &&& solved.beta.cols() == self.data.y.cols()
                    &&& solved.beta.row_major() == pivoted.row_major()
                    &&& solved.beta.cells() == unpivoted_cells(&pivoted, qr.pivot@, qr.rank as int)
                    &&& forall|i: int, j: int|
                        0 <= i < solved.beta.rows() && 0 <= j < solved.beta.cols() ==> solved.beta.at(
                            qr.pivot@[i] as int,
                            j,
                        ) == #[trigger] unpivoted_cell(&pivoted, qr.rank as int, i, j)
                },
                Err(e) => self.outcome_error(&qr, threshold, &pivoted, &residuals, &qty) == Some(e),
            },
    {
        match check_that_x_and_y_have_the_same_number_of_rows(self.data.x(), self.data.y()) {
            Ok(_) => {},
            Err(e) => {
                return Err(e);
            },
        }
        if !qr.is_valid() {
            return Err(LeastSquaresError::NumericalFailure);
        }
        let x_shape: [usize; 2] = self.data.x().shape();
        let y_shape: [usize; 2] = self.data.y().shape();
        match check_shape(x_shape[0], x_shape[1], &qr.r) {
            Ok(_) => {},
            Err(e) => {
                return Err(e);
            },
        }
        match check_shape(x_shape[1], y_shape[1], &pivoted) {
            Ok(_) => {},
            Err(e) => {
                return Err(e);
            },
        }
        match check_shape(y_shape[0], y_shape[1], &residuals) {
            Ok(_) => {},
            Err(e) => {
                return Err(e);
            },
        }
        match check_shape(y_shape[0], y_shape[1], &qty) {
            Ok(_) => {},
            Err(e) => {
                return Err(e);
            },
        }
        if !qr.has_rank_of(threshold) {
            return Err(LeastSquaresError::NumericalFailure);
        }
        match qr.coefficients(&pivoted) {
            Ok(beta) => Ok(FortranLeastSquaresReturn::new(beta, residuals, qty, qr.q)),
            Err(e) => Err(e),
        }
    }
}

} // verus!
