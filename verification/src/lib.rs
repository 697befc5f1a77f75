//! Ordinary least-squares fitting by rank-revealing QR decomposition: the
//! matrix container, the data and model types, and the rules of pivoting, rank
//! estimation and coefficient recovery.
//!
//! Real numbers are held as IEEE 754 binary64 encodings. The library decides
//! everything that depends on shapes, on the order of encoded values and on
//! the pivot order; the arithmetic on the cells is the caller's.

use vstd::prelude::*;

pub mod binary64;
pub mod data;
pub mod dqrls;
pub mod errors;
pub mod fitters;
pub mod linalg;
pub mod linear_model;
pub mod real_matrix;
pub mod types;

pub use data::Data;
pub use real_matrix::RealMatrix;

use crate::binary64::{all_finite, finite, is_finite};
use crate::data::row_mismatch;
use crate::errors::LeastSquaresError;
use crate::linalg::qr_factorization::QrResult;
use crate::real_matrix::{cell_index_in_range, cell_index_splits, shape_fits};

verus! {

/// A matrix always has two axes.
pub fn check_that_x_is_a_2d_matrix(x: &RealMatrix) -> (r: bool)
    ensures
        r,
{
    x.ndim() == 2
}

/// The numbers of rows and of columns.
pub fn extract_dimensions_of_a_2d_matrix(x: &RealMatrix) -> (r: (usize, usize))
    ensures
        r.0 == x.rows(),
        r.1 == x.cols(),
{
    let shape: [usize; 2] = x.shape();
    (shape[0], shape[1])
}

/// Tests that the response has a row for each row of the design matrix.
pub fn check_that_x_and_y_have_the_same_number_of_rows(x: &RealMatrix, y: &RealMatrix) -> (r: Result<
    (),
    LeastSquaresError,
>)
    ensures
        match r {
            Ok(_) => x.rows() == y.rows(),
            Err(e) => x.rows() != y.rows() && e == row_mismatch(x.rows(), y.rows(), y.cols()),
        },
{
    let x_rows: usize = x.n_rows();
    let y_shape: [usize; 2] = y.shape();
    if x_rows == y_shape[0] {
        Ok(())
    } else {
        Err(
            LeastSquaresError::DimensionMismatch {
                expected_rows: x_rows,
                expected_cols: y_shape[1],
                found_rows: y_shape[0],
                found_cols: y_shape[1],
            },
        )
    }
}

/// Tests that every cell is finite: neither infinite nor NaN.
pub fn check_that_2d_matrix_x_is_numeric(x: &RealMatrix) -> (r: Result<(), LeastSquaresError>)
    ensures
        match r {
            Ok(_) => all_finite(x.cells()),
            Err(e) => !all_finite(x.cells()) && e == LeastSquaresError::NonFiniteInput,
        },
{
    let shape: [usize; 2] = x.shape();
    let n_rows: usize = shape[0];
    let n_cols: usize = shape[1];
    let mut i: usize = 0;
    while i < n_rows
        invariant
            i <= n_rows,
            n_rows == x.rows(),
            n_cols == x.cols(),
            x.cells().len() == n_rows * n_cols,
            forall|r: int, c: int| 0 <= r < i && 0 <= c < n_cols ==> finite(#[trigger] x.at(r, c)),
        decreases n_rows - i,
    {
        let mut j: usize = 0;
        while j < n_cols
            invariant
                i < n_rows,
                j <= n_cols,
                n_rows == x.rows(),
                n_cols == x.cols(),
                x.cells().len() == n_rows * n_cols,
                forall|r: int, c: int| 0 <= r < i && 0 <= c < n_cols ==> finite(#[trigger] x.at(r, c)),
                forall|c: int| 0 <= c < j ==> finite(#[trigger] x.at(i as int, c)),
            decreases n_cols - j,
        {
            if !is_finite(x.get(i, j)) {
                proof {
                    cell_index_in_range(i as int, j as int, n_rows as int, n_cols as int);
                    assert(!finite(x.cells()[i * n_cols + j]));
                }
                return Err(LeastSquaresError::NonFiniteInput);
            }
            j = j + 1;
        }
        i = i + 1;
    }
    proof {
        assert forall|k: int| 0 <= k < x.cells().len() implies finite(#[trigger] x.cells()[k]) by {
            cell_index_splits(k, n_rows as int, n_cols as int);
            let r = k / (n_cols as int);
            let c = k % (n_cols as int);
            assert(finite(x.at(r, c)));
        }
    }
    Ok(())
}

/// The state of a decomposition before its first step, over the reflector
/// store `q` and the working matrix `r`: the identity pivot order and rank
/// zero. The two must have the same number of rows.
pub fn initialize_qr_decomposition(q: RealMatrix, r: RealMatrix) -> (res: Result<QrResult, LeastSquaresError>)
    ensures
        match res {
            Ok(qr) => {
                &&& q.rows() == r.rows()
                &&& qr.q == q
                &&& qr.r == r
                &&& qr.rank == 0
                &&& qr.pivot@.len() == r.cols()
                &&& forall|i: int| 0 <= i < r.cols() ==> qr.pivot@[i] == i
                &&& qr.wf()
            },
            Err(e) => {
                &&& q.rows() != r.rows()
                &&& e == (LeastSquaresError::DimensionMismatch {
                    expected_rows: r.rows() as usize,
                    expected_cols: q.cols() as usize,
                    found_rows: q.rows() as usize,
                    found_cols: q.cols() as usize,
                })
            },
        },
{
    QrResult::new(q, r)
}

/// A zero-filled column of `n` coefficients.
pub fn initialize_coefficients_vector(n: usize) -> (v: RealMatrix)
    requires
        shape_fits(n as nat, 1),
    ensures
        v.rows() == n,
        v.cols() == 1,
        v.cells() == Seq::new(n as nat, |k: int| 0u64),
        v.row_major(),
{
    RealMatrix::with_shape(n, 1)
}

/// A zero-filled column of `n` residuals.
pub fn initialize_residuals_vector(n: usize) -> (v: RealMatrix)
    requires
        shape_fits(n as nat, 1),
    ensures
        v.rows() == n,
        v.cols() == 1,
        v.cells() == Seq::new(n as nat, |k: int| 0u64),
        v.row_major(),
{
    RealMatrix::with_shape(n, 1)
}

/// A zero-filled column of `n` effects.
pub fn initialize_effects_vector(n: usize) -> (v: RealMatrix)
    requires
        shape_fits(n as nat, 1),
    ensures
        v.rows() == n,
        v.cols() == 1,
        v.cells() == Seq::new(n as nat, |k: int| 0u64),
        v.row_major(),
{
    RealMatrix::with_shape(n, 1)
}

/// A zero-filled column of `n` pivots.
pub fn initialize_pivots_vector(n: usize) -> (v: RealMatrix)
    requires
        shape_fits(n as nat, 1),
    ensures
        v.rows() == n,
        v.cols() == 1,
        v.cells() == Seq::new(n as nat, |k: int| 0u64),
        v.row_major(),
{
    RealMatrix::with_shape(n, 1)
}

/// The state before the first step of a decomposition of order `n`: two
/// zero-filled `n` by `n` matrices for the reflectors and for the triangular
/// factor, the identity pivot order, and rank zero.
pub fn initialize_qr_auxiliary_matrix(n: usize) -> (qr: QrResult)
    requires
        shape_fits(n as nat, n as nat),
    ensures
        qr.wf(),
        qr.rank == 0,
        qr.pivot@.len() == n,
        forall|i: int| 0 <= i < n ==> qr.pivot@[i] == i,
        qr.q.rows() == n && qr.q.cols() == n,
        qr.r.rows() == n && qr.r.cols() == n,
        qr.q.cells() == Seq::new((n * n) as nat, |k: int| 0u64),
        qr.r.cells() == Seq::new((n * n) as nat, |k: int| 0u64),
        qr.q.row_major() && qr.r.row_major(),
{
    let q: RealMatrix = RealMatrix::with_shape(n, n);
    let r: RealMatrix = RealMatrix::with_shape(n, n);
    match initialize_qr_decomposition(q, r) {
        Ok(qr) => qr,
        // both stores have `n` rows, so there is no mismatch
        Err(_) => unreached(),
    }
}

} // verus!
