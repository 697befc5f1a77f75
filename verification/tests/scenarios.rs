use lm::binary64::{is_positive, is_zero};
use lm::errors::{LeastSquaresError, LmFitterError};
use lm::fitters::fit::FitLinearModel;
use lm::fitters::qr_decomposition_fitter::{FortranLeastSquaresQrDecomposition, FortranLeastSquaresReturn};
use lm::linalg::qr_factorization::{downdate_is_unreliable, QrResult};
use lm::linear_model::LinearModel;
use lm::types::Tolerance;
use lm::{Data, RealMatrix};

// The arithmetic of the decomposition and of the solve, in double precision.
// Every decision (pivot, exchange, rank, order of the coefficients) is the
// library's.

fn matrix(values: &[f64], n_rows: usize, n_cols: usize) -> RealMatrix {
    RealMatrix::from_vec(values.iter().map(|v| v.to_bits()).collect(), n_rows, Some(n_cols)).unwrap()
}

fn get(m: &RealMatrix, i: usize, j: usize) -> f64 {
    f64::from_bits(m.get(i, j))
}

fn put(m: &mut RealMatrix, i: usize, j: usize, value: f64) {
    m.set(i, j, value.to_bits());
}

fn cells(m: &RealMatrix) -> Vec<f64> {
    let mut out = Vec::new();
    for i in 0..m.n_rows() {
        for j in 0..m.n_cols() {
            out.push(get(m, i, j));
        }
    }
    out
}

fn product(a: &RealMatrix, b: &RealMatrix) -> Result<RealMatrix, LeastSquaresError> {
    let (n_rows, n_cols) = a.product_shape(b)?;
    let mut out = RealMatrix::with_shape(n_rows, n_cols);
    for i in 0..n_rows {
        for j in 0..n_cols {
            let mut sum = 0.0;
            for k in 0..a.n_cols() {
                sum += get(a, i, k) * get(b, k, j);
            }
            put(&mut out, i, j, sum);
        }
    }
    Ok(out)
}

fn difference(a: &RealMatrix, b: &RealMatrix) -> Result<RealMatrix, LeastSquaresError> {
    let (n_rows, n_cols) = a.elementwise_shape(b)?;
    let mut out = RealMatrix::with_shape(n_rows, n_cols);
    for i in 0..n_rows {
        for j in 0..n_cols {
            put(&mut out, i, j, get(a, i, j) - get(b, i, j));
        }
    }
    Ok(out)
}

fn sum(a: &RealMatrix, b: &RealMatrix) -> Result<RealMatrix, LeastSquaresError> {
    let (n_rows, n_cols) = a.elementwise_shape(b)?;
    let mut out = RealMatrix::with_shape(n_rows, n_cols);
    for i in 0..n_rows {
        for j in 0..n_cols {
            put(&mut out, i, j, get(a, i, j) + get(b, i, j));
        }
    }
    Ok(out)
}

fn column_norm(m: &RealMatrix, column: usize, from_row: usize) -> f64 {
    let mut sum = 0.0;
    for i in from_row..m.n_rows() {
        sum += get(m, i, column) * get(m, i, column);
    }
    sum.sqrt()
}

fn reflect(q: &RealMatrix, step: usize, target: &mut RealMatrix, column: usize) {
    let n = q.n_rows();
    let mut vv = 0.0;
    let mut dot = 0.0;
    for i in step..n {
        vv += get(q, i, step) * get(q, i, step);
        dot += get(q, i, step) * get(target, i, column);
    }
    if is_zero(vv.to_bits()) {
        return;
    }
    let factor = 2.0 * dot / vv;
    for i in step..n {
        let value = get(target, i, column) - factor * get(q, i, step);
        put(target, i, column, value);
    }
}

fn decompose_with_threshold(x: &RealMatrix, tol: u64) -> Result<(QrResult, u64), LeastSquaresError> {
    let mut qr = QrResult::start(x)?;
    let [n, p] = x.shape();
    let steps = n.min(p);
    let mut norms: Vec<f64> = (0..p).map(|j| column_norm(&qr.r, j, 0)).collect();
    let mut reference = norms.clone();
    for step in 0..steps {
        let mut encoded: Vec<u64> = norms.iter().map(|v| v.to_bits()).collect();
        let chosen = qr.pivot_step(&mut encoded, step);
        norms.swap(step, chosen);
        reference.swap(step, chosen);

        let norm = column_norm(&qr.r, step, step);
        if is_zero(norm.to_bits()) {
            continue;
        }
        let head = get(&qr.r, step, step);
        let alpha = if is_positive(head.to_bits()) { -norm } else { norm };
        for i in step..n {
            let value = get(&qr.r, i, step);
            put(&mut qr.q, i, step, value);
        }
        put(&mut qr.q, step, step, head - alpha);
        let q = qr.q.clone();
        for l in step..p {
            reflect(&q, step, &mut qr.r, l);
        }
        put(&mut qr.r, step, step, alpha);
        for i in step + 1..n {
            put(&mut qr.r, i, step, 0.0);
        }
        for l in step + 1..p {
            if is_zero(norms[l].to_bits()) {
                continue;
            }
            let ratio = get(&qr.r, step, l).abs() / norms[l];
            let kept = (1.0 - ratio * ratio).max(0.0);
            let spread = norms[l] / reference[l];
            if downdate_is_unreliable((kept * spread * spread).to_bits()) {
                norms[l] = column_norm(&qr.r, l, step + 1);
                reference[l] = norms[l];
            } else {
                norms[l] *= kept.sqrt();
            }
        }
    }
    let threshold = (f64::from_bits(tol) * f64::from_bits(qr.scale())).to_bits();
    qr.set_rank(threshold);
    Ok((qr, threshold))
}

fn decompose(x: &RealMatrix, tol: u64) -> Result<QrResult, LeastSquaresError> {
    decompose_with_threshold(x, tol).map(|(qr, _)| qr)
}

fn transformed_response(qr: &QrResult, y: &RealMatrix) -> Result<RealMatrix, LeastSquaresError> {
    qr.check_response(y)?;
    let mut qty = y.clone();
    for step in 0..qr.q.n_cols() {
        for c in 0..y.n_cols() {
            reflect(&qr.q, step, &mut qty, c);
        }
    }
    Ok(qty)
}

fn back_substitute(qr: &QrResult, qty: &RealMatrix) -> RealMatrix {
    let p = qr.r.n_cols();
    let q = qty.n_cols();
    let mut pivoted = RealMatrix::with_shape(p, q);
    for c in 0..q {
        for i in (0..qr.rank).rev() {
            let mut value = get(qty, i, c);
            for j in i + 1..qr.rank {
                value -= get(&qr.r, i, j) * get(&pivoted, j, c);
            }
            put(&mut pivoted, i, c, value / get(&qr.r, i, i));
        }
    }
    pivoted
}

fn solve(data: &Data, tol: Option<Tolerance>) -> Result<(FortranLeastSquaresReturn, QrResult), LmFitterError> {
    let problem = FortranLeastSquaresQrDecomposition::new(data, tol);
    problem.check()?;
    let (qr, threshold) =
        decompose_with_threshold(data.x(), problem.tol()).map_err(LmFitterError::from_least_squares)?;
    let qty = transformed_response(&qr, data.y()).map_err(LmFitterError::from_least_squares)?;
    let pivoted = back_substitute(&qr, &qty);
    let beta = qr.coefficients(&pivoted).map_err(LmFitterError::from_least_squares)?;
    let fitted = product(data.x(), &beta).map_err(LmFitterError::from_least_squares)?;
    let residuals = difference(data.y(), &fitted).map_err(LmFitterError::from_least_squares)?;
    let kept = QrResult { pivot: qr.pivot.clone(), q: qr.q.clone(), r: qr.r.clone(), rank: qr.rank };
    let solved =
        problem.dqrls(qr, threshold, pivoted, residuals, qty).map_err(LmFitterError::from_least_squares)?;
    Ok((solved, kept))
}

struct HouseholderFitter<'a> {
    data: &'a Data,
    tol: Option<Tolerance>,
}

impl<'a> FitLinearModel for HouseholderFitter<'a> {
    fn fit(&self) -> Result<RealMatrix, LmFitterError> {
        solve(self.data, self.tol).map(|(solved, _)| solved.beta)
    }

    fn x(&self) -> &RealMatrix {
        self.data.x()
    }

    fn y(&self) -> &RealMatrix {
        self.data.y()
    }
}

fn predict(model: &LinearModel, x: Option<&RealMatrix>) -> Result<RealMatrix, LmFitterError> {
    let fitted = model.fitted()?;
    let predictors = fitted.predictors(x)?;
    product(predictors, &fitted.coefficients).map_err(LmFitterError::from_least_squares)
}

fn residuals(model: &LinearModel) -> Result<RealMatrix, LmFitterError> {
    let fitted = predict(model, None)?;
    difference(model.y(), &fitted).map_err(LmFitterError::from_least_squares)
}

fn assert_close(found: &[f64], expected: &[f64], tolerance: f64) {
    assert_eq!(found.len(), expected.len());
    for (f, e) in found.iter().zip(expected) {
        assert!((f - e).abs() <= tolerance, "{found:?} is not within {tolerance} of {expected:?}");
    }
}

// The matrix that the decomposition stands for: the reflectors applied to the
// triangular factor, with the columns put back in their places.
fn reconstruct(qr: &QrResult) -> RealMatrix {
    let [n, p] = qr.r.shape();
    let mut upper = qr.r.clone();
    for i in 0..n {
        for j in 0..p.min(i) {
            put(&mut upper, i, j, 0.0);
        }
    }
    for step in (0..qr.q.n_cols()).rev() {
        for l in 0..p {
            reflect(&qr.q, step, &mut upper, l);
        }
    }
    let mut x = RealMatrix::with_shape(n, p);
    for j in 0..p {
        for i in 0..n {
            put(&mut x, i, qr.pivot[j], get(&upper, i, j));
        }
    }
    x
}

fn exact_fit() -> Data {
    Data::new(matrix(&[1.0, 1.0, 1.0, 2.0, 1.0, 3.0], 3, 2), matrix(&[1.0, 2.0, 3.0], 3, 1)).unwrap()
}

fn rank_deficient() -> Data {
    Data::new(matrix(&[1.0, 1.0, 2.0, 2.0, 3.0, 3.0], 3, 2), matrix(&[1.0, 2.0, 3.0], 3, 1)).unwrap()
}

fn noisy() -> Data {
    Data::new(
        matrix(&[1.0, 0.5, 2.0, 1.0, 1.5, -1.0, 1.0, 2.5, 0.0, 1.0, -3.5, 4.0, 1.0, 4.5, 0.25], 5, 3),
        matrix(&[1.0, 0.0, 2.5, 1.0, 2.0, -1.0, 4.5, 0.5, 3.0, 2.0], 5, 2),
    )
    .unwrap()
}

#[test]
fn an_exact_fit_recovers_the_line() {
    let data = exact_fit();
    let mut model = LinearModel::new(&data);
    model.fit(&HouseholderFitter { data: &data, tol: None }).unwrap();
    let b = model.coefficients().unwrap();
    assert_eq!(b.shape(), [2, 1]);
    assert_close(&cells(b), &[0.0, 1.0], 1e-12);
    assert_close(&cells(&residuals(&model).unwrap()), &[0.0, 0.0, 0.0], 1e-12);
    assert_close(&cells(&predict(&model, None).unwrap()), &[1.0, 2.0, 3.0], 1e-12);
}

#[test]
fn proportional_columns_leave_one_coefficient_at_zero() {
    let data = rank_deficient();
    let (solved, qr) = solve(&data, None).unwrap();
    assert_eq!(qr.rank, 1);
    assert_eq!(qr.pivot, vec![0, 1]);
    // the column that the rank leaves out has a coefficient of exactly zero
    assert_eq!(solved.beta.get(1, 0), 0);
    assert_close(&cells(&solved.beta), &[1.0, 0.0], 1e-12);
    assert_close(&cells(&solved.residuals), &[0.0, 0.0, 0.0], 1e-12);
    let fitted = product(data.x(), &solved.beta).unwrap();
    assert_close(&cells(&fitted), &[1.0, 2.0, 3.0], 1e-12);
}

#[test]
fn a_fit_rejects_a_response_with_other_rows() {
    let data = Data { x: matrix(&[1.0, 1.0, 1.0, 2.0, 1.0, 3.0], 3, 2), y: matrix(&[1.0, 2.0], 2, 1) };
    let mut model = LinearModel::new(&data);
    let r = model.fit(&HouseholderFitter { data: &data, tol: None });
    assert_eq!(
        r,
        Err(LmFitterError::DimensionMismatch { expected_rows: 3, expected_cols: 1, found_rows: 2, found_cols: 1 })
    );
    assert_eq!(model, LinearModel::new(&data));
    assert!(model.coefficients().is_none());
}

#[test]
fn a_tolerance_of_zero_or_less_is_invalid() {
    assert_eq!(Tolerance::new(Some(0.0f64.to_bits())), Err(LmFitterError::InvalidTolerance));
    assert_eq!(Tolerance::new(Some((-1.0f64).to_bits())), Err(LmFitterError::InvalidTolerance));
}

#[test]
fn non_finite_input_is_rejected_before_the_decomposition() {
    for bad in [f64::NAN, f64::INFINITY] {
        let data = Data::new(matrix(&[1.0, 1.0, 1.0, bad, 1.0, 3.0], 3, 2), matrix(&[1.0, 2.0, 3.0], 3, 1)).unwrap();
        let mut model = LinearModel::new(&data);
        assert_eq!(model.fit(&HouseholderFitter { data: &data, tol: None }), Err(LmFitterError::NonFiniteInput));
        let data = Data::new(matrix(&[1.0, 1.0, 1.0, 2.0, 1.0, 3.0], 3, 2), matrix(&[1.0, bad, 3.0], 3, 1)).unwrap();
        let mut model = LinearModel::new(&data);
        assert_eq!(model.fit(&HouseholderFitter { data: &data, tol: None }), Err(LmFitterError::NonFiniteInput));
    }
}

#[test]
fn the_decomposition_reproduces_the_matrix() {
    for data in [exact_fit(), rank_deficient(), noisy()] {
        let qr = decompose(data.x(), 1e-10f64.to_bits()).unwrap();
        assert!(qr.is_valid());
        assert_close(&cells(&reconstruct(&qr)), &cells(data.x()), 1e-12);
        // the working matrix is upper triangular
        for i in 0..qr.r.n_rows() {
            for j in 0..qr.r.n_cols().min(i) {
                assert_eq!(get(&qr.r, i, j), 0.0);
            }
        }
    }
}

#[test]
fn independent_columns_give_full_rank() {
    assert_eq!(decompose(exact_fit().x(), 1e-10f64.to_bits()).unwrap().rank, 2);
    assert_eq!(decompose(noisy().x(), 1e-10f64.to_bits()).unwrap().rank, 3);
    let identity = matrix(&[1.0, 0.0, 0.0, 0.0, 1.0, 0.0, 0.0, 0.0, 1.0], 3, 3);
    assert_eq!(decompose(&identity, 1e-10f64.to_bits()).unwrap().rank, 3);
}

#[test]
fn two_identical_columns_give_rank_one_and_a_zero_coefficient() {
    let data = Data::new(matrix(&[2.0, 2.0, -1.0, -1.0, 0.5, 0.5], 3, 2), matrix(&[4.0, -2.0, 1.0], 3, 1)).unwrap();
    let (solved, qr) = solve(&data, None).unwrap();
    assert_eq!(qr.rank, 1);
    // of two equal columns the first is the pivot, the second is left out
    assert_eq!(qr.pivot, vec![0, 1]);
    assert_eq!(solved.beta.get(1, 0), 0.0f64.to_bits());
    assert_close(&cells(&solved.beta), &[2.0, 0.0], 1e-12);
}

#[test]
fn a_zero_matrix_has_rank_zero_and_zero_coefficients() {
    let data = Data::new(RealMatrix::with_shape(3, 2), matrix(&[1.0, 2.0, 3.0], 3, 1)).unwrap();
    let (solved, qr) = solve(&data, None).unwrap();
    assert_eq!(qr.rank, 0);
    assert_eq!(solved.beta.as_slice().unwrap(), &[0u64, 0][..]);
    assert_close(&cells(&solved.residuals), &[1.0, 2.0, 3.0], 0.0);
}

#[test]
fn residuals_are_orthogonal_to_the_columns() {
    let data = noisy();
    let (solved, qr) = solve(&data, None).unwrap();
    assert_eq!(qr.rank, 3);
    let normal = product(&data.x().transpose(), &solved.residuals).unwrap();
    assert_eq!(normal.shape(), [3, 2]);
    assert_close(&cells(&normal), &[0.0; 6], 1e-12);
}

#[test]
fn both_routes_to_the_residuals_agree() {
    for data in [exact_fit(), rank_deficient(), noisy()] {
        let (solved, qr) = solve(&data, None).unwrap();
        // the other route: drop the leading rows of the transformed
        // responses and apply the reflectors backwards
        let mut complement = solved.q_transposed_times_y.clone();
        for i in 0..qr.rank {
            for c in 0..complement.n_cols() {
                put(&mut complement, i, c, 0.0);
            }
        }
        for step in (0..qr.q.n_cols()).rev() {
            for c in 0..complement.n_cols() {
                reflect(&qr.q, step, &mut complement, c);
            }
        }
        assert_close(&cells(&complement), &cells(&solved.residuals), 1e-12);
    }
}

#[test]
fn prediction_and_residuals_add_up_to_the_response() {
    for data in [exact_fit(), rank_deficient(), noisy()] {
        let mut model = LinearModel::new(&data);
        model.fit(&HouseholderFitter { data: &data, tol: None }).unwrap();
        let fitted = predict(&model, Some(data.x())).unwrap();
        let total = sum(&fitted, &residuals(&model).unwrap()).unwrap();
        assert_close(&cells(&total), &cells(data.y()), 1e-15);
    }
}

#[test]
fn a_second_fit_replaces_the_coefficients() {
    let data = exact_fit();
    let mut model = LinearModel::new(&data);
    model.accept(Ok(matrix(&[5.0, 7.0], 2, 1))).unwrap();
    assert_eq!(cells(model.coefficients().unwrap()), vec![5.0, 7.0]);
    model.fit(&HouseholderFitter { data: &data, tol: None }).unwrap();
    let refitted = cells(model.coefficients().unwrap());
    let mut fresh = LinearModel::new(&data);
    fresh.fit(&HouseholderFitter { data: &data, tol: None }).unwrap();
    assert_eq!(refitted, cells(fresh.coefficients().unwrap()));
    assert_close(&refitted, &[0.0, 1.0], 1e-12);
}

#[test]
fn the_tolerance_decides_the_rank() {
    // the second column differs from the first by one part in a million
    let x = matrix(&[1.0, 1.0, 1.0, 1.0 + 1e-6, 1.0, 1.0 - 1e-6], 3, 2);
    assert_eq!(decompose(&x, 1e-10f64.to_bits()).unwrap().rank, 2);
    assert_eq!(decompose(&x, 1e-3f64.to_bits()).unwrap().rank, 1);
}

#[test]
fn a_near_duplicate_column_does_not_mislead_the_pivot() {
    // columns 0 and 1 nearly agree; column 2 is small but independent
    let x = matrix(
        &[3.0, 3.0 + 1e-9, 0.0, 4.0, 4.0, 0.0, 0.0, 0.0, 1e-3, 0.0, 0.0, 2e-3],
        4,
        3,
    );
    let qr = decompose(&x, 1e-14f64.to_bits()).unwrap();
    assert!(qr.is_valid());
    // after the largest column, the independent one must come before the
    // near duplicate, whose remaining norm is of the order of 1e-9
    assert_eq!(qr.pivot[1], 2);
    assert_eq!(qr.rank, 3);
    assert_close(&cells(&reconstruct(&qr)), &cells(&x), 1e-12);
    let diagonal: Vec<f64> = qr.diagonal().iter().map(|d| f64::from_bits(*d).abs()).collect();
    assert!(diagonal[0] >= diagonal[1] && diagonal[1] >= diagonal[2]);
    assert!((diagonal[2] - 8e-10).abs() < 1e-10, "{diagonal:?}");
}

#[test]
fn coefficients_come_back_in_the_order_of_the_columns() {
    // y = 2 * (column 0) + 3 * (column 1), with the larger column second
    let x = matrix(&[1.0, 10.0, 0.0, 20.0, 1.0, 30.0], 3, 2);
    let y = matrix(&[32.0, 60.0, 92.0], 3, 1);
    let data = Data::new(x, y).unwrap();
    let (solved, qr) = solve(&data, None).unwrap();
    assert_eq!(qr.pivot, vec![1, 0]);
    assert_close(&cells(&solved.beta), &[2.0, 3.0], 1e-10);
}

#[test]
fn several_responses_are_solved_column_by_column() {
    let data = noisy();
    let (solved, _) = solve(&data, None).unwrap();
    assert_eq!(solved.beta.shape(), [3, 2]);
    assert_eq!(solved.residuals.shape(), [5, 2]);
    assert_eq!(solved.q_transposed_times_y.shape(), [5, 2]);
    for c in 0..2 {
        let mut column = Vec::new();
        for i in 0..5 {
            column.push(get(data.y(), i, c));
        }
        let single = Data::new(data.x().clone(), matrix(&column, 5, 1)).unwrap();
        let (alone, _) = solve(&single, None).unwrap();
        for i in 0..3 {
            assert_eq!(alone.beta.get(i, 0), solved.beta.get(i, c));
        }
    }
}

#[test]
fn a_model_that_is_not_fitted_predicts_nothing() {
    let data = exact_fit();
    let model = LinearModel::new(&data);
    assert_eq!(predict(&model, None), Err(LmFitterError::ModelNotFitted));
    assert_eq!(residuals(&model), Err(LmFitterError::ModelNotFitted));
}

#[test]
fn the_rank_of_a_solve_is_the_one_the_diagonal_gives() {
    let data = rank_deficient();
    let problem = FortranLeastSquaresQrDecomposition::new(&data, None);
    let (qr, threshold) = decompose_with_threshold(data.x(), problem.tol()).unwrap();
    assert_eq!(qr.rank, 1);
    assert_eq!(f64::from_bits(threshold), 1e-10 * 14.0f64.sqrt());
    assert!(qr.has_rank_of(threshold));
    let qty = transformed_response(&qr, data.y()).unwrap();
    let pivoted = back_substitute(&qr, &qty);
    // a decomposition whose rank was not estimated is not taken
    let mut forged = QrResult { pivot: qr.pivot.clone(), q: qr.q.clone(), r: qr.r.clone(), rank: 2 };
    assert_eq!(
        problem.dqrls(forged, threshold, pivoted.clone(), data.y().clone(), qty.clone()),
        Err(LeastSquaresError::NumericalFailure)
    );
    forged = QrResult { pivot: qr.pivot.clone(), q: qr.q.clone(), r: qr.r.clone(), rank: 0 };
    assert_eq!(
        problem.dqrls(forged, threshold, pivoted.clone(), data.y().clone(), qty.clone()),
        Err(LeastSquaresError::NumericalFailure)
    );
    assert!(problem.dqrls(qr, threshold, pivoted, data.y().clone(), qty).is_ok());
}
