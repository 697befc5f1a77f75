use std::cmp::Ordering;

use lm::errors::LmFitterError;
use lm::fitters::fit::FitLinearModel;
use lm::linear_model::{FittedLinearModel, LinearModel, UnfittedLinearModel};
use lm::{Data, RealMatrix};

fn matrix(values: &[f64], n_rows: usize, n_cols: usize) -> RealMatrix {
    RealMatrix::from_vec(values.iter().map(|v| v.to_bits()).collect(), n_rows, Some(n_cols)).unwrap()
}

fn data() -> Data {
    Data::new(matrix(&[1.0, 1.0, 1.0, 2.0, 1.0, 3.0], 3, 2), matrix(&[1.0, 2.0, 3.0], 3, 1)).unwrap()
}

// A procedure that hands back what it was made with.
struct Fixed<'a> {
    data: &'a Data,
    outcome: Result<RealMatrix, LmFitterError>,
}

impl<'a> FitLinearModel for Fixed<'a> {
    fn fit(&self) -> Result<RealMatrix, LmFitterError> {
        self.outcome.clone()
    }

    fn x(&self) -> &RealMatrix {
        self.data.x()
    }

    fn y(&self) -> &RealMatrix {
        self.data.y()
    }
}

#[test]
fn a_new_model_is_unfitted() {
    let data = data();
    let model = LinearModel::new(&data);
    assert_eq!(model, LinearModel::Unfitted(UnfittedLinearModel::new(&data)));
    assert!(model.coefficients().is_none());
    assert_eq!(model.data(), &data);
    assert_eq!(model.x(), data.x());
    assert_eq!(model.y(), data.y());
}

#[test]
fn a_fit_makes_the_model_fitted() {
    let data = data();
    let b = matrix(&[0.0, 1.0], 2, 1);
    let mut model = LinearModel::new(&data);
    assert_eq!(model.fit(&Fixed { data: &data, outcome: Ok(b.clone()) }), Ok(()));
    assert_eq!(model, LinearModel::Fitted(FittedLinearModel::new(&data, b.clone())));
    assert_eq!(model.coefficients(), Some(&b));
    assert_eq!(model.data(), &data);
}

#[test]
fn a_refit_replaces_and_does_not_accumulate() {
    let data = data();
    let first = matrix(&[5.0, 7.0], 2, 1);
    let second = matrix(&[0.5, -1.0], 2, 1);
    let mut model = LinearModel::new(&data);
    model.fit(&Fixed { data: &data, outcome: Ok(first) }).unwrap();
    model.fit(&Fixed { data: &data, outcome: Ok(second.clone()) }).unwrap();
    assert_eq!(model.coefficients(), Some(&second));
    let mut fresh = LinearModel::new(&data);
    fresh.fit(&Fixed { data: &data, outcome: Ok(second) }).unwrap();
    assert_eq!(model, fresh);
}

#[test]
fn a_failed_fit_leaves_the_model_as_it_was() {
    let data = data();
    let mut model = LinearModel::new(&data);
    assert_eq!(
        model.fit(&Fixed { data: &data, outcome: Err(LmFitterError::NumericalFailure) }),
        Err(LmFitterError::NumericalFailure)
    );
    assert_eq!(model, LinearModel::new(&data));

    let b = matrix(&[0.0, 1.0], 2, 1);
    model.accept(Ok(b.clone())).unwrap();
    assert_eq!(
        model.fit(&Fixed { data: &data, outcome: Err(LmFitterError::NonFiniteInput) }),
        Err(LmFitterError::NonFiniteInput)
    );
    assert_eq!(model.coefficients(), Some(&b));
}

#[test]
fn coefficients_of_another_shape_are_not_taken() {
    let data = data();
    let mut model = LinearModel::new(&data);
    let mismatch =
        LmFitterError::DimensionMismatch { expected_rows: 2, expected_cols: 1, found_rows: 3, found_cols: 1 };
    assert_eq!(model.accept(Ok(matrix(&[1.0, 2.0, 3.0], 3, 1))), Err(mismatch));
    assert_eq!(model, LinearModel::new(&data));
    let mismatch =
        LmFitterError::DimensionMismatch { expected_rows: 2, expected_cols: 1, found_rows: 1, found_cols: 2 };
    assert_eq!(model.fit(&Fixed { data: &data, outcome: Ok(matrix(&[1.0, 2.0], 1, 2)) }), Err(mismatch));
    assert!(model.coefficients().is_none());
}

#[test]
fn update_coefficients_needs_a_fitted_model() {
    let data = data();
    let mut model = LinearModel::new(&data);
    assert_eq!(model.update_coefficients(matrix(&[1.0, 2.0], 2, 1)), Err(LmFitterError::ModelNotFitted));
    assert_eq!(model, LinearModel::new(&data));

    model.accept(Ok(matrix(&[0.0, 1.0], 2, 1))).unwrap();
    assert_eq!(model.update_coefficients(matrix(&[1.0, 2.0], 2, 1)), Ok(()));
    assert_eq!(model.coefficients(), Some(&matrix(&[1.0, 2.0], 2, 1)));
    assert_eq!(
        model.update_coefficients(matrix(&[1.0, 2.0, 3.0], 3, 1)),
        Err(LmFitterError::DimensionMismatch { expected_rows: 2, expected_cols: 1, found_rows: 3, found_cols: 1 })
    );
    assert_eq!(model.coefficients(), Some(&matrix(&[1.0, 2.0], 2, 1)));
}

#[test]
fn a_fitted_model_takes_any_coefficients_directly() {
    let data = data();
    let mut fitted = FittedLinearModel::new(&data, matrix(&[0.0, 1.0], 2, 1));
    fitted.update_coefficients(matrix(&[3.0, 4.0], 2, 1));
    assert_eq!(fitted.coefficients, matrix(&[3.0, 4.0], 2, 1));
    assert_eq!(fitted.data, &data);
}

#[test]
fn predictors_are_the_given_matrix_or_the_design_matrix() {
    let data = data();
    let mut model = LinearModel::new(&data);
    assert_eq!(model.predictors(None), Err(LmFitterError::ModelNotFitted));
    model.accept(Ok(matrix(&[0.0, 1.0], 2, 1))).unwrap();
    assert_eq!(model.predictors(None), Ok(data.x()));
    let given = matrix(&[1.0, 5.0, 1.0, 6.0], 2, 2);
    assert_eq!(model.predictors(Some(&given)), Ok(&given));
    let narrow = matrix(&[1.0, 5.0, 1.0], 3, 1);
    assert_eq!(
        model.predictors(Some(&narrow)),
        Err(LmFitterError::DimensionMismatch { expected_rows: 3, expected_cols: 2, found_rows: 3, found_cols: 1 })
    );
}

#[test]
fn models_are_ordered_by_their_state() {
    let data = data();
    let unfitted = LinearModel::new(&data);
    let mut fitted = LinearModel::new(&data);
    fitted.accept(Ok(matrix(&[0.0, 1.0], 2, 1))).unwrap();
    let mut other = LinearModel::new(&data);
    other.accept(Ok(matrix(&[2.0, 3.0], 2, 1))).unwrap();
    assert_eq!(fitted.partial_cmp(&unfitted), Some(Ordering::Greater));
    assert_eq!(unfitted.partial_cmp(&fitted), Some(Ordering::Less));
    assert_eq!(fitted.partial_cmp(&other), Some(Ordering::Equal));
    assert_eq!(unfitted.partial_cmp(&LinearModel::new(&data)), Some(Ordering::Equal));
    assert!(fitted > unfitted);
    assert!(unfitted < fitted);
}

#[test]
fn only_a_fitted_model_has_a_fitted_model_inside() {
    let data = data();
    let mut model = LinearModel::new(&data);
    assert_eq!(model.fitted(), Err(LmFitterError::ModelNotFitted));
    let b = matrix(&[0.0, 1.0], 2, 1);
    model.accept(Ok(b.clone())).unwrap();
    assert_eq!(model.fitted(), Ok(&FittedLinearModel::new(&data, b)));
}

#[test]
fn what_a_model_held_does_not_enter_into_a_fit() {
    let data = data();
    let b = matrix(&[0.5, -1.0], 2, 1);
    let mut fresh = LinearModel::new(&data);
    let mut used = LinearModel::new(&data);
    used.accept(Ok(matrix(&[100.0, 200.0], 2, 1))).unwrap();
    fresh.accept(Ok(b.clone())).unwrap();
    used.accept(Ok(b.clone())).unwrap();
    assert_eq!(fresh, used);
    assert_eq!(used.coefficients(), Some(&b));
    assert_eq!(used.data(), &data);
}
