//! The life of a linear model: unfitted over its data, then fitted with a
//! coefficient matrix, which a later fit replaces.

use std::cmp::Ordering;
use vstd::prelude::*;
use vstd::std_specs::cmp::PartialOrdSpecImpl;
use crate::data::Data;
use crate::errors::LmFitterError;
use crate::fitters::fit::FitLinearModel;
use crate::real_matrix::RealMatrix;

verus! {

/// A model that has coefficients: a row for each column of the design
/// matrix, a column for each column of the response.
#[derive(Debug, PartialEq)]
pub struct FittedLinearModel<'a> {
    pub data: &'a Data,
    pub coefficients: RealMatrix,
}

/// A model that has not been fitted yet.
#[derive(Debug, PartialEq)]
pub struct UnfittedLinearModel<'a> {
    pub data: &'a Data,
}

/// A linear model over its data, fitted or not.
#[derive(Debug, PartialEq)]
pub enum LinearModel<'a> {
    Fitted(FittedLinearModel<'a>),
    Unfitted(UnfittedLinearModel<'a>),
}

/// The coefficient matrix has the shape that the data asks for.
pub open spec fn coefficients_fit(data: &Data, coefficients: &RealMatrix) -> bool {
    &&& coefficients.rows() == data.x.cols()
    &&& coefficients.cols() == data.y.cols()
}

/// The error for a coefficient matrix of another shape than the data asks
/// for.
pub open spec fn coefficients_mismatch(data: &Data, coefficients: &RealMatrix) -> LmFitterError {
    LmFitterError::DimensionMismatch {
        expected_rows: data.x.cols() as usize,
        expected_cols: data.y.cols() as usize,
        found_rows: coefficients.rows() as usize,
        found_cols: coefficients.cols() as usize,
    }
}

/// The error for a matrix of predictors whose columns are not those of the
/// coefficient rows.
pub open spec fn predictors_mismatch(coefficients: &RealMatrix, x: &RealMatrix) -> LmFitterError {
    LmFitterError::DimensionMismatch {
        expected_rows: x.rows() as usize,
        expected_cols: coefficients.rows() as usize,
        found_rows: x.rows() as usize,
        found_cols: x.cols() as usize,
    }
}

/// Tests the shape of a coefficient matrix against the data.
fn check_coefficients(data: &Data, coefficients: &RealMatrix) -> (r: Result<(), LmFitterError>)
    ensures
        match r {
            Ok(_) => coefficients_fit(data, coefficients),
            Err(e) => !coefficients_fit(data, coefficients) && e == coefficients_mismatch(data, coefficients),
        },
{
    let shape: [usize; 2] = coefficients.shape();
    let n_predictors: usize = data.x().n_cols();
    let n_responses: usize = data.y().n_cols();
    if shape[0] == n_predictors && shape[1] == n_responses {
        Ok(())
    } else {
        Err(
            LmFitterError::DimensionMismatch {
                expected_rows: n_predictors,
                expected_cols: n_responses,
                found_rows: shape[0],
                found_cols: shape[1],
            },
        )
    }
}

impl<'a> UnfittedLinearModel<'a> {
    /// A model over the data, without coefficients.
    pub fn new(data: &'a Data) -> (m: Self)
        ensures
            m.data == data,
    {
        UnfittedLinearModel { data }
    }
}

impl<'a> FittedLinearModel<'a> {
    /// A model over the data with the given coefficients.
    pub fn new(data: &'a Data, coefficients: RealMatrix) -> (m: Self)
        ensures
            m.data == data,
            m.coefficients == coefficients,
    {
        FittedLinearModel { data, coefficients }
    }

    /// Replaces the coefficients.
    pub fn update_coefficients(&mut self, coefficients: RealMatrix)
        ensures
            final(self).data == old(self).data,
            final(self).coefficients == coefficients,
    {
        self.coefficients = coefficients;
    }

    /// The matrix of predictors that a prediction multiplies with the
    /// coefficients: `x` where it is given, the design matrix of the data
    /// where it is not. Its columns must be as many as the coefficients have
    /// rows.
    pub fn predictors<'b>(&'b self, x: Option<&'b RealMatrix>) -> (r: Result<&'b RealMatrix, LmFitterError>)
        ensures
            match r {
                Ok(chosen) => {
                    &&& *chosen == *self.chosen_predictors(x)
                    &&& chosen.cols() == self.coefficients.rows()
                },
                Err(e) => {
                    &&& self.chosen_predictors(x).cols() != self.coefficients.rows()
                    &&& e == predictors_mismatch(&self.coefficients, self.chosen_predictors(x))
                },
            },
    {
        let chosen: &RealMatrix = match x {
            Some(given) => given,
            None => self.data.x(),
        };
        let shape: [usize; 2] = chosen.shape();
        let needed: usize = self.coefficients.n_rows();
        if shape[1] == needed {
            Ok(chosen)
        } else {
            Err(
                LmFitterError::DimensionMismatch {
                    expected_rows: shape[0],
                    expected_cols: needed,
                    found_rows: shape[0],
                    found_cols: shape[1],
                },
            )
        }
    }

    /// The matrix that `predictors` decides on.
    pub open spec fn chosen_predictors(&self, x: Option<&RealMatrix>) -> &RealMatrix {
        match x {
            Some(given) => given,
            None => &self.data.x,
        }
    }
}

impl<'a> LinearModel<'a> {
    /// The data of the model.
    pub open spec fn data_of(&self) -> &'a Data {
        match self {
            LinearModel::Fitted(fitted) => fitted.data,
            LinearModel::Unfitted(unfitted) => unfitted.data,
        }
    }

    /// The model has coefficients.
    pub open spec fn is_fitted(&self) -> bool {
        self is Fitted
    }

    /// An unfitted model over the data.
    pub fn new(data: &'a Data) -> (m: Self)
        ensures
            m == LinearModel::Unfitted(UnfittedLinearModel { data }),
    {
        LinearModel::Unfitted(UnfittedLinearModel::new(data))
    }

    /// Replaces the coefficients of a fitted model. An unfitted model has
    /// none to replace, and a matrix of another shape than the data asks for
    /// is not taken; in both cases the model stays as it was.
    pub fn update_coefficients(&mut self, coefficients: RealMatrix) -> (r: Result<(), LmFitterError>)
        ensures
            match r {
                Ok(_) => {
                    &&& old(self).is_fitted()
                    &&& coefficients_fit(old(self).data_of(), &coefficients)
                    &&& *final(self) == LinearModel::Fitted(
                        FittedLinearModel { data: old(self).data_of(), coefficients },
                    )
                },
                Err(e) => {
                    &&& *final(self) == *old(self)
                    &&& if !old(self).is_fitted() {
                        e == LmFitterError::ModelNotFitted
                    } else {
                        &&& !coefficients_fit(old(self).data_of(), &coefficients)
                        &&& e == coefficients_mismatch(old(self).data_of(), &coefficients)
                    }
                },
            },
    {
        match self {
            LinearModel::Fitted(fitted) => {
                match check_coefficients(fitted.data, &coefficients) {
                    Ok(_) => {
                        fitted.update_coefficients(coefficients);
                        Ok(())
                    },
                    Err(e) => Err(e),
                }
            },
            LinearModel::Unfitted(_) => Err(LmFitterError::ModelNotFitted),
        }
    }

    /// The data of the model.
    pub fn data(&self) -> (r: &Data)
        ensures
            r == self.data_of(),
    {
        match self {
            LinearModel::Fitted(fitted) => fitted.data,
            LinearModel::Unfitted(unfitted) => unfitted.data,
        }
    }

    /// The design matrix of the data.
    pub fn x(&self) -> (r: &RealMatrix)
        ensures
            *r == self.data_of().x,
    {
        self.data().x()
    }

    /// The response matrix of the data.
    pub fn y(&self) -> (r: &RealMatrix)
        ensures
            *r == self.data_of().y,
    {
        self.data().y()
    }

    /// The model after it was offered the outcome of a fitting procedure:
    /// fitted with the coefficients, where they have the shape that the data
    /// asks for; unchanged otherwise.
    pub open spec fn accepted(self, outcome: Result<RealMatrix, LmFitterError>) -> LinearModel<'a> {
        match outcome {
            Ok(coefficients) => if coefficients_fit(self.data_of(), &coefficients) {
                LinearModel::Fitted(FittedLinearModel { data: self.data_of(), coefficients })
            } else {
                self
            },
            Err(_) => self,
        }
    }

    /// What a model answers to the outcome of a fitting procedure: the
    /// procedure's own error, or the mismatch of the coefficients with the
    /// data, or success.
    pub open spec fn answer(self, outcome: Result<RealMatrix, LmFitterError>) -> Result<(), LmFitterError> {
        match outcome {
            Ok(coefficients) => if coefficients_fit(self.data_of(), &coefficients) {
                Ok(())
            } else {
                Err(coefficients_mismatch(self.data_of(), &coefficients))
            },
            Err(e) => Err(e),
        }
    }

    /// Takes the outcome of a fitting procedure. Coefficients of the shape
    /// that the data asks for make the model fitted with exactly them,
    /// whatever it held before. An error, or coefficients of another shape,
    /// leave the model as it was.
    pub fn accept(&mut self, outcome: Result<RealMatrix, LmFitterError>) -> (r: Result<(), LmFitterError>)
        ensures
            *final(self) == old(self).accepted(outcome),
            r == old(self).answer(outcome),
    {
        match outcome {
            Ok(coefficients) => {
                let data: &'a Data = match self {
                    LinearModel::Fitted(fitted) => fitted.data,
                    LinearModel::Unfitted(unfitted) => unfitted.data,
                };
                match check_coefficients(data, &coefficients) {
                    Ok(_) => {
                        *self = LinearModel::Fitted(FittedLinearModel::new(data, coefficients));
                        Ok(())
                    },
                    Err(e) => Err(e),
                }
            },
            Err(e) => Err(e),
        }
    }

    /// Fits the model: runs the procedure and takes its outcome as `accept`
    /// does. On success the model is fitted, over the same data, with
    /// coefficients of the shape that the data asks for; on an error it is
    /// as it was.
    pub fn fit<F: FitLinearModel>(&mut self, fitter: &F) -> (r: Result<(), LmFitterError>)
        ensures
            final(self).data_of() == old(self).data_of(),
            match r {
                Ok(_) => *final(self) matches LinearModel::Fitted(fitted) && coefficients_fit(
                    fitted.data,
                    &fitted.coefficients,
                ),
                Err(_) => *final(self) == *old(self),
            },
            exists|outcome: Result<RealMatrix, LmFitterError>|
                *final(self) == old(self).accepted(outcome) && r == #[trigger] old(self).answer(outcome),
    {
        let outcome: Result<RealMatrix, LmFitterError> = fitter.fit();
        self.accept(outcome)
    }

    /// The fitted model inside, if the model is fitted; a model without
    /// coefficients answers that it is not.
    pub fn fitted(&self) -> (r: Result<&FittedLinearModel<'a>, LmFitterError>)
        ensures
            match *self {
                LinearModel::Fitted(fitted) => r matches Ok(inner) && *inner == fitted,
                LinearModel::Unfitted(_) => r == Err::<&FittedLinearModel<'a>, LmFitterError>(
                    LmFitterError::ModelNotFitted,
                ),
            },
    {
        match self {
            LinearModel::Fitted(fitted) => Ok(fitted),
            LinearModel::Unfitted(_) => Err(LmFitterError::ModelNotFitted),
        }
    }

    /// The coefficients, if the model is fitted.
    pub fn coefficients(&self) -> (r: Option<&RealMatrix>)
        ensures
            match *self {
                LinearModel::Fitted(fitted) => r matches Some(c) && *c == fitted.coefficients,
                LinearModel::Unfitted(_) => r is None,
            },
    {
        match self {
            LinearModel::Fitted(fitted) => Some(&fitted.coefficients),
            LinearModel::Unfitted(_) => None,
        }
    }

    /// The matrix of predictors that a prediction of this model multiplies
    /// with its coefficients (see `FittedLinearModel::predictors`). A model
    /// without coefficients predicts nothing.
    pub fn predictors<'b>(&'b self, x: Option<&'b RealMatrix>) -> (r: Result<&'b RealMatrix, LmFitterError>)
        ensures
            match *self {
                LinearModel::Unfitted(_) => r == Err::<&RealMatrix, LmFitterError>(
                    LmFitterError::ModelNotFitted,
                ),
                LinearModel::Fitted(fitted) => match r {
                    Ok(chosen) => {
                        &&& *chosen == *fitted.chosen_predictors(x)
                        &&& chosen.cols() == fitted.coefficients.rows()
                    },
                    Err(e) => {
                        &&& fitted.chosen_predictors(x).cols() != fitted.coefficients.rows()
                        &&& e == predictors_mismatch(&fitted.coefficients, fitted.chosen_predictors(x))
                    },
                },
            },
    {
        match self {
            LinearModel::Fitted(fitted) => fitted.predictors(x),
            LinearModel::Unfitted(_) => Err(LmFitterError::ModelNotFitted),
        }
    }
}

/// A second fit replaces the coefficients of the first. Whatever a model
/// held and whatever the first outcome was, the answer to the second outcome
/// is the same as if the first had never been offered. Where the second fit
/// succeeds, the model holds exactly its coefficients, over the same data;
/// where it fails, the model is as the first fit left it.
pub proof fn refit_replaces_coefficients(
    model: LinearModel,
    first: Result<RealMatrix, LmFitterError>,
    second: Result<RealMatrix, LmFitterError>,
)
    ensures
        model.accepted(first).answer(second) == model.answer(second),
        model.accepted(first).accepted(second).data_of() == model.data_of(),
        model.answer(second) is Ok ==> second is Ok && model.accepted(first).accepted(second)
            == LinearModel::Fitted(FittedLinearModel { data: model.data_of(), coefficients: second->Ok_0 }),
        model.answer(second) is Err ==> model.accepted(first).accepted(second) == model.accepted(first),
{
}

/// What a model held before does not enter into what it holds after a fit:
/// two models over the same data that take the same outcome end up the same,
/// whether they were fitted before or not and whatever their coefficients
/// were.
pub proof fn accepted_coefficients_ignore_the_old(
    model: LinearModel,
    other: LinearModel,
    outcome: Result<RealMatrix, LmFitterError>,
)
    requires
        model.data_of() == other.data_of(),
        model.answer(outcome) is Ok,
    ensures
        other.answer(outcome) is Ok,
        model.accepted(outcome) == other.accepted(outcome),
        model.accepted(outcome) matches LinearModel::Fitted(fitted) && outcome == Ok::<
            RealMatrix,
            LmFitterError,
        >(fitted.coefficients) && fitted.data == model.data_of(),
{
}

/// A model never goes back: whatever outcome a fitted model is offered, it
/// stays fitted, and no outcome changes the data that a model is over.
pub proof fn fitted_stays_fitted(model: LinearModel, outcome: Result<RealMatrix, LmFitterError>)
    ensures
        model.is_fitted() ==> model.accepted(outcome).is_fitted(),
        model.accepted(outcome).data_of() == model.data_of(),
        model.accepted(outcome).is_fitted() <==> model.is_fitted() || model.answer(outcome) is Ok,
{
}

/// A failed fit changes nothing: where the answer is an error, the model is
/// as it was.
pub proof fn failed_fit_keeps_model(model: LinearModel, outcome: Result<RealMatrix, LmFitterError>)
    requires
        model.answer(outcome) is Err,
    ensures
        model.accepted(outcome) == model,
{
}

impl<'a> PartialOrd for LinearModel<'a> {
    /// Orders models by their state alone: a fitted model is greater than an
    /// unfitted one, and two models in the same state are equal.
    fn partial_cmp(&self, other: &Self) -> (r: Option<Ordering>) {
        match (self, other) {
            (LinearModel::Fitted(_), LinearModel::Unfitted(_)) => Some(Ordering::Greater),
            (LinearModel::Unfitted(_), LinearModel::Fitted(_)) => Some(Ordering::Less),
            (LinearModel::Fitted(_), LinearModel::Fitted(_)) => Some(Ordering::Equal),
            (LinearModel::Unfitted(_), LinearModel::Unfitted(_)) => Some(Ordering::Equal),
        }
    }
}

impl<'a> PartialOrdSpecImpl for LinearModel<'a> {
    open spec fn obeys_partial_cmp_spec() -> bool {
        true
    }

    open spec fn partial_cmp_spec(&self, other: &Self) -> Option<Ordering> {
        match (self, other) {
            (LinearModel::Fitted(_), LinearModel::Unfitted(_)) => Some(Ordering::Greater),
            (LinearModel::Unfitted(_), LinearModel::Fitted(_)) => Some(Ordering::Less),
            (LinearModel::Fitted(_), LinearModel::Fitted(_)) => Some(Ordering::Equal),
            (LinearModel::Unfitted(_), LinearModel::Unfitted(_)) => Some(Ordering::Equal),
        }
    }
}

} // verus!
