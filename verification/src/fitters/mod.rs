//! Fitting strategies for linear models.

pub mod fit;
pub mod qr_decomposition_fitter;
