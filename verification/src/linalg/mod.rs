//! Linear algebra: the rules of the rank-revealing QR decomposition.

pub mod qr_factorization;
