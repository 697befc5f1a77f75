//! The scalar types of the library.

use vstd::prelude::*;
use crate::binary64::{exceeds, gt, is_positive, is_nan, nan, positive, ZERO};
use crate::errors::LmFitterError;

verus! {

/// Whether a real number is positive, negative, or zero; the first two carry
/// the binary64 encoding of the number.
#[derive(Debug, Clone, Copy, PartialEq, Eq, Structural)]
pub enum RealNumberSign {
    Positive(u64),
    Negative(u64),
    Zero,
}

impl RealNumberSign {
    /// The sign of an encoded number. NaN has none.
    pub open spec fn sign_of(bits: u64) -> Option<RealNumberSign> {
        if nan(bits) {
            None
        } else if exceeds(bits, ZERO) {
            Some(RealNumberSign::Positive(bits))
        } else if exceeds(ZERO, bits) {
            Some(RealNumberSign::Negative(bits))
        } else {
            Some(RealNumberSign::Zero)
        }
    }

    /// Classifies an encoded number by its sign. NaN has none.
    pub fn of(bits: u64) -> (r: Option<RealNumberSign>)
        ensures
            r == Self::sign_of(bits),
    {
        if is_nan(bits) {
            None
        } else if gt(bits, ZERO) {
            Some(RealNumberSign::Positive(bits))
        } else if gt(ZERO, bits) {
            Some(RealNumberSign::Negative(bits))
        } else {
            Some(RealNumberSign::Zero)
        }
    }
}

/// The encoding of `1e-10`, the tolerance used where none is given.
pub const DEFAULT_TOL: u64 = 0x3DDB_7CDF_D9D7_BDBB;

/// The scale-relative threshold below which a computed quantity counts as
/// zero. The value is always strictly greater than zero.
#[derive(Debug, Clone, Copy, PartialEq, Eq)]
pub struct Tolerance(u64);

impl Tolerance {
    /// The encoding of the tolerance.
    pub closed spec fn bits(&self) -> u64 {
        self.0
    }

    /// The tolerance is strictly greater than zero.
    #[verifier::type_invariant]
    pub closed spec fn wf(&self) -> bool {
        positive(self.0)
    }

    /// The tolerance with the given encoding, or the default where none is
    /// given. A value that is not strictly greater than zero (zero, a
    /// negative number, NaN) is rejected.
    pub fn new(value: Option<u64>) -> (r: Result<Tolerance, LmFitterError>)
        ensures
            match value {
                Some(v) => if positive(v) {
                    r matches Ok(t) && t.bits() == v
                } else {
                    r == Err::<Tolerance, LmFitterError>(LmFitterError::InvalidTolerance)
                },
                None => r matches Ok(t) && t.bits() == DEFAULT_TOL,
            },
    {
        match value {
            Some(v) => {
                if is_positive(v) {
                    Ok(Tolerance(v))
                } else {
                    Err(LmFitterError::InvalidTolerance)
                }
            },
            None => Ok(Tolerance(DEFAULT_TOL)),
        }
    }

    /// The encoding of the tolerance, which is strictly greater than zero.
    pub fn value(&self) -> (r: u64)
        ensures
            r == self.bits(),
            positive(r),
    {
        proof {
            use_type_invariant(self);
        }
        self.0
    }
}

impl Default for Tolerance {
    /// The default tolerance, `1e-10`.
    fn default() -> (t: Tolerance)
        ensures
            t.bits() == DEFAULT_TOL,
    {
        Tolerance(DEFAULT_TOL)
    }
}

} // verus!
