//! Real numbers as IEEE 754 binary64 encodings.
//!
//! Every real value that the library stores or compares is held as the 64-bit
//! encoding of a double-precision number. The rules that depend only on the
//! encoding (sign, finiteness, magnitude, order) are defined and proved here;
//! arithmetic on the encoded values is left to the caller.

use vstd::prelude::*;

verus! {

/// The sign bit of an encoding.
pub const SIGN_BIT: u64 = 0x8000_0000_0000_0000;

/// The encoding of positive infinity; every finite magnitude is below it and
/// every NaN magnitude is above it.
pub const INFINITY: u64 = 0x7FF0_0000_0000_0000;

/// The encoding of positive zero.
pub const ZERO: u64 = 0;

/// The encoding with the sign bit cleared: the encoding of `|x|`.
pub open spec fn magnitude(bits: u64) -> u64 {
    if bits >= SIGN_BIT {
        (bits - SIGN_BIT) as u64
    } else {
        bits
    }
}

/// The sign bit is set (true of `-0.0`, and of some NaNs).
pub open spec fn sign_negative(bits: u64) -> bool {
    bits >= SIGN_BIT
}

/// The encoded value is not a number.
pub open spec fn nan(bits: u64) -> bool {
    magnitude(bits) > INFINITY
}

/// The encoded value is neither infinite nor NaN.
pub open spec fn finite(bits: u64) -> bool {
    magnitude(bits) < INFINITY
}

/// The encoded value is `+0.0` or `-0.0`.
pub open spec fn zero(bits: u64) -> bool {
    magnitude(bits) == 0
}

/// Where a non-NaN encoding lies on the number line: encodings of larger
/// values have larger positions, and both zeros share position 0.
pub open spec fn position(bits: u64) -> int {
    if sign_negative(bits) {
        -(magnitude(bits) as int)
    } else {
        magnitude(bits) as int
    }
}

/// `a > b` as double-precision numbers: false whenever either is NaN.
pub open spec fn exceeds(a: u64, b: u64) -> bool {
    !nan(a) && !nan(b) && position(a) > position(b)
}

/// The encoded value is strictly greater than zero.
pub open spec fn positive(bits: u64) -> bool {
    exceeds(bits, ZERO)
}

/// Every encoding in the sequence is finite.
pub open spec fn all_finite(cells: Seq<u64>) -> bool {
    forall|i: int| 0 <= i < cells.len() ==> finite(#[trigger] cells[i])
}

/// Clears the sign bit.
pub fn abs(bits: u64) -> (r: u64)
    ensures
        r == magnitude(bits),
{
    if bits >= SIGN_BIT {
        bits - SIGN_BIT
    } else {
        bits
    }
}

/// Tests for NaN.
pub fn is_nan(bits: u64) -> (r: bool)
    ensures
        r == nan(bits),
{
    abs(bits) > INFINITY
}

/// Tests that the value is neither infinite nor NaN.
pub fn is_finite(bits: u64) -> (r: bool)
    ensures
        r == finite(bits),
{
    abs(bits) < INFINITY
}

/// Tests for either zero.
pub fn is_zero(bits: u64) -> (r: bool)
    ensures
        r == zero(bits),
{
    abs(bits) == 0
}

/// Compares two encodings as numbers: `a > b`.
pub fn gt(a: u64, b: u64) -> (r: bool)
    ensures
        r == exceeds(a, b),
{
    if is_nan(a) || is_nan(b) {
        return false;
    }
    let ma: u64 = abs(a);
    let mb: u64 = abs(b);
    if a >= SIGN_BIT {
        // a <= 0: it exceeds b only if b is negative and farther from zero.
        b >= SIGN_BIT && mb > ma
    } else if b >= SIGN_BIT {
        // a >= 0 >= b: equal only when both are zero.
        ma > 0 || mb > 0
    } else {
        ma > mb
    }
}

/// Tests that the value is strictly greater than zero.
pub fn is_positive(bits: u64) -> (r: bool)
    ensures
        r == positive(bits),
        r == (0 < bits <= INFINITY),
{
    gt(bits, ZERO)
}

/// `exceeds` is a strict order on the encodings that are not NaN: nothing
/// exceeds itself, and the relation is transitive.
pub proof fn exceeds_is_strict_order(a: u64, b: u64, c: u64)
    ensures
        !exceeds(a, a),
        exceeds(a, b) && exceeds(b, c) ==> exceeds(a, c),
        exceeds(a, b) ==> !exceeds(b, a),
{
}

/// Of two encodings that are not NaN, one exceeds the other or they encode
/// equal numbers (the same position).
pub proof fn exceeds_is_total(a: u64, b: u64)
    requires
        !nan(a),
        !nan(b),
    ensures
        exceeds(a, b) || exceeds(b, a) || position(a) == position(b),
{
}

} // verus!
