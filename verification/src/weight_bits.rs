//! Particle weights are single-precision numbers; the library reads each one as its
//! IEEE 754 binary32 bit pattern and decides comparisons on those patterns.
//!
//! A pattern is a sign bit over a 31-bit magnitude. Magnitudes above that of
//! infinity encode NaN; the others order the values they encode, and both zeros
//! encode the same value.
use vstd::prelude::*;
use crate::binary32::{
    encodes_finite, encodes_nan, lemma_greater_is_numeric_order, lemma_likelihood_ok_means,
    lemma_pattern_classes, lemma_resample_due_means, lemma_threshold_ok_means, scaled_one,
    scaled_value,
};

verus! {

/// Bit pattern of `+0.0`.
pub const ZERO_BITS: u32 = 0x0000_0000;

/// Bit pattern of `1.0`.
pub const ONE_BITS: u32 = 0x3F80_0000;

/// Magnitude of the pattern of `+inf`.
pub const INFINITY_MAGNITUDE: u32 = 0x7F80_0000;

/// The sign bit of a pattern.
pub const SIGN_BIT: u32 = 0x8000_0000;

/// The pattern's sign bit is set.
pub open spec fn sign_set(b: u32) -> bool {
    b >= SIGN_BIT
}

/// The pattern without its sign bit.
pub open spec fn magnitude(b: u32) -> int {
    (b % SIGN_BIT) as int
}

/// The pattern encodes NaN.
pub open spec fn is_nan_bits(b: u32) -> bool {
    magnitude(b) > INFINITY_MAGNITUDE
}

/// The pattern encodes a finite number.
pub open spec fn is_finite_bits(b: u32) -> bool {
    magnitude(b) < INFINITY_MAGNITUDE
}

/// Position of a non-NaN pattern on the number line: equal positions mean equal
/// values, and a larger position a larger value.
pub open spec fn rank(b: u32) -> int {
    if sign_set(b) {
        -magnitude(b)
    } else {
        magnitude(b)
    }
}

/// `a > b` on the numbers the patterns encode; false when either is NaN.
pub open spec fn greater(a: u32, b: u32) -> bool {
    !is_nan_bits(a) && !is_nan_bits(b) && rank(a) > rank(b)
}

/// `a == b` on the numbers the patterns encode; false when either is NaN.
pub open spec fn same_value(a: u32, b: u32) -> bool {
    !is_nan_bits(a) && !is_nan_bits(b) && rank(a) == rank(b)
}

/// On patterns that are not NaN, `greater` is a strict total order whose ties are
/// exactly `same_value`, and the two zeros are the same value.
pub proof fn lemma_weight_order(a: u32, b: u32, c: u32)
    requires
        !is_nan_bits(a),
        !is_nan_bits(b),
        !is_nan_bits(c),
    ensures
        !greater(a, a),
        greater(a, b) && greater(b, c) ==> greater(a, c),
        greater(a, b) ==> !greater(b, a),
        greater(a, b) || greater(b, a) || same_value(a, b),
        same_value(a, b) ==> !greater(a, b) && !greater(b, a),
        same_value(ZERO_BITS, SIGN_BIT),
{
}

fn magnitude_of(b: u32) -> (m: u32)
    ensures
        m == magnitude(b),
{
    b % SIGN_BIT
}

fn rank_of(b: u32) -> (r: i64)
    ensures
        r == rank(b),
{
    let m = magnitude_of(b);
    if b >= SIGN_BIT {
        -(m as i64)
    } else {
        m as i64
    }
}

/// Whether the pattern encodes NaN.
pub fn weight_is_nan(b: u32) -> (r: bool)
    ensures
        r == is_nan_bits(b),
        r == encodes_nan(b),
{
    proof {
        lemma_pattern_classes(b);
    }
    magnitude_of(b) > INFINITY_MAGNITUDE
}

/// Whether the pattern encodes a finite number.
pub fn weight_is_finite(b: u32) -> (r: bool)
    ensures
        r == is_finite_bits(b),
        r == encodes_finite(b),
{
    proof {
        lemma_pattern_classes(b);
    }
    magnitude_of(b) < INFINITY_MAGNITUDE
}

/// `a > b` on the numbers the two patterns encode.
pub fn weight_greater(a: u32, b: u32) -> (r: bool)
    ensures
        r == greater(a, b),
        encodes_finite(a) && encodes_finite(b) ==> (r <==> scaled_value(a) > scaled_value(b)),
{
    proof {
        if encodes_finite(a) && encodes_finite(b) {
            lemma_greater_is_numeric_order(a, b);
        }
    }
    if weight_is_nan(a) || weight_is_nan(b) {
        false
    } else {
        rank_of(a) > rank_of(b)
    }
}

/// `a == b` on the numbers the two patterns encode (so `-0.0` equals `+0.0`).
pub fn weight_equal(a: u32, b: u32) -> (r: bool)
    ensures
        r == same_value(a, b),
        encodes_finite(a) && encodes_finite(b) ==> (r <==> scaled_value(a) == scaled_value(b)),
{
    proof {
        if encodes_finite(a) && encodes_finite(b) {
            lemma_greater_is_numeric_order(a, b);
        }
    }
    if weight_is_nan(a) || weight_is_nan(b) {
        false
    } else {
        rank_of(a) == rank_of(b)
    }
}

/// A likelihood factor is usable when it is finite and not below zero.
pub open spec fn likelihood_ok(b: u32) -> bool {
    is_finite_bits(b) && !greater(ZERO_BITS, b)
}

/// Whether a likelihood returned by the user's model may multiply a weight.
pub fn likelihood_is_valid(b: u32) -> (r: bool)
    ensures
        r == likelihood_ok(b),
        r == (encodes_finite(b) && scaled_value(b) >= 0),
{
    proof {
        lemma_likelihood_ok_means(b);
    }
    weight_is_finite(b) && !weight_greater(ZERO_BITS, b)
}

/// An effective-sample-size threshold must lie in `[0, 1]`.
pub open spec fn threshold_ok(b: u32) -> bool {
    !is_nan_bits(b) && !greater(ZERO_BITS, b) && !greater(b, ONE_BITS)
}

/// Whether `b` is an acceptable effective-sample-size threshold.
pub fn ess_threshold_is_valid(b: u32) -> (r: bool)
    ensures
        r == threshold_ok(b),
        r ==> is_finite_bits(b),
        r == (encodes_finite(b) && 0 <= scaled_value(b) <= scaled_one()),
{
    proof {
        lemma_threshold_ok_means(b);
    }
    !weight_is_nan(b) && !weight_greater(ZERO_BITS, b) && !weight_greater(b, ONE_BITS)
}

/// A step resamples when the effective sample size `ess` is below the scaled
/// threshold `threshold * n`, and always when the threshold is `1.0`.
pub open spec fn resample_due(ess: u32, scaled_threshold: u32, threshold: u32) -> bool {
    same_value(threshold, ONE_BITS) || greater(scaled_threshold, ess)
}

/// Whether a step resamples, given the effective sample size, the threshold scaled
/// by the particle count, and the threshold itself, all as bit patterns.
pub fn resample_is_due(ess: u32, scaled_threshold: u32, threshold: u32) -> (r: bool)
    ensures
        r == resample_due(ess, scaled_threshold, threshold),
        encodes_finite(ess) && encodes_finite(scaled_threshold) && encodes_finite(threshold) ==> (r
            <==> scaled_value(threshold) == scaled_one() || scaled_value(scaled_threshold)
            > scaled_value(ess)),
{
    proof {
        if encodes_finite(ess) && encodes_finite(scaled_threshold) && encodes_finite(threshold) {
            lemma_resample_due_means(ess, scaled_threshold, threshold);
        }
    }
    weight_equal(threshold, ONE_BITS) || weight_greater(scaled_threshold, ess)
}

} // verus!
