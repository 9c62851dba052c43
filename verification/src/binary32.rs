//! What a binary32 bit pattern encodes, per IEEE 754, and the laws that tie the
//! weight tests of `weight_bits` to the numbers.
use vstd::prelude::*;
use vstd::arithmetic::power2::{lemma2_to64, lemma_pow2_adds, lemma_pow2_pos, lemma_pow2_strictly_increases, pow2};
use crate::weight_bits::{
    greater, is_finite_bits, is_nan_bits, likelihood_ok, magnitude, rank, resample_due, same_value,
    sign_set, threshold_ok, INFINITY_MAGNITUDE, ONE_BITS, ZERO_BITS,
};

verus! {

/// The sign field (the top bit).
pub open spec fn sign_field(b: u32) -> int {
    b as int / 0x8000_0000
}

/// The biased exponent field (the next eight bits).
pub open spec fn exponent_field(b: u32) -> int {
    (b as int / 0x80_0000) % 0x100
}

/// The fraction field (the low twenty-three bits).
pub open spec fn fraction_field(b: u32) -> int {
    b as int % 0x80_0000
}

/// The pattern encodes an infinity.
pub open spec fn encodes_infinity(b: u32) -> bool {
    exponent_field(b) == 0xFF && fraction_field(b) == 0
}

/// The pattern encodes NaN.
pub open spec fn encodes_nan(b: u32) -> bool {
    exponent_field(b) == 0xFF && fraction_field(b) != 0
}

/// The pattern encodes a finite number.
pub open spec fn encodes_finite(b: u32) -> bool {
    exponent_field(b) != 0xFF
}

/// The absolute value of the finite number a pattern encodes, times `2^149` (the
/// smallest subnormal is `2^-149`, so this is a whole number): a subnormal encodes
/// `fraction * 2^-149`, a normal number `(2^23 + fraction) * 2^(exponent - 150)`.
pub open spec fn scaled_abs(b: u32) -> int {
    if exponent_field(b) == 0 {
        fraction_field(b)
    } else {
        (0x80_0000 + fraction_field(b)) * pow2((exponent_field(b) - 1) as nat)
    }
}

/// The finite number a pattern encodes, times `2^149`.
pub open spec fn scaled_value(b: u32) -> int {
    if sign_field(b) == 1 {
        -scaled_abs(b)
    } else {
        scaled_abs(b)
    }
}

/// `1.0` times `2^149`.
pub open spec fn scaled_one() -> int {
    pow2(149) as int
}

proof fn lemma_fields(b: u32)
    ensures
        magnitude(b) == exponent_field(b) * 0x80_0000 + fraction_field(b),
        sign_set(b) <==> sign_field(b) == 1,
        sign_field(b) == 0 || sign_field(b) == 1,
        0 <= exponent_field(b) < 0x100,
        0 <= fraction_field(b) < 0x80_0000,
{
    assert((b % 0x8000_0000) as int == ((b / 0x80_0000) % 0x100) as int * 0x80_0000 + (b % 0x80_0000) as int) by (bit_vector);
    assert(b >= 0x8000_0000 <==> b / 0x8000_0000 == 1) by (bit_vector);
    assert(b / 0x8000_0000 <= 1) by (bit_vector);
}

/// `scaled_abs` written over the two fields.
spec fn abs_of_fields(e: int, f: int) -> int {
    if e == 0 {
        f
    } else {
        (0x80_0000 + f) * pow2((e - 1) as nat)
    }
}

proof fn lemma_abs_below_next_binade(e: int, f: int)
    requires
        0 <= e,
        0 <= f < 0x80_0000,
    ensures
        0 <= abs_of_fields(e, f) < 0x80_0000 * pow2(e as nat),
        e > 0 ==> abs_of_fields(e, f) >= 0x80_0000 * pow2((e - 1) as nat),
{
    lemma2_to64();
    if e > 0 {
        let p = pow2((e - 1) as nat) as int;
        lemma_pow2_pos((e - 1) as nat);
        lemma_pow2_adds((e - 1) as nat, 1);
        assert(pow2(e as nat) == p * 2);
        assert((0x80_0000 + f) * p < 0x100_0000 * p) by (nonlinear_arith)
            requires
                p > 0,
                f < 0x80_0000,
        ;
        assert(0x80_0000 * p <= (0x80_0000 + f) * p) by (nonlinear_arith)
            requires
                p > 0,
                f >= 0,
        ;
    } else {
        assert(pow2(0) == 1);
    }
}

proof fn lemma_abs_strictly_increases(e1: int, f1: int, e2: int, f2: int)
    requires
        0 <= e1,
        0 <= e2,
        0 <= f1 < 0x80_0000,
        0 <= f2 < 0x80_0000,
        e1 * 0x80_0000 + f1 < e2 * 0x80_0000 + f2,
    ensures
        abs_of_fields(e1, f1) < abs_of_fields(e2, f2),
{
    if e1 == e2 {
        if e1 > 0 {
            let p = pow2((e1 - 1) as nat) as int;
            lemma_pow2_pos((e1 - 1) as nat);
            assert((0x80_0000 + f1) * p < (0x80_0000 + f2) * p) by (nonlinear_arith)
                requires
                    p > 0,
                    f1 < f2,
            ;
        }
    } else {
        assert(e1 < e2);
        lemma_abs_below_next_binade(e1, f1);
        lemma_abs_below_next_binade(e2, f2);
        if e1 < e2 - 1 {
            lemma_pow2_strictly_increases(e1 as nat, (e2 - 1) as nat);
        }
        let p1 = pow2(e1 as nat) as int;
        let p2 = pow2((e2 - 1) as nat) as int;
        assert(p1 <= p2);
        assert(0x80_0000 * p1 <= 0x80_0000 * p2) by (nonlinear_arith)
            requires
                p1 <= p2,
        ;
    }
}

/// A larger magnitude field encodes a larger absolute value, for finite patterns.
proof fn lemma_scaled_abs_monotone(a: u32, b: u32)
    requires
        encodes_finite(a),
        encodes_finite(b),
    ensures
        magnitude(a) < magnitude(b) ==> scaled_abs(a) < scaled_abs(b),
        magnitude(a) == magnitude(b) ==> scaled_abs(a) == scaled_abs(b),
        scaled_abs(a) >= 0,
        scaled_abs(a) == 0 <==> magnitude(a) == 0,
{
    lemma_fields(a);
    lemma_fields(b);
    let (ea, fa) = (exponent_field(a), fraction_field(a));
    let (eb, fb) = (exponent_field(b), fraction_field(b));
    assert(scaled_abs(a) == abs_of_fields(ea, fa));
    assert(scaled_abs(b) == abs_of_fields(eb, fb));
    if magnitude(a) < magnitude(b) {
        lemma_abs_strictly_increases(ea, fa, eb, fb);
    }
    if magnitude(a) == magnitude(b) {
        assert(ea == eb && fa == fb) by (nonlinear_arith)
            requires
                ea * 0x80_0000 + fa == eb * 0x80_0000 + fb,
                0 <= fa < 0x80_0000,
                0 <= fb < 0x80_0000,
        ;
    }
    lemma_abs_below_next_binade(ea, fa);
    if magnitude(a) > 0 {
        if ea == 0 {
        } else {
            lemma_abs_strictly_increases(0, 0, ea, fa);
        }
    } else {
        assert(ea == 0 && fa == 0) by (nonlinear_arith)
            requires
                ea * 0x80_0000 + fa == 0,
                0 <= fa,
                0 <= ea,
        ;
    }
}

/// The NaN, infinity and finiteness tests on patterns are the IEEE 754 classes,
/// read off the exponent and fraction fields.
pub proof fn lemma_pattern_classes(b: u32)
    ensures
        is_nan_bits(b) <==> encodes_nan(b),
        is_finite_bits(b) <==> encodes_finite(b),
        magnitude(b) == INFINITY_MAGNITUDE <==> encodes_infinity(b),
{
    lemma_fields(b);
}

/// On patterns of finite numbers, the rank orders the patterns as the numbers they
/// encode.
proof fn lemma_rank_is_value_order(a: u32, b: u32)
    requires
        encodes_finite(a),
        encodes_finite(b),
    ensures
        rank(a) > rank(b) <==> scaled_value(a) > scaled_value(b),
        rank(a) == rank(b) <==> scaled_value(a) == scaled_value(b),
{
    lemma_fields(a);
    lemma_fields(b);
    lemma_scaled_abs_monotone(a, b);
    lemma_scaled_abs_monotone(b, a);
}

/// On finite numbers, `greater` is `>` on the numbers the patterns encode, and
/// `same_value` is `==` on them (so `-0.0` and `+0.0` are the same value).
pub proof fn lemma_greater_is_numeric_order(a: u32, b: u32)
    requires
        encodes_finite(a),
        encodes_finite(b),
    ensures
        greater(a, b) <==> scaled_value(a) > scaled_value(b),
        same_value(a, b) <==> scaled_value(a) == scaled_value(b),
{
    lemma_pattern_classes(a);
    lemma_pattern_classes(b);
    lemma_rank_is_value_order(a, b);
}

/// `+inf` is greater than every other number and `-inf` smaller; NaN is neither
/// greater than, smaller than, nor equal to anything.
pub proof fn lemma_greater_at_the_edges(a: u32, b: u32)
    ensures
        encodes_nan(a) || encodes_nan(b) ==> !greater(a, b) && !same_value(a, b),
        !encodes_nan(b) && encodes_infinity(a) && sign_field(a) == 0 ==> (greater(a, b) <==> !(
        encodes_infinity(b) && sign_field(b) == 0)),
        !encodes_nan(a) && encodes_infinity(b) && sign_field(b) == 1 ==> (greater(a, b) <==> !(
        encodes_infinity(a) && sign_field(a) == 1)),
        encodes_infinity(b) && sign_field(b) == 0 ==> !greater(a, b),
        encodes_infinity(a) && sign_field(a) == 1 ==> !greater(a, b),
{
    lemma_pattern_classes(a);
    lemma_pattern_classes(b);
    lemma_fields(a);
    lemma_fields(b);
}

proof fn lemma_constants()
    ensures
        encodes_finite(ZERO_BITS),
        scaled_value(ZERO_BITS) == 0,
        encodes_finite(ONE_BITS),
        scaled_value(ONE_BITS) == scaled_one(),
{
    lemma_fields(ZERO_BITS);
    lemma_fields(ONE_BITS);
    assert(exponent_field(ONE_BITS) == 127);
    assert(fraction_field(ONE_BITS) == 0);
    assert(sign_field(ONE_BITS) == 0);
    lemma2_to64();
    lemma_pow2_adds(23, 126);
}

/// A likelihood is accepted exactly when it is a finite number that is not
/// negative (so every finite positive likelihood, and both zeros, are accepted).
pub proof fn lemma_likelihood_ok_means(b: u32)
    ensures
        likelihood_ok(b) <==> encodes_finite(b) && scaled_value(b) >= 0,
{
    lemma_constants();
    lemma_pattern_classes(b);
    if encodes_finite(b) {
        lemma_greater_is_numeric_order(ZERO_BITS, b);
    }
}

/// An effective-sample-size threshold is accepted exactly when it is a number in
/// `[0, 1]`.
pub proof fn lemma_threshold_ok_means(b: u32)
    ensures
        threshold_ok(b) <==> encodes_finite(b) && 0 <= scaled_value(b) <= scaled_one(),
{
    lemma_constants();
    lemma_pattern_classes(b);
    if encodes_finite(b) {
        lemma_greater_is_numeric_order(ZERO_BITS, b);
        lemma_greater_is_numeric_order(b, ONE_BITS);
    } else {
        lemma_greater_at_the_edges(b, ONE_BITS);
        lemma_greater_at_the_edges(ZERO_BITS, b);
        lemma_fields(b);
    }
}

/// With finite inputs, a step resamples exactly when the threshold is `1.0` or the
/// effective sample size is below the scaled threshold.
pub proof fn lemma_resample_due_means(ess: u32, scaled_threshold: u32, threshold: u32)
    requires
        encodes_finite(ess),
        encodes_finite(scaled_threshold),
        encodes_finite(threshold),
    ensures
        resample_due(ess, scaled_threshold, threshold) <==> scaled_value(threshold) == scaled_one()
            || scaled_value(scaled_threshold) > scaled_value(ess),
{
    lemma_constants();
    lemma_greater_is_numeric_order(threshold, ONE_BITS);
    lemma_greater_is_numeric_order(scaled_threshold, ess);
}

} // verus!
