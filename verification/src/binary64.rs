//! IEEE 754 binary64 numbers held by their bit patterns.
//!
//! A pattern is one sign bit, eleven exponent bits and fifty-two fraction
//! bits. Every finite number is a whole multiple of 2^-1074, so its value is
//! stated here exactly, as an integer count of such units.

use vstd::arithmetic::power2::{lemma_pow2_pos, lemma_pow2_strictly_increases, lemma_pow2_unfold, pow2};
use vstd::prelude::*;

verus! {

/// The sign bit.
pub const SIGN_BIT: u64 = 0x8000_0000_0000_0000;

/// Every bit but the sign bit.
pub const MAGNITUDE_MASK: u64 = 0x7fff_ffff_ffff_ffff;

/// The pattern of positive infinity; larger magnitudes are NaN.
pub const INFINITY: u64 = 0x7ff0_0000_0000_0000;

/// Two to the power 52: the weight of the lowest exponent bit, and the
/// implicit leading bit of a normal number's significand.
pub const HIDDEN_BIT: u64 = 0x0010_0000_0000_0000;

/// The pattern with its sign bit cleared: the pattern of the absolute value.
pub open spec fn magnitude(bits: u64) -> u64 {
    bits & MAGNITUDE_MASK
}

/// Whether the sign bit is set.
pub open spec fn is_negative(bits: u64) -> bool {
    bits & SIGN_BIT != 0
}

/// Whether the pattern is a NaN.
pub open spec fn is_nan(bits: u64) -> bool {
    magnitude(bits) > INFINITY
}

/// Whether the pattern is a number other than an infinity or a NaN.
pub open spec fn is_finite(bits: u64) -> bool {
    magnitude(bits) < INFINITY
}

/// The biased exponent field, from 0 to 2047.
pub open spec fn exponent(bits: u64) -> nat {
    (magnitude(bits) / HIDDEN_BIT) as nat
}

/// The fraction field, below two to the power 52.
pub open spec fn fraction(bits: u64) -> nat {
    (magnitude(bits) % HIDDEN_BIT) as nat
}

/// The absolute value in units of 2^-1074.
///
/// This is the number itself for every finite pattern. Infinities and NaNs
/// carry no value; the formula places them above every finite number.
pub open spec fn abs_value(bits: u64) -> int {
    if exponent(bits) == 0 {
        fraction(bits) as int
    } else {
        (HIDDEN_BIT + fraction(bits)) * pow2((exponent(bits) - 1) as nat)
    }
}

/// The value in units of 2^-1074, with its sign.
pub open spec fn value(bits: u64) -> int {
    if is_negative(bits) {
        -abs_value(bits)
    } else {
        abs_value(bits)
    }
}

/// The comparison `a < b` of two numbers: false when either is a NaN.
pub open spec fn lt(a: u64, b: u64) -> bool {
    !is_nan(a) && !is_nan(b) && value(a) < value(b)
}

/// A larger magnitude pattern is a larger absolute value.
proof fn lemma_abs_value_increases(a: u64, b: u64)
    requires
        magnitude(a) < magnitude(b),
    ensures
        abs_value(a) < abs_value(b),
{
    let ea = exponent(a);
    let eb = exponent(b);
    let fa = fraction(a) as int;
    let fb = fraction(b) as int;
    let h = HIDDEN_BIT as int;
    assert(magnitude(a) == ea * h + fa && magnitude(b) == eb * h + fb);
    if ea == eb {
        if ea != 0 {
            let p = pow2((ea - 1) as nat) as int;
            lemma_pow2_pos((ea - 1) as nat);
            assert((h + fa) * p < (h + fb) * p) by (nonlinear_arith)
                requires
                    fa < fb,
                    p > 0,
            ;
        }
    } else {
        let pa = pow2(ea) as int;
        let pb = pow2((eb - 1) as nat) as int;
        lemma_pow2_pos(ea);
        // abs_value(a) < h * pa
        if ea == 0 {
            assert(fa < h * pa) by (nonlinear_arith)
                requires
                    fa < h,
                    pa >= 1,
                    h > 0,
            ;
        } else {
            let p = pow2((ea - 1) as nat) as int;
            lemma_pow2_unfold(ea);
            lemma_pow2_pos((ea - 1) as nat);
            assert((h + fa) * p < h * pa) by (nonlinear_arith)
                requires
                    fa < h,
                    p > 0,
                    pa == 2 * p,
            ;
        }
        // h * pa <= h * pb <= abs_value(b)
        if ea < eb - 1 {
            lemma_pow2_strictly_increases(ea, (eb - 1) as nat);
        }
        assert(h * pa <= (h + fb) * pb) by (nonlinear_arith)
            requires
                0 < pa <= pb,
                h > 0,
                fb >= 0,
        ;
    }
}

/// Magnitude patterns, compared as integers, order the absolute values.
pub proof fn lemma_magnitude_orders(a: u64, b: u64)
    ensures
        magnitude(a) < magnitude(b) <==> abs_value(a) < abs_value(b),
        magnitude(a) == magnitude(b) <==> abs_value(a) == abs_value(b),
{
    if magnitude(a) < magnitude(b) {
        lemma_abs_value_increases(a, b);
    } else if magnitude(b) < magnitude(a) {
        lemma_abs_value_increases(b, a);
    }
}

/// An absolute value is not negative.
pub proof fn lemma_abs_value_nonnegative(bits: u64)
    ensures
        abs_value(bits) >= 0,
{
    if exponent(bits) != 0 {
        let p = pow2((exponent(bits) - 1) as nat) as int;
        let m = HIDDEN_BIT + fraction(bits);
        lemma_pow2_pos((exponent(bits) - 1) as nat);
        assert(m * p >= 0) by (nonlinear_arith)
            requires
                m >= 0,
                p > 0,
        ;
    }
}

/// Only the two zeros have the value zero.
pub proof fn lemma_zero_magnitude(bits: u64)
    ensures
        magnitude(bits) == 0 <==> value(bits) == 0,
{
    assert(magnitude(0) == 0) by (bit_vector);
    assert(abs_value(0) == 0);
    lemma_magnitude_orders(bits, 0);
}

/// Two patterns of one value are the same pattern, or the two zeros.
pub proof fn lemma_value_identifies(a: u64, b: u64)
    requires
        value(a) == value(b),
    ensures
        a == b || (value(a) == 0 && value(b) == 0),
{
    lemma_abs_value_nonnegative(a);
    lemma_abs_value_nonnegative(b);
    lemma_magnitude_orders(a, b);
    lemma_zero_magnitude(a);
    lemma_zero_magnitude(b);
    if value(a) != 0 {
        assert(is_negative(a) == is_negative(b));
        assert(a == b) by (bit_vector)
            requires
                a & MAGNITUDE_MASK == b & MAGNITUDE_MASK,
                (a & SIGN_BIT != 0) == (b & SIGN_BIT != 0),
        ;
    }
}

/// The pattern of the absolute value.
pub fn abs(bits: u64) -> (r: u64)
    ensures
        r == magnitude(bits),
        magnitude(r) == r,
        !is_negative(r),
        abs_value(r) == abs_value(bits),
{
    let r: u64 = bits & MAGNITUDE_MASK;
    assert((bits & MAGNITUDE_MASK) & MAGNITUDE_MASK == bits & MAGNITUDE_MASK) by (bit_vector);
    assert((bits & MAGNITUDE_MASK) & SIGN_BIT == 0) by (bit_vector);
    r
}

/// Whether the pattern is a finite number.
pub fn finite(bits: u64) -> (r: bool)
    ensures
        r == is_finite(bits),
{
    bits & MAGNITUDE_MASK < INFINITY
}

/// Whether the value of `a` is below the value of `b`.
///
/// This orders all patterns by `value`; on numbers it is `a < b`.
pub fn precedes(a: u64, b: u64) -> (r: bool)
    ensures
        r == (value(a) < value(b)),
{
    let ma: u64 = a & MAGNITUDE_MASK;
    let mb: u64 = b & MAGNITUDE_MASK;
    proof {
        lemma_magnitude_orders(a, b);
        lemma_zero_magnitude(a);
        lemma_zero_magnitude(b);
    }
    let a_negative: bool = a & SIGN_BIT != 0;
    let b_negative: bool = b & SIGN_BIT != 0;
    if a_negative {
        if b_negative {
            mb < ma
        } else {
            ma != 0 || mb != 0
        }
    } else {
        if b_negative {
            false
        } else {
            ma < mb
        }
    }
}

/// Whether `a < b` as numbers: false when either is a NaN.
pub fn less_than(a: u64, b: u64) -> (r: bool)
    ensures
        r == lt(a, b),
{
    if a & MAGNITUDE_MASK > INFINITY || b & MAGNITUDE_MASK > INFINITY {
        false
    } else {
        precedes(a, b)
    }
}

} // verus!
