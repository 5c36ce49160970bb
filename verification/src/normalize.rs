//! Choosing how two paired series are rescaled before training.
//!
//! Both schemes take their constants jointly from the two series, so one
//! factor relates all values: the largest absolute value, or the smallest and
//! the largest value. The series are binary64 bit patterns.

use crate::binary64::{
    abs, abs_value, lemma_abs_value_nonnegative, lemma_magnitude_orders, lemma_zero_magnitude,
    magnitude, precedes, value, SIGN_BIT,
};
use crate::error::DataSetError;
use vstd::prelude::*;

verus! {

/// Whether two series can be paired: equal in length and not empty.
pub open spec fn paired(x: Seq<u64>, y: Seq<u64>) -> bool {
    x.len() == y.len() && x.len() >= 1
}

/// Whether `bits` is an element of `s`.
pub open spec fn occurs(s: Seq<u64>, bits: u64) -> bool {
    exists|i: int| 0 <= i < s.len() && s[i] == bits
}

/// Whether every value of `s` lies between the values of `lo` and `hi`.
pub open spec fn within(s: Seq<u64>, lo: u64, hi: u64) -> bool {
    forall|i: int| 0 <= i < s.len() ==> value(lo) <= value(#[trigger] s[i]) <= value(hi)
}

/// Whether no value of `s` exceeds `scale` in absolute value.
pub open spec fn bounded_by(s: Seq<u64>, scale: u64) -> bool {
    forall|i: int| 0 <= i < s.len() ==> abs_value(#[trigger] s[i]) <= abs_value(scale)
}

/// Whether every value of `s` equals the value of `bits`.
pub open spec fn constant(s: Seq<u64>, bits: u64) -> bool {
    forall|i: int| 0 <= i < s.len() ==> value(#[trigger] s[i]) == value(bits)
}

/// Whether `lo` and `hi` are the smallest and the largest value over both
/// series, and differ.
pub open spec fn is_combined_range(x: Seq<u64>, y: Seq<u64>, lo: u64, hi: u64) -> bool {
    &&& paired(x, y)
    &&& occurs(x, lo) || occurs(y, lo)
    &&& occurs(x, hi) || occurs(y, hi)
    &&& within(x, lo, hi) && within(y, lo, hi)
    &&& value(lo) < value(hi)
}

/// Whether `scale` is the largest absolute value over both series, and is
/// not zero.
pub open spec fn is_max_abs_scale(x: Seq<u64>, y: Seq<u64>, scale: u64) -> bool {
    &&& paired(x, y)
    &&& exists|i: int| 0 <= i < x.len() && (scale == magnitude(x[i]) || scale == magnitude(y[i]))
    &&& bounded_by(x, scale) && bounded_by(y, scale)
    &&& value(scale) > 0
}

/// The ways of rescaling two series jointly.
#[derive(Debug, Clone, Copy, PartialEq, Eq, Structural)]
pub enum Scheme {
    /// `v' = -1 + 2 * (v - lo) / (hi - lo)`, with the smallest and the
    /// largest value of both series.
    CombinedAffine,
    /// `v' = v / scale`, with the largest absolute value of both series.
    CombinedMaxAbs,
}

/// A scheme together with the constants that it takes from the data.
#[derive(Debug, Clone, Copy, PartialEq, Eq, Structural)]
pub enum Normalization {
    CombinedAffine { lo: u64, hi: u64 },
    CombinedMaxAbs { scale: u64 },
}

impl Normalization {
    /// The scheme that these constants belong to.
    pub open spec fn scheme(self) -> Scheme {
        match self {
            Normalization::CombinedAffine { .. } => Scheme::CombinedAffine,
            Normalization::CombinedMaxAbs { .. } => Scheme::CombinedMaxAbs,
        }
    }

    /// Whether the constants are those of the two series.
    pub open spec fn fits(self, x: Seq<u64>, y: Seq<u64>) -> bool {
        match self {
            Normalization::CombinedAffine { lo, hi } => is_combined_range(x, y, lo, hi),
            Normalization::CombinedMaxAbs { scale } => is_max_abs_scale(x, y, scale),
        }
    }

    /// The factor that returns a normalized intercept to original units.
    ///
    /// Only the scaling scheme has one: it multiplies both axes by the same
    /// factor, which leaves the slope as it is. Under the affine scheme the
    /// parameters stay in normalized units.
    pub fn intercept_scale(&self) -> (factor: Option<u64>)
        ensures
            factor == match *self {
                Normalization::CombinedAffine { .. } => None::<u64>,
                Normalization::CombinedMaxAbs { scale } => Some(scale),
            },
    {
        match self {
            Normalization::CombinedAffine { .. } => None,
            Normalization::CombinedMaxAbs { scale } => Some(*scale),
        }
    }
}

/// Whether two paired series give the scheme nothing to divide by: all values
/// equal under the affine scheme, all values zero under the scaling scheme.
pub open spec fn degenerate(scheme: Scheme, x: Seq<u64>, y: Seq<u64>) -> bool {
    match scheme {
        Scheme::CombinedAffine => constant(x, x[0]) && constant(y, x[0]),
        Scheme::CombinedMaxAbs => constant(x, 0) && constant(y, 0),
    }
}

/// The smallest and the largest value of a series, each as an element of it.
///
/// `None` for an empty series.
pub fn value_range(v: &Vec<u64>) -> (r: Option<(u64, u64)>)
    ensures
        match r {
            Some((lo, hi)) => occurs(v@, lo) && occurs(v@, hi) && within(v@, lo, hi),
            None => v.len() == 0,
        },
{
    if v.len() == 0 {
        return None;
    }
    let mut lo: u64 = v[0];
    let mut hi: u64 = v[0];
    let ghost mut lo_at: int = 0;
    let ghost mut hi_at: int = 0;
    let mut i: usize = 1;
    while i < v.len()
        invariant
            1 <= i <= v.len(),
            0 <= lo_at < i && v[lo_at] == lo,
            0 <= hi_at < i && v[hi_at] == hi,
            forall|k: int| 0 <= k < i ==> value(lo) <= value(#[trigger] v[k]) <= value(hi),
        decreases v.len() - i,
    {
        if precedes(v[i], lo) {
            lo = v[i];
            proof {
                lo_at = i as int;
            }
        }
        if precedes(hi, v[i]) {
            hi = v[i];
            proof {
                hi_at = i as int;
            }
        }
        i += 1;
    }
    Some((lo, hi))
}

/// The smallest and the largest value over both series, for the affine
/// scheme `v' = -1 + 2 * (v - lo) / (hi - lo)`.
///
/// Fails with `EmptyDatasetError` when the series cannot be paired, and with
/// `DegenerateRangeError` when all values are equal.
pub fn combined_range(x: &Vec<u64>, y: &Vec<u64>) -> (r: Result<(u64, u64), DataSetError>)
    ensures
        match r {
            Ok((lo, hi)) => is_combined_range(x@, y@, lo, hi),
            Err(e) => if paired(x@, y@) {
                e == DataSetError::DegenerateRangeError && degenerate(Scheme::CombinedAffine, x@, y@)
            } else {
                e == DataSetError::EmptyDatasetError
            },
        },
{
    if x.len() != y.len() {
        return Err(DataSetError::EmptyDatasetError);
    }
    match (value_range(x), value_range(y)) {
        (Some((x_lo, x_hi)), Some((y_lo, y_hi))) => {
            let lo: u64 = if precedes(y_lo, x_lo) { y_lo } else { x_lo };
            let hi: u64 = if precedes(x_hi, y_hi) { y_hi } else { x_hi };
            if precedes(lo, hi) {
                Ok((lo, hi))
            } else {
                Err(DataSetError::DegenerateRangeError)
            }
        },
        _ => Err(DataSetError::EmptyDatasetError),
    }
}

/// The largest absolute value over both series, for the scaling scheme
/// `v' = v / scale`.
///
/// Fails with `EmptyDatasetError` when the series cannot be paired, and with
/// `DegenerateRangeError` when every value is zero.
pub fn max_abs_scale(x: &Vec<u64>, y: &Vec<u64>) -> (r: Result<u64, DataSetError>)
    ensures
        match r {
            Ok(scale) => is_max_abs_scale(x@, y@, scale),
            Err(e) => if paired(x@, y@) {
                e == DataSetError::DegenerateRangeError && degenerate(Scheme::CombinedMaxAbs, x@, y@)
            } else {
                e == DataSetError::EmptyDatasetError
            },
        },
{
    if x.len() == 0 || x.len() != y.len() {
        return Err(DataSetError::EmptyDatasetError);
    }
    let mut scale: u64 = 0;
    let ghost mut at: int = 0;
    let mut i: usize = 0;
    assert(magnitude(0) == 0) by (bit_vector);
    while i < x.len()
        invariant
            i <= x.len() == y.len(),
            magnitude(scale) == scale,
            scale != 0 ==> 0 <= at < i && (scale == magnitude(x[at]) || scale == magnitude(y[at])),
            forall|k: int| 0 <= k < i ==> magnitude(#[trigger] x[k]) <= scale,
            forall|k: int| 0 <= k < i ==> magnitude(#[trigger] y[k]) <= scale,
        decreases x.len() - i,
    {
        let mx: u64 = abs(x[i]);
        let my: u64 = abs(y[i]);
        if mx > scale {
            scale = mx;
            proof {
                at = i as int;
            }
        }
        if my > scale {
            scale = my;
            proof {
                at = i as int;
            }
        }
        i += 1;
    }
    proof {
        lemma_zero_magnitude(scale);
        assert(value(scale) == abs_value(scale)) by {
            assert(magnitude(scale) == scale ==> scale & SIGN_BIT == 0)
                by (bit_vector);
        }
        assert forall|k: int| 0 <= k < x.len() implies abs_value(#[trigger] x[k]) <= abs_value(
            scale,
        ) by {
            lemma_magnitude_orders(x[k], scale);
        }
        assert forall|k: int| 0 <= k < y.len() implies abs_value(#[trigger] y[k]) <= abs_value(
            scale,
        ) by {
            lemma_magnitude_orders(y[k], scale);
        }
        if scale == 0 {
            assert forall|k: int| 0 <= k < x.len() implies value(#[trigger] x[k]) == 0 by {
                lemma_zero_magnitude(x[k]);
            }
            assert forall|k: int| 0 <= k < y.len() implies value(#[trigger] y[k]) == 0 by {
                lemma_zero_magnitude(y[k]);
            }
        }
    }
    if scale == 0 {
        Err(DataSetError::DegenerateRangeError)
    } else {
        Ok(scale)
    }
}

/// The constants of `scheme` for the two series.
///
/// Fails with `EmptyDatasetError` when the series cannot be paired, and with
/// `DegenerateRangeError` when they give the scheme nothing to divide by.
pub fn normalization(scheme: Scheme, x: &Vec<u64>, y: &Vec<u64>) -> (r: Result<
    Normalization,
    DataSetError,
>)
    ensures
        match r {
            Ok(normalization) => normalization.scheme() == scheme && normalization.fits(x@, y@),
            Err(e) => if paired(x@, y@) {
                e == DataSetError::DegenerateRangeError && degenerate(scheme, x@, y@)
            } else {
                e == DataSetError::EmptyDatasetError
            },
        },
{
    match scheme {
        Scheme::CombinedAffine => match combined_range(x, y) {
            Ok((lo, hi)) => Ok(Normalization::CombinedAffine { lo, hi }),
            Err(e) => Err(e),
        },
        Scheme::CombinedMaxAbs => match max_abs_scale(x, y) {
            Ok(scale) => Ok(Normalization::CombinedMaxAbs { scale }),
            Err(e) => Err(e),
        },
    }
}

/// A scale exists only where some sample is not zero, and a range only
/// where two samples differ.
pub proof fn lemma_fit_is_not_degenerate(normalization: Normalization, x: Seq<u64>, y: Seq<u64>)
    requires
        normalization.fits(x, y),
    ensures
        !degenerate(normalization.scheme(), x, y),
{
    match normalization {
        Normalization::CombinedAffine { lo, hi } => {
            if degenerate(Scheme::CombinedAffine, x, y) {
                assert(occurs(x, lo) || occurs(y, lo));
                assert(occurs(x, hi) || occurs(y, hi));
                assert(value(lo) == value(x[0]));
                assert(value(hi) == value(x[0]));
            }
        },
        Normalization::CombinedMaxAbs { scale } => {
            lemma_not_all_zero(x, y, scale);
        },
    }
}

/// The constants of a scheme are determined by the data: two fits of one
/// scheme to the same series agree, up to the sign of a zero bound.
pub proof fn lemma_fit_is_unique(a: Normalization, b: Normalization, x: Seq<u64>, y: Seq<u64>)
    requires
        a.fits(x, y),
        b.fits(x, y),
        a.scheme() == b.scheme(),
    ensures
        match (a, b) {
            (
                Normalization::CombinedAffine { lo: a_lo, hi: a_hi },
                Normalization::CombinedAffine { lo: b_lo, hi: b_hi },
            ) => value(a_lo) == value(b_lo) && value(a_hi) == value(b_hi),
            (
                Normalization::CombinedMaxAbs { scale: a_scale },
                Normalization::CombinedMaxAbs { scale: b_scale },
            ) => a_scale == b_scale,
            _ => false,
        },
{
    match (a, b) {
        (
            Normalization::CombinedAffine { lo: a_lo, hi: a_hi },
            Normalization::CombinedAffine { lo: b_lo, hi: b_hi },
        ) => {
            lemma_bound_is_within(x, y, a_lo, b_lo, b_hi);
            lemma_bound_is_within(x, y, a_hi, b_lo, b_hi);
            lemma_bound_is_within(x, y, b_lo, a_lo, a_hi);
            lemma_bound_is_within(x, y, b_hi, a_lo, a_hi);
        },
        (
            Normalization::CombinedMaxAbs { scale: a_scale },
            Normalization::CombinedMaxAbs { scale: b_scale },
        ) => {
            lemma_scale_is_bounded(x, y, a_scale, b_scale);
            lemma_scale_is_bounded(x, y, b_scale, a_scale);
            lemma_magnitude_orders(a_scale, b_scale);
            lemma_scale_is_a_magnitude(x, y, a_scale);
            lemma_scale_is_a_magnitude(x, y, b_scale);
        },
        _ => {},
    }
}

/// A value that occurs in the series lies within any bounds of them.
proof fn lemma_bound_is_within(x: Seq<u64>, y: Seq<u64>, bits: u64, lo: u64, hi: u64)
    requires
        occurs(x, bits) || occurs(y, bits),
        within(x, lo, hi),
        within(y, lo, hi),
    ensures
        value(lo) <= value(bits) <= value(hi),
{
    if occurs(x, bits) {
        let i = choose|i: int| 0 <= i < x.len() && x[i] == bits;
        assert(value(lo) <= value(x[i]) <= value(hi));
    } else {
        let i = choose|i: int| 0 <= i < y.len() && y[i] == bits;
        assert(value(lo) <= value(y[i]) <= value(hi));
    }
}

/// A scale is the pattern of an absolute value.
proof fn lemma_scale_is_a_magnitude(x: Seq<u64>, y: Seq<u64>, scale: u64)
    requires
        is_max_abs_scale(x, y, scale),
    ensures
        magnitude(scale) == scale,
{
    let i = choose|i: int|
        0 <= i < x.len() && (scale == magnitude(x[i]) || scale == magnitude(y[i]));
    let xi = x[i];
    let yi = y[i];
    assert(magnitude(magnitude(xi)) == magnitude(xi)) by (bit_vector);
    assert(magnitude(magnitude(yi)) == magnitude(yi)) by (bit_vector);
}

/// One scale of the series does not exceed another.
proof fn lemma_scale_is_bounded(x: Seq<u64>, y: Seq<u64>, scale: u64, bound: u64)
    requires
        is_max_abs_scale(x, y, scale),
        bounded_by(x, bound),
        bounded_by(y, bound),
    ensures
        abs_value(scale) <= abs_value(bound),
{
    let i = choose|i: int|
        0 <= i < x.len() && (scale == magnitude(x[i]) || scale == magnitude(y[i]));
    let xi = x[i];
    let yi = y[i];
    assert(magnitude(magnitude(xi)) == magnitude(xi)) by (bit_vector);
    assert(magnitude(magnitude(yi)) == magnitude(yi)) by (bit_vector);
    lemma_magnitude_orders(magnitude(xi), xi);
    lemma_magnitude_orders(magnitude(yi), yi);
    assert(abs_value(x[i]) <= abs_value(bound));
    assert(abs_value(y[i]) <= abs_value(bound));
}

/// A scale exists only where some sample is not zero.
proof fn lemma_not_all_zero(x: Seq<u64>, y: Seq<u64>, scale: u64)
    requires
        is_max_abs_scale(x, y, scale),
    ensures
        !(constant(x, 0) && constant(y, 0)),
{
    let i = choose|i: int|
        0 <= i < x.len() && (scale == magnitude(x[i]) || scale == magnitude(y[i]));
    lemma_zero_magnitude(x[i]);
    lemma_zero_magnitude(y[i]);
    lemma_zero_magnitude(scale);
    assert(value(0) == 0) by {
        lemma_zero_magnitude(0);
        assert(magnitude(0) == 0) by (bit_vector);
    }
    if constant(x, 0) && constant(y, 0) {
        assert(value(x[i]) == 0 && value(y[i]) == 0);
        assert(scale == 0);
    }
}

/// Under the scaling scheme every sample, divided by the scale, lies in
/// [-1, 1]: the scale is positive and no sample exceeds it in absolute value.
pub proof fn lemma_scaled_within_unit_interval(x: Seq<u64>, y: Seq<u64>, scale: u64, i: int)
    requires
        is_max_abs_scale(x, y, scale),
        0 <= i < x.len(),
    ensures
        value(scale) > 0,
        -value(scale) <= value(x[i]) <= value(scale),
        -value(scale) <= value(y[i]) <= value(scale),
{
    lemma_abs_value_nonnegative(scale);
    lemma_abs_value_nonnegative(x[i]);
    lemma_abs_value_nonnegative(y[i]);
    assert(abs_value(x[i]) <= abs_value(scale));
    assert(abs_value(y[i]) <= abs_value(scale));
}

/// Under the affine scheme every sample maps into [-1, 1]: its distance from
/// the smallest value is between zero and the width of the range, and the
/// width is positive.
pub proof fn lemma_affine_within_unit_interval(x: Seq<u64>, y: Seq<u64>, lo: u64, hi: u64, i: int)
    requires
        is_combined_range(x, y, lo, hi),
        0 <= i < x.len(),
    ensures
        value(hi) - value(lo) > 0,
        0 <= value(x[i]) - value(lo) <= value(hi) - value(lo),
        0 <= value(y[i]) - value(lo) <= value(hi) - value(lo),
{
    assert(value(lo) <= value(x[i]) <= value(hi));
    assert(value(lo) <= value(y[i]) <= value(hi));
}

} // verus!
