use linreg::binary64::less_than;
use linreg::error::DataSetError;
use linreg::normalize::{combined_range, max_abs_scale, normalization, value_range, Normalization, Scheme};

fn bits(values: &[f64]) -> Vec<u64> {
    values.iter().map(|v| v.to_bits()).collect()
}

#[test]
fn max_abs_scale_of_a_linear_sample() {
    let x = bits(&[1.0, 2.0, 3.0]);
    let y = bits(&[2.0, 4.0, 6.0]);
    assert_eq!(max_abs_scale(&x, &y), Ok(6.0f64.to_bits()));
}

#[test]
fn max_abs_scale_takes_the_absolute_value() {
    let x = bits(&[-7.5, 1.0]);
    let y = bits(&[2.0, 3.0]);
    assert_eq!(max_abs_scale(&x, &y), Ok(7.5f64.to_bits()));
    let x = bits(&[1.0, -2.0]);
    let y = bits(&[-9.0, 3.0]);
    assert_eq!(max_abs_scale(&x, &y), Ok(9.0f64.to_bits()));
}

#[test]
fn max_abs_scale_is_found_in_either_series() {
    assert_eq!(max_abs_scale(&bits(&[5.0]), &bits(&[1.0])), Ok(5.0f64.to_bits()));
    assert_eq!(max_abs_scale(&bits(&[1.0]), &bits(&[5.0])), Ok(5.0f64.to_bits()));
    assert_eq!(max_abs_scale(&bits(&[0.0]), &bits(&[-5e-324])), Ok(5e-324f64.to_bits()));
}

#[test]
fn max_abs_scale_of_zeros_is_degenerate() {
    let x = bits(&[0.0, -0.0]);
    let y = bits(&[-0.0, 0.0]);
    assert_eq!(max_abs_scale(&x, &y), Err(DataSetError::DegenerateRangeError));
}

#[test]
fn max_abs_scale_of_nothing_is_empty() {
    assert_eq!(max_abs_scale(&vec![], &vec![]), Err(DataSetError::EmptyDatasetError));
}

#[test]
fn max_abs_scale_of_unequal_lengths_is_empty() {
    let x = bits(&[1.0, 2.0]);
    let y = bits(&[1.0]);
    assert_eq!(max_abs_scale(&x, &y), Err(DataSetError::EmptyDatasetError));
    assert_eq!(max_abs_scale(&y, &x), Err(DataSetError::EmptyDatasetError));
}

#[test]
fn scaled_samples_lie_in_the_unit_interval() {
    let xs = [1.0, -2.5, 3.0, 1e-310, -1e300];
    let ys = [2.0, 4.0, -6.0, 7e299, 0.0];
    let scale = f64::from_bits(max_abs_scale(&bits(&xs), &bits(&ys)).unwrap());
    assert_eq!(scale, 1e300);
    for v in xs.iter().chain(ys.iter()) {
        let normalized = v / scale;
        assert!((-1.0..=1.0).contains(&normalized));
        assert!(!less_than(scale.to_bits(), v.abs().to_bits()));
    }
}

#[test]
fn intercept_round_trips_through_the_scale() {
    let scale = f64::from_bits(max_abs_scale(&bits(&[1.0, 2.0, 3.0]), &bits(&[2.0, 4.0, 6.0])).unwrap());
    for b in [0.0, 0.25, -0.75, 1e-3] {
        let denormalized = b * scale;
        assert!((denormalized / scale - b).abs() <= 1e-12);
    }
}

#[test]
fn value_range_of_a_series() {
    let v = bits(&[3.0, -1.5, 8.0, 0.0]);
    assert_eq!(value_range(&v), Some(((-1.5f64).to_bits(), 8.0f64.to_bits())));
}

#[test]
fn value_range_of_one_value() {
    let v = bits(&[4.0]);
    assert_eq!(value_range(&v), Some((4.0f64.to_bits(), 4.0f64.to_bits())));
}

#[test]
fn value_range_of_nothing() {
    assert_eq!(value_range(&vec![]), None);
}

#[test]
fn value_range_orders_negative_numbers() {
    let v = bits(&[-1.0, -3.0, -2.0]);
    assert_eq!(value_range(&v), Some(((-3.0f64).to_bits(), (-1.0f64).to_bits())));
}

#[test]
fn combined_range_spans_both_series() {
    let x = bits(&[1.0, 2.0, 3.0]);
    let y = bits(&[2.0, 4.0, 6.0]);
    assert_eq!(combined_range(&x, &y), Ok((1.0f64.to_bits(), 6.0f64.to_bits())));
    let x = bits(&[1.0, 20.0]);
    let y = bits(&[-4.0, 6.0]);
    assert_eq!(combined_range(&x, &y), Ok(((-4.0f64).to_bits(), 20.0f64.to_bits())));
}

#[test]
fn combined_range_of_equal_values_is_degenerate() {
    let x = bits(&[2.0, 2.0]);
    let y = bits(&[2.0, 2.0]);
    assert_eq!(combined_range(&x, &y), Err(DataSetError::DegenerateRangeError));
    let zeros = bits(&[0.0]);
    let negative_zeros = bits(&[-0.0]);
    assert_eq!(combined_range(&zeros, &negative_zeros), Err(DataSetError::DegenerateRangeError));
}

#[test]
fn combined_range_of_nothing_is_empty() {
    assert_eq!(combined_range(&vec![], &vec![]), Err(DataSetError::EmptyDatasetError));
    assert_eq!(combined_range(&bits(&[1.0]), &vec![]), Err(DataSetError::EmptyDatasetError));
}

#[test]
fn affine_samples_lie_in_the_unit_interval() {
    let xs = [1.0, 2.0, 3.0];
    let ys = [-2.0, 4.0, 6.0];
    let (lo, hi) = combined_range(&bits(&xs), &bits(&ys)).unwrap();
    let (lo, hi) = (f64::from_bits(lo), f64::from_bits(hi));
    assert_eq!((lo, hi), (-2.0, 6.0));
    for v in xs.iter().chain(ys.iter()) {
        let normalized = -1.0 + 2.0 * (v - lo) / (hi - lo);
        assert!((-1.0..=1.0).contains(&normalized));
    }
    assert_eq!(-1.0 + 2.0 * (3.0 - lo) / (hi - lo), 0.25);
}

#[test]
fn normalization_follows_the_scheme() {
    let x = bits(&[1.0, 2.0, 3.0]);
    let y = bits(&[2.0, -4.0, 6.0]);
    assert_eq!(
        normalization(Scheme::CombinedMaxAbs, &x, &y),
        Ok(Normalization::CombinedMaxAbs { scale: 6.0f64.to_bits() })
    );
    assert_eq!(
        normalization(Scheme::CombinedAffine, &x, &y),
        Ok(Normalization::CombinedAffine { lo: (-4.0f64).to_bits(), hi: 6.0f64.to_bits() })
    );
}

#[test]
fn normalization_reports_what_each_scheme_cannot_use() {
    let twos = bits(&[2.0, 2.0]);
    assert_eq!(
        normalization(Scheme::CombinedAffine, &twos, &twos),
        Err(DataSetError::DegenerateRangeError)
    );
    assert_eq!(
        normalization(Scheme::CombinedMaxAbs, &twos, &twos),
        Ok(Normalization::CombinedMaxAbs { scale: 2.0f64.to_bits() })
    );
    let zeros = bits(&[0.0, 0.0]);
    assert_eq!(
        normalization(Scheme::CombinedMaxAbs, &zeros, &zeros),
        Err(DataSetError::DegenerateRangeError)
    );
    assert_eq!(
        normalization(Scheme::CombinedAffine, &vec![], &vec![]),
        Err(DataSetError::EmptyDatasetError)
    );
    assert_eq!(
        normalization(Scheme::CombinedMaxAbs, &twos, &vec![]),
        Err(DataSetError::EmptyDatasetError)
    );
}

#[test]
fn only_the_scaling_scheme_rescales_the_intercept() {
    assert_eq!(Normalization::CombinedMaxAbs { scale: 6.0f64.to_bits() }.intercept_scale(), Some(6.0f64.to_bits()));
    assert_eq!(Normalization::CombinedAffine { lo: 0, hi: 6.0f64.to_bits() }.intercept_scale(), None);
}
