use linreg::dataset::DataSet;
use linreg::error::DataSetError;
use linreg::normalize::{Normalization, Scheme};

fn fields(values: &[f64]) -> Vec<Option<u64>> {
    values.iter().map(|v| Some(v.to_bits())).collect()
}

fn build(x: &[f64], y: &[f64]) -> Result<DataSet, DataSetError> {
    DataSet::new("x".to_string(), "y".to_string(), &fields(x), &fields(y), Scheme::CombinedMaxAbs)
}

fn build_affine(x: &[f64], y: &[f64]) -> Result<DataSet, DataSetError> {
    DataSet::new("x".to_string(), "y".to_string(), &fields(x), &fields(y), Scheme::CombinedAffine)
}

#[test]
fn new_keeps_names_samples_and_scale() {
    let d = DataSet::new(
        "km".to_string(),
        "price".to_string(),
        &fields(&[1.0, 2.0, 3.0]),
        &fields(&[2.0, -4.0, 6.0]),
        Scheme::CombinedMaxAbs,
    )
    .unwrap();
    assert_eq!(d.x_name(), "km");
    assert_eq!(d.y_name(), "price");
    assert_eq!(d.len(), 3);
    assert_eq!(d.x_or(), &vec![1.0f64.to_bits(), 2.0f64.to_bits(), 3.0f64.to_bits()]);
    assert_eq!(d.y_or(), &vec![2.0f64.to_bits(), (-4.0f64).to_bits(), 6.0f64.to_bits()]);
    assert_eq!(d.normalization(), Normalization::CombinedMaxAbs { scale: 6.0f64.to_bits() });
    assert_eq!(d.normalization().intercept_scale(), Some(6.0f64.to_bits()));
}

#[test]
fn new_fixes_the_range_of_the_affine_scheme() {
    let d = build_affine(&[1.0, 2.0, 3.0], &[2.0, -4.0, 6.0]).unwrap();
    assert_eq!(
        d.normalization(),
        Normalization::CombinedAffine { lo: (-4.0f64).to_bits(), hi: 6.0f64.to_bits() }
    );
    assert_eq!(d.normalization().intercept_scale(), None);
    assert_eq!(d.x_or(), &vec![1.0f64.to_bits(), 2.0f64.to_bits(), 3.0f64.to_bits()]);
}

#[test]
fn new_refuses_equal_samples_under_the_affine_scheme() {
    assert_eq!(build_affine(&[2.0, 2.0], &[2.0, 2.0]).err(), Some(DataSetError::DegenerateRangeError));
    assert!(build(&[2.0, 2.0], &[2.0, 2.0]).is_ok());
    assert!(build_affine(&[0.0, 0.0], &[0.0, 1.0]).is_ok());
}

#[test]
fn new_refuses_a_field_that_is_no_number() {
    let x = vec![Some(1.0f64.to_bits()), None];
    let y = fields(&[1.0, 2.0]);
    assert_eq!(
        DataSet::new("x".to_string(), "y".to_string(), &x, &y, Scheme::CombinedMaxAbs).err(),
        Some(DataSetError::NonNumericValue)
    );
    assert_eq!(
        DataSet::new("x".to_string(), "y".to_string(), &y, &x, Scheme::CombinedAffine).err(),
        Some(DataSetError::NonNumericValue)
    );
}

#[test]
fn new_refuses_values_that_are_not_finite() {
    assert_eq!(build(&[1.0, f64::INFINITY], &[1.0, 2.0]).err(), Some(DataSetError::NonNumericValue));
    assert_eq!(build(&[1.0, 2.0], &[f64::NEG_INFINITY, 2.0]).err(), Some(DataSetError::NonNumericValue));
    assert_eq!(build(&[f64::NAN], &[2.0]).err(), Some(DataSetError::NonNumericValue));
}

#[test]
fn new_refuses_no_rows() {
    assert_eq!(build(&[], &[]).err(), Some(DataSetError::EmptyDatasetError));
}

#[test]
fn new_refuses_columns_of_unequal_length() {
    assert_eq!(build(&[1.0, 2.0], &[1.0]).err(), Some(DataSetError::EmptyDatasetError));
}

#[test]
fn new_refuses_samples_that_are_all_zero() {
    assert_eq!(build(&[0.0, 0.0], &[-0.0, 0.0]).err(), Some(DataSetError::DegenerateRangeError));
}

#[test]
fn non_numeric_is_reported_before_the_shape() {
    let x = vec![None];
    let y = vec![];
    assert_eq!(
        DataSet::new("x".to_string(), "y".to_string(), &x, &y, Scheme::CombinedMaxAbs).err(),
        Some(DataSetError::NonNumericValue)
    );
}

#[test]
fn ranges_of_each_series() {
    let d = build(&[3.0, -1.0, 2.0], &[10.0, 30.0, 20.0]).unwrap();
    assert_eq!(d.x_range(), ((-1.0f64).to_bits(), 3.0f64.to_bits()));
    assert_eq!(d.y_range(), (10.0f64.to_bits(), 30.0f64.to_bits()));
}

#[test]
fn title_names_the_second_axis_first() {
    let d = DataSet::new(
        "km".to_string(),
        "price".to_string(),
        &fields(&[1.0]),
        &fields(&[2.0]),
        Scheme::CombinedMaxAbs,
    )
    .unwrap();
    assert_eq!(d.title(), "price vs km");
}
