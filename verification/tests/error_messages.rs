use linreg::error::DataSetError;

#[test]
fn invalid_column_count_message() {
    assert_eq!(
        DataSetError::InvalidColumnCount.message(),
        "Each record must have exactly two columns"
    );
}

#[test]
fn non_numeric_value_message() {
    assert_eq!(
        DataSetError::NonNumericValue.message(),
        "Each field must contain a numeric value"
    );
}

#[test]
fn degenerate_range_message() {
    assert_eq!(
        DataSetError::DegenerateRangeError.message(),
        "The values must span a non-zero range"
    );
}

#[test]
fn empty_dataset_message() {
    assert_eq!(
        DataSetError::EmptyDatasetError.message(),
        "The data set must contain at least one record"
    );
}

#[test]
fn errors_compare_by_variant() {
    assert_eq!(DataSetError::NonNumericValue, DataSetError::NonNumericValue);
    assert_ne!(DataSetError::NonNumericValue, DataSetError::InvalidColumnCount);
}
