use vstd::prelude::*;

verus! {

/// Why a data set cannot be used for training.
#[derive(Debug, Clone, Copy, PartialEq, Eq, Structural)]
pub enum DataSetError {
    /// A record does not have exactly two fields.
    InvalidColumnCount,
    /// A field does not hold a finite number.
    NonNumericValue,
    /// Every value is zero, or all values are equal, so no scale exists.
    DegenerateRangeError,
    /// There is no sample, or the two series differ in length.
    EmptyDatasetError,
}

impl DataSetError {
    /// The text shown to the user for this error.
    pub open spec fn message_text(self) -> Seq<char> {
        match self {
            DataSetError::InvalidColumnCount => "Each record must have exactly two columns"@,
            DataSetError::NonNumericValue => "Each field must contain a numeric value"@,
            DataSetError::DegenerateRangeError => "The values must span a non-zero range"@,
            DataSetError::EmptyDatasetError => "The data set must contain at least one record"@,
        }
    }

    /// Renders the error as text.
    pub fn message(&self) -> (text: String)
        ensures
            text@ == self.message_text(),
    {
        match self {
            DataSetError::InvalidColumnCount => "Each record must have exactly two columns".to_owned(),
            DataSetError::NonNumericValue => "Each field must contain a numeric value".to_owned(),
            DataSetError::DegenerateRangeError => "The values must span a non-zero range".to_owned(),
            DataSetError::EmptyDatasetError => "The data set must contain at least one record".to_owned(),
        }
    }
}

} // verus!
