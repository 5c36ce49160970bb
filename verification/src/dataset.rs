//! The data set: two named series of finite samples, paired by index, and
//! the constants that relate them to their normalized form.

use crate::binary64::{finite, is_finite};
use crate::error::DataSetError;
use crate::normalize::{
    degenerate, lemma_fit_is_not_degenerate, normalization, occurs, paired, value_range, within,
    Normalization, Scheme,
};
use crate::report::{chart_title, chart_title_text};
use vstd::prelude::*;

verus! {

/// Whether a parsed field holds a finite number. `None` stands for text that
/// is not a number.
pub open spec fn numeric(field: Option<u64>) -> bool {
    field matches Some(bits) && is_finite(bits)
}

/// Whether every field holds a finite number.
pub open spec fn all_numeric(fields: Seq<Option<u64>>) -> bool {
    forall|i: int| 0 <= i < fields.len() ==> numeric(#[trigger] fields[i])
}

/// The numbers that the fields hold.
pub open spec fn values(fields: Seq<Option<u64>>) -> Seq<u64> {
    Seq::new(
        fields.len(),
        |i: int|
            match fields[i] {
                Some(bits) => bits,
                None => 0,
            },
    )
}

/// Why two columns of parsed fields make no data set under a scheme, if they
/// do not.
pub open spec fn rejection(x: Seq<Option<u64>>, y: Seq<Option<u64>>, scheme: Scheme) -> Option<
    DataSetError,
> {
    if !all_numeric(x) || !all_numeric(y) {
        Some(DataSetError::NonNumericValue)
    } else if !paired(values(x), values(y)) {
        Some(DataSetError::EmptyDatasetError)
    } else if degenerate(scheme, values(x), values(y)) {
        Some(DataSetError::DegenerateRangeError)
    } else {
        None
    }
}

/// What a data set holds.
pub struct DataSetView {
    pub x_name: Seq<char>,
    pub y_name: Seq<char>,
    pub x: Seq<u64>,
    pub y: Seq<u64>,
    pub normalization: Normalization,
}

impl DataSetView {
    /// Every sample is finite, the series are paired, and the constants of
    /// the normalization are those of the series.
    pub open spec fn valid(self) -> bool {
        &&& forall|i: int| 0 <= i < self.x.len() ==> is_finite(#[trigger] self.x[i])
        &&& forall|i: int| 0 <= i < self.y.len() ==> is_finite(#[trigger] self.y[i])
        &&& paired(self.x, self.y)
        &&& self.normalization.fits(self.x, self.y)
    }
}

/// Two named series of samples in their original units, with the constants
/// of their normalization.
#[derive(Debug)]
pub struct DataSet {
    x_or: Vec<u64>,
    y_or: Vec<u64>,
    x_name: String,
    y_name: String,
    normalization: Normalization,
}

impl View for DataSet {
    type V = DataSetView;

    closed spec fn view(&self) -> DataSetView {
        DataSetView {
            x_name: self.x_name@,
            y_name: self.y_name@,
            x: self.x_or@,
            y: self.y_or@,
            normalization: self.normalization,
        }
    }
}

/// The numbers of a column, if every field holds a finite one.
fn finite_values(fields: &Vec<Option<u64>>) -> (r: Option<Vec<u64>>)
    ensures
        match r {
            Some(v) => all_numeric(fields@) && v@ == values(fields@),
            None => !all_numeric(fields@),
        },
{
    let mut v: Vec<u64> = Vec::new();
    let mut i: usize = 0;
    while i < fields.len()
        invariant
            i <= fields.len(),
            v.len() == i,
            forall|k: int| 0 <= k < i ==> numeric(#[trigger] fields[k]),
            forall|k: int| 0 <= k < i ==> fields[k] == Some(#[trigger] v[k]),
        decreases fields.len() - i,
    {
        match fields[i] {
            Some(bits) => {
                if !finite(bits) {
                    assert(!numeric(fields[i as int]));
                    return None;
                }
                v.push(bits);
            },
            None => {
                assert(!numeric(fields[i as int]));
                return None;
            },
        }
        i += 1;
    }
    assert(v@ =~= values(fields@));
    Some(v)
}

impl DataSet {
    #[verifier::type_invariant]
    spec fn well_formed(self) -> bool {
        self@.valid()
    }

    /// Builds the data set from the axis names and the parsed fields of the
    /// two columns, and fixes the constants of its normalization.
    ///
    /// Fails with `NonNumericValue` when a field is not a finite number, with
    /// `EmptyDatasetError` when there is no row, and with
    /// `DegenerateRangeError` when the samples give the scheme nothing to
    /// divide by.
    pub fn new(
        x_name: String,
        y_name: String,
        x: &Vec<Option<u64>>,
        y: &Vec<Option<u64>>,
        scheme: Scheme,
    ) -> (r: Result<DataSet, DataSetError>)
        ensures
            match rejection(x@, y@, scheme) {
                Some(e) => r == Err::<DataSet, DataSetError>(e),
                None => {
                    &&& r matches Ok(d)
                    &&& d@.valid()
                    &&& d@.x_name == x_name@
                    &&& d@.y_name == y_name@
                    &&& d@.x == values(x@)
                    &&& d@.y == values(y@)
                    &&& d@.normalization.scheme() == scheme
                },
            },
    {
        let x_or = match finite_values(x) {
            Some(v) => v,
            None => {
                return Err(DataSetError::NonNumericValue);
            },
        };
        let y_or = match finite_values(y) {
            Some(v) => v,
            None => {
                return Err(DataSetError::NonNumericValue);
            },
        };
        match normalization(scheme, &x_or, &y_or) {
            Ok(normalization) => {
                proof {
                    lemma_fit_is_not_degenerate(normalization, x_or@, y_or@);
                }
                Ok(DataSet { x_or, y_or, x_name, y_name, normalization })
            },
            Err(e) => Err(e),
        }
    }

    /// The number of samples, at least one.
    pub fn len(&self) -> (n: usize)
        ensures
            self@.valid(),
            n == self@.x.len(),
            n == self@.y.len(),
            n >= 1,
    {
        proof {
            use_type_invariant(self);
        }
        self.x_or.len()
    }

    /// The name of the horizontal axis.
    pub fn x_name(&self) -> (name: &String)
        ensures
            name@ == self@.x_name,
    {
        &self.x_name
    }

    /// The name of the vertical axis.
    pub fn y_name(&self) -> (name: &String)
        ensures
            name@ == self@.y_name,
    {
        &self.y_name
    }

    /// The first series, in original units.
    pub fn x_or(&self) -> (x: &Vec<u64>)
        ensures
            self@.valid(),
            x@ == self@.x,
    {
        proof {
            use_type_invariant(self);
        }
        &self.x_or
    }

    /// The second series, in original units.
    pub fn y_or(&self) -> (y: &Vec<u64>)
        ensures
            self@.valid(),
            y@ == self@.y,
    {
        proof {
            use_type_invariant(self);
        }
        &self.y_or
    }

    /// The scheme by which the samples are normalized, with its constants.
    pub fn normalization(&self) -> (normalization: Normalization)
        ensures
            self@.valid(),
            normalization == self@.normalization,
    {
        proof {
            use_type_invariant(self);
        }
        self.normalization
    }

    /// The smallest and the largest value of the first series.
    pub fn x_range(&self) -> (r: (u64, u64))
        ensures
            occurs(self@.x, r.0) && occurs(self@.x, r.1) && within(self@.x, r.0, r.1),
    {
        proof {
            use_type_invariant(self);
        }
        value_range(&self.x_or).unwrap()
    }

    /// The smallest and the largest value of the second series.
    pub fn y_range(&self) -> (r: (u64, u64))
        ensures
            occurs(self@.y, r.0) && occurs(self@.y, r.1) && within(self@.y, r.0, r.1),
    {
        proof {
            use_type_invariant(self);
        }
        value_range(&self.y_or).unwrap()
    }

    /// The caption of a chart of the data: the second axis against the first.
    pub fn title(&self) -> (text: String)
        ensures
            text@ == chart_title_text(self@.x_name, self@.y_name),
    {
        chart_title(self.x_name.as_str(), self.y_name.as_str())
    }
}

} // verus!
