//! Reading the sample table: a header record that names the two axes, then
//! one record of two fields for each sample.

use crate::error::DataSetError;
use vstd::prelude::*;

verus! {

/// `csv::Error`: carried through as it is, nothing is read from it.
#[verifier::external_type_specification]
#[verifier::external_body]
pub struct ExCsvError(csv::Error);

/// The records that the `csv` reader finds in `data` when the first record is
/// read as data and records may differ in length: each record is the text of
/// its fields. `None` where the reader reports an error.
pub uninterp spec fn csv_records(data: Seq<u8>) -> Option<Seq<Seq<Seq<char>>>>;

/// Why no table was read.
#[derive(Debug)]
pub enum ReadError {
    /// The reader refused the text, with its own error.
    Csv(csv::Error),
    /// The records do not form a table of two columns.
    DataSet(DataSetError),
}

/// The text of a two-column table: the axis names and the fields of each
/// column, in record order.
#[derive(Debug, Clone)]
pub struct Table {
    pub x_name: String,
    pub y_name: String,
    pub x: Vec<String>,
    pub y: Vec<String>,
}

/// Whether there is a header and every record has exactly two fields.
pub open spec fn two_columns(records: Seq<Seq<Seq<char>>>) -> bool {
    &&& records.len() >= 1
    &&& forall|i: int| 0 <= i < records.len() ==> (#[trigger] records[i]).len() == 2
}

impl Table {
    /// Whether this table holds exactly the given records: the first as the
    /// axis names, each later one as a row.
    pub open spec fn holds(&self, records: Seq<Seq<Seq<char>>>) -> bool {
        &&& two_columns(records)
        &&& self.x_name@ == records[0][0]
        &&& self.y_name@ == records[0][1]
        &&& self.x.len() == records.len() - 1
        &&& self.y.len() == records.len() - 1
        &&& forall|i: int|
            0 <= i < records.len() - 1 ==> (#[trigger] self.x[i])@ == records[i + 1][0]
        &&& forall|i: int|
            0 <= i < records.len() - 1 ==> (#[trigger] self.y[i])@ == records[i + 1][1]
    }
}

/// Calls `csv::ReaderBuilder::from_reader` on `data`, with `has_headers(false)`
/// and `flexible(true)`, and collects what `csv::Reader::records` yields, each
/// record as the strings of `csv::StringRecord::iter`. The result is the
/// reader's first error, or else all records; it is named, not described.
#[verifier::external_body]
fn parse_records(data: &[u8]) -> (r: Result<Vec<Vec<String>>, csv::Error>)
    ensures
        match r {
            Ok(records) => csv_records(data@) == Some(records.deep_view()),
            Err(_) => csv_records(data@) is None,
        },
{
    let mut reader = csv::ReaderBuilder::new().has_headers(false).flexible(true).from_reader(data);
    let mut records = Vec::new();
    for record in reader.records() {
        records.push(record?.iter().map(|field| field.to_string()).collect());
    }
    Ok(records)
}

/// Builds the table from parsed records.
///
/// Fails with `InvalidColumnCount` when the header is missing or any record
/// does not have exactly two fields.
pub fn table_from_records(records: &Vec<Vec<String>>) -> (r: Result<Table, DataSetError>)
    ensures
        match r {
            Ok(table) => table.holds(records.deep_view()),
            Err(e) => e == DataSetError::InvalidColumnCount && !two_columns(records.deep_view()),
        },
{
    let ghost deep = records.deep_view();
    assert(forall|i: int|
        0 <= i < records.len() ==> (#[trigger] deep[i]).len() == records[i].len());
    assert(forall|i: int, j: int|
        0 <= i < records.len() && 0 <= j < records[i].len() ==> #[trigger] deep[i][j]
            == records[i][j]@);
    if records.len() == 0 {
        return Err(DataSetError::InvalidColumnCount);
    }
    if records[0].len() != 2 {
        assert(deep[0].len() != 2);
        return Err(DataSetError::InvalidColumnCount);
    }
    let x_name = records[0][0].clone();
    let y_name = records[0][1].clone();
    let mut x: Vec<String> = Vec::new();
    let mut y: Vec<String> = Vec::new();
    let mut i: usize = 1;
    while i < records.len()
        invariant
            1 <= i <= records.len(),
            deep == records.deep_view(),
            x.len() == i - 1,
            y.len() == i - 1,
            forall|k: int| 0 <= k < i ==> (#[trigger] deep[k]).len() == 2,
            forall|k: int| 0 <= k < i - 1 ==> (#[trigger] x[k])@ == deep[k + 1][0],
            forall|k: int| 0 <= k < i - 1 ==> (#[trigger] y[k])@ == deep[k + 1][1],
            forall|k: int|
                0 <= k < records.len() ==> (#[trigger] deep[k]).len() == records[k].len(),
            forall|k: int, j: int|
                0 <= k < records.len() && 0 <= j < records[k].len() ==> #[trigger] deep[k][j]
                    == records[k][j]@,
        decreases records.len() - i,
    {
        if records[i].len() != 2 {
            assert(deep[i as int].len() != 2);
            return Err(DataSetError::InvalidColumnCount);
        }
        x.push(records[i][0].clone());
        y.push(records[i][1].clone());
        i += 1;
    }
    Ok(Table { x_name, y_name, x, y })
}

/// Reads a table from CSV text.
///
/// The first record names the axes; every record must have exactly two
/// fields. Fails with the reader's error where the text is not CSV, and with
/// `InvalidColumnCount` where the records are not a two-column table.
pub fn read_table(data: &[u8]) -> (r: Result<Table, ReadError>)
    ensures
        match csv_records(data@) {
            None => r is Err && r->Err_0 is Csv,
            Some(records) => match r {
                Ok(table) => table.holds(records),
                Err(e) => e == ReadError::DataSet(DataSetError::InvalidColumnCount)
                    && !two_columns(records),
            },
        },
{
    match parse_records(data) {
        Err(e) => Err(ReadError::Csv(e)),
        Ok(records) => match table_from_records(&records) {
            Ok(table) => Ok(table),
            Err(e) => Err(ReadError::DataSet(e)),
        },
    }
}

} // verus!
