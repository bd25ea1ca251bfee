//! Training examples and prediction inputs from comma-separated records.
//!
//! The first record of a source names the columns and is skipped. Of every
//! other record, the data columns become an input, and the label says where the
//! expected output stands.

use crate::network::TrainingData;
use crate::scalar::converts;
use crate::scalar::number;
use crate::scalar::scalar_of;
use crate::scalar::Scalar;
use vstd::prelude::*;

verus! {

/// What the `csv` crate reports when a record cannot be read.
#[verifier::external_type_specification]
#[verifier::external_body]
pub struct ExCsvError(csv::Error);

/// How the listed columns are to be read.
pub enum IncludeType {
    /// Every column is a data column but the listed ones.
    Blacklist,
    /// Only the listed columns are data columns.
    Whitelist,
}

/// Picks the data columns of each record.
pub struct CsvDataLoader {
    /// specifies how to include columns (blacklist/whitelist)
    pub include_type: IncludeType,
    /// specifies what columns are inputs
    pub data_values: Vec<usize>,
}

/// SingleOutputRegression - specifies the column index for the value
/// MultipleOutputRegression - specifies the columns indexes for the values
/// for classification specifies the column index and the label strings
pub enum Label<'a> {
    SingleOutputRegression(usize),
    MultipleOutputRegression(&'a Vec<usize>),
    SingleLabelClassification(usize, &'a Vec<&'a str>),
    MultipleLabelClassification(),
}

/// Why a source could not be loaded. Rows are counted from zero, after the
/// record that names the columns.
#[derive(Debug)]
pub enum LoadError {
    /// The records could not be read to the end.
    Csv(csv::Error),
    /// The row has no column with this index.
    MissingColumn { row: usize, column: usize },
    /// The value in this column of the row is not a number.
    NotANumber { row: usize, column: usize },
    /// The label in the row is not one of the given labels.
    UnknownLabel { row: usize },
}

/// Where the expected output of a record comes from.
pub enum Target {
    /// The number in the column with this index.
    Cell(usize),
    /// A vector of `len` zeros with a one at index `hot`.
    OneHot { len: usize, hot: usize },
    /// Nothing: the expected output is empty.
    Nothing,
}

/// What to read of a record: where its expected output comes from, and the
/// columns of its input, in their order.
pub struct RowPlan {
    pub target: Target,
    pub columns: Vec<usize>,
}

/// The records of a source as the `csv` crate reads them with its default
/// settings, which skip the first record: the fields of each record up to the
/// first that cannot be read, and whether every record could be read.
pub uninterp spec fn csv_parse(source: Seq<u8>) -> (Seq<Seq<Seq<char>>>, bool);

/// The characters of every field of every row.
pub open spec fn texts(rows: Seq<Vec<String>>) -> Seq<Seq<Seq<char>>> {
    Seq::new(rows.len(), |i: int| Seq::new(rows[i]@.len(), |j: int| rows[i][j]@))
}

/// Reads the records of a source.
///
/// Makes a `csv::Reader` over the bytes with `Reader::from_reader` and walks
/// `Reader::records`, copying the fields of each record, until the records end
/// or one cannot be read. Returns the rows read and, if one could not be read,
/// the error of the `csv` crate. The contract gives this outcome its name,
/// `csv_parse`, and claims nothing more of it.
#[verifier::external_body]
fn read_records(source: &[u8]) -> (r: (Vec<Vec<String>>, Option<csv::Error>))
    ensures
        csv_parse(source@) == (texts(r.0@), r.1 is None),
{
    let mut reader = csv::Reader::from_reader(source);
    let mut rows: Vec<Vec<String>> = Vec::new();
    for result in reader.records() {
        match result {
            Ok(record) => {
                let mut row: Vec<String> = Vec::new();
                for field in record.iter() {
                    row.push(field.to_string());
                }
                rows.push(row);
            },
            Err(e) => return (rows, Some(e)),
        }
    }
    (rows, None)
}

/// Tells whether `column` is among `listed`.
fn is_listed(listed: &Vec<usize>, column: usize) -> (r: bool)
    ensures
        r == listed@.contains(column),
{
    let mut i: usize = 0;
    while i < listed.len()
        invariant
            i <= listed.len(),
            forall|k: int| 0 <= k < i ==> listed[k] != column,
        decreases listed.len() - i,
    {
        if listed[i] == column {
            return true;
        }
        i += 1;
    }
    false
}

/// The index of the first label that reads `text`, if there is one.
fn position_of(labels: &Vec<&str>, text: &String) -> (r: Option<usize>)
    ensures
        r matches Some(i) ==> i < labels.len() && labels[i as int]@ == text@ && forall|k: int|
            0 <= k < i ==> labels[k]@ != text@,
        r is None ==> forall|k: int| 0 <= k < labels.len() ==> labels[k]@ != text@,
{
    let mut i: usize = 0;
    while i < labels.len()
        invariant
            i <= labels.len(),
            forall|k: int| 0 <= k < i ==> labels[k]@ != text@,
        decreases labels.len() - i,
    {
        let label: String = labels[i].to_owned();
        if label == *text {
            return Some(i);
        }
        i += 1;
    }
    None
}

/// A vector of `len` zeros with a one at index `hot`.
fn one_hot<T: Scalar>(len: usize, hot: usize) -> (r: Vec<T>)
    requires
        hot < len,
    ensures
        r.len() == len,
        converts::<T>() ==> forall|i: int|
            0 <= i < len ==> #[trigger] r[i] == (if i == hot {
                number::<T>(1)
            } else {
                number::<T>(0)
            }),
{
    let mut out: Vec<T> = Vec::new();
    let mut i: usize = 0;
    while i < len
        invariant
            i <= len,
            out.len() == i,
            converts::<T>() ==> forall|k: int|
                0 <= k < i ==> #[trigger] out[k] == (if k == hot {
                    number::<T>(1)
                } else {
                    number::<T>(0)
                }),
        decreases len - i,
    {
        if i == hot {
            out.push(scalar_of(1));
        } else {
            out.push(scalar_of(0));
        }
        i += 1;
    }
    out
}

/// `parse` may be called on every text.
pub open spec fn reads_any<T, P: Fn(&String) -> Option<T>>(parse: P) -> bool {
    forall|cell: String| #[trigger] call_requires(parse, (&cell,))
}

/// `parse` returned a number for the text.
pub open spec fn reads_number<T, P: Fn(&String) -> Option<T>>(parse: P, cell: String) -> bool {
    exists|value: T| #[trigger] call_ensures(parse, (&cell,), Some(value))
}

/// The outcome of reading the given columns of a record: either one value for
/// each column, which `parse` returned for the text in that column, or the
/// report of the first column for whose text `parse` returned nothing.
pub open spec fn cells_read<T, P: Fn(&String) -> Option<T>>(
    record: Seq<String>,
    columns: Seq<usize>,
    row: usize,
    parse: P,
    r: Result<Vec<T>, LoadError>,
) -> bool {
    match r {
        Ok(values) => {
            &&& values.len() == columns.len()
            &&& forall|k: int|
                0 <= k < columns.len() ==> call_ensures(
                    parse,
                    (&record[columns[k] as int],),
                    Some(#[trigger] values[k]),
                )
        },
        Err(e) => exists|k: int|
            {
                &&& 0 <= k < columns.len()
                &&& e == (LoadError::NotANumber { row, column: #[trigger] columns[k] })
                &&& call_ensures(parse, (&record[columns[k] as int],), None::<T>)
                &&& forall|m: int| 0 <= m < k ==> #[trigger] reads_number(parse, record[columns[m] as int])
            },
    }
}

/// The outcome of reading the expected output of a record from its target.
pub open spec fn target_read<T: Scalar, P: Fn(&String) -> Option<T>>(
    record: Seq<String>,
    target: Target,
    row: usize,
    parse: P,
    r: Result<Vec<T>, LoadError>,
) -> bool {
    match target {
        Target::Cell(column) => cells_read(record, seq![column], row, parse, r),
        Target::OneHot { len, hot } => {
            &&& r matches Ok(values)
            &&& values.len() == len
            &&& converts::<T>() ==> forall|i: int|
                0 <= i < len ==> #[trigger] values[i] == (if i == hot {
                    number::<T>(1)
                } else {
                    number::<T>(0)
                })
        },
        Target::Nothing => {
            &&& r matches Ok(values)
            &&& values.len() == 0
        },
    }
}

/// The expected output of a record can be read from its target.
pub open spec fn target_is_read<T: Scalar, P: Fn(&String) -> Option<T>>(
    record: Seq<String>,
    target: Target,
    row: usize,
    parse: P,
) -> bool {
    exists|expected: Vec<T>| #[trigger] target_read(record, target, row, parse, Ok(expected))
}

/// The outcome of reading a record by its plan: the input and the expected
/// output, or the report of what kept the plan from being made, or of the first
/// value that is not a number, where the expected output is read before the
/// input.
pub open spec fn row_filled<T: Scalar, P: Fn(&String) -> Option<T>>(
    record: Seq<String>,
    plan: Result<RowPlan, LoadError>,
    row: usize,
    parse: P,
    r: Result<(Vec<T>, Vec<T>), LoadError>,
) -> bool {
    match plan {
        Err(e) => r == Err::<(Vec<T>, Vec<T>), LoadError>(e),
        Ok(plan) => match r {
            Ok((inputs, expected)) => {
                &&& target_read(record, plan.target, row, parse, Ok(expected))
                &&& cells_read(record, plan.columns@, row, parse, Ok(inputs))
            },
            Err(e) => {
                ||| target_read(record, plan.target, row, parse, Err::<Vec<T>, LoadError>(e))
                ||| target_is_read(record, plan.target, row, parse) && cells_read(
                    record,
                    plan.columns@,
                    row,
                    parse,
                    Err::<Vec<T>, LoadError>(e),
                )
            },
        },
    }
}

/// Reads the given columns of a record.
fn read_cells<T, P: Fn(&String) -> Option<T>>(
    record: &Vec<String>,
    columns: &Vec<usize>,
    row: usize,
    parse: &P,
) -> (r: Result<Vec<T>, LoadError>)
    requires
        reads_any::<T, P>(*parse),
        forall|k: int| 0 <= k < columns.len() ==> #[trigger] columns[k] < record.len(),
    ensures
        cells_read(record@, columns@, row, *parse, r),
{
    let mut values: Vec<T> = Vec::new();
    let mut k: usize = 0;
    while k < columns.len()
        invariant
            reads_any::<T, P>(*parse),
            forall|k: int| 0 <= k < columns.len() ==> #[trigger] columns[k] < record.len(),
            k <= columns.len(),
            values.len() == k,
            forall|m: int|
                0 <= m < k ==> call_ensures(
                    *parse,
                    (&record[columns[m] as int],),
                    Some(#[trigger] values[m]),
                ),
            forall|m: int| 0 <= m < k ==> #[trigger] reads_number(*parse, record[columns[m] as int]),
        decreases columns.len() - k,
    {
        let column = columns[k];
        match parse(&record[column]) {
            Some(value) => {
                values.push(value);
            },
            None => {
                return Err(LoadError::NotANumber { row, column });
            },
        }
        k += 1;
    }
    Ok(values)
}

/// Reads the expected output of a record from its target.
fn read_target<T: Scalar, P: Fn(&String) -> Option<T>>(
    record: &Vec<String>,
    target: &Target,
    row: usize,
    parse: &P,
) -> (r: Result<Vec<T>, LoadError>)
    requires
        reads_any::<T, P>(*parse),
        *target matches Target::Cell(column) ==> column < record.len(),
        *target matches Target::OneHot { len, hot } ==> hot < len,
    ensures
        target_read(record@, *target, row, *parse, r),
{
    match target {
        Target::Cell(column) => {
            let mut columns: Vec<usize> = Vec::new();
            columns.push(*column);
            read_cells(record, &columns, row, parse)
        },
        Target::OneHot { len, hot } => Ok(one_hot(*len, *hot)),
        Target::Nothing => Ok(Vec::new()),
    }
}

impl CsvDataLoader {
    /// A loader that takes every column: an empty list of columns to leave out.
    pub fn new() -> (r: Self)
        ensures
            r.include_type is Blacklist,
            r.data_values@ == Seq::<usize>::empty(),
    {
        Self {
            // empty blacklist = everything allowed
            include_type: IncludeType::Blacklist,
            data_values: Vec::new(),
        }
    }

    /// The loader takes the column as a data column.
    pub open spec fn takes(&self, column: usize) -> bool {
        match self.include_type {
            IncludeType::Whitelist => self.data_values@.contains(column),
            IncludeType::Blacklist => !self.data_values@.contains(column),
        }
    }

    /// The data columns among the first `width` columns, in their order: those
    /// that the loader takes, but for the column left out.
    pub open spec fn data_columns(&self, width: nat, left_out: Option<usize>) -> Seq<usize>
        decreases width,
    {
        if width == 0 {
            Seq::empty()
        } else {
            let before = self.data_columns((width - 1) as nat, left_out);
            let column = (width - 1) as usize;
            if left_out != Some(column) && self.takes(column) {
                before.push(column)
            } else {
                before
            }
        }
    }

    /// The data columns of a record with `width` columns.
    pub fn select_columns(&self, width: usize, left_out: Option<usize>) -> (r: Vec<usize>)
        ensures
            r@ == self.data_columns(width as nat, left_out),
            forall|k: int| 0 <= k < r.len() ==> #[trigger] r[k] < width,
    {
        let mut out: Vec<usize> = Vec::new();
        let mut i: usize = 0;
        while i < width
            invariant
                i <= width,
                out@ == self.data_columns(i as nat, left_out),
                forall|k: int| 0 <= k < out.len() ==> #[trigger] out[k] < i,
            decreases width - i,
        {
            let listed = is_listed(&self.data_values, i);
            let taken = match self.include_type {
                IncludeType::Whitelist => listed,
                IncludeType::Blacklist => !listed,
            };
            let kept = match left_out {
                Some(column) => column != i,
                None => true,
            };
            if kept && taken {
                out.push(i);
            }
            i += 1;
        }
        out
    }

    /// What is planned for the record is what the label asks of it.
    ///
    /// For a single value, the value is read from the column of the label, which
    /// is no data column. For a single class name, the name is read from the
    /// column of the label and looked up in the names of the label; the expected
    /// output has a one at the index of the first name that reads the same, and
    /// the column with that index is no data column. For the other labels the
    /// expected output is empty and column 0 is no data column.
    pub open spec fn plans(&self, record: Seq<String>, label: Label, row: usize, r: Result<
        RowPlan,
        LoadError,
    >) -> bool {
        match label {
            Label::SingleOutputRegression(column) => if column < record.len() {
                &&& r matches Ok(plan)
                &&& plan.target == Target::Cell(column)
                &&& plan.columns@ == self.data_columns(record.len(), Some(column))
            } else {
                r == Err::<RowPlan, LoadError>(LoadError::MissingColumn { row, column })
            },
            Label::SingleLabelClassification(column, labels) => if column >= record.len() {
                r == Err::<RowPlan, LoadError>(LoadError::MissingColumn { row, column })
            } else if forall|k: int| 0 <= k < labels.len() ==> labels[k]@ != record[column as int]@ {
                r == Err::<RowPlan, LoadError>(LoadError::UnknownLabel { row })
            } else {
                &&& r matches Ok(plan)
                &&& plan.target matches Target::OneHot { len, hot }
                &&& len == labels.len()
                &&& hot < len
                &&& labels[hot as int]@ == record[column as int]@
                &&& forall|k: int| 0 <= k < hot ==> labels[k]@ != record[column as int]@
                &&& plan.columns@ == self.data_columns(record.len(), Some(hot))
            },
            _ => {
                &&& r matches Ok(plan)
                &&& plan.target == Target::Nothing
                &&& plan.columns@ == self.data_columns(record.len(), Some(0usize))
            },
        }
    }

    /// Plans what to read of a record, as the label asks.
    pub fn plan_row(&self, record: &Vec<String>, label: &Label, row: usize) -> (r: Result<
        RowPlan,
        LoadError,
    >)
        ensures
            self.plans(record@, *label, row, r),
            r matches Ok(plan) ==> forall|k: int|
                0 <= k < plan.columns.len() ==> #[trigger] plan.columns[k] < record.len(),
            r matches Ok(plan) ==> (plan.target matches Target::Cell(column) ==> column
                < record.len()),
            r matches Ok(plan) ==> (plan.target matches Target::OneHot { len, hot } ==> hot < len),
    {
        match label {
            Label::SingleOutputRegression(column) => {
                if *column >= record.len() {
                    return Err(LoadError::MissingColumn { row, column: *column });
                }
                Ok(
                    RowPlan {
                        target: Target::Cell(*column),
                        columns: self.select_columns(record.len(), Some(*column)),
                    },
                )
            },
            Label::SingleLabelClassification(column, labels) => {
                if *column >= record.len() {
                    return Err(LoadError::MissingColumn { row, column: *column });
                }
                match position_of(labels, &record[*column]) {
                    None => Err(LoadError::UnknownLabel { row }),
                    Some(hot) => Ok(
                        RowPlan {
                            target: Target::OneHot { len: labels.len(), hot },
                            columns: self.select_columns(record.len(), Some(hot)),
                        },
                    ),
                }
            },
            _ => Ok(
                RowPlan {
                    target: Target::Nothing,
                    columns: self.select_columns(record.len(), Some(0)),
                },
            ),
        }
    }

    /// The outcome of loading a record with a label: what its plan gives.
    pub open spec fn loads_row<T: Scalar, P: Fn(&String) -> Option<T>>(
        &self,
        record: Seq<String>,
        label: Label,
        row: usize,
        parse: P,
        r: Result<(Vec<T>, Vec<T>), LoadError>,
    ) -> bool {
        exists|plan: Result<RowPlan, LoadError>|
            self.plans(record, label, row, plan) && #[trigger] row_filled(
                record,
                plan,
                row,
                parse,
                r,
            )
    }

    /// `data` holds one example for each row, loaded from that row.
    pub open spec fn loads_all<T: Scalar, P: Fn(&String) -> Option<T>>(
        &self,
        rows: Seq<Vec<String>>,
        label: Label,
        parse: P,
        data: TrainingData<T>,
    ) -> bool {
        &&& data.len() == rows.len()
        &&& forall|i: int|
            0 <= i < rows.len() ==> self.loads_row(
                rows[i]@,
                label,
                i as usize,
                parse,
                Ok(#[trigger] data[i]),
            )
    }

    /// The outcome of loading rows with a label: one example for each row, or the
    /// report of the first row that could not be loaded.
    pub open spec fn loads<T: Scalar, P: Fn(&String) -> Option<T>>(
        &self,
        rows: Seq<Vec<String>>,
        label: Label,
        parse: P,
        r: Result<TrainingData<T>, LoadError>,
    ) -> bool {
        match r {
            Ok(data) => self.loads_all(rows, label, parse, data),
            Err(e) => exists|i: int, before: TrainingData<T>|
                {
                    &&& 0 <= i < rows.len()
                    &&& #[trigger] self.loads_all(rows.take(i), label, parse, before)
                    &&& self.loads_row(
                        rows[i]@,
                        label,
                        i as usize,
                        parse,
                        Err::<(Vec<T>, Vec<T>), LoadError>(e),
                    )
                },
        }
    }

    /// One example from a record: its input from the data columns and its
    /// expected output as the label asks.
    pub fn labeled_row<T: Scalar, P: Fn(&String) -> Option<T>>(
        &self,
        record: &Vec<String>,
        label: &Label,
        row: usize,
        parse: &P,
    ) -> (r: Result<(Vec<T>, Vec<T>), LoadError>)
        requires
            reads_any::<T, P>(*parse),
        ensures
            self.loads_row(record@, *label, row, *parse, r),
    {
        let planned = self.plan_row(record, label, row);
        match planned {
            Err(e) => {
                let r = Err(e);
                proof {
                    assert(row_filled(record@, planned, row, *parse, r));
                }
                r
            },
            Ok(plan) => {
                let r = match read_target(record, &plan.target, row, parse) {
                    Err(e) => Err(e),
                    Ok(expected) => match read_cells(record, &plan.columns, row, parse) {
                        Err(e) => Err(e),
                        Ok(inputs) => Ok((inputs, expected)),
                    },
                };
                proof {
                    assert(row_filled(record@, Ok(plan), row, *parse, r));
                }
                r
            },
        }
    }

    /// One example from each row, in the order of the rows.
    pub fn labeled_examples<T: Scalar, P: Fn(&String) -> Option<T>>(
        &self,
        rows: &Vec<Vec<String>>,
        label: &Label,
        parse: &P,
    ) -> (r: Result<TrainingData<T>, LoadError>)
        requires
            reads_any::<T, P>(*parse),
        ensures
            self.loads(rows@, *label, *parse, r),
    {
        let mut data: TrainingData<T> = Vec::new();
        let mut i: usize = 0;
        while i < rows.len()
            invariant
                reads_any::<T, P>(*parse),
                i <= rows.len(),
                self.loads_all(rows@.take(i as int), *label, *parse, data),
            decreases rows.len() - i,
        {
            match self.labeled_row(&rows[i], label, i, parse) {
                Err(e) => {
                    return Err(e);
                },
                Ok(example) => {
                    data.push(example);
                },
            }
            i += 1;
        }
        Ok(data)
    }

    /// The outcome of loading a source with a label, where `rows` are the
    /// records read from it and `complete` tells whether every record could be
    /// read: the examples of all rows; or the report of the first row that could
    /// not be loaded; or, where every row was loaded but not every record could
    /// be read, the error of the `csv` crate.
    pub open spec fn loaded_source<T: Scalar, P: Fn(&String) -> Option<T>>(
        &self,
        rows: Seq<Vec<String>>,
        complete: bool,
        label: Label,
        parse: P,
        r: Result<TrainingData<T>, LoadError>,
    ) -> bool {
        match r {
            Ok(data) => complete && self.loads(rows, label, parse, Ok(data)),
            Err(LoadError::Csv(_)) => !complete && exists|data: TrainingData<T>| #[trigger]
                self.loads(rows, label, parse, Ok(data)),
            Err(e) => self.loads(rows, label, parse, Err::<TrainingData<T>, LoadError>(e)),
        }
    }

    /// data for training and testing
    ///
    /// `source` holds the records, the first of which names the columns. `parse`
    /// turns the text of a field into a number, or into nothing where the text is
    /// no number.
    pub fn load_labeled_data<T: Scalar, P: Fn(&String) -> Option<T>>(
        &self,
        source: &[u8],
        label: Label,
        parse: &P,
    ) -> (r: Result<TrainingData<T>, LoadError>)
        requires
            reads_any::<T, P>(*parse),
        ensures
            exists|rows: Seq<Vec<String>>|
                texts(rows) == csv_parse(source@).0 && #[trigger] self.loaded_source(
                    rows,
                    csv_parse(source@).1,
                    label,
                    *parse,
                    r,
                ),
    {
        let (rows, failure) = read_records(source);
        let r = match self.labeled_examples(&rows, &label, parse) {
            Err(e) => Err(e),
            Ok(data) => match failure {
                Some(e) => Err(LoadError::Csv(e)),
                None => Ok(data),
            },
        };
        proof {
            assert(self.loaded_source(rows@, csv_parse(source@).1, label, *parse, r));
        }
        r
    }

    /// `inputs` holds the values in the data columns of each row.
    pub open spec fn reads_all<T, P: Fn(&String) -> Option<T>>(
        &self,
        rows: Seq<Vec<String>>,
        parse: P,
        inputs: Vec<Vec<T>>,
    ) -> bool {
        &&& inputs.len() == rows.len()
        &&& forall|i: int|
            0 <= i < rows.len() ==> cells_read(
                rows[i]@,
                self.data_columns(rows[i]@.len(), None),
                i as usize,
                parse,
                Ok(#[trigger] inputs[i]),
            )
    }

    /// The outcome of reading the inputs of rows: the values in the data columns
    /// of each row, or the report of the first value that is not a number.
    pub open spec fn reads<T, P: Fn(&String) -> Option<T>>(
        &self,
        rows: Seq<Vec<String>>,
        parse: P,
        r: Result<Vec<Vec<T>>, LoadError>,
    ) -> bool {
        match r {
            Ok(inputs) => self.reads_all(rows, parse, inputs),
            Err(e) => exists|i: int, before: Vec<Vec<T>>|
                {
                    &&& 0 <= i < rows.len()
                    &&& #[trigger] self.reads_all(rows.take(i), parse, before)
                    &&& cells_read(
                        rows[i]@,
                        self.data_columns(rows[i]@.len(), None),
                        i as usize,
                        parse,
                        Err::<Vec<T>, LoadError>(e),
                    )
                },
        }
    }

    /// The input of each row, in the order of the rows.
    pub fn unlabeled_inputs<T, P: Fn(&String) -> Option<T>>(
        &self,
        rows: &Vec<Vec<String>>,
        parse: &P,
    ) -> (r: Result<Vec<Vec<T>>, LoadError>)
        requires
            reads_any::<T, P>(*parse),
        ensures
            self.reads(rows@, *parse, r),
    {
        let mut inputs: Vec<Vec<T>> = Vec::new();
        let mut i: usize = 0;
        while i < rows.len()
            invariant
                reads_any::<T, P>(*parse),
                i <= rows.len(),
                self.reads_all(rows@.take(i as int), *parse, inputs),
            decreases rows.len() - i,
        {
            let columns = self.select_columns(rows[i].len(), None);
            match read_cells(&rows[i], &columns, i, parse) {
                Err(e) => {
                    return Err(e);
                },
                Ok(values) => {
                    inputs.push(values);
                },
            }
            i += 1;
        }
        Ok(inputs)
    }

    /// The outcome of reading the inputs of a source, where `rows` are the
    /// records read from it and `complete` tells whether every record could be
    /// read.
    pub open spec fn read_source<T, P: Fn(&String) -> Option<T>>(
        &self,
        rows: Seq<Vec<String>>,
        complete: bool,
        parse: P,
        r: Result<Vec<Vec<T>>, LoadError>,
    ) -> bool {
        match r {
            Ok(inputs) => complete && self.reads(rows, parse, Ok(inputs)),
            Err(LoadError::Csv(_)) => !complete && exists|inputs: Vec<Vec<T>>| #[trigger]
                self.reads(rows, parse, Ok(inputs)),
            Err(e) => self.reads(rows, parse, Err::<Vec<Vec<T>>, LoadError>(e)),
        }
    }

    /// data for predicting
    ///
    /// `source` holds the records, the first of which names the columns. `parse`
    /// turns the text of a field into a number, or into nothing where the text is
    /// no number.
    pub fn load_unlabeled_data<T, P: Fn(&String) -> Option<T>>(
        &self,
        source: &[u8],
        parse: &P,
    ) -> (r: Result<Vec<Vec<T>>, LoadError>)
        requires
            reads_any::<T, P>(*parse),
        ensures
            exists|rows: Seq<Vec<String>>|
                texts(rows) == csv_parse(source@).0 && #[trigger] self.read_source(
                    rows,
                    csv_parse(source@).1,
                    *parse,
                    r,
                ),
    {
        let (rows, failure) = read_records(source);
        let r = match self.unlabeled_inputs(&rows, parse) {
            Err(e) => Err(e),
            Ok(inputs) => match failure {
                Some(e) => Err(LoadError::Csv(e)),
                None => Ok(inputs),
            },
        };
        proof {
            assert(self.read_source(rows@, csv_parse(source@).1, *parse, r));
        }
        r
    }
}

} // verus!
