//! The preparation of a transformed table for a relational store: one
//! record per row, or the first reason why a row cannot be stored.
//!
//! A date cell counts days from 1970-01-01. The store takes the calendar date
//! of that day: chrono gives it for the day's number in the common era, which
//! is the cell's count and the number of 1970-01-01 together.

use crate::dataset::{
    find_column, lemma_position_unique, models_of, Column, ColumnData, DataType, Dataset, Table,
};
use crate::engine::{is_finite, is_finite_bits};
use crate::transformation::{
    admission_type_column, age_column, billing_amount_column, blood_type_column,
    date_of_admission_column, gender_column, medical_condition_column, medication_column,
    test_results_column,
};
use chrono::{Datelike, NaiveDate};
use vstd::prelude::*;

verus! {

/// A date of the calendar.
#[derive(Clone, Copy, Debug, PartialEq, Eq, Structural)]
pub struct CalendarDate {
    /// The year.
    pub year: i32,
    /// The month, from 1.
    pub month: u32,
    /// The day of the month, from 1.
    pub day: u32,
}

/// The date that chrono's `NaiveDate::from_num_days_from_ce_opt` makes of a
/// day number; `None` where it makes none.
pub uninterp spec fn date_of_day_number(days: i32) -> Option<CalendarDate>;

/// The number of 1970-01-01 among the days of the common era, of which
/// 0001-01-01 is day 1.
pub const EPOCH_DAY_NUMBER: i32 = 719_163;

/// The calendar date of a day counted from 1970-01-01; `None` where the
/// day's number in the common era is beyond 32 bits or gives no date.
pub open spec fn date_of_epoch_day(days: i32) -> Option<CalendarDate> {
    if days + EPOCH_DAY_NUMBER <= i32::MAX {
        date_of_day_number((days + EPOCH_DAY_NUMBER) as i32)
    } else {
        None
    }
}

/// Calls chrono's `NaiveDate::from_num_days_from_ce_opt` and reads the
/// year, month and day of the date it gives. The contract claims that the
/// result depends on the day number alone.
#[verifier::external_body]
fn day_number_to_date(days: i32) -> (r: Option<CalendarDate>)
    ensures
        r == date_of_day_number(days),
{
    NaiveDate::from_num_days_from_ce_opt(days).map(
        |d| CalendarDate { year: d.year(), month: d.month(), day: d.day() },
    )
}

/// The calendar date of a day counted from 1970-01-01, if it has one.
pub fn epoch_day_to_date(days: i32) -> (r: Option<CalendarDate>)
    ensures
        r == date_of_epoch_day(days),
{
    if days <= i32::MAX - EPOCH_DAY_NUMBER {
        day_number_to_date(days + EPOCH_DAY_NUMBER)
    } else {
        None
    }
}

/// One row as the store takes it.
#[derive(Debug)]
pub struct PatientRecord {
    /// The age.
    pub age: i32,
    /// The gender.
    pub gender: String,
    /// The blood type.
    pub blood_type: String,
    /// The medical condition.
    pub medical_condition: String,
    /// The billing amount, a finite binary64 number as its bit pattern.
    pub billing_amount: u64,
    /// The medication.
    pub medication: String,
    /// The test results.
    pub test_results: String,
    /// The date of admission.
    pub date_of_admission: CalendarDate,
    /// The admission type.
    pub admission_type: String,
}

/// A record as mathematics.
pub struct RecordModel {
    pub age: i32,
    pub gender: Seq<char>,
    pub blood_type: Seq<char>,
    pub medical_condition: Seq<char>,
    pub billing_amount: u64,
    pub medication: Seq<char>,
    pub test_results: Seq<char>,
    pub date_of_admission: CalendarDate,
    pub admission_type: Seq<char>,
}

impl View for PatientRecord {
    type V = RecordModel;

    open spec fn view(&self) -> RecordModel {
        RecordModel {
            age: self.age,
            gender: self.gender@,
            blood_type: self.blood_type@,
            medical_condition: self.medical_condition@,
            billing_amount: self.billing_amount,
            medication: self.medication@,
            test_results: self.test_results@,
            date_of_admission: self.date_of_admission,
            admission_type: self.admission_type@,
        }
    }
}

/// The records of a sequence of rows.
pub open spec fn records_of(records: Seq<PatientRecord>) -> Seq<RecordModel> {
    Seq::new(records.len(), |i: int| records[i]@)
}

/// Why a table cannot be stored.
#[derive(Clone, Copy, Debug, PartialEq, Eq, Structural)]
pub enum StorageErrorKind {
    /// The table lacks the column.
    MissingColumn,
    /// The column is not of the type that the store takes.
    WrongType,
    /// The row has no value in the column.
    MissingValue,
    /// The row's billing amount is no finite number.
    InvalidAmount,
    /// The row's day has no calendar date.
    InvalidDate,
    /// The table has no such row.
    NoSuchRow,
}

/// The first reason why a table cannot be stored.
#[derive(Debug)]
pub struct StorageError {
    /// The kind of the reason.
    pub kind: StorageErrorKind,
    /// The name of the column at fault.
    pub column: String,
    /// The row at fault; 0 where the column as a whole is.
    pub row: usize,
}

/// A reason as mathematics.
pub struct StorageFailure {
    pub kind: StorageErrorKind,
    pub column: Seq<char>,
    pub row: int,
}

impl View for StorageError {
    type V = StorageFailure;

    open spec fn view(&self) -> StorageFailure {
        StorageFailure { kind: self.kind, column: self.column@, row: self.row as int }
    }
}

/// Why the column of this name cannot be read as cells of this type, if it
/// cannot: it is absent, or of another type.
pub open spec fn column_failure(t: Table, name: Seq<char>, dtype: DataType) -> Option<
    StorageFailure,
> {
    if !t.has(name) {
        Some(StorageFailure { kind: StorageErrorKind::MissingColumn, column: name, row: 0 })
    } else if t.column(name).cells.dtype() != dtype {
        Some(StorageFailure { kind: StorageErrorKind::WrongType, column: name, row: 0 })
    } else {
        None
    }
}

/// The first of two reasons.
pub open spec fn or_else(first: Option<StorageFailure>, second: Option<StorageFailure>) -> Option<
    StorageFailure,
> {
    if first is Some {
        first
    } else {
        second
    }
}

/// Why the columns of a table cannot be read, if they cannot: the reason of
/// the first column that is absent or not of its type, as the store names
/// them: the ages (32-bit integers), the genders, the blood types and the
/// medical conditions (texts), the billing amounts (binary64 numbers), the
/// medications and the test results (texts), the admission dates (dates)
/// and the admission types (texts).
pub open spec fn schema_failure(t: Table) -> Option<StorageFailure> {
    or_else(
        column_failure(t, age_column(), DataType::Int32),
        or_else(
            column_failure(t, gender_column(), DataType::Text),
            or_else(
                column_failure(t, blood_type_column(), DataType::Text),
                or_else(
                    column_failure(t, medical_condition_column(), DataType::Text),
                    or_else(
                        column_failure(t, billing_amount_column(), DataType::Float64),
                        or_else(
                            column_failure(t, medication_column(), DataType::Text),
                            or_else(
                                column_failure(t, test_results_column(), DataType::Text),
                                or_else(
                                    column_failure(t, date_of_admission_column(), DataType::Date),
                                    column_failure(t, admission_type_column(), DataType::Text),
                                ),
                            ),
                        ),
                    ),
                ),
            ),
        ),
    )
}

/// Why row `i` has no value in the column of this name, if it has none.
pub open spec fn value_failure(t: Table, name: Seq<char>, i: int) -> Option<StorageFailure> {
    if t.column(name).cells.present(i) {
        None
    } else {
        Some(StorageFailure { kind: StorageErrorKind::MissingValue, column: name, row: i })
    }
}

/// Why the billing amount of row `i` cannot be stored, if it cannot: it is
/// missing, or no finite number.
pub open spec fn amount_failure(t: Table, i: int) -> Option<StorageFailure> {
    match t.column(billing_amount_column()).cells->Float64_0[i] {
        None => Some(
            StorageFailure {
                kind: StorageErrorKind::MissingValue,
                column: billing_amount_column(),
                row: i,
            },
        ),
        Some(bits) => if is_finite(bits) {
            None
        } else {
            Some(
                StorageFailure {
                    kind: StorageErrorKind::InvalidAmount,
                    column: billing_amount_column(),
                    row: i,
                },
            )
        },
    }
}

/// Why the admission date of row `i` cannot be stored, if it cannot: it is
/// missing, or its day has no calendar date.
pub open spec fn date_failure(t: Table, i: int) -> Option<StorageFailure> {
    match t.column(date_of_admission_column()).cells->Date_0[i] {
        None => Some(
            StorageFailure {
                kind: StorageErrorKind::MissingValue,
                column: date_of_admission_column(),
                row: i,
            },
        ),
        Some(days) => if date_of_epoch_day(days) is Some {
            None
        } else {
            Some(
                StorageFailure {
                    kind: StorageErrorKind::InvalidDate,
                    column: date_of_admission_column(),
                    row: i,
                },
            )
        },
    }
}

/// Why row `i` cannot be stored, if it cannot: the reason of the first of
/// its nine cells that cannot, as the store names them, from the age to the
/// admission type.
pub open spec fn row_failure(t: Table, i: int) -> Option<StorageFailure> {
    or_else(
        value_failure(t, age_column(), i),
        or_else(
            value_failure(t, gender_column(), i),
            or_else(
                value_failure(t, blood_type_column(), i),
                or_else(
                    value_failure(t, medical_condition_column(), i),
                    or_else(
                        amount_failure(t, i),
                        or_else(
                            value_failure(t, medication_column(), i),
                            or_else(
                                value_failure(t, test_results_column(), i),
                                or_else(
                                    date_failure(t, i),
                                    value_failure(t, admission_type_column(), i),
                                ),
                            ),
                        ),
                    ),
                ),
            ),
        ),
    )
}

/// The reason of the first of the first `n` rows that cannot be stored, if
/// there is one.
pub open spec fn rows_failure(t: Table, n: nat) -> Option<StorageFailure>
    decreases n,
{
    if n == 0 {
        None
    } else {
        or_else(rows_failure(t, (n - 1) as nat), row_failure(t, n - 1))
    }
}

/// Why a table cannot be stored, if it cannot: its columns cannot be read,
/// or else one of its rows cannot be stored, and the first such row gives
/// the reason.
pub open spec fn storage_failure(t: Table) -> Option<StorageFailure> {
    or_else(schema_failure(t), rows_failure(t, t.height()))
}

/// The record of row `i` of a table that can be stored.
pub open spec fn record_at(t: Table, i: int) -> RecordModel {
    RecordModel {
        age: t.column(age_column()).cells->Int32_0[i]->0,
        gender: t.column(gender_column()).cells->Text_0[i]->0,
        blood_type: t.column(blood_type_column()).cells->Text_0[i]->0,
        medical_condition: t.column(medical_condition_column()).cells->Text_0[i]->0,
        billing_amount: t.column(billing_amount_column()).cells->Float64_0[i]->0,
        medication: t.column(medication_column()).cells->Text_0[i]->0,
        test_results: t.column(test_results_column()).cells->Text_0[i]->0,
        date_of_admission: date_of_epoch_day(
            t.column(date_of_admission_column()).cells->Date_0[i]->0,
        )->0,
        admission_type: t.column(admission_type_column()).cells->Text_0[i]->0,
    }
}

/// The records of all rows of a table that can be stored.
pub open spec fn records_at(t: Table) -> Seq<RecordModel> {
    Seq::new(t.height(), |i: int| record_at(t, i))
}

/// A failure among the first rows is the failure among more rows.
pub proof fn lemma_rows_failure_stays(t: Table, k: nat, n: nat)
    requires
        k <= n,
        rows_failure(t, k) is Some,
    ensures
        rows_failure(t, n) == rows_failure(t, k),
    decreases n,
{
    if k < n {
        lemma_rows_failure_stays(t, k, (n - 1) as nat);
    }
}

impl StorageError {
    /// The reason of this kind at this column and row.
    pub fn new(kind: StorageErrorKind, column: &str, row: usize) -> (e: StorageError)
        ensures
            e@ == (StorageFailure { kind, column: column@, row: row as int }),
    {
        StorageError { kind, column: column.to_owned(), row }
    }
}

/// Finds the column of this name and type.
fn typed_column(columns: &Vec<Column>, name: &str, dtype: DataType) -> (r: Result<
    usize,
    StorageError,
>)
    requires
        (Table { columns: models_of(columns@) }).distinct_names(),
    ensures
        match r {
            Ok(at) => {
                &&& column_failure(Table { columns: models_of(columns@) }, name@, dtype) is None
                &&& at == (Table { columns: models_of(columns@) }).position(name@)
                &&& at < columns@.len()
            },
            Err(e) => column_failure(Table { columns: models_of(columns@) }, name@, dtype) == Some(
                e@,
            ),
        },
{
    let ghost t = Table { columns: models_of(columns@) };
    match find_column(columns, name) {
        Some(at) => {
            proof {
                lemma_position_unique(t, name@, at as int);
            }
            if columns[at].data.dtype() == dtype {
                Ok(at)
            } else {
                Err(StorageError::new(StorageErrorKind::WrongType, name, 0))
            }
        },
        None => {
            proof {
                assert forall|k: int| 0 <= k < t.columns.len() implies (#[trigger] t.columns[k]).name
                    != name@ by {
                    assert(columns@[k].name@ != name@);
                }
            }
            Err(StorageError::new(StorageErrorKind::MissingColumn, name, 0))
        },
    }
}

/// The text of row `i` in the text column at `at`.
fn text_value(columns: &Vec<Column>, at: usize, name: &str, i: usize) -> (r: Result<
    String,
    StorageError,
>)
    requires
        at < columns@.len(),
        at == (Table { columns: models_of(columns@) }).position(name@),
        columns@[at as int]@.cells is Text,
        i < columns@[at as int]@.cells.len(),
    ensures
        match r {
            Ok(s) => {
                &&& value_failure(Table { columns: models_of(columns@) }, name@, i as int) is None
                &&& (Table { columns: models_of(columns@) }).column(name@).cells->Text_0[i as int]
                    == Some(s@)
            },
            Err(e) => value_failure(Table { columns: models_of(columns@) }, name@, i as int)
                == Some(e@),
        },
{
    match &columns[at].data {
        ColumnData::Text(cells) => match &cells[i] {
            Some(s) => Ok(s.clone()),
            None => Err(StorageError::new(StorageErrorKind::MissingValue, name, i)),
        },
        _ => Err(StorageError::new(StorageErrorKind::WrongType, name, 0)),
    }
}

/// The age of row `i` in the column at `at`.
fn age_value(columns: &Vec<Column>, at: usize, i: usize) -> (r: Result<i32, StorageError>)
    requires
        at < columns@.len(),
        at == (Table { columns: models_of(columns@) }).position(age_column()),
        columns@[at as int]@.cells is Int32,
        i < columns@[at as int]@.cells.len(),
    ensures
        match r {
            Ok(a) => {
                &&& value_failure(Table { columns: models_of(columns@) }, age_column(), i as int)
                    is None
                &&& (Table { columns: models_of(columns@) }).column(
                    age_column(),
                ).cells->Int32_0[i as int] == Some(a)
            },
            Err(e) => value_failure(Table { columns: models_of(columns@) }, age_column(), i as int)
                == Some(e@),
        },
{
    match &columns[at].data {
        ColumnData::Int32(cells) => match cells[i] {
            Some(a) => Ok(a),
            None => Err(StorageError::new(StorageErrorKind::MissingValue, "Age", i)),
        },
        _ => Err(StorageError::new(StorageErrorKind::WrongType, "Age", 0)),
    }
}

/// The billing amount of row `i` in the column at `at`.
fn amount_value(columns: &Vec<Column>, at: usize, i: usize) -> (r: Result<u64, StorageError>)
    requires
        at < columns@.len(),
        at == (Table { columns: models_of(columns@) }).position(billing_amount_column()),
        columns@[at as int]@.cells is Float64,
        i < columns@[at as int]@.cells.len(),
    ensures
        match r {
            Ok(bits) => {
                &&& amount_failure(Table { columns: models_of(columns@) }, i as int) is None
                &&& (Table { columns: models_of(columns@) }).column(
                    billing_amount_column(),
                ).cells->Float64_0[i as int] == Some(bits)
            },
            Err(e) => amount_failure(Table { columns: models_of(columns@) }, i as int) == Some(e@),
        },
{
    match &columns[at].data {
        ColumnData::Float64(cells) => match cells[i] {
            Some(bits) => if is_finite_bits(bits) {
                Ok(bits)
            } else {
                Err(StorageError::new(StorageErrorKind::InvalidAmount, "Billing Amount", i))
            },
            None => Err(StorageError::new(StorageErrorKind::MissingValue, "Billing Amount", i)),
        },
        _ => Err(StorageError::new(StorageErrorKind::WrongType, "Billing Amount", 0)),
    }
}

/// The admission date of row `i` in the column at `at`.
fn date_value(columns: &Vec<Column>, at: usize, i: usize) -> (r: Result<
    CalendarDate,
    StorageError,
>)
    requires
        at < columns@.len(),
        at == (Table { columns: models_of(columns@) }).position(date_of_admission_column()),
        columns@[at as int]@.cells is Date,
        i < columns@[at as int]@.cells.len(),
    ensures
        match r {
            Ok(date) => {
                &&& date_failure(Table { columns: models_of(columns@) }, i as int) is None
                &&& (Table { columns: models_of(columns@) }).column(
                    date_of_admission_column(),
                ).cells->Date_0[i as int] is Some
                &&& date_of_epoch_day(
                    (Table { columns: models_of(columns@) }).column(
                        date_of_admission_column(),
                    ).cells->Date_0[i as int]->0,
                ) == Some(date)
            },
            Err(e) => date_failure(Table { columns: models_of(columns@) }, i as int) == Some(e@),
        },
{
    match &columns[at].data {
        ColumnData::Date(cells) => match cells[i] {
            Some(days) => match epoch_day_to_date(days) {
                Some(date) => Ok(date),
                None => Err(
                    StorageError::new(StorageErrorKind::InvalidDate, "Date of Admission", i),
                ),
            },
            None => Err(StorageError::new(StorageErrorKind::MissingValue, "Date of Admission", i)),
        },
        _ => Err(StorageError::new(StorageErrorKind::WrongType, "Date of Admission", 0)),
    }
}

/// The places of the nine columns in a table.
struct Places {
    age: usize,
    gender: usize,
    blood_type: usize,
    medical_condition: usize,
    billing_amount: usize,
    medication: usize,
    test_results: usize,
    date_of_admission: usize,
    admission_type: usize,
}

impl Places {
    /// Whether these are the places of the nine columns in `t`, each of its
    /// type.
    spec fn fit(self, t: Table) -> bool {
        &&& schema_failure(t) is None
        &&& self.age == t.position(age_column())
        &&& self.gender == t.position(gender_column())
        &&& self.blood_type == t.position(blood_type_column())
        &&& self.medical_condition == t.position(medical_condition_column())
        &&& self.billing_amount == t.position(billing_amount_column())
        &&& self.medication == t.position(medication_column())
        &&& self.test_results == t.position(test_results_column())
        &&& self.date_of_admission == t.position(date_of_admission_column())
        &&& self.admission_type == t.position(admission_type_column())
        &&& self.age < t.columns.len()
        &&& self.gender < t.columns.len()
        &&& self.blood_type < t.columns.len()
        &&& self.medical_condition < t.columns.len()
        &&& self.billing_amount < t.columns.len()
        &&& self.medication < t.columns.len()
        &&& self.test_results < t.columns.len()
        &&& self.date_of_admission < t.columns.len()
        &&& self.admission_type < t.columns.len()
    }
}

/// Finds the nine columns, each of its type.
fn places(columns: &Vec<Column>) -> (r: Result<Places, StorageError>)
    requires
        (Table { columns: models_of(columns@) }).distinct_names(),
    ensures
        match r {
            Ok(p) => p.fit(Table { columns: models_of(columns@) }),
            Err(e) => schema_failure(Table { columns: models_of(columns@) }) == Some(e@),
        },
{
    let age = match typed_column(columns, "Age", DataType::Int32) {
        Ok(at) => at,
        Err(e) => { return Err(e); },
    };
    let gender = match typed_column(columns, "Gender", DataType::Text) {
        Ok(at) => at,
        Err(e) => { return Err(e); },
    };
    let blood_type = match typed_column(columns, "Blood Type", DataType::Text) {
        Ok(at) => at,
        Err(e) => { return Err(e); },
    };
    let medical_condition = match typed_column(columns, "Medical Condition", DataType::Text) {
        Ok(at) => at,
        Err(e) => { return Err(e); },
    };
    let billing_amount = match typed_column(columns, "Billing Amount", DataType::Float64) {
        Ok(at) => at,
        Err(e) => { return Err(e); },
    };
    let medication = match typed_column(columns, "Medication", DataType::Text) {
        Ok(at) => at,
        Err(e) => { return Err(e); },
    };
    let test_results = match typed_column(columns, "Test Results", DataType::Text) {
        Ok(at) => at,
        Err(e) => { return Err(e); },
    };
    let date_of_admission = match typed_column(columns, "Date of Admission", DataType::Date) {
        Ok(at) => at,
        Err(e) => { return Err(e); },
    };
    let admission_type = match typed_column(columns, "Admission Type", DataType::Text) {
        Ok(at) => at,
        Err(e) => { return Err(e); },
    };
    Ok(
        Places {
            age,
            gender,
            blood_type,
            medical_condition,
            billing_amount,
            medication,
            test_results,
            date_of_admission,
            admission_type,
        },
    )
}

/// The record of row `i`, or the reason why the row cannot be stored.
fn record(columns: &Vec<Column>, p: &Places, i: usize) -> (r: Result<PatientRecord, StorageError>)
    requires
        (Table { columns: models_of(columns@) }).well_formed(),
        p.fit(Table { columns: models_of(columns@) }),
        i < (Table { columns: models_of(columns@) }).height(),
    ensures
        match r {
            Ok(rec) => {
                &&& row_failure(Table { columns: models_of(columns@) }, i as int) is None
                &&& rec@ == record_at(Table { columns: models_of(columns@) }, i as int)
            },
            Err(e) => row_failure(Table { columns: models_of(columns@) }, i as int) == Some(e@),
        },
{
    let ghost t = Table { columns: models_of(columns@) };
    proof {
        assert(t.columns[p.age as int].cells.len() == t.height());
        assert(t.columns[p.gender as int].cells.len() == t.height());
        assert(t.columns[p.blood_type as int].cells.len() == t.height());
        assert(t.columns[p.medical_condition as int].cells.len() == t.height());
        assert(t.columns[p.billing_amount as int].cells.len() == t.height());
        assert(t.columns[p.medication as int].cells.len() == t.height());
        assert(t.columns[p.test_results as int].cells.len() == t.height());
        assert(t.columns[p.date_of_admission as int].cells.len() == t.height());
        assert(t.columns[p.admission_type as int].cells.len() == t.height());
    }
    let age = match age_value(columns, p.age, i) {
        Ok(v) => v,
        Err(e) => { return Err(e); },
    };
    let gender = match text_value(columns, p.gender, "Gender", i) {
        Ok(v) => v,
        Err(e) => { return Err(e); },
    };
    let blood_type = match text_value(columns, p.blood_type, "Blood Type", i) {
        Ok(v) => v,
        Err(e) => { return Err(e); },
    };
    let medical_condition = match text_value(
        columns,
        p.medical_condition,
        "Medical Condition",
        i,
    ) {
        Ok(v) => v,
        Err(e) => { return Err(e); },
    };
    let billing_amount = match amount_value(columns, p.billing_amount, i) {
        Ok(v) => v,
        Err(e) => { return Err(e); },
    };
    let medication = match text_value(columns, p.medication, "Medication", i) {
        Ok(v) => v,
        Err(e) => { return Err(e); },
    };
    let test_results = match text_value(columns, p.test_results, "Test Results", i) {
        Ok(v) => v,
        Err(e) => { return Err(e); },
    };
    let date_of_admission = match date_value(columns, p.date_of_admission, i) {
        Ok(v) => v,
        Err(e) => { return Err(e); },
    };
    let admission_type = match text_value(columns, p.admission_type, "Admission Type", i) {
        Ok(v) => v,
        Err(e) => { return Err(e); },
    };
    Ok(
        PatientRecord {
            age,
            gender,
            blood_type,
            medical_condition,
            billing_amount,
            medication,
            test_results,
            date_of_admission,
            admission_type,
        },
    )
}

/// Why row `i` of a table gives no record, if it gives none: the columns
/// cannot be read, or else the table has no such row, or else the row
/// cannot be stored.
pub open spec fn record_failure(t: Table, i: int) -> Option<StorageFailure> {
    or_else(
        schema_failure(t),
        if i < t.height() {
            row_failure(t, i)
        } else {
            Some(StorageFailure { kind: StorageErrorKind::NoSuchRow, column: ""@, row: i })
        },
    )
}

/// Tests whether a table has the nine columns that the store takes, each
/// of its type, and reports the first that is absent or of another type.
pub fn storable_columns(d: &Dataset) -> (r: Result<(), StorageError>)
    ensures
        match r {
            Ok(_) => schema_failure(d@) is None,
            Err(e) => schema_failure(d@) == Some(e@),
        },
{
    match places(d.columns()) {
        Ok(_) => Ok(()),
        Err(e) => Err(e),
    }
}

/// The record of row `i` of a table. This succeeds exactly where the table
/// has the nine columns, each of its type, and a row `i` with a value in
/// each of them, a finite billing amount and a day that has a calendar
/// date. Else the first column at fault is reported, or the missing row, or
/// the row's first cell at fault.
pub fn patient_record(d: &Dataset, i: usize) -> (r: Result<PatientRecord, StorageError>)
    ensures
        match r {
            Ok(rec) => record_failure(d@, i as int) is None && rec@ == record_at(d@, i as int),
            Err(e) => record_failure(d@, i as int) == Some(e@),
        },
{
    let columns = d.columns();
    let p = match places(columns) {
        Ok(p) => p,
        Err(e) => { return Err(e); },
    };
    if i < d.height() {
        record(columns, &p, i)
    } else {
        Err(StorageError::new(StorageErrorKind::NoSuchRow, "", i))
    }
}

/// The records of a table's rows, in order. This succeeds exactly where the
/// table has the nine columns, each of its type, and every row has a value
/// in each of them, a finite billing amount and a day that has a calendar
/// date. Else the first column at fault is reported, or, where the columns
/// can be read, the first cell at fault of the first row at fault.
pub fn patient_records(d: &Dataset) -> (r: Result<Vec<PatientRecord>, StorageError>)
    ensures
        match r {
            Ok(records) => storage_failure(d@) is None && records_of(records@) == records_at(d@),
            Err(e) => storage_failure(d@) == Some(e@),
        },
{
    let columns = d.columns();
    let ghost t = d@;
    let p = match places(columns) {
        Ok(p) => p,
        Err(e) => { return Err(e); },
    };
    let height = d.height();
    let mut records: Vec<PatientRecord> = Vec::new();
    let mut i: usize = 0;
    while i < height
        invariant
            i <= height,
            height == t.height(),
            t == d@,
            t == (Table { columns: models_of(columns@) }),
            t.well_formed(),
            p.fit(t),
            rows_failure(t, i as nat) is None,
            records@.len() == i,
            forall|k: int| 0 <= k < i ==> (#[trigger] records@[k])@ == record_at(t, k),
        decreases height - i,
    {
        match record(columns, &p, i) {
            Ok(rec) => {
                records.push(rec);
            },
            Err(e) => {
                proof {
                    assert(rows_failure(t, (i + 1) as nat) == Some(e@));
                    lemma_rows_failure_stays(t, (i + 1) as nat, t.height());
                }
                return Err(e);
            },
        }
        i += 1;
    }
    proof {
        assert(records_of(records@) =~= records_at(t));
    }
    Ok(records)
}

} // verus!
