//! The three stages of the transformation and their composition.

use crate::dataset::{
    find_column, lemma_position_unique, models_of, Cells, Column, ColumnData, ColumnModel, Dataset,
    Table,
};
use crate::engine::{
    lowercase_idempotent_on, lowercase_is_idempotent_on, lowercase_texts, lowercased_cells,
    parse_dates, parsed_cells, scale_amounts, scaled_cells,
};
use crate::error::{ErrorKind, Failure, PipelineError, Stage};
use crate::rows::{kept, lemma_cells_retain, lemma_retain_rows, retain_cells, retain_rows};
use vstd::prelude::*;

verus! {

/// The name of the column of patient names.
pub open spec fn name_column() -> Seq<char> {
    "Name"@
}

/// The name of the column of genders.
pub open spec fn gender_column() -> Seq<char> {
    "Gender"@
}

impl Table {
    /// The table with the text cells of column `at` in lowercase.
    pub open spec fn lowercase_at(self, at: int) -> Table {
        match self.columns[at].cells {
            Cells::Text(s) => Table {
                columns: self.columns.update(
                    at,
                    ColumnModel { name: self.columns[at].name, cells: Cells::Text(lowercased_cells(s)) },
                ),
            },
            _ => self,
        }
    }

    /// Whether the table has a text column of this name.
    pub open spec fn has_text(self, name: Seq<char>) -> bool {
        self.has(name) && self.column(name).cells is Text
    }
}

/// The failure of cleaning on a table, if it fails: a schema error at the
/// name column, or else at the gender column, where that column is absent
/// or not of text.
pub open spec fn clean_failure(t: Table) -> Option<Failure> {
    if !t.has_text(name_column()) {
        Some(Failure { kind: ErrorKind::SchemaError, stage: Stage::Clean, column: name_column() })
    } else if !t.has_text(gender_column()) {
        Some(Failure { kind: ErrorKind::SchemaError, stage: Stage::Clean, column: gender_column() })
    } else {
        None
    }
}

/// What cleaning makes of a table on which it does not fail: the same
/// table, with the names and the genders in lowercase.
pub open spec fn cleaned(t: Table) -> Table {
    t.lowercase_at(t.position(name_column())).lowercase_at(t.position(gender_column()))
}

/// Finds the text column of this name.
fn text_column(columns: &Vec<Column>, name: &str, stage: Stage) -> (r: Result<usize, PipelineError>)
    requires
        (Table { columns: models_of(columns@) }).distinct_names(),
    ensures
        match r {
            Ok(at) => {
                &&& (Table { columns: models_of(columns@) }).has_text(name@)
                &&& at == (Table { columns: models_of(columns@) }).position(name@)
                &&& at < columns@.len()
            },
            Err(e) => {
                &&& !(Table { columns: models_of(columns@) }).has_text(name@)
                &&& e@ == (Failure { kind: ErrorKind::SchemaError, stage, column: name@ })
            },
        },
{
    let ghost t = Table { columns: models_of(columns@) };
    match find_column(columns, name) {
        Some(at) => {
            proof {
                lemma_position_unique(t, name@, at as int);
            }
            match &columns[at].data {
                ColumnData::Text(_) => Ok(at),
                _ => Err(PipelineError::new(ErrorKind::SchemaError, stage, name)),
            }
        },
        None => {
            proof {
                assert forall|k: int| 0 <= k < t.columns.len() implies (#[trigger] t.columns[k]).name
                    != name@ by {
                    assert(columns@[k].name@ != name@);
                }
            }
            Err(PipelineError::new(ErrorKind::SchemaError, stage, name))
        },
    }
}

/// Puts the text cells of column `at` in lowercase.
fn lowercase_column(columns: &mut Vec<Column>, at: usize)
    requires
        at < old(columns)@.len(),
    ensures
        final(columns)@.len() == old(columns)@.len(),
        (Table { columns: models_of(final(columns)@) }) == (Table {
            columns: models_of(old(columns)@),
        }).lowercase_at(at as int),
{
    let ghost before = Table { columns: models_of(columns@) };
    let Column { name, data } = columns.remove(at);
    let data = match data {
        ColumnData::Text(cells) => ColumnData::Text(lowercase_texts(&cells)),
        other => other,
    };
    columns.insert(at, Column { name, data });
    proof {
        assert(models_of(columns@) =~= before.lowercase_at(at as int).columns);
    }
}

/// Cleans a table: the names and the genders are put in lowercase, cell by
/// cell, and nothing else changes. Fails with a schema error where one of
/// the two columns is absent or not of text.
pub fn clean_data(d: Dataset) -> (r: Result<Dataset, PipelineError>)
    ensures
        match r {
            Ok(out) => clean_failure(d@) is None && out@ == cleaned(d@) && out@.well_formed(),
            Err(e) => clean_failure(d@) == Some(e@),
        },
{
    let ghost t = d@;
    let mut columns = d.into_columns();
    let name_at = match text_column(&columns, "Name", Stage::Clean) {
        Ok(at) => at,
        Err(e) => { return Err(e); },
    };
    let gender_at = match text_column(&columns, "Gender", Stage::Clean) {
        Ok(at) => at,
        Err(e) => { return Err(e); },
    };
    lowercase_column(&mut columns, name_at);
    lowercase_column(&mut columns, gender_at);
    proof {
        lemma_lowercase_at(t, name_at as int);
        lemma_lowercase_at(t.lowercase_at(name_at as int), gender_at as int);
    }
    Ok(Dataset::from_columns(columns))
}

/// Whether lowercasing is idempotent on the cells of a column; it is on
/// cells that are no texts.
pub open spec fn lowercase_settled(cells: Cells) -> bool {
    match cells {
        Cells::Text(s) => lowercase_idempotent_on(s),
        _ => true,
    }
}

/// Whether cleaning accepts a table and lowercasing is idempotent on its
/// names and its genders.
pub open spec fn cleaning_settled(t: Table) -> bool {
    &&& clean_failure(t) is None
    &&& lowercase_settled(t.column(name_column()).cells)
    &&& lowercase_settled(t.column(gender_column()).cells)
}

/// Whether lowercasing is idempotent on the cells of the column at `at`.
fn column_settles(columns: &Vec<Column>, at: usize) -> (b: bool)
    requires
        at < columns@.len(),
    ensures
        b == lowercase_settled(columns@[at as int]@.cells),
{
    match &columns[at].data {
        ColumnData::Text(cells) => lowercase_is_idempotent_on(cells),
        _ => true,
    }
}

/// Tests whether cleaning accepts a table and lowercasing is idempotent on
/// its names and its genders, by lowercasing them twice. Where it is,
/// cleaning the cleaned table changes nothing.
pub fn cleaning_settles(d: &Dataset) -> (b: bool)
    ensures
        b == cleaning_settled(d@),
{
    let columns = d.columns();
    let name_at = match text_column(columns, "Name", Stage::Clean) {
        Ok(at) => at,
        Err(_) => { return false; },
    };
    let gender_at = match text_column(columns, "Gender", Stage::Clean) {
        Ok(at) => at,
        Err(_) => { return false; },
    };
    column_settles(columns, name_at) && column_settles(columns, gender_at)
}

/// Lowercasing a column of a table leaves a table of the same shape under
/// the same names.
pub proof fn lemma_lowercase_at(t: Table, at: int)
    requires
        t.well_formed(),
        0 <= at < t.columns.len(),
    ensures
        t.lowercase_at(at).well_formed(),
        t.lowercase_at(at).columns.len() == t.columns.len(),
        t.lowercase_at(at).height() == t.height(),
        forall|c: int|
            0 <= c < t.columns.len() ==> (#[trigger] t.lowercase_at(at).columns[c]).name
                == t.columns[c].name && t.lowercase_at(at).columns[c].cells.dtype()
                == t.columns[c].cells.dtype(),
{
    let u = t.lowercase_at(at);
    assert forall|c: int| 0 <= c < u.columns.len() implies (#[trigger] u.columns[c]).cells.len()
        == u.height() by {
        assert(t.columns[c].cells.len() == t.height());
        assert(t.columns[0].cells.len() == t.height());
    }
    assert forall|a: int, b: int| 0 <= a < b < u.columns.len() implies (#[trigger] u.columns[a]).name
        != (#[trigger] u.columns[b]).name by {
        assert(t.columns[a].name != t.columns[b].name);
    }
}

/// The name of the column of ages.
pub open spec fn age_column() -> Seq<char> {
    "Age"@
}

/// The name of the column of blood types.
pub open spec fn blood_type_column() -> Seq<char> {
    "Blood Type"@
}

/// The name of the column of medical conditions.
pub open spec fn medical_condition_column() -> Seq<char> {
    "Medical Condition"@
}

/// The name of the column of billing amounts.
pub open spec fn billing_amount_column() -> Seq<char> {
    "Billing Amount"@
}

/// The name of the column of medications.
pub open spec fn medication_column() -> Seq<char> {
    "Medication"@
}

/// The name of the column of test results.
pub open spec fn test_results_column() -> Seq<char> {
    "Test Results"@
}

/// The name of the column of admission dates.
pub open spec fn date_of_admission_column() -> Seq<char> {
    "Date of Admission"@
}

/// The name of the column of admission types.
pub open spec fn admission_type_column() -> Seq<char> {
    "Admission Type"@
}

/// The least age that is kept.
pub const MIN_AGE: i64 = 0;

/// The greatest age that is kept.
pub const MAX_AGE: i64 = 120;

/// A 64-bit integer cell as a 32-bit one: the same number where it fits,
/// and missing where it does not.
pub open spec fn narrowed_cell(cell: Option<i64>) -> Option<i32> {
    match cell {
        Some(a) => if i32::MIN <= a <= i32::MAX {
            Some(a as i32)
        } else {
            None
        },
        None => None,
    }
}

/// 64-bit integer cells as 32-bit ones.
pub open spec fn narrowed_cells(cells: Seq<Option<i64>>) -> Seq<Option<i32>> {
    Seq::new(cells.len(), |i: int| narrowed_cell(cells[i]))
}

impl Cells {
    /// Whether the cells are integers, of either width.
    pub open spec fn is_integer(self) -> bool {
        self is Int64 || self is Int32
    }

    /// Whether cell `i` holds an age from 0 to 120.
    pub open spec fn age_accepted(self, i: int) -> bool {
        match self {
            Cells::Int64(s) => s[i] matches Some(a) && MIN_AGE <= a <= MAX_AGE,
            Cells::Int32(s) => s[i] matches Some(a) && MIN_AGE <= a <= MAX_AGE,
            _ => false,
        }
    }

    /// Integer cells as 32-bit integers.
    pub open spec fn narrowed(self) -> Cells {
        match self {
            Cells::Int64(s) => Cells::Int32(narrowed_cells(s)),
            other => other,
        }
    }

    /// Amount cells divided by 1000.
    pub open spec fn scaled(self) -> Cells {
        match self {
            Cells::Float64(s) => Cells::Float64(scaled_cells(s)),
            other => other,
        }
    }

    /// Text cells read as dates.
    pub open spec fn dated(self) -> Cells {
        match self {
            Cells::Text(s) => Cells::Date(parsed_cells(s)),
            other => other,
        }
    }
}

impl Table {
    /// Whether row `i` has a value in every column.
    pub open spec fn row_complete(self, i: int) -> bool {
        forall|c: int| 0 <= c < self.columns.len() ==> (#[trigger] self.columns[c]).cells.present(i)
    }
}

/// The first column of a normalised table, in its order, that a table
/// lacks.
pub open spec fn missing_column(t: Table) -> Option<Seq<char>> {
    if !t.has(gender_column()) {
        Some(gender_column())
    } else if !t.has(age_column()) {
        Some(age_column())
    } else if !t.has(blood_type_column()) {
        Some(blood_type_column())
    } else if !t.has(medical_condition_column()) {
        Some(medical_condition_column())
    } else if !t.has(billing_amount_column()) {
        Some(billing_amount_column())
    } else if !t.has(medication_column()) {
        Some(medication_column())
    } else if !t.has(test_results_column()) {
        Some(test_results_column())
    } else if !t.has(date_of_admission_column()) {
        Some(date_of_admission_column())
    } else if !t.has(admission_type_column()) {
        Some(admission_type_column())
    } else {
        None
    }
}

/// The failure of normalisation on a table, if it fails. A schema error
/// names the first column that is absent. Where none is, a type error names
/// the first of these that is not of the type it must have: the ages
/// (integers), the billing amounts (binary64), the admission dates (text).
pub open spec fn normalize_failure(t: Table) -> Option<Failure> {
    match missing_column(t) {
        Some(column) => Some(
            Failure { kind: ErrorKind::SchemaError, stage: Stage::Normalize, column },
        ),
        None => if !t.column(age_column()).cells.is_integer() {
            Some(
                Failure {
                    kind: ErrorKind::TypeError,
                    stage: Stage::Normalize,
                    column: age_column(),
                },
            )
        } else if !(t.column(billing_amount_column()).cells is Float64) {
            Some(
                Failure {
                    kind: ErrorKind::TypeError,
                    stage: Stage::Normalize,
                    column: billing_amount_column(),
                },
            )
        } else if !(t.column(date_of_admission_column()).cells is Text) {
            Some(
                Failure {
                    kind: ErrorKind::TypeError,
                    stage: Stage::Normalize,
                    column: date_of_admission_column(),
                },
            )
        } else {
            None
        },
    }
}

/// The rows that normalisation keeps: those with an age from 0 to 120 and a
/// value in every column of the table, whether or not the column is kept.
pub open spec fn normalize_mask(t: Table) -> Seq<bool> {
    Seq::new(
        t.height(),
        |i: int| t.column(age_column()).cells.age_accepted(i) && t.row_complete(i),
    )
}

/// What normalisation makes of a table on which it does not fail: of the
/// rows kept, the nine columns in this order (the genders first, then the
/// ages), with the ages as 32-bit integers, the billing amounts divided by
/// 1000 and the admission dates read from their texts.
pub open spec fn normalized(t: Table) -> Table {
    let m = normalize_mask(t);
    Table {
        columns: seq![
            ColumnModel { name: gender_column(), cells: t.column(gender_column()).cells.retain(m) },
            ColumnModel {
                name: age_column(),
                cells: t.column(age_column()).cells.retain(m).narrowed(),
            },
            ColumnModel {
                name: blood_type_column(),
                cells: t.column(blood_type_column()).cells.retain(m),
            },
            ColumnModel {
                name: medical_condition_column(),
                cells: t.column(medical_condition_column()).cells.retain(m),
            },
            ColumnModel {
                name: billing_amount_column(),
                cells: t.column(billing_amount_column()).cells.retain(m).scaled(),
            },
            ColumnModel {
                name: medication_column(),
                cells: t.column(medication_column()).cells.retain(m),
            },
            ColumnModel {
                name: test_results_column(),
                cells: t.column(test_results_column()).cells.retain(m),
            },
            ColumnModel {
                name: date_of_admission_column(),
                cells: t.column(date_of_admission_column()).cells.retain(m).dated(),
            },
            ColumnModel {
                name: admission_type_column(),
                cells: t.column(admission_type_column()).cells.retain(m),
            },
        ],
    }
}

/// Finds the column of this name.
fn required_column(columns: &Vec<Column>, name: &str, stage: Stage) -> (r: Result<
    usize,
    PipelineError,
>)
    requires
        (Table { columns: models_of(columns@) }).distinct_names(),
    ensures
        match r {
            Ok(at) => {
                &&& (Table { columns: models_of(columns@) }).has(name@)
                &&& at == (Table { columns: models_of(columns@) }).position(name@)
                &&& at < columns@.len()
            },
            Err(e) => {
                &&& !(Table { columns: models_of(columns@) }).has(name@)
                &&& e@ == (Failure { kind: ErrorKind::SchemaError, stage, column: name@ })
            },
        },
{
    let ghost t = Table { columns: models_of(columns@) };
    match find_column(columns, name) {
        Some(at) => {
            proof {
                lemma_position_unique(t, name@, at as int);
            }
            Ok(at)
        },
        None => {
            proof {
                assert forall|k: int| 0 <= k < t.columns.len() implies (#[trigger] t.columns[k]).name
                    != name@ by {
                    assert(columns@[k].name@ != name@);
                }
            }
            Err(PipelineError::new(ErrorKind::SchemaError, stage, name))
        },
    }
}

/// Whether there is a cell `i` and it holds an age from 0 to 120.
fn age_accepted(data: &ColumnData, i: usize) -> (b: bool)
    ensures
        b == (i < data@.len() && data@.age_accepted(i as int)),
{
    match data {
        ColumnData::Int64(v) => i < v.len() && match v[i] {
            Some(a) => MIN_AGE <= a && a <= MAX_AGE,
            None => false,
        },
        ColumnData::Int32(v) => i < v.len() && match v[i] {
            Some(a) => MIN_AGE <= a as i64 && a as i64 <= MAX_AGE,
            None => false,
        },
        _ => false,
    }
}

/// Whether row `i` has a value in every column.
fn row_complete(columns: &Vec<Column>, i: usize) -> (b: bool)
    requires
        (Table { columns: models_of(columns@) }).rectangular(),
        i < (Table { columns: models_of(columns@) }).height(),
    ensures
        b == (Table { columns: models_of(columns@) }).row_complete(i as int),
{
    let ghost t = Table { columns: models_of(columns@) };
    let mut c: usize = 0;
    while c < columns.len()
        invariant
            c <= columns@.len(),
            t == (Table { columns: models_of(columns@) }),
            t.rectangular(),
            i < t.height(),
            forall|k: int| 0 <= k < c ==> (#[trigger] t.columns[k]).cells.present(i as int),
        decreases columns@.len() - c,
    {
        if !columns[c].data.is_present(i) {
            proof {
                assert(t.columns[c as int].cells.len() == t.height());
                assert(!t.columns[c as int].cells.present(i as int));
            }
            return false;
        }
        c += 1;
    }
    true
}

/// Marks the rows that normalisation keeps.
fn normalize_rows(columns: &Vec<Column>, age_at: usize) -> (mask: Vec<bool>)
    requires
        (Table { columns: models_of(columns@) }).well_formed(),
        (Table { columns: models_of(columns@) }).has(age_column()),
        age_at == (Table { columns: models_of(columns@) }).position(age_column()),
        age_at < columns@.len(),
    ensures
        mask@ == normalize_mask(Table { columns: models_of(columns@) }),
{
    let ghost t = Table { columns: models_of(columns@) };
    let height = columns[0].data.len();
    let mut mask: Vec<bool> = Vec::new();
    let mut i: usize = 0;
    while i < height
        invariant
            i <= height,
            height == t.height(),
            t == (Table { columns: models_of(columns@) }),
            t.well_formed(),
            age_at == t.position(age_column()),
            age_at < columns@.len(),
            mask@.len() == i,
            forall|k: int| 0 <= k < i ==> mask@[k] == normalize_mask(t)[k],
        decreases height - i,
    {
        proof {
            assert(t.columns[age_at as int].cells.len() == t.height());
        }
        let keep = age_accepted(&columns[age_at].data, i) && row_complete(columns, i);
        mask.push(keep);
        i += 1;
    }
    proof {
        assert(mask@ =~= normalize_mask(t));
    }
    mask
}

/// 64-bit integer cells as 32-bit ones.
fn narrow_cells(cells: &Vec<Option<i64>>) -> (out: Vec<Option<i32>>)
    ensures
        out@ == narrowed_cells(cells@),
{
    let mut out: Vec<Option<i32>> = Vec::new();
    let mut i: usize = 0;
    while i < cells.len()
        invariant
            i <= cells@.len(),
            out@.len() == i,
            forall|k: int| 0 <= k < i ==> out@[k] == narrowed_cell(cells@[k]),
        decreases cells@.len() - i,
    {
        let cell = match cells[i] {
            Some(a) => if i32::MIN as i64 <= a && a <= i32::MAX as i64 {
                Some(a as i32)
            } else {
                None
            },
            None => None,
        };
        out.push(cell);
        i += 1;
    }
    proof {
        assert(out@ =~= narrowed_cells(cells@));
    }
    out
}

/// Integer cells as 32-bit integers.
fn narrow(data: ColumnData) -> (out: ColumnData)
    ensures
        out@ == data@.narrowed(),
{
    match data {
        ColumnData::Int64(cells) => ColumnData::Int32(narrow_cells(&cells)),
        other => other,
    }
}

/// Amount cells divided by 1000.
fn scale(data: ColumnData) -> (out: ColumnData)
    ensures
        out@ == data@.scaled(),
{
    match data {
        ColumnData::Float64(cells) => ColumnData::Float64(scale_amounts(&cells)),
        other => other,
    }
}

/// Text cells read as dates.
fn date(data: ColumnData) -> (out: ColumnData)
    ensures
        out@ == data@.dated(),
{
    match data {
        ColumnData::Text(cells) => ColumnData::Date(parse_dates(&cells)),
        other => other,
    }
}

/// The column of this name with the rows that the mask keeps.
fn kept_column(columns: &Vec<Column>, at: usize, mask: &Vec<bool>) -> (out: Column)
    requires
        at < columns@.len(),
    ensures
        out@ == (ColumnModel {
            name: columns@[at as int]@.name,
            cells: columns@[at as int]@.cells.retain(mask@),
        }),
{
    Column { name: columns[at].name.clone(), data: retain_cells(&columns[at].data, mask) }
}

/// The names of the nine columns of a normalised table differ from each
/// other.
pub proof fn lemma_output_names_differ()
    ensures
        normalized_names_distinct(),
{
    reveal_strlit("Age");
    reveal_strlit("Gender");
    reveal_strlit("Blood Type");
    reveal_strlit("Medical Condition");
    reveal_strlit("Billing Amount");
    reveal_strlit("Medication");
    reveal_strlit("Test Results");
    reveal_strlit("Date of Admission");
    reveal_strlit("Admission Type");
    let names = seq![
        gender_column(),
        age_column(),
        blood_type_column(),
        medical_condition_column(),
        billing_amount_column(),
        medication_column(),
        test_results_column(),
        date_of_admission_column(),
        admission_type_column(),
    ];
    let lengths = seq![6nat, 3, 10, 17, 14, 10, 12, 17, 14];
    let initials = seq!['G', 'A', 'B', 'M', 'B', 'M', 'T', 'D', 'A'];
    assert forall|k: int| 0 <= k < 9 implies (#[trigger] names[k]).len() == lengths[k]
        && names[k][0] == initials[k] by {
        if k == 0 {
        } else if k == 1 {
        } else if k == 2 {
        } else if k == 3 {
        } else if k == 4 {
        } else if k == 5 {
        } else if k == 6 {
        } else if k == 7 {
        } else {
        }
    }
    assert forall|a: int, b: int| 0 <= a < b < 9 implies names[a] != names[b] by {
        assert(names[a].len() == lengths[a] && names[a][0] == initials[a]);
        assert(names[b].len() == lengths[b] && names[b][0] == initials[b]);
        assert(lengths[a] != lengths[b] || initials[a] != initials[b]);
    }
}

/// That no two of the nine names are the same.
pub open spec fn normalized_names_distinct() -> bool {
    let names = seq![
        gender_column(),
        age_column(),
        blood_type_column(),
        medical_condition_column(),
        billing_amount_column(),
        medication_column(),
        test_results_column(),
        date_of_admission_column(),
        admission_type_column(),
    ];
    forall|a: int, b: int| 0 <= a < b < 9 ==> names[a] != names[b]
}

/// Where normalisation does not fail, its result is a table of nine columns
/// with as many rows as the mask keeps, which is no more than there were.
pub proof fn lemma_normalized(t: Table)
    requires
        t.well_formed(),
        normalize_failure(t) is None,
    ensures
        normalized(t).well_formed(),
        normalized(t).width() == 9,
        normalized(t).height() == kept(normalize_mask(t), t.height()),
        normalized(t).height() <= t.height(),
{
    let m = normalize_mask(t);
    let n = normalized(t);
    let h = kept(m, t.height());
    lemma_kept_column(t, gender_column(), m);
    lemma_kept_column(t, age_column(), m);
    lemma_kept_column(t, blood_type_column(), m);
    lemma_kept_column(t, medical_condition_column(), m);
    lemma_kept_column(t, billing_amount_column(), m);
    lemma_kept_column(t, medication_column(), m);
    lemma_kept_column(t, test_results_column(), m);
    lemma_kept_column(t, date_of_admission_column(), m);
    lemma_kept_column(t, admission_type_column(), m);
    assert(n.columns[0].cells.len() == h);
    assert(n.columns[1].cells.len() == h);
    assert(n.columns[2].cells.len() == h);
    assert(n.columns[3].cells.len() == h);
    assert(n.columns[4].cells.len() == h);
    assert(n.columns[5].cells.len() == h);
    assert(n.columns[6].cells.len() == h);
    assert(n.columns[7].cells.len() == h);
    assert(n.columns[8].cells.len() == h);
    lemma_output_names_differ();
    let names = seq![
        gender_column(),
        age_column(),
        blood_type_column(),
        medical_condition_column(),
        billing_amount_column(),
        medication_column(),
        test_results_column(),
        date_of_admission_column(),
        admission_type_column(),
    ];
    assert forall|a: int, b: int| 0 <= a < b < n.columns.len() implies (#[trigger] n.columns[a]).name
        != (#[trigger] n.columns[b]).name by {
        assert(n.columns[a].name == names[a]);
        assert(n.columns[b].name == names[b]);
    }
}

/// The rows kept of a column that a table has are of the column's type and
/// as many as the mask keeps of the table's rows.
pub proof fn lemma_kept_column(t: Table, name: Seq<char>, mask: Seq<bool>)
    requires
        t.well_formed(),
        t.has(name),
    ensures
        0 <= t.position(name) < t.columns.len(),
        t.column(name).name == name,
        t.column(name).cells.len() == t.height(),
        t.column(name).cells.retain(mask).dtype() == t.column(name).cells.dtype(),
        t.column(name).cells.retain(mask).len() == kept(mask, t.height()),
        kept(mask, t.height()) <= t.height(),
{
    lemma_cells_retain(t.column(name).cells, mask);
}

/// Normalises a table. Of the rows with an age from 0 to 120 and without a
/// missing value in any column, it keeps nine columns, in this order: the
/// genders, the ages as 32-bit integers, the blood types, the medical
/// conditions, the billing amounts divided by 1000, the medications, the
/// test results, the admission dates read from their texts under the format
/// year-month-day (a text that spells no date gives a missing value), and
/// the admission types. Fails with a schema error where one of the nine is
/// absent, and else with a type error where the ages are no integers, the
/// billing amounts no binary64 numbers or the admission dates no texts.
pub fn normalize_data(d: Dataset) -> (r: Result<Dataset, PipelineError>)
    ensures
        match r {
            Ok(out) => normalize_failure(d@) is None && out@ == normalized(d@)
                && out@.well_formed(),
            Err(e) => normalize_failure(d@) == Some(e@),
        },
{
    let ghost t = d@;
    let columns = d.into_columns();
    let gender_at = match required_column(&columns, "Gender", Stage::Normalize) {
        Ok(at) => at,
        Err(e) => { return Err(e); },
    };
    let age_at = match required_column(&columns, "Age", Stage::Normalize) {
        Ok(at) => at,
        Err(e) => { return Err(e); },
    };
    let blood_type_at = match required_column(&columns, "Blood Type", Stage::Normalize) {
        Ok(at) => at,
        Err(e) => { return Err(e); },
    };
    let medical_condition_at = match required_column(
        &columns,
        "Medical Condition",
        Stage::Normalize,
    ) {
        Ok(at) => at,
        Err(e) => { return Err(e); },
    };
    let billing_amount_at = match required_column(&columns, "Billing Amount", Stage::Normalize) {
        Ok(at) => at,
        Err(e) => { return Err(e); },
    };
    let medication_at = match required_column(&columns, "Medication", Stage::Normalize) {
        Ok(at) => at,
        Err(e) => { return Err(e); },
    };
    let test_results_at = match required_column(&columns, "Test Results", Stage::Normalize) {
        Ok(at) => at,
        Err(e) => { return Err(e); },
    };
    let date_of_admission_at = match required_column(
        &columns,
        "Date of Admission",
        Stage::Normalize,
    ) {
        Ok(at) => at,
        Err(e) => { return Err(e); },
    };
    let admission_type_at = match required_column(&columns, "Admission Type", Stage::Normalize) {
        Ok(at) => at,
        Err(e) => { return Err(e); },
    };
    match &columns[age_at].data {
        ColumnData::Int64(_) => {},
        ColumnData::Int32(_) => {},
        _ => {
            return Err(PipelineError::new(ErrorKind::TypeError, Stage::Normalize, "Age"));
        },
    }
    match &columns[billing_amount_at].data {
        ColumnData::Float64(_) => {},
        _ => {
            return Err(
                PipelineError::new(ErrorKind::TypeError, Stage::Normalize, "Billing Amount"),
            );
        },
    }
    match &columns[date_of_admission_at].data {
        ColumnData::Text(_) => {},
        _ => {
            return Err(
                PipelineError::new(ErrorKind::TypeError, Stage::Normalize, "Date of Admission"),
            );
        },
    }
    let mask = normalize_rows(&columns, age_at);
    let Column { name: age_name, data: ages } = kept_column(&columns, age_at, &mask);
    let Column { name: billing_name, data: amounts } = kept_column(
        &columns,
        billing_amount_at,
        &mask,
    );
    let Column { name: date_name, data: dates } = kept_column(
        &columns,
        date_of_admission_at,
        &mask,
    );
    let mut out: Vec<Column> = Vec::new();
    out.push(kept_column(&columns, gender_at, &mask));
    out.push(Column { name: age_name, data: narrow(ages) });
    out.push(kept_column(&columns, blood_type_at, &mask));
    out.push(kept_column(&columns, medical_condition_at, &mask));
    out.push(Column { name: billing_name, data: scale(amounts) });
    out.push(kept_column(&columns, medication_at, &mask));
    out.push(kept_column(&columns, test_results_at, &mask));
    out.push(Column { name: date_name, data: date(dates) });
    out.push(kept_column(&columns, admission_type_at, &mask));
    proof {
        lemma_normalized(t);
        assert(models_of(out@) =~= normalized(t).columns);
    }
    Ok(Dataset::from_columns(out))
}

/// The failure of validation on a table, if it fails: a schema error at
/// the column of admission dates, where it is absent or holds no dates.
pub open spec fn validate_failure(t: Table) -> Option<Failure> {
    if !t.has(date_of_admission_column()) || !(t.column(date_of_admission_column()).cells
        is Date) {
        Some(
            Failure {
                kind: ErrorKind::SchemaError,
                stage: Stage::Validate,
                column: date_of_admission_column(),
            },
        )
    } else {
        None
    }
}

/// The rows that validation keeps: those with an admission date.
pub open spec fn validate_mask(t: Table) -> Seq<bool> {
    Seq::new(t.height(), |i: int| t.column(date_of_admission_column()).cells.present(i))
}

/// What validation makes of a table on which it does not fail: the rows
/// with an admission date, all columns unchanged.
pub open spec fn validated(t: Table) -> Table {
    t.retain_rows(validate_mask(t))
}

/// Marks the rows whose cell in the column at `at` holds a value.
fn present_rows(columns: &Vec<Column>, at: usize) -> (mask: Vec<bool>)
    requires
        at < columns@.len(),
    ensures
        mask@ == Seq::new(columns@[at as int]@.cells.len(), |i: int| columns@[at as int]@.cells.present(i)),
{
    let data = &columns[at].data;
    let n = data.len();
    let mut mask: Vec<bool> = Vec::new();
    let mut i: usize = 0;
    while i < n
        invariant
            i <= n,
            n == data@.len(),
            mask@.len() == i,
            forall|k: int| 0 <= k < i ==> mask@[k] == data@.present(k),
        decreases n - i,
    {
        mask.push(data.is_present(i));
        i += 1;
    }
    proof {
        assert(mask@ =~= Seq::new(data@.len(), |i: int| data@.present(i)));
    }
    mask
}

/// Validates a table: the rows without an admission date are removed, and
/// nothing else changes. Fails with a schema error where the column of
/// admission dates is absent or holds no dates.
pub fn validate_data(d: Dataset) -> (r: Result<Dataset, PipelineError>)
    ensures
        match r {
            Ok(out) => validate_failure(d@) is None && out@ == validated(d@) && out@.well_formed(),
            Err(e) => validate_failure(d@) == Some(e@),
        },
{
    let ghost t = d@;
    let columns = d.into_columns();
    let at = match required_column(&columns, "Date of Admission", Stage::Validate) {
        Ok(at) => at,
        Err(e) => { return Err(e); },
    };
    match &columns[at].data {
        ColumnData::Date(_) => {},
        _ => {
            return Err(
                PipelineError::new(ErrorKind::SchemaError, Stage::Validate, "Date of Admission"),
            );
        },
    }
    let mask = present_rows(&columns, at);
    let out = retain_rows(&columns, &mask);
    proof {
        assert(t.columns[at as int].cells.len() == t.height());
        assert(mask@ =~= validate_mask(t));
        lemma_retain_rows(t, mask@);
    }
    Ok(Dataset::from_columns(out))
}

/// The failure of the whole transformation on a table, if it fails: that of
/// the first stage that fails.
pub open spec fn transform_failure(t: Table) -> Option<Failure> {
    if clean_failure(t) is Some {
        clean_failure(t)
    } else if normalize_failure(cleaned(t)) is Some {
        normalize_failure(cleaned(t))
    } else {
        validate_failure(normalized(cleaned(t)))
    }
}

/// What the whole transformation makes of a table on which it does not
/// fail.
pub open spec fn transformed(t: Table) -> Table {
    validated(normalized(cleaned(t)))
}

/// Transforms a table: cleans it, normalises the result and validates that.
/// The first failure ends the work, and no later stage runs.
pub fn transform_data(d: Dataset) -> (r: Result<Dataset, PipelineError>)
    ensures
        match r {
            Ok(out) => transform_failure(d@) is None && out@ == transformed(d@)
                && out@.well_formed(),
            Err(e) => transform_failure(d@) == Some(e@),
        },
{
    let cleaned = match clean_data(d) {
        Ok(out) => out,
        Err(e) => { return Err(e); },
    };
    let normalized = match normalize_data(cleaned) {
        Ok(out) => out,
        Err(e) => { return Err(e); },
    };
    validate_data(normalized)
}

} // verus!
