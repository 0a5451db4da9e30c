//! What holds of the stages on every table.

use crate::dataset::{lemma_position_unique, Cells, Table};
use crate::engine::{lowercased, lowercased_cells, parsed_cell, scaled_cell};
use crate::rows::{kept, lemma_cells_origin, lemma_cells_retain, lemma_retain_rows, origin};
use crate::storage::{row_failure, schema_failure, StorageErrorKind};
use crate::transformation::{
    admission_type_column, age_column, billing_amount_column, blood_type_column, clean_failure,
    cleaned, cleaning_settled, date_of_admission_column, gender_column, lemma_kept_column, lemma_lowercase_at,
    lemma_normalized, medical_condition_column, medication_column, name_column,
    normalize_failure, normalize_mask, normalized, test_results_column, transform_failure,
    transformed, validate_failure, validate_mask, validated, MAX_AGE, MIN_AGE,
};
use vstd::prelude::*;

verus! {

/// Cleaning is idempotent: a table that cleaning accepts it accepts again
/// once cleaned, and the second cleaning changes nothing. This holds
/// wherever lowercasing is idempotent on the names and the genders, that
/// is, where the lowercase form of each of them is its own lowercase form;
/// `cleaning_settles` tests a table for it.
pub proof fn clean_is_idempotent(t: Table)
    requires
        t.well_formed(),
        cleaning_settled(t),
    ensures
        cleaned(t).well_formed(),
        clean_failure(cleaned(t)) is None,
        cleaned(cleaned(t)) == cleaned(t),
{
    let i = t.position(name_column());
    let j = t.position(gender_column());
    assert(i != j) by {
        reveal_strlit("Name");
        reveal_strlit("Gender");
        assert(name_column().len() != gender_column().len());
    }
    let u1 = t.lowercase_at(i);
    lemma_lowercase_at(t, i);
    let u = u1.lowercase_at(j);
    lemma_lowercase_at(u1, j);
    assert(u == cleaned(t));
    assert(u.columns[i].name == name_column());
    assert(u.columns[j].name == gender_column());
    lemma_position_unique(u, name_column(), i);
    lemma_position_unique(u, gender_column(), j);
    let si = t.columns[i].cells->Text_0;
    let sj = t.columns[j].cells->Text_0;
    assert(u1.columns[j] == t.columns[j]);
    assert(u.columns[i].cells == Cells::Text(lowercased_cells(si)));
    assert(u.columns[j].cells == Cells::Text(lowercased_cells(sj)));
    assert(lowercased_cells(lowercased_cells(si)) =~= lowercased_cells(si)) by {
        assert forall|k: int| 0 <= k < si.len() implies lowercased_cells(lowercased_cells(si))[k]
            == lowercased_cells(si)[k] by {
            if si[k] is Some {
                assert(lowercased(lowercased(si[k]->0)) == lowercased(si[k]->0));
            }
        }
    }
    assert(lowercased_cells(lowercased_cells(sj)) =~= lowercased_cells(sj)) by {
        assert forall|k: int| 0 <= k < sj.len() implies lowercased_cells(lowercased_cells(sj))[k]
            == lowercased_cells(sj)[k] by {
            if sj[k] is Some {
                assert(lowercased(lowercased(sj[k]->0)) == lowercased(sj[k]->0));
            }
        }
    }
    assert(u.lowercase_at(i).columns =~= u.columns);
    assert(u.lowercase_at(i) == u);
    assert(u.lowercase_at(j).columns =~= u.columns);
}

/// The age that an integer cell holds.
pub open spec fn age_at(cells: Cells, i: int) -> Option<int> {
    match cells {
        Cells::Int64(s) => match s[i] {
            Some(a) => Some(a as int),
            None => None,
        },
        Cells::Int32(s) => match s[i] {
            Some(a) => Some(a as int),
            None => None,
        },
        _ => None,
    }
}

/// Whether a table has the nine columns of a normalised table and no
/// other, in their order: the genders, the ages, the blood types, the
/// medical conditions, the billing amounts, the medications, the test
/// results, the admission dates and the admission types.
pub open spec fn has_output_columns(t: Table) -> bool {
    &&& t.columns.len() == 9
    &&& t.columns[0].name == gender_column()
    &&& t.columns[1].name == age_column()
    &&& t.columns[2].name == blood_type_column()
    &&& t.columns[3].name == medical_condition_column()
    &&& t.columns[4].name == billing_amount_column()
    &&& t.columns[5].name == medication_column()
    &&& t.columns[6].name == test_results_column()
    &&& t.columns[7].name == date_of_admission_column()
    &&& t.columns[8].name == admission_type_column()
}

/// In a table of the nine columns, each name finds its column at the place
/// that the order gives it.
pub proof fn lemma_output_places(t: Table)
    requires
        t.distinct_names(),
        has_output_columns(t),
    ensures
        t.has(gender_column()) && t.position(gender_column()) == 0,
        t.has(age_column()) && t.position(age_column()) == 1,
        t.has(blood_type_column()) && t.position(blood_type_column()) == 2,
        t.has(medical_condition_column()) && t.position(medical_condition_column()) == 3,
        t.has(billing_amount_column()) && t.position(billing_amount_column()) == 4,
        t.has(medication_column()) && t.position(medication_column()) == 5,
        t.has(test_results_column()) && t.position(test_results_column()) == 6,
        t.has(date_of_admission_column()) && t.position(date_of_admission_column()) == 7,
        t.has(admission_type_column()) && t.position(admission_type_column()) == 8,
{
    lemma_position_unique(t, gender_column(), 0);
    lemma_position_unique(t, age_column(), 1);
    lemma_position_unique(t, blood_type_column(), 2);
    lemma_position_unique(t, medical_condition_column(), 3);
    lemma_position_unique(t, billing_amount_column(), 4);
    lemma_position_unique(t, medication_column(), 5);
    lemma_position_unique(t, test_results_column(), 6);
    lemma_position_unique(t, date_of_admission_column(), 7);
    lemma_position_unique(t, admission_type_column(), 8);
}

/// A normalised table has the nine columns in their order, the genders
/// first and the ages second.
pub proof fn normalized_columns_in_order(t: Table)
    requires
        t.well_formed(),
        normalize_failure(t) is None,
    ensures
        normalized(t).well_formed(),
        has_output_columns(normalized(t)),
{
    lemma_normalized(t);
}

/// A normalised table that has been validated has the nine columns in
/// their order still, each of the type it had.
pub proof fn validated_columns_in_order(t: Table)
    requires
        t.well_formed(),
        normalize_failure(t) is None,
    ensures
        normalized(t).well_formed(),
        has_output_columns(normalized(t)),
        validate_failure(normalized(t)) is None,
        validated(normalized(t)).well_formed(),
        has_output_columns(validated(normalized(t))),
        validated(normalized(t)).height() == kept(
            validate_mask(normalized(t)),
            normalized(t).height(),
        ),
        validated(normalized(t)).height() <= normalized(t).height(),
        forall|c: int|
            0 <= c < 9 ==> (#[trigger] validated(normalized(t)).columns[c]).cells.dtype()
                == normalized(t).columns[c].cells.dtype(),
{
    let n = normalized(t);
    let m = validate_mask(n);
    let out = validated(n);
    normalized_columns_in_order(t);
    lemma_output_places(n);
    lemma_retain_rows(n, m);
    assert forall|c: int| 0 <= c < 9 implies (#[trigger] out.columns[c]).cells.dtype()
        == n.columns[c].cells.dtype() by {
        lemma_cells_retain(n.columns[c].cells, m);
    }
}

/// Each row of a normalised table comes from a row of the table given, one
/// that the mask keeps: its age is that row's age, from 0 to 120; its
/// billing amount is that row's, divided by 1000; its admission date is
/// what that row's text spells; and its other six cells hold values.
pub proof fn normalized_row_comes_from_a_kept_row(t: Table, row: int)
    requires
        t.well_formed(),
        normalize_failure(t) is None,
        0 <= row < normalized(t).height(),
    ensures
        ({
            let from = origin(normalize_mask(t), t.height(), row);
            let out = normalized(t);
            &&& 0 <= from < t.height()
            &&& normalize_mask(t)[from]
            &&& out.column(age_column()).cells is Int32
            &&& age_at(out.column(age_column()).cells, row) is Some
            &&& age_at(out.column(age_column()).cells, row) == age_at(
                t.column(age_column()).cells,
                from,
            )
            &&& MIN_AGE <= age_at(out.column(age_column()).cells, row)->0 <= MAX_AGE
            &&& out.column(billing_amount_column()).cells is Float64
            &&& t.column(billing_amount_column()).cells->Float64_0[from] is Some
            &&& out.column(billing_amount_column()).cells->Float64_0[row] == scaled_cell(
                t.column(billing_amount_column()).cells->Float64_0[from],
            )
            &&& out.column(date_of_admission_column()).cells is Date
            &&& t.column(date_of_admission_column()).cells->Text_0[from] is Some
            &&& out.column(date_of_admission_column()).cells->Date_0[row] == parsed_cell(
                t.column(date_of_admission_column()).cells->Text_0[from],
            )
            &&& out.column(gender_column()).cells.present(row)
            &&& out.column(blood_type_column()).cells.present(row)
            &&& out.column(medical_condition_column()).cells.present(row)
            &&& out.column(medication_column()).cells.present(row)
            &&& out.column(test_results_column()).cells.present(row)
            &&& out.column(admission_type_column()).cells.present(row)
        }),
{
    let m = normalize_mask(t);
    let from = origin(m, t.height(), row);
    let out = normalized(t);
    lemma_normalized(t);
    normalized_columns_in_order(t);
    lemma_output_places(out);
    lemma_kept_origin(t, age_column(), m, row);
    lemma_kept_origin(t, gender_column(), m, row);
    lemma_kept_origin(t, blood_type_column(), m, row);
    lemma_kept_origin(t, medical_condition_column(), m, row);
    lemma_kept_origin(t, billing_amount_column(), m, row);
    lemma_kept_origin(t, medication_column(), m, row);
    lemma_kept_origin(t, test_results_column(), m, row);
    lemma_kept_origin(t, date_of_admission_column(), m, row);
    lemma_kept_origin(t, admission_type_column(), m, row);
    assert(t.row_complete(from));
    assert(t.column(age_column()).cells.age_accepted(from));
}

/// The cell that a selection of a table's rows puts at place `row` of a
/// column is the column's cell of the row that the place comes from.
pub proof fn lemma_kept_origin(t: Table, name: Seq<char>, mask: Seq<bool>, row: int)
    requires
        t.well_formed(),
        t.has(name),
        0 <= row < kept(mask, t.height()),
    ensures
        0 <= origin(mask, t.height(), row) < t.height(),
        origin(mask, t.height(), row) < mask.len(),
        mask[origin(mask, t.height(), row)],
        t.column(name).cells.retain(mask).present(row) == t.column(name).cells.present(
            origin(mask, t.height(), row),
        ),
        match (t.column(name).cells, t.column(name).cells.retain(mask)) {
            (Cells::Text(a), Cells::Text(b)) => b[row] == a[origin(mask, t.height(), row)],
            (Cells::Int64(a), Cells::Int64(b)) => b[row] == a[origin(mask, t.height(), row)],
            (Cells::Int32(a), Cells::Int32(b)) => b[row] == a[origin(mask, t.height(), row)],
            (Cells::Float64(a), Cells::Float64(b)) => b[row] == a[origin(mask, t.height(), row)],
            (Cells::Date(a), Cells::Date(b)) => b[row] == a[origin(mask, t.height(), row)],
            _ => false,
        },
{
    lemma_kept_column(t, name, mask);
    lemma_cells_origin(t.column(name).cells, mask, row);
}

/// Validation accepts every table that normalisation gives.
pub proof fn validation_accepts_normalized(t: Table)
    requires
        t.well_formed(),
        normalize_failure(t) is None,
    ensures
        validate_failure(normalized(t)) is None,
{
    validated_columns_in_order(t);
}

/// In every row that is left after normalisation and validation, the age is
/// from 0 to 120 and the admission date is a date; and no cell of the row is
/// missing.
pub proof fn surviving_rows_are_valid(t: Table, row: int)
    requires
        t.well_formed(),
        normalize_failure(t) is None,
        0 <= row < validated(normalized(t)).height(),
    ensures
        ({
            let out = validated(normalized(t));
            &&& out.well_formed()
            &&& out.width() == 9
            &&& out.column(age_column()).cells is Int32
            &&& age_at(out.column(age_column()).cells, row) is Some
            &&& MIN_AGE <= age_at(out.column(age_column()).cells, row)->0 <= MAX_AGE
            &&& out.column(date_of_admission_column()).cells is Date
            &&& out.column(date_of_admission_column()).cells->Date_0[row] is Some
            &&& out.row_complete(row)
        }),
{
    let n = normalized(t);
    let m = validate_mask(n);
    let out = validated(n);
    validated_columns_in_order(t);
    lemma_output_places(n);
    lemma_output_places(out);
    let from = origin(m, n.height(), row);
    assert forall|c: int| 0 <= c < 9 implies (#[trigger] out.columns[c]).cells.present(row)
        == n.columns[c].cells.present(from) && 0 <= from < n.height() && m[from] by {
        assert(n.columns[c].cells.len() == n.height());
        lemma_cells_origin(n.columns[c].cells, m, row);
    }
    normalized_row_comes_from_a_kept_row(t, from);
    lemma_cells_origin(n.columns[1].cells, m, row);
    lemma_cells_origin(n.columns[7].cells, m, row);
    assert forall|c: int| 0 <= c < out.columns.len() implies (#[trigger] out.columns[c]).cells.present(
        row,
    ) by {
        if c == 0 {
        } else if c == 1 {
        } else if c == 2 {
        } else if c == 3 {
        } else if c == 4 {
        } else if c == 5 {
        } else if c == 6 {
        } else if c == 7 {
        } else {
        }
    }
}

/// No stage adds a row: a cleaned table has the rows it had, and a
/// normalised or validated one has no more than it had.
pub proof fn stages_add_no_rows(t: Table)
    requires
        t.well_formed(),
    ensures
        clean_failure(t) is None ==> cleaned(t).height() == t.height(),
        normalize_failure(t) is None ==> normalized(t).height() <= t.height(),
        validate_failure(t) is None ==> validated(t).height() <= t.height(),
{
    if clean_failure(t) is None {
        lemma_cleaned(t);
    }
    if normalize_failure(t) is None {
        lemma_normalized(t);
    }
    if validate_failure(t) is None {
        lemma_retain_rows(t, validate_mask(t));
    }
}

/// Where cleaning does not fail, its result is a table of the same shape.
pub proof fn lemma_cleaned(t: Table)
    requires
        t.well_formed(),
        clean_failure(t) is None,
    ensures
        cleaned(t).well_formed(),
        cleaned(t).width() == t.width(),
        cleaned(t).height() == t.height(),
{
    let i = t.position(name_column());
    let j = t.position(gender_column());
    lemma_lowercase_at(t, i);
    lemma_lowercase_at(t.lowercase_at(i), j);
}

/// The whole transformation fails exactly where cleaning fails or
/// normalisation fails on the cleaned table; where it does not, it gives a
/// table of the nine columns in their order, with no more rows than it was
/// given.
pub proof fn transformation_adds_no_rows(t: Table)
    requires
        t.well_formed(),
    ensures
        transform_failure(t) is None <==> clean_failure(t) is None && normalize_failure(
            cleaned(t),
        ) is None,
        transform_failure(t) is None ==> transformed(t).well_formed() && has_output_columns(
            transformed(t),
        ) && transformed(t).height() <= t.height(),
{
    if clean_failure(t) is None {
        lemma_cleaned(t);
        let c = cleaned(t);
        if normalize_failure(c) is None {
            lemma_normalized(c);
            validated_columns_in_order(c);
        }
    }
}

/// In every row that the whole transformation gives, the age is from 0 to
/// 120, the admission date is a date, and no cell is missing.
pub proof fn transformed_rows_are_valid(t: Table, row: int)
    requires
        t.well_formed(),
        transform_failure(t) is None,
        0 <= row < transformed(t).height(),
    ensures
        ({
            let out = transformed(t);
            &&& out.column(age_column()).cells is Int32
            &&& age_at(out.column(age_column()).cells, row) is Some
            &&& MIN_AGE <= age_at(out.column(age_column()).cells, row)->0 <= MAX_AGE
            &&& out.column(date_of_admission_column()).cells is Date
            &&& out.column(date_of_admission_column()).cells->Date_0[row] is Some
            &&& out.row_complete(row)
        }),
{
    transformation_adds_no_rows(t);
    lemma_cleaned(t);
    surviving_rows_are_valid(cleaned(t), row);
}

/// Cleaning changes no column but the names and the genders.
pub proof fn cleaning_keeps_other_columns(t: Table, name: Seq<char>)
    requires
        t.well_formed(),
        clean_failure(t) is None,
        t.has(name),
        name != name_column(),
        name != gender_column(),
    ensures
        cleaned(t).has(name),
        cleaned(t).position(name) == t.position(name),
        cleaned(t).column(name) == t.column(name),
{
    let i = t.position(name_column());
    let j = t.position(gender_column());
    let k = t.position(name);
    lemma_lowercase_at(t, i);
    lemma_lowercase_at(t.lowercase_at(i), j);
    assert(cleaned(t).columns[k] == t.columns[k]);
    lemma_position_unique(cleaned(t), name, k);
}

/// Each billing amount that the whole transformation gives is the billing
/// amount of a row of the table given, divided by 1000. The row is the
/// result.
pub proof fn transformed_amount_is_a_thousandth(t: Table, row: int) -> (from: int)
    requires
        t.well_formed(),
        transform_failure(t) is None,
        0 <= row < transformed(t).height(),
    ensures
        0 <= from < t.height(),
        t.column(billing_amount_column()).cells is Float64,
        t.column(billing_amount_column()).cells->Float64_0[from] is Some,
        transformed(t).column(billing_amount_column()).cells is Float64,
        transformed(t).column(billing_amount_column()).cells->Float64_0[row] == scaled_cell(
            t.column(billing_amount_column()).cells->Float64_0[from],
        ),
{
    transformation_adds_no_rows(t);
    lemma_cleaned(t);
    let c = cleaned(t);
    let n = normalized(c);
    let m = validate_mask(n);
    let out = validated(n);
    validated_columns_in_order(c);
    lemma_output_places(n);
    lemma_output_places(out);
    assert(n.columns[4].cells.len() == n.height());
    lemma_cells_origin(n.columns[4].cells, m, row);
    let middle = origin(m, n.height(), row);
    normalized_row_comes_from_a_kept_row(c, middle);
    assert(billing_amount_column() != name_column() && billing_amount_column()
        != gender_column()) by {
        reveal_strlit("Name");
        reveal_strlit("Gender");
        reveal_strlit("Billing Amount");
        assert(billing_amount_column().len() == 14);
        assert(name_column().len() == 4);
        assert(gender_column().len() == 6);
    }
    cleaning_keeps_other_columns(t, billing_amount_column());
    origin(normalize_mask(c), c.height(), middle)
}

/// A normalised table has no column of names.
pub proof fn normalization_drops_the_names(t: Table)
    requires
        t.well_formed(),
        normalize_failure(t) is None,
    ensures
        !normalized(t).has(name_column()),
        !validated(normalized(t)).has(name_column()),
{
    let n = normalized(t);
    let v = validated(n);
    reveal_strlit("Name");
    reveal_strlit("Age");
    reveal_strlit("Gender");
    reveal_strlit("Blood Type");
    reveal_strlit("Medical Condition");
    reveal_strlit("Billing Amount");
    reveal_strlit("Medication");
    reveal_strlit("Test Results");
    reveal_strlit("Date of Admission");
    reveal_strlit("Admission Type");
    assert(name_column().len() == 4);
    assert forall|c: int| 0 <= c < 9 implies (#[trigger] n.columns[c]).name.len() != 4 by {
        if c == 0 {
        } else if c == 1 {
        } else if c == 2 {
        } else if c == 3 {
        } else if c == 4 {
        } else if c == 5 {
        } else if c == 6 {
        } else if c == 7 {
        } else {
        }
    }
    assert forall|c: int| 0 <= c < v.columns.len() implies (#[trigger] v.columns[c]).name
        != name_column() by {
        assert(v.columns[c].name == n.columns[c].name);
    }
}

/// Whether a table's column of this name holds texts.
pub open spec fn holds_texts(t: Table, name: Seq<char>) -> bool {
    t.column(name).cells is Text
}

/// What the whole transformation gives, the store can read, wherever the
/// blood types, medical conditions, medications, test results and admission
/// types of the table given are texts: the result has the nine columns that
/// the store takes, each of its type.
pub proof fn transformed_table_fits_the_store(t: Table)
    requires
        t.well_formed(),
        transform_failure(t) is None,
        holds_texts(t, blood_type_column()),
        holds_texts(t, medical_condition_column()),
        holds_texts(t, medication_column()),
        holds_texts(t, test_results_column()),
        holds_texts(t, admission_type_column()),
    ensures
        schema_failure(transformed(t)) is None,
{
    transformation_adds_no_rows(t);
    lemma_cleaned(t);
    let c = cleaned(t);
    let n = normalized(c);
    let m = validate_mask(n);
    let out = transformed(t);
    lemma_other_names_differ();
    cleaning_keeps_other_columns(t, blood_type_column());
    cleaning_keeps_other_columns(t, medical_condition_column());
    cleaning_keeps_other_columns(t, medication_column());
    cleaning_keeps_other_columns(t, test_results_column());
    cleaning_keeps_other_columns(t, admission_type_column());
    assert(c.column(gender_column()).cells is Text) by {
        let i = t.position(name_column());
        let j = t.position(gender_column());
        lemma_lowercase_at(t, i);
        lemma_lowercase_at(t.lowercase_at(i), j);
        assert(c.columns[j].name == gender_column());
        lemma_position_unique(c, gender_column(), j);
    }
    let nm = normalize_mask(c);
    lemma_kept_column(c, gender_column(), nm);
    lemma_kept_column(c, blood_type_column(), nm);
    lemma_kept_column(c, medical_condition_column(), nm);
    lemma_kept_column(c, medication_column(), nm);
    lemma_kept_column(c, test_results_column(), nm);
    lemma_kept_column(c, admission_type_column(), nm);
    lemma_kept_column(c, age_column(), nm);
    lemma_kept_column(c, billing_amount_column(), nm);
    lemma_kept_column(c, date_of_admission_column(), nm);
    validated_columns_in_order(c);
    lemma_output_places(n);
    lemma_output_places(out);
}

/// None of these five columns is named as the names or the genders are.
proof fn lemma_other_names_differ()
    ensures
        blood_type_column() != name_column() && blood_type_column() != gender_column(),
        medical_condition_column() != name_column() && medical_condition_column()
            != gender_column(),
        medication_column() != name_column() && medication_column() != gender_column(),
        test_results_column() != name_column() && test_results_column() != gender_column(),
        admission_type_column() != name_column() && admission_type_column() != gender_column(),
{
    reveal_strlit("Name");
    reveal_strlit("Gender");
    reveal_strlit("Blood Type");
    reveal_strlit("Medical Condition");
    reveal_strlit("Medication");
    reveal_strlit("Test Results");
    reveal_strlit("Admission Type");
    assert(name_column().len() == 4);
    assert(gender_column().len() == 6);
    assert(blood_type_column().len() == 10);
    assert(medical_condition_column().len() == 17);
    assert(medication_column().len() == 10);
    assert(test_results_column().len() == 12);
    assert(admission_type_column().len() == 14);
}

/// A row that the whole transformation gives lacks no value that the store
/// takes: the store refuses it only for a billing amount that is no finite
/// number or for a day that has no calendar date.
pub proof fn transformed_rows_lack_no_value(t: Table, row: int)
    requires
        t.well_formed(),
        transform_failure(t) is None,
        0 <= row < transformed(t).height(),
    ensures
        row_failure(transformed(t), row) matches Some(f) ==> f.kind
            == StorageErrorKind::InvalidAmount || f.kind == StorageErrorKind::InvalidDate,
{
    transformation_adds_no_rows(t);
    lemma_cleaned(t);
    let c = cleaned(t);
    let n = normalized(c);
    let out = transformed(t);
    surviving_rows_are_valid(c, row);
    validated_columns_in_order(c);
    lemma_output_places(out);
    assert forall|k: int| 0 <= k < 9 implies (#[trigger] out.columns[k]).cells.present(row) by {}
}

} // verus!
