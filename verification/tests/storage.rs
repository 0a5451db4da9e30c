use rust_data_pipeline::dataset::{Column, ColumnData, Dataset};
use rust_data_pipeline::storage::{
    epoch_day_to_date, patient_record, patient_records, storable_columns, CalendarDate,
    StorageErrorKind, EPOCH_DAY_NUMBER,
};
use rust_data_pipeline::transformation::transform_data;

fn texts(name: &str, cells: Vec<Option<&str>>) -> Column {
    Column {
        name: name.to_string(),
        data: ColumnData::Text(cells.into_iter().map(|c| c.map(|s| s.to_string())).collect()),
    }
}

fn storable(
    ages: Vec<Option<i32>>,
    amounts: Vec<Option<f64>>,
    medications: Vec<Option<&str>>,
    days: Vec<Option<i32>>,
) -> Dataset {
    let n = ages.len();
    Dataset::new(vec![
        Column { name: "Age".to_string(), data: ColumnData::Int32(ages) },
        texts("Gender", vec![Some("f"); n]),
        texts("Blood Type", vec![Some("A+"); n]),
        texts("Medical Condition", vec![Some("Healthy"); n]),
        Column {
            name: "Billing Amount".to_string(),
            data: ColumnData::Float64(amounts.into_iter().map(|c| c.map(f64::to_bits)).collect()),
        },
        texts("Medication", medications),
        texts("Test Results", vec![Some("Normal"); n]),
        Column { name: "Date of Admission".to_string(), data: ColumnData::Date(days) },
        texts("Admission Type", vec![Some("Emergency"); n]),
    ])
    .unwrap()
}

#[test]
fn each_row_gives_a_record() {
    let d = storable(
        vec![Some(25), Some(30)],
        vec![Some(1.0), Some(2.5)],
        vec![Some("None"), Some("Aspirin")],
        vec![Some(19358), Some(0)],
    );
    let records = patient_records(&d).unwrap();
    assert_eq!(records.len(), 2);
    assert_eq!(records[0].age, 25);
    assert_eq!(records[0].gender, "f");
    assert_eq!(records[0].blood_type, "A+");
    assert_eq!(records[0].medical_condition, "Healthy");
    assert_eq!(f64::from_bits(records[0].billing_amount), 1.0);
    assert_eq!(records[0].medication, "None");
    assert_eq!(records[0].test_results, "Normal");
    assert_eq!(records[0].date_of_admission, CalendarDate { year: 2023, month: 1, day: 1 });
    assert_eq!(records[0].admission_type, "Emergency");
    assert_eq!(records[1].age, 30);
    assert_eq!(f64::from_bits(records[1].billing_amount), 2.5);
    assert_eq!(records[1].medication, "Aspirin");
    assert_eq!(records[1].date_of_admission, CalendarDate { year: 1970, month: 1, day: 1 });
}

#[test]
fn a_table_without_rows_gives_no_records() {
    let d = storable(vec![], vec![], vec![], vec![]);
    assert!(patient_records(&d).unwrap().is_empty());
}

#[test]
fn an_absent_column_is_reported() {
    let d = Dataset::new(vec![Column { name: "Age".to_string(), data: ColumnData::Int32(vec![]) }])
        .unwrap();
    let e = patient_records(&d).unwrap_err();
    assert_eq!((e.kind, e.column.as_str(), e.row), (StorageErrorKind::MissingColumn, "Gender", 0));
    let e = patient_records(&Dataset::new(vec![]).unwrap()).unwrap_err();
    assert_eq!((e.kind, e.column.as_str(), e.row), (StorageErrorKind::MissingColumn, "Age", 0));
}

#[test]
fn a_column_of_another_type_is_reported() {
    let d = Dataset::new(vec![
        Column { name: "Age".to_string(), data: ColumnData::Int64(vec![Some(25)]) },
        texts("Gender", vec![Some("f")]),
    ])
    .unwrap();
    let e = patient_records(&d).unwrap_err();
    assert_eq!((e.kind, e.column.as_str(), e.row), (StorageErrorKind::WrongType, "Age", 0));
}

#[test]
fn the_first_missing_value_is_reported() {
    let d = storable(
        vec![Some(25), Some(30), None],
        vec![Some(1.0), Some(2.0), Some(3.0)],
        vec![Some("None"), None, Some("None")],
        vec![Some(1), None, Some(3)],
    );
    let e = patient_records(&d).unwrap_err();
    assert_eq!((e.kind, e.column.as_str(), e.row), (StorageErrorKind::MissingValue, "Medication", 1));
}

#[test]
fn an_amount_that_is_no_finite_number_is_reported() {
    let d = storable(
        vec![Some(25), Some(30)],
        vec![Some(1.0), Some(f64::NAN)],
        vec![Some("None"), None],
        vec![Some(1), Some(2)],
    );
    let e = patient_records(&d).unwrap_err();
    assert_eq!(
        (e.kind, e.column.as_str(), e.row),
        (StorageErrorKind::InvalidAmount, "Billing Amount", 1)
    );
    let d = storable(vec![Some(25)], vec![Some(f64::INFINITY)], vec![Some("None")], vec![Some(1)]);
    let e = patient_records(&d).unwrap_err();
    assert_eq!(e.kind, StorageErrorKind::InvalidAmount);
    let d = storable(vec![Some(25)], vec![None], vec![Some("None")], vec![Some(1)]);
    let e = patient_records(&d).unwrap_err();
    assert_eq!(
        (e.kind, e.column.as_str(), e.row),
        (StorageErrorKind::MissingValue, "Billing Amount", 0)
    );
}

#[test]
fn a_day_without_a_calendar_date_is_reported() {
    let d = storable(
        vec![Some(25), Some(26)],
        vec![Some(1.0), Some(1.0)],
        vec![Some("None"), Some("None")],
        vec![Some(0), Some(100_000_000)],
    );
    assert!(patient_record(&d, 0).is_ok());
    let e = patient_records(&d).unwrap_err();
    assert_eq!(
        (e.kind, e.column.as_str(), e.row),
        (StorageErrorKind::InvalidDate, "Date of Admission", 1)
    );
    let d = storable(vec![Some(25)], vec![Some(1.0)], vec![Some("None")], vec![None]);
    let e = patient_records(&d).unwrap_err();
    assert_eq!(
        (e.kind, e.column.as_str(), e.row),
        (StorageErrorKind::MissingValue, "Date of Admission", 0)
    );
}

#[test]
fn a_day_whose_number_is_beyond_32_bits_is_reported() {
    let d = storable(vec![Some(25)], vec![Some(1.0)], vec![Some("None")], vec![Some(i32::MAX)]);
    let e = patient_records(&d).unwrap_err();
    assert_eq!(
        (e.kind, e.column.as_str(), e.row),
        (StorageErrorKind::InvalidDate, "Date of Admission", 0)
    );
}

#[test]
fn days_are_counted_from_1970() {
    assert_eq!(EPOCH_DAY_NUMBER, 719_163);
    assert_eq!(epoch_day_to_date(0), Some(CalendarDate { year: 1970, month: 1, day: 1 }));
    assert_eq!(epoch_day_to_date(-1), Some(CalendarDate { year: 1969, month: 12, day: 31 }));
    assert_eq!(epoch_day_to_date(19358), Some(CalendarDate { year: 2023, month: 1, day: 1 }));
    assert_eq!(epoch_day_to_date(19782), Some(CalendarDate { year: 2024, month: 2, day: 29 }));
    assert_eq!(epoch_day_to_date(-719_162), Some(CalendarDate { year: 1, month: 1, day: 1 }));
    assert_eq!(epoch_day_to_date(-719_163), Some(CalendarDate { year: 0, month: 12, day: 31 }));
    assert_eq!(epoch_day_to_date(i32::MAX - 719_163), None);
    assert_eq!(epoch_day_to_date(i32::MAX - 719_162), None);
    assert_eq!(epoch_day_to_date(i32::MAX), None);
    assert_eq!(epoch_day_to_date(i32::MIN), None);
}

#[test]
fn a_transformed_table_can_be_stored() {
    let df = Dataset::new(vec![
        texts("Name", vec![Some("Alice"), Some("BOB")]),
        texts("Gender", vec![Some("F"), Some("M")]),
        Column { name: "Age".to_string(), data: ColumnData::Int64(vec![Some(25), Some(30)]) },
        texts("Blood Type", vec![Some("A+"), Some("B-")]),
        texts("Medical Condition", vec![Some("Healthy"), Some("Flu")]),
        Column {
            name: "Billing Amount".to_string(),
            data: ColumnData::Float64(vec![Some(1000.0f64.to_bits()), Some(2000.0f64.to_bits())]),
        },
        texts("Medication", vec![Some("None"), Some("Aspirin")]),
        texts("Test Results", vec![Some("Normal"), Some("Elevated")]),
        texts("Date of Admission", vec![Some("2023-01-01"), Some("2023-02-15")]),
        texts("Admission Type", vec![Some("Emergency"), Some("Scheduled")]),
    ])
    .unwrap();
    let out = transform_data(df).unwrap();
    let records = patient_records(&out).unwrap();
    assert_eq!(records.len(), 2);
    assert_eq!(records[1].age, 30);
    assert_eq!(records[1].gender, "m");
    assert_eq!(f64::from_bits(records[1].billing_amount), 2.0);
    assert_eq!(records[0].date_of_admission, CalendarDate { year: 2023, month: 1, day: 1 });
    assert_eq!(records[1].date_of_admission, CalendarDate { year: 2023, month: 2, day: 15 });
}

#[test]
fn a_single_row_gives_its_record() {
    let d = storable(
        vec![Some(25), Some(30), None],
        vec![Some(1.0), Some(2.5), Some(3.0)],
        vec![Some("None"), Some("Aspirin"), Some("None")],
        vec![Some(19358), Some(1), Some(2)],
    );
    assert!(storable_columns(&d).is_ok());
    let second = patient_record(&d, 1).unwrap();
    assert_eq!(second.age, 30);
    assert_eq!(second.medication, "Aspirin");
    assert_eq!(second.date_of_admission, CalendarDate { year: 1970, month: 1, day: 2 });
    let e = patient_record(&d, 2).unwrap_err();
    assert_eq!((e.kind, e.column.as_str(), e.row), (StorageErrorKind::MissingValue, "Age", 2));
    let e = patient_record(&d, 3).unwrap_err();
    assert_eq!((e.kind, e.column.as_str(), e.row), (StorageErrorKind::NoSuchRow, "", 3));
}

#[test]
fn columns_are_tested_before_rows() {
    let d = Dataset::new(vec![
        Column { name: "Age".to_string(), data: ColumnData::Int32(vec![None]) },
        texts("Gender", vec![Some("f")]),
        Column { name: "Blood Type".to_string(), data: ColumnData::Int64(vec![Some(1)]) },
    ])
    .unwrap();
    let e = storable_columns(&d).unwrap_err();
    assert_eq!((e.kind, e.column.as_str(), e.row), (StorageErrorKind::WrongType, "Blood Type", 0));
    let e = patient_record(&d, 0).unwrap_err();
    assert_eq!((e.kind, e.column.as_str(), e.row), (StorageErrorKind::WrongType, "Blood Type", 0));
    let e = patient_record(&d, 7).unwrap_err();
    assert_eq!((e.kind, e.column.as_str(), e.row), (StorageErrorKind::WrongType, "Blood Type", 0));
    let e = patient_records(&d).unwrap_err();
    assert_eq!((e.kind, e.column.as_str(), e.row), (StorageErrorKind::WrongType, "Blood Type", 0));
}
