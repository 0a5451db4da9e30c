use rust_data_pipeline::dataset::{Column, ColumnData, DataType, Dataset};
use rust_data_pipeline::error::{ErrorKind, Stage};
use rust_data_pipeline::transformation::{
    clean_data, cleaning_settles, normalize_data, transform_data, validate_data,
};

fn texts(name: &str, cells: &[&str]) -> Column {
    Column {
        name: name.to_string(),
        data: ColumnData::Text(cells.iter().map(|c| Some(c.to_string())).collect()),
    }
}

fn int32s(name: &str, cells: &[i32]) -> Column {
    Column { name: name.to_string(), data: ColumnData::Int32(cells.iter().map(|c| Some(*c)).collect()) }
}

fn amounts(name: &str, cells: &[f64]) -> Column {
    Column {
        name: name.to_string(),
        data: ColumnData::Float64(cells.iter().map(|c| Some(c.to_bits())).collect()),
    }
}

fn text_cells(d: &Dataset, name: &str) -> Vec<Option<String>> {
    match &d.column(name).unwrap().data {
        ColumnData::Text(cells) => cells.clone(),
        other => panic!("{} is no text column: {:?}", name, other),
    }
}

fn create_test_dataframe() -> Dataset {
    Dataset::new(vec![
        texts("Name", &["Alice", "BOB", "Charlie"]),
        texts("Gender", &["F", "M", "M"]),
        int32s("Age", &[25, 30, 150]),
        texts("Blood Type", &["A+", "B-", "O+"]),
        texts("Medical Condition", &["Healthy", "Flu", "Headache"]),
        amounts("Billing Amount", &[1000.0, 2000.0, 3000.0]),
        texts("Medication", &["None", "Aspirin", "Ibuprofen"]),
        texts("Test Results", &["Normal", "Elevated", "Normal"]),
        texts("Date of Admission", &["2023-01-01", "2023-02-15", "2023-03-30"]),
        texts("Admission Type", &["Emergency", "Scheduled", "Walk-in"]),
    ])
    .unwrap()
}

#[test]
fn test_transform_data() {
    let df = create_test_dataframe();
    let result = transform_data(df);
    assert!(result.is_ok());

    let transformed_df = result.unwrap();
    assert_eq!(transformed_df.height(), 2);
    assert_eq!(transformed_df.width(), 9);
}

#[test]
fn test_clean_data() {
    let df = Dataset::new(vec![
        texts("Name", &["Alice", "BOB", "Charlie"]),
        texts("Gender", &["F", "M", "M"]),
    ])
    .unwrap();
    let cleaned_df = clean_data(df).unwrap();

    let name_col = text_cells(&cleaned_df, "Name");
    assert_eq!(name_col[0].as_deref(), Some("alice"));
    assert_eq!(name_col[1].as_deref(), Some("bob"));
    assert_eq!(name_col[2].as_deref(), Some("charlie"));

    let gender_col = text_cells(&cleaned_df, "Gender");
    assert_eq!(gender_col[0].as_deref(), Some("f"));
    assert_eq!(gender_col[1].as_deref(), Some("m"));
    assert_eq!(gender_col[2].as_deref(), Some("m"));
}

#[test]
fn test_normalize_data() {
    let df = create_test_dataframe();
    let normalized_df = normalize_data(df).unwrap();

    assert_eq!(normalized_df.height(), 2);
    assert_eq!(normalized_df.width(), 9);

    let age_col = normalized_df.column("Age").unwrap();
    assert!(age_col.data.dtype() == DataType::Int32);

    let billing_col = normalized_df.column("Billing Amount").unwrap();
    let billing_values: Vec<f64> = match &billing_col.data {
        ColumnData::Float64(cells) => cells.iter().map(|c| f64::from_bits(c.unwrap())).collect(),
        other => panic!("no amounts: {:?}", other),
    };
    assert_eq!(billing_values, vec![1.0, 2.0]);

    let date_col = normalized_df.column("Date of Admission").unwrap();
    assert!(date_col.data.dtype() == DataType::Date);
}

fn three_patients() -> Dataset {
    Dataset::new(vec![
        texts("Name", &["Alice", "BOB", "Charlie"]),
        texts("Gender", &["F", "M", "M"]),
        Column {
            name: "Age".to_string(),
            data: ColumnData::Int64(vec![Some(25), Some(150), Some(30)]),
        },
        texts("Blood Type", &["A+", "B-", "O+"]),
        texts("Medical Condition", &["Healthy", "Flu", "Headache"]),
        amounts("Billing Amount", &[1000.0, 2000.0, 3000.0]),
        texts("Medication", &["None", "Aspirin", "Ibuprofen"]),
        texts("Test Results", &["Normal", "Elevated", "Normal"]),
        texts("Date of Admission", &["2023-01-01", "2023-02-15", "invalid"]),
        texts("Admission Type", &["Emergency", "Scheduled", "Walk-in"]),
    ])
    .unwrap()
}

#[test]
fn only_the_valid_patient_survives() {
    let out = transform_data(three_patients()).unwrap();
    assert_eq!(out.height(), 1);
    assert_eq!(out.width(), 9);
    assert!(out.column("Name").is_none());
    let names: Vec<&str> = out.columns().iter().map(|c| c.name.as_str()).collect();
    assert_eq!(
        names,
        vec![
            "Gender",
            "Age",
            "Blood Type",
            "Medical Condition",
            "Billing Amount",
            "Medication",
            "Test Results",
            "Date of Admission",
            "Admission Type"
        ]
    );
    match &out.column("Age").unwrap().data {
        ColumnData::Int32(cells) => assert_eq!(cells, &vec![Some(25)]),
        other => panic!("no 32-bit ages: {:?}", other),
    }
    assert_eq!(text_cells(&out, "Gender"), vec![Some("f".to_string())]);
    assert_eq!(text_cells(&out, "Blood Type"), vec![Some("A+".to_string())]);
    match &out.column("Billing Amount").unwrap().data {
        ColumnData::Float64(cells) => assert_eq!(cells, &vec![Some(1.0f64.to_bits())]),
        other => panic!("no amounts: {:?}", other),
    }
    match &out.column("Date of Admission").unwrap().data {
        ColumnData::Date(cells) => assert_eq!(cells, &vec![Some(19358)]),
        other => panic!("no dates: {:?}", other),
    }
}

#[test]
fn normalize_leaves_the_unreadable_date_missing() {
    let out = normalize_data(three_patients()).unwrap();
    assert_eq!(out.height(), 2);
    match &out.column("Date of Admission").unwrap().data {
        ColumnData::Date(cells) => assert_eq!(cells, &vec![Some(19358), None]),
        other => panic!("no dates: {:?}", other),
    }
    match &out.column("Age").unwrap().data {
        ColumnData::Int32(cells) => assert_eq!(cells, &vec![Some(25), Some(30)]),
        other => panic!("no 32-bit ages: {:?}", other),
    }
    let validated = validate_data(out).unwrap();
    assert_eq!(validated.height(), 1);
    assert_eq!(validated.width(), 9);
}

#[test]
fn billing_amount_two_thousand_becomes_two() {
    let df = Dataset::new(vec![
        texts("Gender", &["F"]),
        int32s("Age", &[40]),
        texts("Blood Type", &["A+"]),
        texts("Medical Condition", &["Healthy"]),
        amounts("Billing Amount", &[2000.0]),
        texts("Medication", &["None"]),
        texts("Test Results", &["Normal"]),
        texts("Date of Admission", &["2023-01-01"]),
        texts("Admission Type", &["Emergency"]),
    ])
    .unwrap();
    let out = normalize_data(df).unwrap();
    match &out.column("Billing Amount").unwrap().data {
        ColumnData::Float64(cells) => {
            assert_eq!(cells.len(), 1);
            assert_eq!(f64::from_bits(cells[0].unwrap()), 2.0);
        },
        other => panic!("no amounts: {:?}", other),
    }
}

#[test]
fn the_name_bob_is_cleaned_to_lowercase() {
    let df = Dataset::new(vec![texts("Name", &["BOB"]), texts("Gender", &["M"])]).unwrap();
    let out = clean_data(df).unwrap();
    assert_eq!(text_cells(&out, "Name"), vec![Some("bob".to_string())]);
}

#[test]
fn cleaning_twice_is_cleaning_once() {
    assert!(cleaning_settles(&three_patients()));
    let once = clean_data(three_patients()).unwrap();
    let names_once = text_cells(&once, "Name");
    let genders_once = text_cells(&once, "Gender");
    let twice = clean_data(once).unwrap();
    assert_eq!(text_cells(&twice, "Name"), names_once);
    assert_eq!(text_cells(&twice, "Gender"), genders_once);
    assert_eq!(twice.width(), 10);
    assert_eq!(twice.height(), 3);
}

#[test]
fn cleaning_keeps_missing_cells_and_other_columns() {
    let df = Dataset::new(vec![
        Column {
            name: "Name".to_string(),
            data: ColumnData::Text(vec![Some("ÉMILE".to_string()), None]),
        },
        texts("Gender", &["F", "M"]),
        texts("Blood Type", &["AB+", "O-"]),
    ])
    .unwrap();
    let out = clean_data(df).unwrap();
    assert_eq!(text_cells(&out, "Name"), vec![Some("émile".to_string()), None]);
    assert_eq!(text_cells(&out, "Blood Type"), vec![Some("AB+".to_string()), Some("O-".to_string())]);
}

#[test]
fn a_missing_age_column_is_a_schema_error() {
    let df = Dataset::new(vec![
        texts("Name", &["Alice"]),
        texts("Gender", &["F"]),
        texts("Blood Type", &["A+"]),
        texts("Medical Condition", &["Healthy"]),
        amounts("Billing Amount", &[1000.0]),
        texts("Medication", &["None"]),
        texts("Test Results", &["Normal"]),
        texts("Date of Admission", &["2023-01-01"]),
        texts("Admission Type", &["Emergency"]),
    ])
    .unwrap();
    let e = transform_data(df).unwrap_err();
    assert_eq!(e.kind, ErrorKind::SchemaError);
    assert_eq!(e.stage, Stage::Normalize);
    assert_eq!(e.column, "Age");
}

#[test]
fn cleaning_fails_without_a_text_column_of_names_or_genders() {
    let e = clean_data(Dataset::new(vec![texts("Gender", &["F"])]).unwrap()).unwrap_err();
    assert_eq!((e.kind, e.stage, e.column.as_str()), (ErrorKind::SchemaError, Stage::Clean, "Name"));
    let e = clean_data(Dataset::new(vec![texts("Name", &["A"])]).unwrap()).unwrap_err();
    assert_eq!((e.kind, e.stage, e.column.as_str()), (ErrorKind::SchemaError, Stage::Clean, "Gender"));
    let e = clean_data(Dataset::new(vec![texts("Name", &["A"]), int32s("Gender", &[1])]).unwrap())
        .unwrap_err();
    assert_eq!((e.kind, e.stage, e.column.as_str()), (ErrorKind::SchemaError, Stage::Clean, "Gender"));
    let e = clean_data(Dataset::new(vec![]).unwrap()).unwrap_err();
    assert_eq!((e.kind, e.stage, e.column.as_str()), (ErrorKind::SchemaError, Stage::Clean, "Name"));
}

fn nine(age: Column, billing: Column, date: Column) -> Dataset {
    Dataset::new(vec![
        age,
        texts("Gender", &["f"]),
        texts("Blood Type", &["A+"]),
        texts("Medical Condition", &["Healthy"]),
        billing,
        texts("Medication", &["None"]),
        texts("Test Results", &["Normal"]),
        date,
        texts("Admission Type", &["Emergency"]),
    ])
    .unwrap()
}

#[test]
fn normalize_reports_type_errors_in_order() {
    let e = normalize_data(nine(
        texts("Age", &["25"]),
        texts("Billing Amount", &["1000"]),
        int32s("Date of Admission", &[1]),
    ))
    .unwrap_err();
    assert_eq!((e.kind, e.stage, e.column.as_str()), (ErrorKind::TypeError, Stage::Normalize, "Age"));
    let e = normalize_data(nine(
        int32s("Age", &[25]),
        texts("Billing Amount", &["1000"]),
        int32s("Date of Admission", &[1]),
    ))
    .unwrap_err();
    assert_eq!(
        (e.kind, e.stage, e.column.as_str()),
        (ErrorKind::TypeError, Stage::Normalize, "Billing Amount")
    );
    let e = normalize_data(nine(
        int32s("Age", &[25]),
        amounts("Billing Amount", &[1000.0]),
        int32s("Date of Admission", &[1]),
    ))
    .unwrap_err();
    assert_eq!(
        (e.kind, e.stage, e.column.as_str()),
        (ErrorKind::TypeError, Stage::Normalize, "Date of Admission")
    );
}

#[test]
fn normalize_names_the_first_absent_column() {
    let df = Dataset::new(vec![int32s("Age", &[25]), texts("Gender", &["f"])]).unwrap();
    let e = normalize_data(df).unwrap_err();
    assert_eq!(
        (e.kind, e.stage, e.column.as_str()),
        (ErrorKind::SchemaError, Stage::Normalize, "Blood Type")
    );
}

#[test]
fn validate_needs_a_column_of_dates() {
    let e = validate_data(Dataset::new(vec![int32s("Age", &[25])]).unwrap()).unwrap_err();
    assert_eq!(
        (e.kind, e.stage, e.column.as_str()),
        (ErrorKind::SchemaError, Stage::Validate, "Date of Admission")
    );
    let e = validate_data(Dataset::new(vec![texts("Date of Admission", &["2023-01-01"])]).unwrap())
        .unwrap_err();
    assert_eq!(
        (e.kind, e.stage, e.column.as_str()),
        (ErrorKind::SchemaError, Stage::Validate, "Date of Admission")
    );
}

#[test]
fn validate_drops_rows_without_a_date_and_reads_nothing_else() {
    let df = Dataset::new(vec![
        Column {
            name: "Date of Admission".to_string(),
            data: ColumnData::Date(vec![Some(1), None, Some(-3)]),
        },
        Column { name: "Note".to_string(), data: ColumnData::Text(vec![None, None, Some("x".to_string())]) },
    ])
    .unwrap();
    let out = validate_data(df).unwrap();
    assert_eq!(out.height(), 2);
    assert_eq!(text_cells(&out, "Note"), vec![None, Some("x".to_string())]);
}

#[test]
fn a_missing_value_in_a_dropped_column_drops_the_row() {
    let df = Dataset::new(vec![
        Column { name: "Name".to_string(), data: ColumnData::Text(vec![None, Some("Dora".to_string())]) },
        texts("Gender", &["F", "F"]),
        int32s("Age", &[25, 26]),
        texts("Blood Type", &["A+", "B+"]),
        texts("Medical Condition", &["Healthy", "Flu"]),
        amounts("Billing Amount", &[1000.0, 500.0]),
        texts("Medication", &["None", "None"]),
        texts("Test Results", &["Normal", "Normal"]),
        texts("Date of Admission", &["2023-01-01", "2024-02-29"]),
        texts("Admission Type", &["Emergency", "Urgent"]),
    ])
    .unwrap();
    let out = transform_data(df).unwrap();
    assert_eq!(out.height(), 1);
    match &out.column("Age").unwrap().data {
        ColumnData::Int32(cells) => assert_eq!(cells, &vec![Some(26)]),
        other => panic!("no 32-bit ages: {:?}", other),
    }
    match &out.column("Billing Amount").unwrap().data {
        ColumnData::Float64(cells) => assert_eq!(f64::from_bits(cells[0].unwrap()), 0.5),
        other => panic!("no amounts: {:?}", other),
    }
    match &out.column("Date of Admission").unwrap().data {
        ColumnData::Date(cells) => assert_eq!(cells, &vec![Some(19782)]),
        other => panic!("no dates: {:?}", other),
    }
}

#[test]
fn ages_at_the_ends_of_the_range_are_kept() {
    let df = Dataset::new(vec![
        Column {
            name: "Age".to_string(),
            data: ColumnData::Int64(vec![Some(-1), Some(0), Some(120), Some(121), None, Some(i64::MAX)]),
        },
        texts("Gender", &["f"; 6]),
        texts("Blood Type", &["A+"; 6]),
        texts("Medical Condition", &["Healthy"; 6]),
        amounts("Billing Amount", &[1.0; 6]),
        texts("Medication", &["None"; 6]),
        texts("Test Results", &["Normal"; 6]),
        texts("Date of Admission", &["2023-01-01"; 6]),
        texts("Admission Type", &["Emergency"; 6]),
    ])
    .unwrap();
    let out = normalize_data(df).unwrap();
    match &out.column("Age").unwrap().data {
        ColumnData::Int32(cells) => assert_eq!(cells, &vec![Some(0), Some(120)]),
        other => panic!("no 32-bit ages: {:?}", other),
    }
}

#[test]
fn a_table_may_come_out_empty() {
    let df = nine(
        int32s("Age", &[130]),
        amounts("Billing Amount", &[1000.0]),
        texts("Date of Admission", &["2023-01-01"]),
    );
    let out = validate_data(normalize_data(df).unwrap()).unwrap();
    assert!(out.is_empty());
    assert_eq!(out.height(), 0);
    assert_eq!(out.width(), 9);
}

#[test]
fn the_pipeline_never_adds_rows() {
    let before = three_patients().height();
    let out = transform_data(three_patients()).unwrap();
    assert!(out.height() <= before);
}

#[test]
fn a_normalized_table_has_the_genders_first() {
    let out = normalize_data(create_test_dataframe()).unwrap();
    let names: Vec<&str> = out.columns().iter().map(|c| c.name.as_str()).collect();
    assert_eq!(
        names,
        vec![
            "Gender",
            "Age",
            "Blood Type",
            "Medical Condition",
            "Billing Amount",
            "Medication",
            "Test Results",
            "Date of Admission",
            "Admission Type"
        ]
    );
    assert_eq!(out.position("Gender"), Some(0));
    assert_eq!(out.position("Age"), Some(1));
}

#[test]
fn normalize_asks_for_the_genders_before_the_ages() {
    let df = Dataset::new(vec![texts("Name", &["Alice"])]).unwrap();
    let e = normalize_data(df).unwrap_err();
    assert_eq!(
        (e.kind, e.stage, e.column.as_str()),
        (ErrorKind::SchemaError, Stage::Normalize, "Gender")
    );
}

#[test]
fn cleaning_settles_on_texts_of_many_scripts() {
    let df = Dataset::new(vec![
        texts("Name", &["ÉMILE ZOLA", "ΟΔΥΣΣΕΑΣ", "İSTANBUL", "Straße", "0123456789 ABCDEFGHIJKLMNOP"]),
        texts("Gender", &["F", "M", "m", "f", ""]),
    ])
    .unwrap();
    assert!(cleaning_settles(&df));
}

#[test]
fn cleaning_does_not_settle_where_it_fails() {
    assert!(!cleaning_settles(&Dataset::new(vec![texts("Name", &["A"])]).unwrap()));
    assert!(!cleaning_settles(&Dataset::new(vec![texts("Gender", &["F"])]).unwrap()));
    assert!(!cleaning_settles(
        &Dataset::new(vec![int32s("Name", &[1]), texts("Gender", &["F"])]).unwrap()
    ));
}
