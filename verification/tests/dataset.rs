use rust_data_pipeline::dataset::{find_column, Column, ColumnData, DataType, Dataset, DatasetError};

fn ints(name: &str, cells: Vec<Option<i64>>) -> Column {
    Column { name: name.to_string(), data: ColumnData::Int64(cells) }
}

#[test]
fn columns_of_equal_length_make_a_table() {
    let d = Dataset::new(vec![ints("a", vec![Some(1), None]), ints("b", vec![None, Some(2)])]).unwrap();
    assert_eq!(d.width(), 2);
    assert_eq!(d.height(), 2);
    assert!(!d.is_empty());
    assert_eq!(d.position("b"), Some(1));
    assert_eq!(d.position("c"), None);
    assert_eq!(d.column("a").unwrap().name, "a");
    assert!(d.column("A").is_none());
    assert_eq!(d.columns().len(), 2);
}

#[test]
fn no_columns_make_an_empty_table() {
    let d = Dataset::new(vec![]).unwrap();
    assert_eq!(d.width(), 0);
    assert_eq!(d.height(), 0);
    assert!(d.is_empty());
}

#[test]
fn unequal_lengths_are_refused() {
    let r = Dataset::new(vec![ints("a", vec![Some(1)]), ints("b", vec![])]);
    assert_eq!(r.unwrap_err(), DatasetError::UnequalLengths);
}

#[test]
fn a_repeated_name_is_refused() {
    let r = Dataset::new(vec![ints("a", vec![Some(1)]), ints("b", vec![None]), ints("a", vec![None])]);
    assert_eq!(r.unwrap_err(), DatasetError::DuplicateName);
}

#[test]
fn unequal_lengths_are_reported_before_a_repeated_name() {
    let r = Dataset::new(vec![ints("a", vec![Some(1)]), ints("a", vec![])]);
    assert_eq!(r.unwrap_err(), DatasetError::UnequalLengths);
}

#[test]
fn cells_know_their_type_length_and_presence() {
    let data = ColumnData::Date(vec![Some(3), None]);
    assert_eq!(data.dtype(), DataType::Date);
    assert_eq!(data.len(), 2);
    assert!(data.is_present(0));
    assert!(!data.is_present(1));
    assert!(!data.is_present(2));
    assert_eq!(ColumnData::Text(vec![]).dtype(), DataType::Text);
    assert_eq!(ColumnData::Int64(vec![]).dtype(), DataType::Int64);
    assert_eq!(ColumnData::Int32(vec![]).dtype(), DataType::Int32);
    assert_eq!(ColumnData::Float64(vec![]).dtype(), DataType::Float64);
}

#[test]
fn the_first_column_of_a_name_is_found() {
    let columns = vec![ints("x", vec![]), ints("y", vec![]), ints("x", vec![])];
    assert_eq!(find_column(&columns, "x"), Some(0));
    assert_eq!(find_column(&columns, "y"), Some(1));
    assert_eq!(find_column(&columns, "z"), None);
}
