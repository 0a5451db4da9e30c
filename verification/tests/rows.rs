use rust_data_pipeline::dataset::{Column, ColumnData};
use rust_data_pipeline::rows::{retain_cells, retain_rows, retain_texts, retain_values};

#[test]
fn values_are_kept_where_the_mask_holds() {
    let out = retain_values(&vec![10, 20, 30, 40], &vec![true, false, false, true]);
    assert_eq!(out, vec![10, 40]);
}

#[test]
fn positions_beyond_the_mask_are_dropped() {
    let out = retain_values(&vec![10, 20, 30], &vec![true, true]);
    assert_eq!(out, vec![10, 20]);
    let out = retain_values(&vec![10], &vec![true, true, true]);
    assert_eq!(out, vec![10]);
    let none: Vec<i32> = retain_values(&vec![], &vec![true]);
    assert!(none.is_empty());
}

#[test]
fn texts_are_kept_where_the_mask_holds() {
    let cells = vec![Some("a".to_string()), None, Some("c".to_string())];
    assert_eq!(retain_texts(&cells, &vec![false, true, true]), vec![None, Some("c".to_string())]);
}

#[test]
fn cells_keep_their_type() {
    match retain_cells(&ColumnData::Date(vec![Some(1), Some(2)]), &vec![false, true]) {
        ColumnData::Date(cells) => assert_eq!(cells, vec![Some(2)]),
        other => panic!("no dates: {:?}", other),
    }
}

#[test]
fn rows_are_kept_in_every_column() {
    let columns = vec![
        Column { name: "n".to_string(), data: ColumnData::Int64(vec![Some(1), Some(2), Some(3)]) },
        Column {
            name: "t".to_string(),
            data: ColumnData::Text(vec![Some("x".to_string()), None, Some("z".to_string())]),
        },
    ];
    let out = retain_rows(&columns, &vec![true, false, true]);
    assert_eq!(out.len(), 2);
    assert_eq!(out[0].name, "n");
    assert_eq!(out[1].name, "t");
    match (&out[0].data, &out[1].data) {
        (ColumnData::Int64(n), ColumnData::Text(t)) => {
            assert_eq!(n, &vec![Some(1), Some(3)]);
            assert_eq!(t, &vec![Some("x".to_string()), Some("z".to_string())]);
        },
        other => panic!("types changed: {:?}", other),
    }
}
