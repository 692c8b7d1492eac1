use catboost_polars::column::{Cells, Column};
use catboost_polars::error::FeatureError;
use catboost_polars::features::{
    categorical_features_from_columns, empty_categorical_rows, float_features_from_columns,
};

fn text(values: &[Option<&str>]) -> Column {
    Column {
        dtype: "str".to_string(),
        cells: Cells::Text(values.iter().map(|v| v.map(|s| s.to_string())).collect()),
    }
}

fn strings(rows: &[&[&str]]) -> Vec<Vec<String>> {
    rows.iter().map(|r| r.iter().map(|s| s.to_string()).collect()).collect()
}

#[test]
fn float_columns_become_rows() {
    let columns: Vec<Result<Vec<Option<f32>>, FeatureError>> = vec![
        Ok(vec![Some(1.0), Some(2.0), Some(3.0)]),
        Ok(vec![Some(4.0), Some(5.0), Some(6.0)]),
    ];
    let rows = float_features_from_columns(3, &columns).unwrap();
    assert_eq!(rows, vec![vec![1.0, 4.0], vec![2.0, 5.0], vec![3.0, 6.0]]);
}

#[test]
fn empty_frames_are_refused() {
    let none: Vec<Result<Vec<Option<f32>>, FeatureError>> = vec![];
    assert_eq!(float_features_from_columns(3, &none), Err(FeatureError::EmptyFrame));
    let no_rows: Vec<Result<Vec<Option<f32>>, FeatureError>> = vec![Ok(vec![])];
    assert_eq!(
        float_features_from_columns(0, &no_rows).unwrap_err().description(),
        "DataFrame has zero rows or columns"
    );
    assert_eq!(categorical_features_from_columns(0, &vec![text(&[])]), Err(FeatureError::EmptyFrame));
    assert_eq!(categorical_features_from_columns(2, &vec![]), Err(FeatureError::EmptyFrame));
}

#[test]
fn first_failure_in_reading_order_wins() {
    let columns: Vec<Result<Vec<Option<f32>>, FeatureError>> = vec![
        Ok(vec![Some(1.0), None, Some(3.0)]),
        Err(FeatureError::CastToF32Failed { detail: "no".to_string() }),
    ];
    assert_eq!(
        float_features_from_columns(3, &columns).unwrap_err().description(),
        "Null value at row 1"
    );
    let columns: Vec<Result<Vec<Option<f32>>, FeatureError>> = vec![
        Ok(vec![Some(1.0), Some(2.0)]),
        Err(FeatureError::CastToF32Failed { detail: "no".to_string() }),
        Ok(vec![None, None]),
    ];
    assert_eq!(
        float_features_from_columns(2, &columns).unwrap_err().description(),
        "Failed to cast column to f32: no"
    );
}

#[test]
fn categorical_columns_become_rows() {
    let columns = vec![
        text(&[Some("a"), Some("b")]),
        Column { dtype: "i32".to_string(), cells: Cells::Integer(vec![Some(1), Some(-2)]) },
        Column { dtype: "bool".to_string(), cells: Cells::Boolean(vec![Some(true), Some(false)]) },
    ];
    let rows = categorical_features_from_columns(2, &columns).unwrap();
    assert_eq!(rows, strings(&[&["a", "1", "true"], &["b", "-2", "false"]]));
}

#[test]
fn single_row_frames_read_by_index() {
    let columns = vec![text(&[Some("x")]), Column { dtype: "u8".to_string(), cells: Cells::Integer(vec![Some(9)]) }];
    assert_eq!(categorical_features_from_columns(1, &columns).unwrap(), strings(&[&["x", "9"]]));
    let columns = vec![text(&[Some("x")]), text(&[None])];
    assert_eq!(
        categorical_features_from_columns(1, &columns).unwrap_err().description(),
        "Null value at index 0"
    );
}

#[test]
fn several_row_frames_walk_string_columns() {
    let columns = vec![text(&[Some("x"), None, Some("z")])];
    assert_eq!(
        categorical_features_from_columns(3, &columns).unwrap_err().description(),
        "Null value at row 1"
    );
    let columns = vec![
        text(&[Some("x"), Some("y")]),
        Column { dtype: "i64".to_string(), cells: Cells::Integer(vec![Some(1), None]) },
    ];
    assert_eq!(
        categorical_features_from_columns(2, &columns).unwrap_err().description(),
        "Null value at index 1"
    );
}

#[test]
fn unsupported_categorical_column() {
    let columns = vec![
        text(&[Some("x"), Some("y")]),
        Column { dtype: "f32".to_string(), cells: Cells::Other(2) },
        text(&[None, None]),
    ];
    assert_eq!(
        categorical_features_from_columns(2, &columns).unwrap_err().description(),
        "Unsupported data type for categorical conversion: f32"
    );
}

#[test]
fn empty_categorical_rows_match_height() {
    let rows = empty_categorical_rows(4);
    assert_eq!(rows.len(), 4);
    assert!(rows.iter().all(|r| r.is_empty()));
    assert!(empty_categorical_rows(0).is_empty());
}
