use catboost_polars::column::{
    extract_integer_f32_value, extract_string_value, get_checked, get_checked_text, Cells, Column,
};
use catboost_polars::error::FeatureError;

fn text(values: &[Option<&str>]) -> Column {
    Column {
        dtype: "str".to_string(),
        cells: Cells::Text(values.iter().map(|v| v.map(|s| s.to_string())).collect()),
    }
}

fn integers(values: &[Option<i128>]) -> Column {
    Column { dtype: "i64".to_string(), cells: Cells::Integer(values.to_vec()) }
}

#[test]
fn checked_reads() {
    let cells = vec![Some(1.5f32), None];
    assert_eq!(get_checked(&cells, 0), Ok(1.5f32));
    assert_eq!(get_checked(&cells, 1), Err(FeatureError::NullAtIndex { index: 1 }));
    assert_eq!(get_checked(&cells, 2), Err(FeatureError::IndexOutOfBounds { index: 2, len: 2 }));
    let strings = vec![Some("a".to_string()), None];
    assert_eq!(get_checked_text(&strings, 0), Ok("a".to_string()));
    assert_eq!(get_checked_text(&strings, 1), Err(FeatureError::NullAtIndex { index: 1 }));
    assert_eq!(
        get_checked_text(&strings, 5),
        Err(FeatureError::IndexOutOfBounds { index: 5, len: 2 })
    );
}

#[test]
fn string_cells_are_kept() {
    let c = text(&[Some("red"), None, Some("")]);
    assert_eq!(extract_string_value(&c, 0), Ok("red".to_string()));
    assert_eq!(extract_string_value(&c, 2), Ok(String::new()));
    assert_eq!(
        extract_string_value(&c, 1).unwrap_err().description(),
        "Null value at index 1"
    );
    assert_eq!(
        extract_string_value(&c, 3).unwrap_err().description(),
        "Index 3 out of bounds (length: 3)"
    );
}

#[test]
fn integer_cells_are_their_decimal_text() {
    let c = integers(&[Some(42), Some(-7), Some(16_777_217), Some(u64::MAX as i128), None, Some(i64::MIN as i128)]);
    assert_eq!(extract_string_value(&c, 0), Ok("42".to_string()));
    assert_eq!(extract_string_value(&c, 1), Ok("-7".to_string()));
    assert_eq!(extract_string_value(&c, 2), Ok("16777217".to_string()));
    assert_eq!(extract_string_value(&c, 3), Ok("18446744073709551615".to_string()));
    assert_eq!(extract_string_value(&c, 4), Err(FeatureError::NullAtIndex { index: 4 }));
    assert_eq!(extract_string_value(&c, 5), Ok(i64::MIN.to_string()));
    assert_eq!(extract_string_value(&c, 9), Err(FeatureError::IndexOutOfBounds { index: 9, len: 6 }));
}

#[test]
fn integer_f32_values() {
    let cells = vec![Some(16_777_219i128), None];
    assert_eq!(extract_integer_f32_value(&cells, 0), Ok(16_777_220));
    assert_eq!(extract_integer_f32_value(&cells, 0).unwrap(), (16_777_219i64 as f32) as i128);
    assert_eq!(extract_integer_f32_value(&cells, 1), Err(FeatureError::NullAtIndex { index: 1 }));
}

#[test]
fn boolean_cells_are_words() {
    let c = Column { dtype: "bool".to_string(), cells: Cells::Boolean(vec![Some(true), Some(false), None]) };
    assert_eq!(extract_string_value(&c, 0), Ok("true".to_string()));
    assert_eq!(extract_string_value(&c, 1), Ok("false".to_string()));
    assert_eq!(extract_string_value(&c, 2), Err(FeatureError::NullAtIndex { index: 2 }));
}

#[test]
fn other_types_are_refused() {
    let c = Column { dtype: "f64".to_string(), cells: Cells::Other(3) };
    assert_eq!(
        extract_string_value(&c, 0).unwrap_err().description(),
        "Unsupported data type for categorical conversion: f64"
    );
}

#[test]
fn distinct_integers_stay_distinct_categories() {
    let c = integers(&[Some(16_777_216), Some(16_777_217), Some(i64::MAX as i128), Some(i64::MAX as i128 + 1)]);
    let texts: Vec<String> = (0..4).map(|i| extract_string_value(&c, i).unwrap()).collect();
    assert_eq!(texts, vec!["16777216", "16777217", "9223372036854775807", "9223372036854775808"]);
}
