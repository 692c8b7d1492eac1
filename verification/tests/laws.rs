use catboost_polars::column::{Cells, Column};
use catboost_polars::decimal::decimal_string;
use catboost_polars::error::FeatureError;
use catboost_polars::features::categorical_features_from_columns;
use catboost_polars::rounding::f32_value_of_integer;

#[test]
fn decimal_rendering_reads_back() {
    for v in [0i128, 5, 10, 101, -42, 9_007_199_254_740_993, i64::MIN as i128, u64::MAX as i128] {
        let s = decimal_string(v);
        assert_eq!(s.parse::<i128>().unwrap(), v);
        let digits = s.trim_start_matches('-');
        assert!(digits.chars().all(|c| c.is_ascii_digit()));
        assert!(digits == "0" || !digits.starts_with('0'));
    }
}

#[test]
fn rounding_keeps_order() {
    let mut values: Vec<i128> = (0..2000).map(|i| (i * 7919) as i128 * 1_000_003 - 5_000_000_000).collect();
    values.extend([16_777_215, 16_777_216, 16_777_217, 16_777_218, 16_777_219, u64::MAX as i128, i64::MIN as i128]);
    values.sort();
    for pair in values.windows(2) {
        assert!(f32_value_of_integer(pair[0]) <= f32_value_of_integer(pair[1]));
    }
}

#[test]
fn rounding_is_nearest_and_symmetric() {
    for x in [16_777_217i128, 16_777_218, 16_777_219, 123_456_789, 9_007_199_254_740_993] {
        let v = f32_value_of_integer(x);
        let below = (x as f32).next_down_value();
        let above = (x as f32).next_up_value();
        assert!((x - v).abs() <= (x - below).abs());
        assert!((x - v).abs() <= (x - above).abs());
        assert_eq!(f32_value_of_integer(-x), -v);
    }
}

trait Neighbours {
    fn next_down_value(self) -> i128;
    fn next_up_value(self) -> i128;
}

impl Neighbours for f32 {
    fn next_down_value(self) -> i128 {
        f32::from_bits(self.to_bits() - 1) as i128
    }
    fn next_up_value(self) -> i128 {
        f32::from_bits(self.to_bits() + 1) as i128
    }
}

#[test]
fn null_messages_name_their_row() {
    let a = FeatureError::NullAtRow { row: 12 }.description();
    let b = FeatureError::NullAtRow { row: 121 }.description();
    let c = FeatureError::NullAtRow { row: 1 }.description();
    assert!(a != b && b != c && a != c);
    assert_ne!(
        FeatureError::NullAtIndex { index: 3 }.description(),
        FeatureError::NullAtIndex { index: 30 }.description()
    );
}

#[test]
fn categorical_values_do_not_depend_on_height() {
    let one = vec![
        Column { dtype: "str".to_string(), cells: Cells::Text(vec![Some("k".to_string())]) },
        Column { dtype: "u64".to_string(), cells: Cells::Integer(vec![Some(u64::MAX as i128)]) },
        Column { dtype: "bool".to_string(), cells: Cells::Boolean(vec![Some(true)]) },
    ];
    let three = vec![
        Column {
            dtype: "str".to_string(),
            cells: Cells::Text(vec![Some("k".to_string()), Some("k".to_string()), Some("k".to_string())]),
        },
        Column {
            dtype: "u64".to_string(),
            cells: Cells::Integer(vec![Some(u64::MAX as i128); 3]),
        },
        Column { dtype: "bool".to_string(), cells: Cells::Boolean(vec![Some(true); 3]) },
    ];
    let single = categorical_features_from_columns(1, &one).unwrap();
    let several = categorical_features_from_columns(3, &three).unwrap();
    assert_eq!(several, vec![single[0].clone(); 3]);
    assert_eq!(single[0], vec!["k".to_string(), u64::MAX.to_string(), "true".to_string()]);
}
