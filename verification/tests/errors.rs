use catboost_polars::error::{CatBoostError, FeatureError, Selection};

#[test]
fn messages_of_every_error() {
    let cases: Vec<(FeatureError, &str)> = vec![
        (FeatureError::EmptyFrame, "DataFrame has zero rows or columns"),
        (FeatureError::NullAtRow { row: 17 }, "Null value at row 17"),
        (FeatureError::NullAtIndex { index: 0 }, "Null value at index 0"),
        (FeatureError::IndexOutOfBounds { index: 12, len: 3 }, "Index 12 out of bounds (length: 3)"),
        (
            FeatureError::UnsupportedFloatType { dtype: "str".to_string() },
            "Unsupported data type for float conversion: str",
        ),
        (
            FeatureError::UnsupportedCategoricalType { dtype: "f64".to_string() },
            "Unsupported data type for categorical conversion: f64",
        ),
        (
            FeatureError::CastToF32Failed { detail: "boom".to_string() },
            "Failed to cast column to f32: boom",
        ),
        (
            FeatureError::F32ArrayFailed { detail: "bad".to_string() },
            "Failed to get f32 array: bad",
        ),
        (
            FeatureError::TypedAccessFailed { target: "String".to_string(), detail: "x".to_string() },
            "Failed to cast to String: x",
        ),
        (
            FeatureError::SelectFailed { selection: Selection::Columns, detail: "nope".to_string() },
            "Failed to select columns: nope",
        ),
        (
            FeatureError::SelectFailed { selection: Selection::FloatColumns, detail: "a".to_string() },
            "Failed to select float columns: a",
        ),
        (
            FeatureError::SelectFailed {
                selection: Selection::CategoricalColumns,
                detail: "b".to_string(),
            },
            "Failed to select categorical columns: b",
        ),
    ];
    for (error, text) in cases {
        assert_eq!(error.description(), text);
        assert_eq!(error.to_catboost_error(), CatBoostError { description: text.to_string() });
        assert_eq!(error.duplicate(), error);
    }
}

#[test]
fn large_numbers_in_messages() {
    let e = FeatureError::IndexOutOfBounds { index: usize::MAX, len: 1_000_000 };
    assert_eq!(e.description(), format!("Index {} out of bounds (length: 1000000)", usize::MAX));
}
