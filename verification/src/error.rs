//! Errors of the feature conversion, and the messages they are reported with.

use vstd::prelude::*;

use crate::decimal::{decimal_digits, lemma_decimal_digits_injective, push_decimal_digits};

verus! {

/// Which selection of columns failed.
#[derive(Debug, Clone, Copy, PartialEq, Eq)]
pub enum Selection {
    /// A plain selection of feature columns.
    Columns,
    /// The selection of the float feature columns.
    FloatColumns,
    /// The selection of the categorical feature columns.
    CategoricalColumns,
}

/// Why a frame could not be turned into features.
#[derive(Debug, Clone, PartialEq, Eq)]
pub enum FeatureError {
    /// The frame has no rows or no columns.
    EmptyFrame,
    /// A cell met while walking a column holds no value.
    NullAtRow { row: usize },
    /// A cell read by its index holds no value.
    NullAtIndex { index: usize },
    /// A cell was read past the end of its column.
    IndexOutOfBounds { index: usize, len: usize },
    /// A column cannot be read as a float; `dtype` names its type.
    UnsupportedFloatType { dtype: String },
    /// A column cannot be read as a category; `dtype` names its type.
    UnsupportedCategoricalType { dtype: String },
    /// Casting a column to `f32` failed; `detail` is the cause.
    CastToF32Failed { detail: String },
    /// The `f32` view of a cast column was refused; `detail` is the cause.
    F32ArrayFailed { detail: String },
    /// A column could not be read as its element type `target`.
    TypedAccessFailed { target: String, detail: String },
    /// Selecting columns by name failed; `detail` is the cause.
    SelectFailed { selection: Selection, detail: String },
}

/// The mathematical form of a [`FeatureError`]: texts as character sequences.
pub enum FeatureErrorView {
    EmptyFrame,
    NullAtRow { row: nat },
    NullAtIndex { index: nat },
    IndexOutOfBounds { index: nat, len: nat },
    UnsupportedFloatType { dtype: Seq<char> },
    UnsupportedCategoricalType { dtype: Seq<char> },
    CastToF32Failed { detail: Seq<char> },
    F32ArrayFailed { detail: Seq<char> },
    TypedAccessFailed { target: Seq<char>, detail: Seq<char> },
    SelectFailed { selection: Selection, detail: Seq<char> },
}

impl View for FeatureError {
    type V = FeatureErrorView;

    open spec fn view(&self) -> FeatureErrorView {
        match self {
            FeatureError::EmptyFrame => FeatureErrorView::EmptyFrame,
            FeatureError::NullAtRow { row } => FeatureErrorView::NullAtRow { row: *row as nat },
            FeatureError::NullAtIndex { index } => FeatureErrorView::NullAtIndex {
                index: *index as nat,
            },
            FeatureError::IndexOutOfBounds { index, len } => FeatureErrorView::IndexOutOfBounds {
                index: *index as nat,
                len: *len as nat,
            },
            FeatureError::UnsupportedFloatType { dtype } => FeatureErrorView::UnsupportedFloatType {
                dtype: dtype@,
            },
            FeatureError::UnsupportedCategoricalType { dtype } =>
                FeatureErrorView::UnsupportedCategoricalType { dtype: dtype@ },
            FeatureError::CastToF32Failed { detail } => FeatureErrorView::CastToF32Failed {
                detail: detail@,
            },
            FeatureError::F32ArrayFailed { detail } => FeatureErrorView::F32ArrayFailed {
                detail: detail@,
            },
            FeatureError::TypedAccessFailed { target, detail } =>
                FeatureErrorView::TypedAccessFailed { target: target@, detail: detail@ },
            FeatureError::SelectFailed { selection, detail } => FeatureErrorView::SelectFailed {
                selection: *selection,
                detail: detail@,
            },
        }
    }
}

/// The message that reports an error.
pub open spec fn message(e: FeatureErrorView) -> Seq<char> {
    match e {
        FeatureErrorView::EmptyFrame => "DataFrame has zero rows or columns"@,
        FeatureErrorView::NullAtRow { row } => "Null value at row "@ + decimal_digits(row),
        FeatureErrorView::NullAtIndex { index } => "Null value at index "@ + decimal_digits(index),
        FeatureErrorView::IndexOutOfBounds { index, len } => "Index "@ + decimal_digits(index)
            + " out of bounds (length: "@ + decimal_digits(len) + ")"@,
        FeatureErrorView::UnsupportedFloatType { dtype } =>
            "Unsupported data type for float conversion: "@ + dtype,
        FeatureErrorView::UnsupportedCategoricalType { dtype } =>
            "Unsupported data type for categorical conversion: "@ + dtype,
        FeatureErrorView::CastToF32Failed { detail } => "Failed to cast column to f32: "@ + detail,
        FeatureErrorView::F32ArrayFailed { detail } => "Failed to get f32 array: "@ + detail,
        FeatureErrorView::TypedAccessFailed { target, detail } => "Failed to cast to "@ + target
            + ": "@ + detail,
        FeatureErrorView::SelectFailed { selection, detail } => match selection {
            Selection::Columns => "Failed to select columns: "@ + detail,
            Selection::FloatColumns => "Failed to select float columns: "@ + detail,
            Selection::CategoricalColumns => "Failed to select categorical columns: "@ + detail,
        },
    }
}

/// The error type that predictions report: a message.
#[derive(Debug, Clone, PartialEq, Eq)]
pub struct CatBoostError {
    pub description: String,
}

impl FeatureError {
    /// The message that reports this error.
    pub fn description(&self) -> (s: String)
        ensures
            s@ == message(self@),
    {
        match self {
            FeatureError::EmptyFrame => String::from_str("DataFrame has zero rows or columns"),
            FeatureError::NullAtRow { row } => {
                let mut s = String::from_str("Null value at row ");
                push_decimal_digits(&mut s, *row as u64);
                s
            },
            FeatureError::NullAtIndex { index } => {
                let mut s = String::from_str("Null value at index ");
                push_decimal_digits(&mut s, *index as u64);
                s
            },
            FeatureError::IndexOutOfBounds { index, len } => {
                let mut s = String::from_str("Index ");
                push_decimal_digits(&mut s, *index as u64);
                s.append(" out of bounds (length: ");
                push_decimal_digits(&mut s, *len as u64);
                s.append(")");
                s
            },
            FeatureError::UnsupportedFloatType { dtype } => {
                let mut s = String::from_str("Unsupported data type for float conversion: ");
                s.append(dtype.as_str());
                s
            },
            FeatureError::UnsupportedCategoricalType { dtype } => {
                let mut s = String::from_str("Unsupported data type for categorical conversion: ");
                s.append(dtype.as_str());
                s
            },
            FeatureError::CastToF32Failed { detail } => {
                let mut s = String::from_str("Failed to cast column to f32: ");
                s.append(detail.as_str());
                s
            },
            FeatureError::F32ArrayFailed { detail } => {
                let mut s = String::from_str("Failed to get f32 array: ");
                s.append(detail.as_str());
                s
            },
            FeatureError::TypedAccessFailed { target, detail } => {
                let mut s = String::from_str("Failed to cast to ");
                s.append(target.as_str());
                s.append(": ");
                s.append(detail.as_str());
                s
            },
            FeatureError::SelectFailed { selection, detail } => {
                let mut s = match selection {
                    Selection::Columns => String::from_str("Failed to select columns: "),
                    Selection::FloatColumns => String::from_str("Failed to select float columns: "),
                    Selection::CategoricalColumns => String::from_str(
                        "Failed to select categorical columns: ",
                    ),
                };
                s.append(detail.as_str());
                s
            },
        }
    }

    /// A copy of this error.
    pub fn duplicate(&self) -> (e: FeatureError)
        ensures
            e@ == self@,
    {
        match self {
            FeatureError::EmptyFrame => FeatureError::EmptyFrame,
            FeatureError::NullAtRow { row } => FeatureError::NullAtRow { row: *row },
            FeatureError::NullAtIndex { index } => FeatureError::NullAtIndex { index: *index },
            FeatureError::IndexOutOfBounds { index, len } => FeatureError::IndexOutOfBounds {
                index: *index,
                len: *len,
            },
            FeatureError::UnsupportedFloatType { dtype } => FeatureError::UnsupportedFloatType {
                dtype: dtype.clone(),
            },
            FeatureError::UnsupportedCategoricalType { dtype } =>
                FeatureError::UnsupportedCategoricalType { dtype: dtype.clone() },
            FeatureError::CastToF32Failed { detail } => FeatureError::CastToF32Failed {
                detail: detail.clone(),
            },
            FeatureError::F32ArrayFailed { detail } => FeatureError::F32ArrayFailed {
                detail: detail.clone(),
            },
            FeatureError::TypedAccessFailed { target, detail } => FeatureError::TypedAccessFailed {
                target: target.clone(),
                detail: detail.clone(),
            },
            FeatureError::SelectFailed { selection, detail } => FeatureError::SelectFailed {
                selection: *selection,
                detail: detail.clone(),
            },
        }
    }

    /// The error that a prediction reports for this one.
    pub fn to_catboost_error(&self) -> (e: CatBoostError)
        ensures
            e.description@ == message(self@),
    {
        CatBoostError { description: self.description() }
    }
}

/// The message of a null met while walking a column names its row: two such
/// messages are equal only for the same row.
pub proof fn lemma_null_row_message_names_row(a: nat, b: nat)
    requires
        message(FeatureErrorView::NullAtRow { row: a }) == message(
            FeatureErrorView::NullAtRow { row: b },
        ),
    ensures
        a == b,
{
    let p = "Null value at row "@;
    let ma = message(FeatureErrorView::NullAtRow { row: a });
    let mb = message(FeatureErrorView::NullAtRow { row: b });
    assert(ma.subrange(p.len() as int, ma.len() as int) =~= decimal_digits(a));
    assert(mb.subrange(p.len() as int, mb.len() as int) =~= decimal_digits(b));
    lemma_decimal_digits_injective(a, b);
}

/// The message of a null read by index names its index: two such messages
/// are equal only for the same index.
pub proof fn lemma_null_index_message_names_index(a: nat, b: nat)
    requires
        message(FeatureErrorView::NullAtIndex { index: a }) == message(
            FeatureErrorView::NullAtIndex { index: b },
        ),
    ensures
        a == b,
{
    let p = "Null value at index "@;
    let ma = message(FeatureErrorView::NullAtIndex { index: a });
    let mb = message(FeatureErrorView::NullAtIndex { index: b });
    assert(ma.subrange(p.len() as int, ma.len() as int) =~= decimal_digits(a));
    assert(mb.subrange(p.len() as int, mb.len() as int) =~= decimal_digits(b));
    lemma_decimal_digits_injective(a, b);
}

} // verus!
