//! The columns of a frame, held as plain values, and the reading of a single
//! cell as a categorical value.

use vstd::prelude::*;

use crate::decimal::{decimal_int, decimal_string, lemma_decimal_int_injective};
use crate::error::{FeatureError, FeatureErrorView};
use crate::rounding::{f32_round, f32_value_of_integer, in_integer_column_range};

verus! {

/// The cells of a column, by the kind of value they hold; `None` is a null.
#[derive(Debug, Clone)]
pub enum Cells {
    /// A column of strings.
    Text(Vec<Option<String>>),
    /// A column of booleans.
    Boolean(Vec<Option<bool>>),
    /// A column of one of the integer types `i8` to `i64` and `u8` to `u64`.
    Integer(Vec<Option<i128>>),
    /// A column of any other type, of which only the length is kept.
    Other(usize),
}

/// A column: the name of its data type and its cells.
#[derive(Debug, Clone)]
pub struct Column {
    pub dtype: String,
    pub cells: Cells,
}

/// The mathematical form of [`Cells`].
pub enum CellsView {
    Text(Seq<Option<Seq<char>>>),
    Boolean(Seq<Option<bool>>),
    Integer(Seq<Option<int>>),
    Other(nat),
}

/// The mathematical form of a [`Column`].
pub struct ColumnView {
    pub dtype: Seq<char>,
    pub cells: CellsView,
}

/// The view of an optional string.
pub open spec fn text_cell_view(o: Option<String>) -> Option<Seq<char>> {
    match o {
        Some(s) => Some(s@),
        None => None,
    }
}

/// The view of an optional integer.
pub open spec fn integer_cell_view(o: Option<i128>) -> Option<int> {
    match o {
        Some(x) => Some(x as int),
        None => None,
    }
}

impl View for Cells {
    type V = CellsView;

    open spec fn view(&self) -> CellsView {
        match self {
            Cells::Text(v) => CellsView::Text(v@.map_values(|o: Option<String>| text_cell_view(o))),
            Cells::Boolean(v) => CellsView::Boolean(v@),
            Cells::Integer(v) => CellsView::Integer(
                v@.map_values(|o: Option<i128>| integer_cell_view(o)),
            ),
            Cells::Other(n) => CellsView::Other(*n as nat),
        }
    }
}

impl View for Column {
    type V = ColumnView;

    open spec fn view(&self) -> ColumnView {
        ColumnView { dtype: self.dtype@, cells: self.cells@ }
    }
}

/// The number of cells of a column.
pub open spec fn column_len(c: ColumnView) -> nat {
    match c.cells {
        CellsView::Text(v) => v.len(),
        CellsView::Boolean(v) => v.len(),
        CellsView::Integer(v) => v.len(),
        CellsView::Other(n) => n,
    }
}

/// A column is well formed when its integers are those of `i64` or `u64`.
pub open spec fn column_wf(c: ColumnView) -> bool {
    match c.cells {
        CellsView::Integer(v) => forall|i: int|
            0 <= i < v.len() ==> (#[trigger] v[i] matches Some(x) ==> in_integer_column_range(x)),
        _ => true,
    }
}

/// The cell at `idx`, read with a bounds check and a null check.
pub open spec fn checked_cell<A>(v: Seq<Option<A>>, idx: nat) -> Result<A, FeatureErrorView> {
    if idx >= v.len() {
        Err(FeatureErrorView::IndexOutOfBounds { index: idx, len: v.len() })
    } else {
        match v[idx as int] {
            Some(a) => Ok(a),
            None => Err(FeatureErrorView::NullAtIndex { index: idx }),
        }
    }
}

/// The text of an integer category: the integer in decimal.
pub open spec fn integer_category(x: int) -> Seq<char> {
    decimal_int(x)
}

/// The text of a boolean category.
pub open spec fn boolean_category(b: bool) -> Seq<char> {
    if b {
        "true"@
    } else {
        "false"@
    }
}

/// The categorical value of the cell at `idx` of a column.
pub open spec fn string_value(c: ColumnView, idx: nat) -> Result<Seq<char>, FeatureErrorView> {
    match c.cells {
        CellsView::Text(v) => checked_cell(v, idx),
        CellsView::Integer(v) => match checked_cell(v, idx) {
            Ok(x) => Ok(integer_category(x)),
            Err(e) => Err(e),
        },
        CellsView::Boolean(v) => match checked_cell(v, idx) {
            Ok(b) => Ok(boolean_category(b)),
            Err(e) => Err(e),
        },
        CellsView::Other(_) => Err(FeatureErrorView::UnsupportedCategoricalType { dtype: c.dtype }),
    }
}

/// The view of a result that carries a string.
pub open spec fn text_result_view(r: Result<String, FeatureError>) -> Result<
    Seq<char>,
    FeatureErrorView,
> {
    match r {
        Ok(s) => Ok(s@),
        Err(e) => Err(e@),
    }
}

/// The view of a result that carries a plain value.
pub open spec fn plain_result_view<A>(r: Result<A, FeatureError>) -> Result<A, FeatureErrorView> {
    match r {
        Ok(a) => Ok(a),
        Err(e) => Err(e@),
    }
}

/// Reads the cell at `idx`, failing when `idx` is past the end or the cell is
/// null.
pub fn get_checked<T: Copy>(cells: &Vec<Option<T>>, idx: usize) -> (r: Result<T, FeatureError>)
    ensures
        plain_result_view(r) == checked_cell(cells@, idx as nat),
{
    if idx >= cells.len() {
        return Err(FeatureError::IndexOutOfBounds { index: idx, len: cells.len() });
    }
    match cells[idx] {
        Some(v) => Ok(v),
        None => Err(FeatureError::NullAtIndex { index: idx }),
    }
}

/// Reads the string at `idx`, failing when `idx` is past the end or the cell
/// is null.
pub fn get_checked_text(cells: &Vec<Option<String>>, idx: usize) -> (r: Result<String, FeatureError>)
    ensures
        text_result_view(r) == checked_cell(
            cells@.map_values(|o: Option<String>| text_cell_view(o)),
            idx as nat,
        ),
        idx < cells@.len() && cells@[idx as int] is Some ==> (r matches Ok(t) && t@
            == cells@[idx as int]->Some_0@),
        idx < cells@.len() && cells@[idx as int] is None ==> (r matches Err(e) && e@
            == FeatureErrorView::NullAtIndex { index: idx as nat }),
        idx >= cells@.len() ==> (r matches Err(e) && e@ == FeatureErrorView::IndexOutOfBounds {
            index: idx as nat,
            len: cells@.len(),
        }),
{
    let ghost view = cells@.map_values(|o: Option<String>| text_cell_view(o));
    if idx >= cells.len() {
        return Err(FeatureError::IndexOutOfBounds { index: idx, len: cells.len() });
    }
    assert(view[idx as int] == text_cell_view(cells@[idx as int]));
    match &cells[idx] {
        Some(s) => Ok(s.clone()),
        None => Err(FeatureError::NullAtIndex { index: idx }),
    }
}

/// Reads the integer at `idx` and gives its value as an `f32`, which is an
/// integer.
pub fn extract_integer_f32_value(cells: &Vec<Option<i128>>, idx: usize) -> (r: Result<
    i128,
    FeatureError,
>)
    requires
        forall|i: int|
            0 <= i < cells@.len() ==> (#[trigger] cells@[i] matches Some(x) ==> in_integer_column_range(
                x as int,
            )),
    ensures
        ({
            let c = checked_cell(cells@.map_values(|o: Option<i128>| integer_cell_view(o)), idx as nat);
            match r {
                Ok(v) => c matches Ok(x) && v == f32_round(x),
                Err(e) => c == Err::<int, FeatureErrorView>(e@),
            }
        }),
{
    let ghost view = cells@.map_values(|o: Option<i128>| integer_cell_view(o));
    if idx < cells.len() {
        assert(view[idx as int] == integer_cell_view(cells@[idx as int]));
    }
    match get_checked(cells, idx) {
        Ok(x) => Ok(f32_value_of_integer(x)),
        Err(e) => Err(e),
    }
}

/// Reads the cell at `idx` of a column as a categorical value: strings as they
/// are, integers in decimal, booleans as `true` or `false`; any other type is
/// refused.
pub fn extract_string_value(column: &Column, idx: usize) -> (r: Result<String, FeatureError>)
    requires
        column_wf(column@),
    ensures
        text_result_view(r) == string_value(column@, idx as nat),
        // A string cell is read unchanged, an integer as its decimal text, a
        // boolean as a word; a null and a missing cell are reported by index.
        ({
            let len = column_len(column@);
            match column@.cells {
                CellsView::Text(v) => {
                    &&& idx < len && v[idx as int] is Some ==> (r matches Ok(t) && t@
                        == v[idx as int]->Some_0)
                    &&& idx < len && v[idx as int] is None ==> (r matches Err(e) && e@
                        == FeatureErrorView::NullAtIndex { index: idx as nat })
                    &&& idx >= len ==> (r matches Err(e) && e@
                        == FeatureErrorView::IndexOutOfBounds { index: idx as nat, len })
                },
                CellsView::Integer(v) => {
                    &&& idx < len && v[idx as int] is Some ==> (r matches Ok(t) && t@ == decimal_int(
                        v[idx as int]->Some_0,
                    ))
                    &&& idx < len && v[idx as int] is None ==> (r matches Err(e) && e@
                        == FeatureErrorView::NullAtIndex { index: idx as nat })
                    &&& idx >= len ==> (r matches Err(e) && e@
                        == FeatureErrorView::IndexOutOfBounds { index: idx as nat, len })
                },
                CellsView::Boolean(v) => {
                    &&& idx < len && v[idx as int] is Some ==> (r matches Ok(t) && t@ == (if v[idx as int]->Some_0 {
                        "true"@
                    } else {
                        "false"@
                    }))
                    &&& idx < len && v[idx as int] is None ==> (r matches Err(e) && e@
                        == FeatureErrorView::NullAtIndex { index: idx as nat })
                    &&& idx >= len ==> (r matches Err(e) && e@
                        == FeatureErrorView::IndexOutOfBounds { index: idx as nat, len })
                },
                CellsView::Other(_) => r matches Err(e) && e@
                    == FeatureErrorView::UnsupportedCategoricalType { dtype: column@.dtype },
            }
        }),
{
    match &column.cells {
        Cells::Text(v) => get_checked_text(v, idx),
        Cells::Integer(v) => {
            proof {
                let view = v@.map_values(|o: Option<i128>| integer_cell_view(o));
                assert forall|i: int| 0 <= i < v@.len() implies (#[trigger] v@[i] matches Some(x)
                    ==> in_integer_column_range(x as int)) by {
                    assert(view[i] == integer_cell_view(v@[i]));
                }
            }
            let ghost view = v@.map_values(|o: Option<i128>| integer_cell_view(o));
            if idx < v.len() {
                assert(view[idx as int] == integer_cell_view(v@[idx as int]));
            }
            match get_checked(v, idx) {
                Ok(x) => Ok(decimal_string(x)),
                Err(e) => Err(e),
            }
        },
        Cells::Boolean(v) => match get_checked(v, idx) {
            Ok(b) => {
                if b {
                    Ok(String::from_str("true"))
                } else {
                    Ok(String::from_str("false"))
                }
            },
            Err(e) => Err(e),
        },
        Cells::Other(_) => Err(
            FeatureError::UnsupportedCategoricalType { dtype: column.dtype.clone() },
        ),
    }
}

/// A string cell is its own category: reading a non-null string cell gives
/// its characters unchanged, whatever they are.
pub proof fn lemma_string_cell_read_unchanged(c: ColumnView, idx: nat, text: Seq<char>)
    requires
        c.cells matches CellsView::Text(v) && idx < v.len() && v[idx as int] == Some(text),
    ensures
        string_value(c, idx) == Ok::<Seq<char>, FeatureErrorView>(text),
{
}

/// An integer cell's category is its decimal text.
pub proof fn lemma_integer_cell_read_as_decimal(c: ColumnView, idx: nat, x: int)
    requires
        c.cells matches CellsView::Integer(v) && idx < v.len() && v[idx as int] == Some(x),
    ensures
        string_value(c, idx) == Ok::<Seq<char>, FeatureErrorView>(decimal_int(x)),
{
}

/// A boolean cell's category is `true` or `false`.
pub proof fn lemma_boolean_cell_read_as_word(c: ColumnView, idx: nat, b: bool)
    requires
        c.cells matches CellsView::Boolean(v) && idx < v.len() && v[idx as int] == Some(b),
    ensures
        string_value(c, idx) == Ok::<Seq<char>, FeatureErrorView>(
            if b {
                "true"@
            } else {
                "false"@
            },
        ),
{
}

/// Distinct integers give distinct categories.
pub proof fn lemma_integer_category_injective(x: int, y: int)
    requires
        integer_category(x) == integer_category(y),
    ensures
        x == y,
{
    lemma_decimal_int_injective(x, y);
}

} // verus!
