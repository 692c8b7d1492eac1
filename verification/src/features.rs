//! Turning the columns of a frame into the row-major feature layout: one
//! vector per row, holding that row's value of every column in column order.
//!
//! Columns are read one after the other, each from its first row to its
//! last; the first cell that cannot be read decides the error.

use vstd::prelude::*;

use crate::column::{
    Cells, CellsView, Column, ColumnView, column_len, column_wf,
    extract_string_value, string_value, text_result_view,
};
use crate::decimal::decimal_int;
use crate::error::{FeatureError, FeatureErrorView};

verus! {

/// Whether the cell at column `c1`, row `r1` is read before the one at
/// column `c2`, row `r2`.
pub open spec fn read_before(c1: int, r1: int, c2: int, r2: int) -> bool {
    c1 < c2 || (c1 == c2 && r1 < r2)
}

/// The view of a column of float features: its cells, or why it could not be
/// read as `f32`.
pub open spec fn float_column_view<T>(col: Result<Vec<Option<T>>, FeatureError>) -> Result<
    Seq<Option<T>>,
    FeatureErrorView,
> {
    match col {
        Ok(v) => Ok(v@),
        Err(e) => Err(e@),
    }
}

/// The views of all columns of float features.
pub open spec fn float_columns_view<T>(cols: Seq<Result<Vec<Option<T>>, FeatureError>>) -> Seq<
    Result<Seq<Option<T>>, FeatureErrorView>,
> {
    cols.map_values(|col: Result<Vec<Option<T>>, FeatureError>| float_column_view(col))
}

/// The float feature at column `c`, row `r`, or why it cannot be had.
pub open spec fn float_cell<T>(
    cols: Seq<Result<Seq<Option<T>>, FeatureErrorView>>,
    c: int,
    r: int,
) -> Result<T, FeatureErrorView> {
    match cols[c] {
        Err(e) => Err(e),
        Ok(v) => match v[r] {
            Some(x) => Ok(x),
            None => Err(FeatureErrorView::NullAtRow { row: r as nat }),
        },
    }
}

/// Every column of float features that could be cast has one cell per row.
pub open spec fn float_columns_fit<T>(
    cols: Seq<Result<Seq<Option<T>>, FeatureErrorView>>,
    height: nat,
) -> bool {
    forall|c: int| 0 <= c < cols.len() ==> (#[trigger] cols[c] matches Ok(v) ==> v.len() == height)
}

/// The error of reading a frame of float features: the empty frame, or
/// else the failure of the first cell, in reading order, that fails.
pub open spec fn first_float_failure<T>(
    cols: Seq<Result<Seq<Option<T>>, FeatureErrorView>>,
    height: nat,
    e: FeatureErrorView,
) -> bool {
    if height == 0 || cols.len() == 0 {
        e == FeatureErrorView::EmptyFrame
    } else {
        exists|c: int, r: int|
            #![trigger float_cell(cols, c, r)]
            0 <= c < cols.len() && 0 <= r < height && float_cell(cols, c, r) == Err::<
                T,
                FeatureErrorView,
            >(e) && forall|c2: int, r2: int|
                0 <= c2 < cols.len() && 0 <= r2 < height && read_before(c2, r2, c, r)
                    ==> (#[trigger] float_cell(cols, c2, r2)) is Ok
    }
}

/// Whether `x` is the present cell at row `i` of a column that was read.
pub open spec fn read_cell_is<T>(col: Result<Vec<Option<T>>, FeatureError>, i: int, x: T) -> bool {
    match col {
        Ok(v) => v@[i] == Some(x),
        Err(_) => false,
    }
}

/// Turns the columns of float features, each already read as `f32` (or the
/// reason it could not be), into one row per frame row. A frame without rows
/// or columns, a column that could not be read and a null are errors.
pub fn float_features_from_columns<T: Copy>(
    height: usize,
    columns: &Vec<Result<Vec<Option<T>>, FeatureError>>,
) -> (r: Result<Vec<Vec<T>>, FeatureError>)
    requires
        float_columns_fit(float_columns_view(columns@), height as nat),
    ensures
        ({
            let cols = float_columns_view(columns@);
            match r {
                Ok(rows) => {
                    &&& height > 0
                    &&& columns@.len() > 0
                    &&& rows@.len() == height
                    &&& forall|i: int| 0 <= i < height ==> (#[trigger] rows@[i])@.len() == columns@.len()
                    &&& forall|c: int, i: int|
                        #![trigger rows@[i]@[c]]
                        #![trigger float_cell(cols, c, i)]
                        0 <= c < columns@.len() && 0 <= i < height ==> float_cell(cols, c, i) == Ok::<
                            T,
                            FeatureErrorView,
                        >(rows@[i]@[c])
                },
                Err(e) => first_float_failure(cols, height as nat, e@),
            }
        }),
        // Each row holds, for every column, that column's cell of the row.
        r matches Ok(rows) ==> forall|c: int, i: int|
            0 <= c < columns@.len() && 0 <= i < height ==> read_cell_is(
                columns@[c],
                i,
                #[trigger] rows@[i]@[c],
            ),
        // A frame with rows and columns, all read and free of nulls, is accepted.
        height > 0 && columns@.len() > 0 && (forall|c: int|
            0 <= c < columns@.len() ==> (#[trigger] columns@[c] matches Ok(v) && forall|i: int|
                0 <= i < height ==> (#[trigger] v@[i]) is Some)) ==> r is Ok,
        // The only errors: the empty frame, a null, or the error of a column.
        r matches Err(e) ==> (e@ is EmptyFrame || e@ is NullAtRow || exists|c: int|
            0 <= c < columns@.len() && (#[trigger] columns@[c] matches Err(ce) && ce@ == e@)),
{
    let r = read_float_rows(height, columns);
    proof {
        let cols = float_columns_view(columns@);
        match &r {
            Ok(rows) => {
                assert forall|c: int, i: int|
                    0 <= c < columns@.len() && 0 <= i < height implies read_cell_is(
                        columns@[c],
                        i,
                        #[trigger] rows@[i]@[c],
                    ) by {
                    assert(cols[c] == float_column_view(columns@[c]));
                    assert(float_cell(cols, c, i) == Ok::<T, FeatureErrorView>(rows@[i]@[c]));
                }
            },
            Err(e) => {
                if height > 0 && columns@.len() > 0 {
                    let (c, i) = choose|c: int, i: int|
                        #![trigger float_cell(cols, c, i)]
                        0 <= c < cols.len() && 0 <= i < height && float_cell(cols, c, i) == Err::<
                            T,
                            FeatureErrorView,
                        >(e@) && forall|c2: int, r2: int|
                            0 <= c2 < cols.len() && 0 <= r2 < height && read_before(c2, r2, c, i)
                                ==> (#[trigger] float_cell(cols, c2, r2)) is Ok;
                    assert(cols[c] == float_column_view(columns@[c]));
                    if columns@[c] is Ok {
                        assert(e@ is NullAtRow);
                    } else {
                        assert(columns@[c] matches Err(ce) && ce@ == e@);
                    }
                }
            },
        }
    }
    r
}

/// Reads the float columns in order, column by column and row by row.
fn read_float_rows<T: Copy>(
    height: usize,
    columns: &Vec<Result<Vec<Option<T>>, FeatureError>>,
) -> (r: Result<Vec<Vec<T>>, FeatureError>)
    requires
        float_columns_fit(float_columns_view(columns@), height as nat),
    ensures
        ({
            let cols = float_columns_view(columns@);
            match r {
                Ok(rows) => {
                    &&& height > 0
                    &&& columns@.len() > 0
                    &&& rows@.len() == height
                    &&& forall|i: int| 0 <= i < height ==> (#[trigger] rows@[i])@.len() == columns@.len()
                    &&& forall|c: int, i: int|
                        #![trigger rows@[i]@[c]]
                        #![trigger float_cell(cols, c, i)]
                        0 <= c < columns@.len() && 0 <= i < height ==> float_cell(cols, c, i) == Ok::<
                            T,
                            FeatureErrorView,
                        >(rows@[i]@[c])
                },
                Err(e) => first_float_failure(cols, height as nat, e@),
            }
        }),
{
    let ghost cols = float_columns_view(columns@);
    let width = columns.len();
    if height == 0 || width == 0 {
        return Err(FeatureError::EmptyFrame);
    }
    let mut rows: Vec<Vec<T>> = Vec::new();
    for i in 0..height
        invariant
            rows@.len() == i,
            forall|k: int| 0 <= k < i ==> (#[trigger] rows@[k])@.len() == 0,
    {
        rows.push(Vec::new());
    }
    for c in 0..width
        invariant
            width == columns@.len(),
            height > 0,
            cols == float_columns_view(columns@),
            float_columns_fit(cols, height as nat),
            rows@.len() == height,
            forall|k: int| 0 <= k < height ==> (#[trigger] rows@[k])@.len() == c,
            forall|c2: int, k: int|
                0 <= c2 < c && 0 <= k < height ==> float_cell(cols, c2, k) == Ok::<
                    T,
                    FeatureErrorView,
                >(#[trigger] rows@[k]@[c2]),
    {
        assert(cols[c as int] == float_column_view(columns@[c as int]));
        match &columns[c] {
            Err(column_error) => {
                let e = column_error.duplicate();
                proof {
                    assert forall|c2: int, r2: int|
                        0 <= c2 < width && 0 <= r2 < height && read_before(
                            c2,
                            r2,
                            c as int,
                            0,
                        ) implies (#[trigger] float_cell(cols, c2, r2)) is Ok by {
                        assert(float_cell(cols, c2, r2) == Ok::<T, FeatureErrorView>(rows@[r2]@[c2]));
                    }
                    assert(float_cell(cols, c as int, 0) == Err::<T, FeatureErrorView>(e@));
                }
                return Err(e);
            },
            Ok(v) => {
                for i in 0..height
                    invariant
                        width == columns@.len(),
                        c < width,
                        height > 0,
                        cols == float_columns_view(columns@),
                        cols[c as int] == Ok::<Seq<Option<T>>, FeatureErrorView>(v@),
                        v@.len() == height,
                        rows@.len() == height,
                        forall|k: int| 0 <= k < i ==> (#[trigger] rows@[k])@.len() == c + 1,
                        forall|k: int| i <= k < height ==> (#[trigger] rows@[k])@.len() == c,
                        forall|c2: int, k: int|
                            0 <= c2 < c && 0 <= k < height ==> float_cell(cols, c2, k) == Ok::<
                                T,
                                FeatureErrorView,
                            >(#[trigger] rows@[k]@[c2]),
                        forall|k: int|
                            0 <= k < i ==> float_cell(cols, c as int, k) == Ok::<
                                T,
                                FeatureErrorView,
                            >(#[trigger] rows@[k]@[c as int]),
                {
                    match v[i] {
                        Some(x) => {
                            rows[i].push(x);
                        },
                        None => {
                            let e = FeatureError::NullAtRow { row: i };
                            proof {
                                assert forall|c2: int, r2: int|
                                    0 <= c2 < width && 0 <= r2 < height && read_before(
                                        c2,
                                        r2,
                                        c as int,
                                        i as int,
                                    ) implies (#[trigger] float_cell(cols, c2, r2)) is Ok by {
                                    assert(float_cell(cols, c2, r2) == Ok::<T, FeatureErrorView>(
                                        rows@[r2]@[c2],
                                    ));
                                }
                                assert(float_cell(cols, c as int, i as int) == Err::<T, FeatureErrorView>(
                                    e@,
                                ));
                            }
                            return Err(e);
                        },
                    }
                }
            },
        }
    }
    let r: Result<Vec<Vec<T>>, FeatureError> = Ok(rows);
    r
}

/// The views of the columns of a frame.
pub open spec fn columns_view(cols: Seq<Column>) -> Seq<ColumnView> {
    cols.map_values(|col: Column| col@)
}

/// Every column is well formed and has one cell per row.
pub open spec fn columns_fit(cols: Seq<ColumnView>, height: nat) -> bool {
    forall|c: int|
        0 <= c < cols.len() ==> column_wf(#[trigger] cols[c]) && column_len(cols[c]) == height
}

/// A present cell of a column that was read is the float feature of its row
/// and column, whatever the number of columns.
pub proof fn lemma_float_cell_is_column_cell<T>(
    cols: Seq<Result<Seq<Option<T>>, FeatureErrorView>>,
    c: int,
    r: int,
    x: T,
)
    requires
        0 <= c < cols.len(),
        cols[c] matches Ok(v) && 0 <= r < v.len() && v[r] == Some(x),
    ensures
        float_cell(cols, c, r) == Ok::<T, FeatureErrorView>(x),
{
}

/// A present string cell is the categorical feature of its row and column,
/// unchanged, in a frame of any height.
pub proof fn lemma_string_cell_is_category(
    cols: Seq<ColumnView>,
    height: nat,
    c: int,
    r: int,
    text: Seq<char>,
)
    requires
        0 <= c < cols.len(),
        cols[c].cells matches CellsView::Text(v) && 0 <= r < v.len() && v[r] == Some(text),
    ensures
        categorical_cell(cols, height, c, r) == Ok::<Seq<char>, FeatureErrorView>(text),
{
}

/// Whether `text` is the categorical text of the present cell at row `i`:
/// the string itself, the integer in decimal, or the boolean as a word.
pub open spec fn cell_text_is(cells: CellsView, i: int, text: Seq<char>) -> bool {
    match cells {
        CellsView::Text(v) => v[i] == Some(text),
        CellsView::Integer(v) => v[i] is Some && text == decimal_int(v[i]->Some_0),
        CellsView::Boolean(v) => v[i] is Some && text == (if v[i]->Some_0 {
            "true"@
        } else {
            "false"@
        }),
        CellsView::Other(_) => false,
    }
}

/// Whether a column is of strings, integers or booleans, with no null.
pub open spec fn all_present(cells: CellsView) -> bool {
    match cells {
        CellsView::Text(v) => forall|i: int| 0 <= i < v.len() ==> (#[trigger] v[i]) is Some,
        CellsView::Integer(v) => forall|i: int| 0 <= i < v.len() ==> (#[trigger] v[i]) is Some,
        CellsView::Boolean(v) => forall|i: int| 0 <= i < v.len() ==> (#[trigger] v[i]) is Some,
        CellsView::Other(_) => false,
    }
}

/// The categorical feature at column `c`, row `r`, or why it cannot be had.
/// In a frame of several rows a string column is walked directly, so that a
/// null is reported by its row; any other cell is read by its index.
pub open spec fn categorical_cell(
    cols: Seq<ColumnView>,
    height: nat,
    c: int,
    r: int,
) -> Result<Seq<char>, FeatureErrorView> {
    match cols[c].cells {
        CellsView::Text(v) => if height == 1 {
            string_value(cols[c], r as nat)
        } else {
            match v[r] {
                Some(s) => Ok(s),
                None => Err(FeatureErrorView::NullAtRow { row: r as nat }),
            }
        },
        _ => string_value(cols[c], r as nat),
    }
}

/// The error of reading a frame of categorical features: the empty frame, or
/// else the failure of the first cell, in reading order, that fails.
pub open spec fn first_categorical_failure(
    cols: Seq<ColumnView>,
    height: nat,
    e: FeatureErrorView,
) -> bool {
    if height == 0 || cols.len() == 0 {
        e == FeatureErrorView::EmptyFrame
    } else {
        exists|c: int, r: int|
            #![trigger categorical_cell(cols, height, c, r)]
            0 <= c < cols.len() && 0 <= r < height && categorical_cell(cols, height, c, r) == Err::<
                Seq<char>,
                FeatureErrorView,
            >(e) && forall|c2: int, r2: int|
                0 <= c2 < cols.len() && 0 <= r2 < height && read_before(c2, r2, c, r)
                    ==> (#[trigger] categorical_cell(cols, height, c2, r2)) is Ok
    }
}

/// Turns the columns of categorical features into one row of strings per
/// frame row. A frame without rows or columns, a null, and a column of a
/// type that has no categorical reading are errors.
pub fn categorical_features_from_columns(height: usize, columns: &Vec<Column>) -> (r: Result<
    Vec<Vec<String>>,
    FeatureError,
>)
    requires
        columns_fit(columns_view(columns@), height as nat),
    ensures
        ({
            let cols = columns_view(columns@);
            match r {
                Ok(rows) => {
                    &&& height > 0
                    &&& columns@.len() > 0
                    &&& rows@.len() == height
                    &&& forall|i: int| 0 <= i < height ==> (#[trigger] rows@[i])@.len() == columns@.len()
                    &&& forall|c: int, i: int|
                        #![trigger rows@[i]@[c]]
                        #![trigger categorical_cell(cols, height as nat, c, i)]
                        0 <= c < columns@.len() && 0 <= i < height ==> categorical_cell(
                            cols,
                            height as nat,
                            c,
                            i,
                        ) == Ok::<Seq<char>, FeatureErrorView>(rows@[i]@[c]@)
                },
                Err(e) => first_categorical_failure(cols, height as nat, e@),
            }
        }),
        // Each row holds, for every column, that column's cell of the row: a
        // string unchanged, an integer in decimal, a boolean as a word.
        r matches Ok(rows) ==> forall|c: int, i: int|
            0 <= c < columns@.len() && 0 <= i < height ==> cell_text_is(
                columns@[c]@.cells,
                i,
                (#[trigger] rows@[i]@[c])@,
            ),
        // A frame with rows and columns whose cells are all present, in columns
        // of strings, integers or booleans, is accepted.
        height > 0 && columns@.len() > 0 && (forall|c: int|
            0 <= c < columns@.len() ==> all_present(#[trigger] columns@[c]@.cells)) ==> r is Ok,
        // The only errors: the empty frame, a null, or a column of another type.
        r matches Err(e) ==> (e@ is EmptyFrame || e@ is NullAtRow || e@ is NullAtIndex
            || e@ is UnsupportedCategoricalType),
{
    let r = read_categorical_rows(height, columns);
    proof {
        let cols = columns_view(columns@);
        match &r {
            Ok(rows) => {
                assert forall|c: int, i: int|
                    0 <= c < columns@.len() && 0 <= i < height implies cell_text_is(
                        columns@[c]@.cells,
                        i,
                        (#[trigger] rows@[i]@[c])@,
                    ) by {
                    assert(cols[c] == columns@[c]@);
                    assert(categorical_cell(cols, height as nat, c, i) == Ok::<
                        Seq<char>,
                        FeatureErrorView,
                    >(rows@[i]@[c]@));
                }
            },
            Err(e) => {
                if height > 0 && columns@.len() > 0 {
                    let (c, i) = choose|c: int, i: int|
                        #![trigger categorical_cell(cols, height as nat, c, i)]
                        0 <= c < cols.len() && 0 <= i < height && categorical_cell(
                            cols,
                            height as nat,
                            c,
                            i,
                        ) == Err::<Seq<char>, FeatureErrorView>(e@) && forall|c2: int, r2: int|
                            0 <= c2 < cols.len() && 0 <= r2 < height && read_before(c2, r2, c, i)
                                ==> (#[trigger] categorical_cell(cols, height as nat, c2, r2)) is Ok;
                    assert(cols[c] == columns@[c]@);
                    assert(column_len(cols[c]) == height);
                    if forall|c3: int| 0 <= c3 < columns@.len() ==> all_present(#[trigger] columns@[c3]@.cells) {
                        assert(all_present(columns@[c]@.cells));
                        assert(false);
                    }
                }
            },
        }
    }
    r
}

/// Reads the categorical columns in order, column by column and row by row.
fn read_categorical_rows(height: usize, columns: &Vec<Column>) -> (r: Result<
    Vec<Vec<String>>,
    FeatureError,
>)
    requires
        columns_fit(columns_view(columns@), height as nat),
    ensures
        ({
            let cols = columns_view(columns@);
            match r {
                Ok(rows) => {
                    &&& height > 0
                    &&& columns@.len() > 0
                    &&& rows@.len() == height
                    &&& forall|i: int| 0 <= i < height ==> (#[trigger] rows@[i])@.len() == columns@.len()
                    &&& forall|c: int, i: int|
                        #![trigger rows@[i]@[c]]
                        #![trigger categorical_cell(cols, height as nat, c, i)]
                        0 <= c < columns@.len() && 0 <= i < height ==> categorical_cell(
                            cols,
                            height as nat,
                            c,
                            i,
                        ) == Ok::<Seq<char>, FeatureErrorView>(rows@[i]@[c]@)
                },
                Err(e) => first_categorical_failure(cols, height as nat, e@),
            }
        }),
{
    let ghost cols = columns_view(columns@);
    let width = columns.len();
    if height == 0 || width == 0 {
        return Err(FeatureError::EmptyFrame);
    }
    if height == 1 {
        let mut row: Vec<String> = Vec::new();
        for c in 0..width
            invariant
                width == columns@.len(),
                height == 1,
                cols == columns_view(columns@),
                columns_fit(cols, height as nat),
                row@.len() == c,
                forall|c2: int|
                    0 <= c2 < c ==> categorical_cell(cols, height as nat, c2, 0) == Ok::<
                        Seq<char>,
                        FeatureErrorView,
                    >((#[trigger] row@[c2])@),
        {
            assert(cols[c as int] == columns@[c as int]@);
            match extract_string_value(&columns[c], 0) {
                Ok(s) => {
                    row.push(s);
                },
                Err(e) => {
                    proof {
                        assert forall|c2: int, r2: int|
                            0 <= c2 < width && 0 <= r2 < height && read_before(
                                c2,
                                r2,
                                c as int,
                                0,
                            ) implies (#[trigger] categorical_cell(cols, height as nat, c2, r2)) is Ok by {
                            assert(categorical_cell(cols, height as nat, c2, 0) == Ok::<
                                Seq<char>,
                                FeatureErrorView,
                            >(row@[c2]@));
                        }
                        assert(categorical_cell(cols, height as nat, c as int, 0) == Err::<
                            Seq<char>,
                            FeatureErrorView,
                        >(e@));
                    }
                    return Err(e);
                },
            }
        }
        let mut rows: Vec<Vec<String>> = Vec::new();
        rows.push(row);
        return Ok(rows);
    }
    let mut rows: Vec<Vec<String>> = Vec::new();
    for i in 0..height
        invariant
            rows@.len() == i,
            forall|k: int| 0 <= k < i ==> (#[trigger] rows@[k])@.len() == 0,
    {
        rows.push(Vec::new());
    }
    for c in 0..width
        invariant
            width == columns@.len(),
            height > 1,
            cols == columns_view(columns@),
            columns_fit(cols, height as nat),
            rows@.len() == height,
            forall|k: int| 0 <= k < height ==> (#[trigger] rows@[k])@.len() == c,
            forall|c2: int, k: int|
                0 <= c2 < c && 0 <= k < height ==> categorical_cell(cols, height as nat, c2, k)
                    == Ok::<Seq<char>, FeatureErrorView>((#[trigger] rows@[k]@[c2])@),
    {
        assert(cols[c as int] == columns@[c as int]@);
        let column = &columns[c];
        for i in 0..height
            invariant
                width == columns@.len(),
                c < width,
                height > 1,
                cols == columns_view(columns@),
                columns_fit(cols, height as nat),
                cols[c as int] == column@,
                rows@.len() == height,
                forall|k: int| 0 <= k < i ==> (#[trigger] rows@[k])@.len() == c + 1,
                forall|k: int| i <= k < height ==> (#[trigger] rows@[k])@.len() == c,
                forall|c2: int, k: int|
                    0 <= c2 < c && 0 <= k < height ==> categorical_cell(cols, height as nat, c2, k)
                        == Ok::<Seq<char>, FeatureErrorView>((#[trigger] rows@[k]@[c2])@),
                forall|k: int|
                    0 <= k < i ==> categorical_cell(cols, height as nat, c as int, k) == Ok::<
                        Seq<char>,
                        FeatureErrorView,
                    >((#[trigger] rows@[k]@[c as int])@),
        {
            let cell: Result<String, FeatureError> = match &column.cells {
                Cells::Text(v) => {
                    assert(v@.map_values(|o: Option<String>| crate::column::text_cell_view(o))[i as int]
                        == crate::column::text_cell_view(v@[i as int]));
                    match &v[i] {
                        Some(s) => Ok(s.clone()),
                        None => Err(FeatureError::NullAtRow { row: i }),
                    }
                },
                _ => extract_string_value(column, i),
            };
            assert(text_result_view(cell) == categorical_cell(cols, height as nat, c as int, i as int));
            match cell {
                Ok(s) => {
                    rows[i].push(s);
                },
                Err(e) => {
                    proof {
                        assert forall|c2: int, r2: int|
                            0 <= c2 < width && 0 <= r2 < height && read_before(
                                c2,
                                r2,
                                c as int,
                                i as int,
                            ) implies (#[trigger] categorical_cell(cols, height as nat, c2, r2)) is Ok by {
                            assert(categorical_cell(cols, height as nat, c2, r2) == Ok::<
                                Seq<char>,
                                FeatureErrorView,
                            >(rows@[r2]@[c2]@));
                        }
                        assert(categorical_cell(cols, height as nat, c as int, i as int) == Err::<
                            Seq<char>,
                            FeatureErrorView,
                        >(e@));
                    }
                    return Err(e);
                },
            }
        }
    }
    let r: Result<Vec<Vec<String>>, FeatureError> = Ok(rows);
    r
}

/// The categorical features of a frame that has none: an empty row for each
/// of its rows.
pub fn empty_categorical_rows(height: usize) -> (rows: Vec<Vec<String>>)
    ensures
        rows@.len() == height,
        forall|r: int| 0 <= r < height ==> (#[trigger] rows@[r])@.len() == 0,
{
    let mut rows: Vec<Vec<String>> = Vec::new();
    for i in 0..height
        invariant
            rows@.len() == i,
            forall|k: int| 0 <= k < i ==> (#[trigger] rows@[k])@.len() == 0,
    {
        rows.push(Vec::new());
    }
    rows
}

/// The value of a categorical cell does not depend on how many rows the
/// frame has: only the message of a null in a string column does.
pub proof fn lemma_categorical_value_independent_of_height(
    cols: Seq<ColumnView>,
    h1: nat,
    h2: nat,
    c: int,
    r: int,
)
    requires
        0 <= c < cols.len(),
        0 <= r < column_len(cols[c]),
        categorical_cell(cols, h1, c, r) is Ok,
    ensures
        categorical_cell(cols, h2, c, r) == categorical_cell(cols, h1, c, r),
{
}

} // verus!
