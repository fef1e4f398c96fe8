use polars::prelude::{DataFrame, PolarsError};
use vstd::prelude::*;
use vstd::string::StringExecFns;

use crate::frame::{
    cell_texts, column_dtype, column_height, column_name, distinct_texts, frame_columns, frame_json_writable,
    frame_from_text_columns, text_cells,
};

verus! {

/// The text of an optional cell.
pub open spec fn cell_text(cell: Option<String>) -> Option<Seq<char>> {
    match cell {
        Some(s) => Some(s@),
        None => None,
    }
}

/// Every row of `rows` has `width` cells.
pub open spec fn rows_have_width(rows: Seq<Vec<Option<String>>>, width: nat) -> bool {
    forall|r: int| 0 <= r < rows.len() ==> (#[trigger] rows[r])@.len() == width
}

/// `columns` is the column-major form of `rows`: column `c` holds, for every
/// row `r`, the cell `c` of row `r`.
pub open spec fn is_transpose(
    rows: Seq<Vec<Option<String>>>,
    columns: Seq<Vec<Option<String>>>,
    width: nat,
) -> bool {
    &&& columns.len() == width
    &&& forall|c: int| 0 <= c < width ==> (#[trigger] columns[c])@.len() == rows.len()
    &&& forall|c: int, r: int|
        0 <= c < width && 0 <= r < rows.len() ==> (#[trigger] columns[c]@[r]) == rows[r]@[c]
}

fn clone_cell(cell: &Option<String>) -> (r: Option<String>)
    ensures
        r == *cell,
{
    match cell {
        Some(s) => Some(s.clone()),
        None => None,
    }
}

/// Rearranges the rows of a query result, each with `column_count` cells,
/// into one vector of cells per column.
pub fn rows_to_columns(column_count: usize, rows: &Vec<Vec<Option<String>>>) -> (columns: Vec<
    Vec<Option<String>>,
>)
    requires
        rows_have_width(rows@, column_count as nat),
    ensures
        is_transpose(rows@, columns@, column_count as nat),
{
    let mut columns: Vec<Vec<Option<String>>> = Vec::new();
    for c in 0..column_count
        invariant
            rows_have_width(rows@, column_count as nat),
            columns@.len() == c,
            forall|k: int| 0 <= k < c ==> (#[trigger] columns@[k])@.len() == rows@.len(),
            forall|k: int, r: int|
                0 <= k < c && 0 <= r < rows@.len() ==> (#[trigger] columns@[k]@[r]) == rows@[r]@[k],
    {
        let mut column: Vec<Option<String>> = Vec::new();
        for r in 0..rows.len()
            invariant
                rows_have_width(rows@, column_count as nat),
                c < column_count,
                column@.len() == r,
                forall|q: int| 0 <= q < r ==> (#[trigger] column@[q]) == rows@[q]@[c as int],
        {
            assert(rows@[r as int]@.len() == column_count);
            let cell = clone_cell(&rows[r][c]);
            column.push(cell);
        }
        columns.push(column);
    }
    columns
}

/// `df` is the frame of a query result: one text column (type `str`) per
/// result column,
/// named after it, holding the cells of every row in order.
pub open spec fn frame_of_rows(
    df: DataFrame,
    column_names: Seq<String>,
    rows: Seq<Vec<Option<String>>>,
) -> bool {
    &&& frame_columns(df).len() == column_names.len()
    &&& forall|c: int|
        0 <= c < column_names.len() ==> {
            &&& column_name(#[trigger] frame_columns(df)[c]) == column_names[c]@
            &&& column_dtype(frame_columns(df)[c]) == "str"@
            &&& column_height(frame_columns(df)[c]) == rows.len()
            &&& text_cells(frame_columns(df)[c]).len() == rows.len()
            &&& forall|r: int|
                0 <= r < rows.len() ==> text_cells(frame_columns(df)[c])[r] == cell_text(
                    rows[r]@[c],
                )
        }
}

/// Builds the data frame of a query result from the names of its columns and
/// its rows, each read as optional text.  Polars refuses it exactly when two
/// columns share a name.
pub fn query_result_to_frame(column_names: &Vec<String>, rows: &Vec<Vec<Option<String>>>) -> (r:
    Result<DataFrame, PolarsError>)
    requires
        rows_have_width(rows@, column_names@.len()),
    ensures
        r is Ok == distinct_texts(column_names@),
        r matches Ok(df) ==> frame_of_rows(df, column_names@, rows@),
        r matches Ok(df) ==> frame_json_writable(df),
{
    let columns = rows_to_columns(column_names.len(), rows);
    let r = frame_from_text_columns(column_names, &columns);
    assert(r is Ok == distinct_texts(column_names@)) by {
        if columns@.len() > 0 {
            assert forall|i: int| 0 <= i < columns@.len() implies (#[trigger] columns@[i])@.len()
                == columns@[0]@.len() by {}
        }
    }
    if let Ok(df) = &r {
        assert forall|c: int| 0 <= c < column_names@.len() implies {
            &&& column_name(#[trigger] frame_columns(*df)[c]) == column_names@[c]@
            &&& column_dtype(frame_columns(*df)[c]) == "str"@
            &&& column_height(frame_columns(*df)[c]) == rows@.len()
            &&& text_cells(frame_columns(*df)[c]).len() == rows@.len()
            &&& forall|q: int|
                0 <= q < rows@.len() ==> text_cells(frame_columns(*df)[c])[q] == cell_text(
                    rows@[q]@[c],
                )
        } by {
            assert(text_cells(frame_columns(*df)[c]) == cell_texts(columns@[c]@));
            assert forall|q: int| 0 <= q < rows@.len() implies text_cells(
                frame_columns(*df)[c],
            )[q] == cell_text(rows@[q]@[c]) by {
                assert(columns@[c]@[q] == rows@[q]@[c]);
            }
        }
    }
    r
}

/// The Oracle "easy connect" string `//host:port/service_name`.
pub fn connect_string(host: &str, port: &str, service_name: &str) -> (r: String)
    ensures
        r@ == "//"@ + host@ + ":"@ + port@ + "/"@ + service_name@,
{
    let mut s = String::from_str("//");
    s.append(host);
    s.append(":");
    s.append(port);
    s.append("/");
    s.append(service_name);
    s
}

} // verus!
