use polars::prelude::{Column, DataFrame, JsonFormat, JsonWriter, PolarsError, SerWriter};
use vstd::prelude::*;
use vstd::utf8::{decode_utf8, encode_utf8, valid_utf8};

verus! {

#[verifier::external_type_specification]
#[verifier::external_body]
pub struct ExDataFrame(DataFrame);

#[verifier::external_type_specification]
#[verifier::external_body]
pub struct ExColumn(Column);

#[verifier::external_type_specification]
#[verifier::external_body]
pub struct ExPolarsError(PolarsError);

/// The name of a column.
pub uninterp spec fn column_name(c: Column) -> Seq<char>;

/// The number of cells of a column.
pub uninterp spec fn column_height(c: Column) -> nat;

/// The data type of a column, as polars' `Display` for `DataType` writes it
/// (`str` for text, `i32` for 32-bit integers, `f64`, `bool`, ...).
pub uninterp spec fn column_dtype(c: Column) -> Seq<char>;

/// The cells of a column of any type, in order: `None` for a missing cell,
/// otherwise the bytes of the value as the column stores it (UTF-8 for text,
/// the little-endian bytes of a number, ...).  Two columns of one type hold
/// the same values exactly when these agree.
pub uninterp spec fn column_values(c: Column) -> Seq<Option<Seq<u8>>>;

/// The cells of a text column, in order; `None` stands for a missing cell.
pub uninterp spec fn text_cells(c: Column) -> Seq<Option<Seq<char>>>;

/// The cells of a 32-bit integer column without missing cells, in order.
pub uninterp spec fn int32_cells(c: Column) -> Seq<i32>;

/// The polars JSON writer serializes the data type of this column (it
/// panics, by `todo!`, on the types it has no serializer for, such as binary).
pub uninterp spec fn column_json_writable(c: Column) -> bool;

/// The columns of a data frame, in order.
pub uninterp spec fn frame_columns(df: DataFrame) -> Seq<Column>;

/// The bytes of the row-oriented JSON document (`[{...}, ...]`) that the
/// polars JSON writer produces for a data frame.
pub uninterp spec fn frame_json_rows(df: DataFrame) -> Seq<u8>;

/// The texts of a sequence of optional strings.
pub open spec fn cell_texts(cells: Seq<Option<String>>) -> Seq<Option<Seq<char>>> {
    cells.map_values(|c: Option<String>| match c {
        Some(s) => Some(s@),
        None => None,
    })
}

/// Every column of `columns` has `height` cells.
pub open spec fn all_heights(columns: Seq<Column>, height: nat) -> bool {
    forall|i: int| 0 <= i < columns.len() ==> column_height(#[trigger] columns[i]) == height
}

/// No two columns of `columns` share a name.
pub open spec fn names_distinct(columns: Seq<Column>) -> bool {
    forall|i: int, j: int|
        0 <= i < columns.len() && 0 <= j < columns.len() && i != j ==> column_name(
            #[trigger] columns[i],
        ) != column_name(#[trigger] columns[j])
}

/// The height that polars takes for a frame made of `columns`: that of the
/// first column, or zero when there is none.
pub open spec fn first_height(columns: Seq<Column>) -> nat {
    if columns.len() == 0 {
        0
    } else {
        column_height(columns[0])
    }
}

/// Calls `Column::new` with a slice of optional strings: the result is a
/// text column named `name` holding exactly `cells`, in order.
#[verifier::external_body]
pub(crate) fn text_column(name: &str, cells: &Vec<Option<String>>) -> (c: Column)
    ensures
        column_name(c) == name@,
        column_height(c) == cells@.len(),
        column_dtype(c) == "str"@,
        text_cells(c) == cell_texts(cells@),
        column_values(c) == cell_texts(cells@).map_values(
            |t: Option<Seq<char>>|
                match t {
                    Some(x) => Some(encode_utf8(x)),
                    None => None,
                },
        ),
        column_json_writable(c),
{
    Column::new(name.into(), cells.as_slice())
}

/// Calls `Column::new` with a slice of `i32`: the result is an integer
/// column named `name` holding exactly `cells`, in order.
#[verifier::external_body]
pub(crate) fn int32_column(name: &str, cells: &Vec<i32>) -> (c: Column)
    ensures
        column_name(c) == name@,
        column_height(c) == cells@.len(),
        column_dtype(c) == "i32"@,
        int32_cells(c) == cells@,
        column_json_writable(c),
{
    Column::new(name.into(), cells.as_slice())
}

/// Calls `DataFrame::new_infer_height`.  Its source (`validate_columns_slice`)
/// accepts the columns exactly when each has the height of the first one and
/// no two share a name; the frame then holds the given columns in order.
#[verifier::external_body]
pub(crate) fn frame_from_columns(columns: Vec<Column>) -> (r: Result<DataFrame, PolarsError>)
    ensures
        r is Ok == (all_heights(columns@, first_height(columns@)) && names_distinct(columns@)),
        r matches Ok(df) ==> frame_columns(df) == columns@,
{
    DataFrame::new_infer_height(columns)
}

/// Every column of `df` has a type that the JSON writer serializes.
pub open spec fn frame_json_writable(df: DataFrame) -> bool {
    forall|i: int|
        0 <= i < frame_columns(df).len() ==> column_json_writable(#[trigger] frame_columns(df)[i])
}

/// `after` holds the same columns as `before`: same names, types, heights
/// and cells, the same writability, and the same JSON rendering.
pub open spec fn same_contents(before: DataFrame, after: DataFrame) -> bool {
    &&& frame_columns(after).len() == frame_columns(before).len()
    &&& forall|i: int|
        0 <= i < frame_columns(before).len() ==> {
            &&& column_name(#[trigger] frame_columns(after)[i]) == column_name(
                frame_columns(before)[i],
            )
            &&& column_dtype(frame_columns(after)[i]) == column_dtype(frame_columns(before)[i])
            &&& column_height(frame_columns(after)[i]) == column_height(frame_columns(before)[i])
            &&& column_values(frame_columns(after)[i]) == column_values(frame_columns(before)[i])
            &&& text_cells(frame_columns(after)[i]) == text_cells(frame_columns(before)[i])
            &&& int32_cells(frame_columns(after)[i]) == int32_cells(frame_columns(before)[i])
            &&& column_json_writable(frame_columns(after)[i]) == column_json_writable(
                frame_columns(before)[i],
            )
        }
    &&& frame_json_rows(after) == frame_json_rows(before)
}

/// Calls `JsonWriter::finish` with `JsonFormat::Json` on an in-memory
/// buffer.  In the polars source this path has no failing branch (writing to
/// a `Vec` cannot fail, and the `Object` check needs a feature that is off);
/// it panics only on column types without a serializer, which `requires`
/// leaves out.  The buffer then holds the row-oriented JSON document of the
/// frame, which is UTF-8 text (text is copied from `str`, escapes and
/// numbers are ASCII).  The writer only re-chunks the frame, so its contents
/// stay the same.
#[verifier::external_body]
pub(crate) fn write_json_rows(df: &mut DataFrame) -> (r: Result<Vec<u8>, PolarsError>)
    requires
        frame_json_writable(*old(df)),
    ensures
        r is Ok,
        r matches Ok(bytes) ==> bytes@ == frame_json_rows(*old(df)),
        valid_utf8(frame_json_rows(*old(df))),
        same_contents(*old(df), *final(df)),
{
    let mut buffer: Vec<u8> = Vec::new();
    JsonWriter::new(&mut buffer).with_json_format(JsonFormat::Json).finish(df)?;
    Ok(buffer)
}

/// Calls `String::from_utf8`: it succeeds exactly when the bytes are valid
/// UTF-8, and the string then holds the decoded characters.
#[verifier::external_body]
pub(crate) fn string_from_utf8(bytes: Vec<u8>) -> (r: Option<String>)
    ensures
        r is Some == valid_utf8(bytes@),
        r matches Some(s) ==> s@ == decode_utf8(bytes@),
{
    String::from_utf8(bytes).ok()
}


/// No two of `names` have the same text.
pub open spec fn distinct_texts(names: Seq<String>) -> bool {
    forall|i: int, j: int|
        0 <= i < names.len() && 0 <= j < names.len() && i != j ==> (#[trigger] names[i])@ != (
        #[trigger] names[j])@
}

/// Every one of `columns` has as many cells as the first.
pub open spec fn same_heights(columns: Seq<Vec<Option<String>>>) -> bool {
    forall|i: int| 0 <= i < columns.len() ==> (#[trigger] columns[i])@.len() == columns[0]@.len()
}

/// `df` consists of text columns (type `str`) named `names`, in order, whose
/// cells are those of `columns`.
pub open spec fn holds_text_columns(
    df: DataFrame,
    names: Seq<String>,
    columns: Seq<Vec<Option<String>>>,
) -> bool {
    &&& frame_columns(df).len() == names.len()
    &&& forall|i: int|
        0 <= i < names.len() ==> {
            &&& column_name(#[trigger] frame_columns(df)[i]) == names[i]@
            &&& column_dtype(frame_columns(df)[i]) == "str"@
            &&& column_height(frame_columns(df)[i]) == columns[i]@.len()
            &&& text_cells(frame_columns(df)[i]) == cell_texts(columns[i]@)
        }
}

/// Builds a data frame of text columns: column `i` is named `names[i]` and
/// holds the cells `columns[i]`.  Polars refuses the columns exactly when
/// their heights differ or two names coincide.
pub fn frame_from_text_columns(names: &Vec<String>, columns: &Vec<Vec<Option<String>>>) -> (r:
    Result<DataFrame, PolarsError>)
    requires
        names@.len() == columns@.len(),
    ensures
        r is Ok == (same_heights(columns@) && distinct_texts(names@)),
        r matches Ok(df) ==> holds_text_columns(df, names@, columns@),
        r matches Ok(df) ==> frame_json_writable(df),
{
    let mut built: Vec<Column> = Vec::new();
    for i in 0..names.len()
        invariant
            names@.len() == columns@.len(),
            built@.len() == i,
            forall|k: int|
                0 <= k < i ==> {
                    &&& column_name(#[trigger] built@[k]) == names@[k]@
                    &&& column_dtype(built@[k]) == "str"@
                    &&& column_height(built@[k]) == columns@[k]@.len()
                    &&& text_cells(built@[k]) == cell_texts(columns@[k]@)
                    &&& column_json_writable(built@[k])
                },
    {
        let c = text_column(names[i].as_str(), &columns[i]);
        built.push(c);
    }
    let ghost cols = built@;
    assert(all_heights(cols, first_height(cols)) == same_heights(columns@)) by {
        if cols.len() > 0 {
            if same_heights(columns@) {
                assert forall|i: int| 0 <= i < cols.len() implies column_height(#[trigger] cols[i])
                    == first_height(cols) by {
                    assert(columns@[i]@.len() == columns@[0]@.len());
                }
            }
            if all_heights(cols, first_height(cols)) {
                assert forall|i: int| 0 <= i < columns@.len() implies (#[trigger] columns@[i])@.len()
                    == columns@[0]@.len() by {
                    assert(column_height(cols[i]) == first_height(cols));
                }
            }
        }
    }
    assert(names_distinct(cols) == distinct_texts(names@)) by {
        if names_distinct(cols) {
            assert forall|i: int, j: int|
                0 <= i < names@.len() && 0 <= j < names@.len() && i != j implies (
                #[trigger] names@[i])@ != (#[trigger] names@[j])@ by {
                assert(column_name(cols[i]) != column_name(cols[j]));
            }
        }
        if distinct_texts(names@) {
            assert forall|i: int, j: int|
                0 <= i < cols.len() && 0 <= j < cols.len() && i != j implies column_name(
                #[trigger] cols[i],
            ) != column_name(#[trigger] cols[j]) by {
                assert(names@[i]@ != names@[j]@);
            }
        }
    }
    frame_from_columns(built)
}

/// Turns the bytes written by the JSON writer into text: the decoded string
/// when they are valid UTF-8, nothing otherwise.
pub fn rows_json_text(bytes: Vec<u8>) -> (r: Option<String>)
    ensures
        r is Some == valid_utf8(bytes@),
        r matches Some(s) ==> s@ == decode_utf8(bytes@),
{
    string_from_utf8(bytes)
}

/// Renders a data frame row by row, as the JSON array of one object per row
/// that the polars JSON writer produces, and returns it as text.  It always
/// succeeds on a frame whose column types the writer serializes, and leaves
/// the frame's contents as they were.
pub fn df_to_json_each_row(df: &mut DataFrame) -> (r: Result<String, PolarsError>)
    requires
        frame_json_writable(*old(df)),
    ensures
        r is Ok,
        r matches Ok(s) ==> s@ == decode_utf8(frame_json_rows(*old(df))),
        same_contents(*old(df), *final(df)),
{
    match write_json_rows(df) {
        Ok(bytes) => Ok(rows_json_text(bytes).unwrap()),
        Err(e) => Err(e),
    }
}

} // verus!
