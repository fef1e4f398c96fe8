use vstd::prelude::*;

use crate::json::JsonValue;

verus! {

/// The values of one data-frame column, read out as plain values.
///
/// Floating-point cells are carried as the bit pattern of the `f32` or
/// `f64` value; `Other` holds the cells of a column of any other type after
/// they were cast to text.
#[derive(Debug)]
pub enum ColumnValues {
    Int32(Vec<Option<i32>>),
    Int64(Vec<Option<i64>>),
    Float32(Vec<Option<u32>>),
    Float64(Vec<Option<u64>>),
    Utf8(Vec<Option<String>>),
    Boolean(Vec<Option<bool>>),
    Other(Vec<Option<String>>),
}

/// Finiteness of a float does not depend on its sign: flipping the sign bit
/// of any `f64` or `f32` bit pattern keeps a finite value finite and a NaN or
/// infinity non-finite.  A value is non-finite exactly when all bits of its
/// exponent field are set.
pub proof fn lemma_float_finiteness_ignores_sign(b64: u64, b32: u32)
    ensures
        f64_bits_finite(b64) == f64_bits_finite(b64 ^ 0x8000_0000_0000_0000u64),
        f32_bits_finite(b32) == f32_bits_finite(b32 ^ 0x8000_0000u32),
        !f64_bits_finite(b64) <==> (b64 & 0x7ff0_0000_0000_0000u64) == 0x7ff0_0000_0000_0000u64,
        !f32_bits_finite(b32) <==> (b32 & 0x7f80_0000u32) == 0x7f80_0000u32,
{
    assert(((b64 >> 52u64) & 0x7ffu64 != 0x7ffu64) == (((b64 ^ 0x8000_0000_0000_0000u64) >> 52u64)
        & 0x7ffu64 != 0x7ffu64)) by (bit_vector);
    assert(((b32 >> 23u32) & 0xffu32 != 0xffu32) == (((b32 ^ 0x8000_0000u32) >> 23u32) & 0xffu32
        != 0xffu32)) by (bit_vector);
    assert(((b64 >> 52u64) & 0x7ffu64 == 0x7ffu64) == ((b64 & 0x7ff0_0000_0000_0000u64)
        == 0x7ff0_0000_0000_0000u64)) by (bit_vector);
    assert(((b32 >> 23u32) & 0xffu32 == 0xffu32) == ((b32 & 0x7f80_0000u32) == 0x7f80_0000u32))
        by (bit_vector);
}

/// A float cell is rendered as the number it holds, with its bits, whenever
/// its exponent field is not all ones (whatever its sign or magnitude), and
/// as `null` when it is (NaN or an infinity).
pub proof fn lemma_float_cells_rendering(values: ColumnValues, j: int, v: JsonValue)
    requires
        0 <= j < column_len(values),
    ensures
        values matches ColumnValues::Float64(c) ==> (c@[j] matches Some(b) ==> (cell_json(
            values,
            j,
            v,
        ) <==> if (b & 0x7ff0_0000_0000_0000u64) == 0x7ff0_0000_0000_0000u64 {
            v is Null
        } else {
            v == JsonValue::Float64(b)
        })),
        values matches ColumnValues::Float32(c) ==> (c@[j] matches Some(b) ==> (cell_json(
            values,
            j,
            v,
        ) <==> if (b & 0x7f80_0000u32) == 0x7f80_0000u32 {
            v is Null
        } else {
            v == JsonValue::Float32(b)
        })),
{
    match values {
        ColumnValues::Float64(c) => {
            if let Some(b) = c@[j] {
                lemma_float_finiteness_ignores_sign(b, 0);
                assert(cell_json(values, j, v) == (if f64_bits_finite(b) {
                    v == JsonValue::Float64(b)
                } else {
                    v is Null
                }));
            }
        },
        ColumnValues::Float32(c) => {
            if let Some(b) = c@[j] {
                lemma_float_finiteness_ignores_sign(0, b);
                assert(cell_json(values, j, v) == (if f32_bits_finite(b) {
                    v == JsonValue::Float32(b)
                } else {
                    v is Null
                }));
            }
        },
        _ => {},
    }
}

/// A named column of a data frame.
#[derive(Debug)]
pub struct FrameColumn {
    pub name: String,
    pub values: ColumnValues,
}

/// Number of cells in a column.
pub open spec fn column_len(values: ColumnValues) -> nat {
    match values {
        ColumnValues::Int32(c) => c@.len(),
        ColumnValues::Int64(c) => c@.len(),
        ColumnValues::Float32(c) => c@.len(),
        ColumnValues::Float64(c) => c@.len(),
        ColumnValues::Utf8(c) => c@.len(),
        ColumnValues::Boolean(c) => c@.len(),
        ColumnValues::Other(c) => c@.len(),
    }
}

/// A missing text cell is `null`; a present one is the JSON string of its text.
pub open spec fn text_cell_json(cell: Option<String>, v: JsonValue) -> bool {
    match cell {
        Some(s) => v matches JsonValue::Str(t) && t@ == s@,
        None => v is Null,
    }
}

/// The `f32` with bit pattern `bits` is finite: its exponent field is not
/// all ones (all ones encodes an infinity or a NaN).
pub open spec fn f32_bits_finite(bits: u32) -> bool {
    (bits >> 23u32) & 0xffu32 != 0xffu32
}

/// The `f64` with bit pattern `bits` is finite: its exponent field is not
/// all ones (all ones encodes an infinity or a NaN).
pub open spec fn f64_bits_finite(bits: u64) -> bool {
    (bits >> 52u64) & 0x7ffu64 != 0x7ffu64
}

/// `v` is the JSON form of cell `j` of `values`: a missing cell is `null`,
/// a number keeps its value, except that a NaN or an infinity (which JSON
/// cannot express) is `null`; a boolean stays a boolean and text stays text.
pub open spec fn cell_json(values: ColumnValues, j: int, v: JsonValue) -> bool {
    match values {
        ColumnValues::Int32(c) => match c@[j] {
            Some(x) => v == JsonValue::Int(x as i64),
            None => v is Null,
        },
        ColumnValues::Int64(c) => match c@[j] {
            Some(x) => v == JsonValue::Int(x),
            None => v is Null,
        },
        ColumnValues::Float32(c) => match c@[j] {
            Some(x) => if f32_bits_finite(x) {
                v == JsonValue::Float32(x)
            } else {
                v is Null
            },
            None => v is Null,
        },
        ColumnValues::Float64(c) => match c@[j] {
            Some(x) => if f64_bits_finite(x) {
                v == JsonValue::Float64(x)
            } else {
                v is Null
            },
            None => v is Null,
        },
        ColumnValues::Utf8(c) => text_cell_json(c@[j], v),
        ColumnValues::Boolean(c) => match c@[j] {
            Some(x) => v == JsonValue::Bool(x),
            None => v is Null,
        },
        ColumnValues::Other(c) => text_cell_json(c@[j], v),
    }
}

/// `v` is the JSON array of the cells of `values`, in order.
pub open spec fn column_json(values: ColumnValues, v: JsonValue) -> bool {
    &&& v matches JsonValue::Array(items)
    &&& items@.len() == column_len(values)
    &&& forall|j: int| 0 <= j < items@.len() ==> #[trigger] cell_json(values, j, items@[j])
}

/// `v` is the column-wise JSON document of `columns`: an object with one
/// member per column, in column order, named after the column, whose value is
/// the array of that column's cells.
pub open spec fn columns_json(columns: Seq<FrameColumn>, v: JsonValue) -> bool {
    &&& v matches JsonValue::Object(entries)
    &&& entries@.len() == columns.len()
    &&& forall|i: int|
        0 <= i < entries@.len() ==> {
            &&& (#[trigger] entries@[i]).0@ == columns[i].name@
            &&& column_json(columns[i].values, entries@[i].1)
        }
}

fn text_cell_to_json(cell: &Option<String>) -> (r: JsonValue)
    ensures
        text_cell_json(*cell, r),
{
    match cell {
        Some(s) => JsonValue::Str(s.clone()),
        None => JsonValue::Null,
    }
}

/// The JSON array of the cells of one column.
#[verifier::loop_isolation(false)]
pub fn column_to_json(values: &ColumnValues) -> (r: JsonValue)
    ensures
        column_json(*values, r),
{
    let mut items: Vec<JsonValue> = Vec::new();
    match values {
        ColumnValues::Int32(c) => {
            for j in 0..c.len()
                invariant
                    items@.len() == j,
                    forall|k: int| 0 <= k < j ==> #[trigger] cell_json(*values, k, items@[k]),
            {
                let cell = match c[j] {
                    Some(x) => JsonValue::Int(x as i64),
                    None => JsonValue::Null,
                };
                items.push(cell);
            }
        },
        ColumnValues::Int64(c) => {
            for j in 0..c.len()
                invariant
                    items@.len() == j,
                    forall|k: int| 0 <= k < j ==> #[trigger] cell_json(*values, k, items@[k]),
            {
                let cell = match c[j] {
                    Some(x) => JsonValue::Int(x),
                    None => JsonValue::Null,
                };
                items.push(cell);
            }
        },
        ColumnValues::Float32(c) => {
            for j in 0..c.len()
                invariant
                    items@.len() == j,
                    forall|k: int| 0 <= k < j ==> #[trigger] cell_json(*values, k, items@[k]),
            {
                let cell = match c[j] {
                    Some(x) => if (x >> 23u32) & 0xffu32 != 0xffu32 {
                        JsonValue::Float32(x)
                    } else {
                        JsonValue::Null
                    },
                    None => JsonValue::Null,
                };
                items.push(cell);
            }
        },
        ColumnValues::Float64(c) => {
            for j in 0..c.len()
                invariant
                    items@.len() == j,
                    forall|k: int| 0 <= k < j ==> #[trigger] cell_json(*values, k, items@[k]),
            {
                let cell = match c[j] {
                    Some(x) => if (x >> 52u64) & 0x7ffu64 != 0x7ffu64 {
                        JsonValue::Float64(x)
                    } else {
                        JsonValue::Null
                    },
                    None => JsonValue::Null,
                };
                items.push(cell);
            }
        },
        ColumnValues::Utf8(c) => {
            for j in 0..c.len()
                invariant
                    items@.len() == j,
                    forall|k: int| 0 <= k < j ==> #[trigger] cell_json(*values, k, items@[k]),
            {
                let cell = text_cell_to_json(&c[j]);
                items.push(cell);
            }
        },
        ColumnValues::Boolean(c) => {
            for j in 0..c.len()
                invariant
                    items@.len() == j,
                    forall|k: int| 0 <= k < j ==> #[trigger] cell_json(*values, k, items@[k]),
            {
                let cell = match c[j] {
                    Some(x) => JsonValue::Bool(x),
                    None => JsonValue::Null,
                };
                items.push(cell);
            }
        },
        ColumnValues::Other(c) => {
            for j in 0..c.len()
                invariant
                    items@.len() == j,
                    forall|k: int| 0 <= k < j ==> #[trigger] cell_json(*values, k, items@[k]),
            {
                let cell = text_cell_to_json(&c[j]);
                items.push(cell);
            }
        },
    }
    JsonValue::Array(items)
}

/// Renders a data frame column by column: a JSON object with one member per
/// column, named after it, holding the array of its cells.
pub fn df_to_json_each_column(columns: &Vec<FrameColumn>) -> (r: JsonValue)
    ensures
        columns_json(columns@, r),
{
    let mut entries: Vec<(String, JsonValue)> = Vec::new();
    for i in 0..columns.len()
        invariant
            entries@.len() == i,
            forall|k: int|
                0 <= k < i ==> {
                    &&& (#[trigger] entries@[k]).0@ == columns@[k].name@
                    &&& column_json(columns@[k].values, entries@[k].1)
                },
    {
        let column = &columns[i];
        let values = column_to_json(&column.values);
        entries.push((column.name.clone(), values));
    }
    JsonValue::Object(entries)
}

} // verus!
