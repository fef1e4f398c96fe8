use dataframe_api::frame_json::{column_to_json, df_to_json_each_column, ColumnValues, FrameColumn};
use dataframe_api::json::JsonValue;

fn text(s: &str) -> Option<String> {
    Some(s.to_string())
}

fn as_array(v: &JsonValue) -> &Vec<JsonValue> {
    match v {
        JsonValue::Array(items) => items,
        _ => panic!("expected an array"),
    }
}

#[test]
fn each_column_has_one_member_per_column_in_order() {
    let columns = vec![
        FrameColumn {
            name: "name".to_string(),
            values: ColumnValues::Utf8(vec![text("John"), None, text("Jim")]),
        },
        FrameColumn {
            name: "age".to_string(),
            values: ColumnValues::Int32(vec![Some(30), Some(-5), None]),
        },
        FrameColumn {
            name: "flag".to_string(),
            values: ColumnValues::Boolean(vec![Some(true), Some(false), None]),
        },
    ];
    let json = df_to_json_each_column(&columns);
    let entries = match &json {
        JsonValue::Object(entries) => entries,
        _ => panic!("expected an object"),
    };
    assert_eq!(entries.len(), 3);
    assert_eq!(entries[0].0, "name");
    assert_eq!(entries[1].0, "age");
    assert_eq!(entries[2].0, "flag");
    let names = as_array(&entries[0].1);
    assert_eq!(names.len(), 3);
    assert!(matches!(&names[0], JsonValue::Str(s) if s == "John"));
    assert!(matches!(&names[1], JsonValue::Null));
    assert!(matches!(&names[2], JsonValue::Str(s) if s == "Jim"));
    let ages = as_array(&entries[1].1);
    assert!(matches!(ages[0], JsonValue::Int(30)));
    assert!(matches!(ages[1], JsonValue::Int(-5)));
    assert!(matches!(ages[2], JsonValue::Null));
    let flags = as_array(&entries[2].1);
    assert!(matches!(flags[0], JsonValue::Bool(true)));
    assert!(matches!(flags[1], JsonValue::Bool(false)));
    assert!(matches!(flags[2], JsonValue::Null));
}

#[test]
fn empty_frame_gives_empty_object() {
    let json = df_to_json_each_column(&Vec::new());
    assert!(matches!(&json, JsonValue::Object(entries) if entries.is_empty()));
}

#[test]
fn float_columns_keep_their_bits() {
    let half = 0.5f64.to_bits();
    let third = (1.0f32 / 3.0).to_bits();
    let f64_json = column_to_json(&ColumnValues::Float64(vec![Some(half), None]));
    let f32_json = column_to_json(&ColumnValues::Float32(vec![Some(third)]));
    let a = as_array(&f64_json);
    assert!(matches!(a[0], JsonValue::Float64(b) if f64::from_bits(b) == 0.5));
    assert!(matches!(a[1], JsonValue::Null));
    let b = as_array(&f32_json);
    assert!(matches!(b[0], JsonValue::Float32(x) if x == third));
}

#[test]
fn int64_and_other_columns() {
    let big = column_to_json(&ColumnValues::Int64(vec![Some(i64::MAX), Some(i64::MIN)]));
    let a = as_array(&big);
    assert!(matches!(a[0], JsonValue::Int(i64::MAX)));
    assert!(matches!(a[1], JsonValue::Int(i64::MIN)));
    let other = column_to_json(&ColumnValues::Other(vec![text("2024-01-02"), None]));
    let o = as_array(&other);
    assert!(matches!(&o[0], JsonValue::Str(s) if s == "2024-01-02"));
    assert!(matches!(o[1], JsonValue::Null));
}

#[test]
fn empty_column_gives_empty_array() {
    let json = column_to_json(&ColumnValues::Utf8(Vec::new()));
    assert!(as_array(&json).is_empty());
}

#[test]
fn non_finite_floats_become_null() {
    let f64_json = column_to_json(&ColumnValues::Float64(vec![
        Some(f64::NAN.to_bits()),
        Some(f64::INFINITY.to_bits()),
        Some(f64::NEG_INFINITY.to_bits()),
        Some(1.0f64.to_bits()),
        Some(f64::MAX.to_bits()),
    ]));
    let a = as_array(&f64_json);
    assert!(matches!(a[0], JsonValue::Null));
    assert!(matches!(a[1], JsonValue::Null));
    assert!(matches!(a[2], JsonValue::Null));
    assert!(matches!(a[3], JsonValue::Float64(b) if f64::from_bits(b) == 1.0));
    assert!(matches!(a[4], JsonValue::Float64(b) if f64::from_bits(b) == f64::MAX));
    let f32_json = column_to_json(&ColumnValues::Float32(vec![
        Some(f32::NAN.to_bits()),
        Some(f32::INFINITY.to_bits()),
        Some(2.5f32.to_bits()),
        Some(f32::MIN_POSITIVE.to_bits()),
    ]));
    let b = as_array(&f32_json);
    assert!(matches!(b[0], JsonValue::Null));
    assert!(matches!(b[1], JsonValue::Null));
    assert!(matches!(b[2], JsonValue::Float32(x) if f32::from_bits(x) == 2.5));
    assert!(matches!(b[3], JsonValue::Float32(x) if f32::from_bits(x) == f32::MIN_POSITIVE));
}
