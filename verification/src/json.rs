use vstd::prelude::*;

verus! {

/// A JSON document as the library builds it.
///
/// Numbers keep the exact value they were made from: integers as `i64`, and
/// floating-point numbers as the IEEE-754 bit pattern of the `f32` or `f64`
/// they came from (always a finite one).  Rendering the document as text is
/// left to the JSON encoder that receives it.
#[derive(Debug)]
pub enum JsonValue {
    Null,
    Bool(bool),
    Int(i64),
    Float32(u32),
    Float64(u64),
    Str(String),
    Array(Vec<JsonValue>),
    Object(Vec<(String, JsonValue)>),
}

/// `v` is a JSON string whose text is `text`.
pub open spec fn is_json_text(v: JsonValue, text: Seq<char>) -> bool {
    v matches JsonValue::Str(s) && s@ == text
}

/// `v` is a JSON object with exactly one member, named `key`, whose value is
/// the string `text`.
pub open spec fn is_single_text_member(v: JsonValue, key: Seq<char>, text: Seq<char>) -> bool {
    &&& v matches JsonValue::Object(entries)
    &&& entries@.len() == 1
    &&& entries@[0].0@ == key
    &&& is_json_text(entries@[0].1, text)
}

/// A JSON object with a single string member `key: text`.
pub fn single_text_member(key: String, text: String) -> (r: JsonValue)
    ensures
        is_single_text_member(r, key@, text@),
{
    let mut entries: Vec<(String, JsonValue)> = Vec::new();
    entries.push((key, JsonValue::Str(text)));
    JsonValue::Object(entries)
}

} // verus!
