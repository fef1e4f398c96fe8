use polars::prelude::DataFrame;
use vstd::prelude::*;
use vstd::string::StringExecFns;

use vstd::utf8::decode_utf8;

use crate::frame::{
    cell_texts, column_dtype, column_height, column_name, df_to_json_each_row,
    frame_columns, frame_from_columns, frame_json_rows, frame_json_writable, int32_cells,
    int32_column, names_distinct, text_cells, text_column, all_heights, first_height,
};
use crate::text::{decimal, decimal_text};

verus! {

/// A user record as the `/user` endpoint returns it.
#[derive(Debug)]
pub struct User {
    pub name: String,
    pub email: String,
    pub age: u32,
    pub names: Vec<String>,
}

/// The example user served by `/user`.
pub fn sample_user() -> (u: User)
    ensures
        u.name@ == "John Doe"@,
        u.email@ == "john@example.com"@,
        u.age == 30,
        u.names@.len() == 2,
        u.names@[0]@ == "John"@,
        u.names@[1]@ == "Doe"@,
{
    let mut names: Vec<String> = Vec::new();
    names.push(String::from_str("John"));
    names.push(String::from_str("Doe"));
    User {
        name: String::from_str("John Doe"),
        email: String::from_str("john@example.com"),
        age: 30,
        names,
    }
}

/// Number of rows of the synthetic data set behind `/users-df-json`.
pub const SYNTHETIC_ROWS: usize = 100000;

/// The integer part of the synthetic data set: for row `i`, the name
/// `User{i % 1000}`, the age `i % 60 + 18`, and the step `i % 50` from which
/// weight (50 + step / 2) and height (1.50 + step / 100) are derived.
#[derive(Debug)]
pub struct SyntheticRows {
    pub names: Vec<String>,
    pub ages: Vec<u32>,
    pub steps: Vec<u32>,
}

/// The name of synthetic row `i`.
pub open spec fn synthetic_name(i: nat) -> Seq<char> {
    "User"@ + decimal(i % 1000)
}

/// `rows` holds the first `n` synthetic rows.
pub open spec fn synthetic_rows_spec(rows: SyntheticRows, n: nat) -> bool {
    &&& rows.names@.len() == n
    &&& rows.ages@.len() == n
    &&& rows.steps@.len() == n
    &&& forall|i: int|
        0 <= i < n ==> {
            &&& (#[trigger] rows.names@[i])@ == synthetic_name(i as nat)
            &&& rows.ages@[i] == i % 60 + 18
            &&& rows.steps@[i] == i % 50
        }
}

/// Generates the first `n` synthetic rows.
pub fn synthetic_rows(n: usize) -> (r: SyntheticRows)
    ensures
        synthetic_rows_spec(r, n as nat),
{
    let mut names: Vec<String> = Vec::new();
    let mut ages: Vec<u32> = Vec::new();
    let mut steps: Vec<u32> = Vec::new();
    for i in 0..n
        invariant
            names@.len() == i,
            ages@.len() == i,
            steps@.len() == i,
            forall|k: int| 0 <= k < i ==> (#[trigger] names@[k])@ == synthetic_name(k as nat),
            forall|k: int| 0 <= k < i ==> #[trigger] ages@[k] == k % 60 + 18,
            forall|k: int| 0 <= k < i ==> #[trigger] steps@[k] == k % 50,
    {
        let mut name = String::from_str("User");
        let number = decimal_text((i % 1000) as u64);
        name.append(number.as_str());
        names.push(name);
        let age: u32 = (i % 60 + 18) as u32;
        let step: u32 = (i % 50) as u32;
        ages.push(age);
        steps.push(step);
    }
    SyntheticRows { names, ages, steps }
}

fn text_cells_of(values: &[&str]) -> (r: Vec<Option<String>>)
    ensures
        r@.len() == values@.len(),
        forall|i: int| 0 <= i < r@.len() ==> ((#[trigger] r@[i]) matches Some(s) && s@ == values@[i]@),
{
    let mut cells: Vec<Option<String>> = Vec::new();
    for i in 0..values.len()
        invariant
            cells@.len() == i,
            forall|k: int| 0 <= k < i ==> ((#[trigger] cells@[k]) matches Some(s) && s@ == values@[k]@),
    {
        cells.push(Some(String::from_str(values[i])));
    }
    cells
}

/// `df` is the small frame served by `/users`: columns `name`, `age` and
/// `city` with four people, all of types the JSON writer serializes.
pub open spec fn is_users_frame(df: DataFrame) -> bool {
    &&& frame_columns(df).len() == 3
    &&& column_name(frame_columns(df)[0]) == "name"@
    &&& column_name(frame_columns(df)[1]) == "age"@
    &&& column_name(frame_columns(df)[2]) == "city"@
    &&& column_dtype(frame_columns(df)[0]) == "str"@
    &&& column_dtype(frame_columns(df)[1]) == "i32"@
    &&& column_dtype(frame_columns(df)[2]) == "str"@
    &&& text_cells(frame_columns(df)[0]) == seq![
        Some("John"@),
        Some("Jane"@),
        Some("Jim"@),
        Some("Jill"@),
    ]
    &&& int32_cells(frame_columns(df)[1]) == seq![30i32, 25i32, 35i32, 28i32]
    &&& text_cells(frame_columns(df)[2]) == seq![
        Some("New York"@),
        Some("Los Angeles"@),
        Some("Chicago"@),
        Some("Houston"@),
    ]
    &&& frame_json_writable(df)
}

/// The small frame served by `/users`.
pub fn users_frame() -> (df: DataFrame)
    ensures
        is_users_frame(df),
{
    let names = text_cells_of(&["John", "Jane", "Jim", "Jill"]);
    let ages: Vec<i32> = vec![30, 25, 35, 28];
    let cities = text_cells_of(&["New York", "Los Angeles", "Chicago", "Houston"]);
    let name_column = text_column("name", &names);
    let age_column = int32_column("age", &ages);
    let city_column = text_column("city", &cities);
    assert(cell_texts(names@) =~= seq![Some("John"@), Some("Jane"@), Some("Jim"@), Some("Jill"@)]);
    assert(cell_texts(cities@) =~= seq![
        Some("New York"@),
        Some("Los Angeles"@),
        Some("Chicago"@),
        Some("Houston"@),
    ]);
    let mut columns: Vec<polars::prelude::Column> = Vec::new();
    columns.push(name_column);
    columns.push(age_column);
    columns.push(city_column);
    proof {
        reveal_strlit("name");
        reveal_strlit("age");
        reveal_strlit("city");
        assert(all_heights(columns@, first_height(columns@)));
        assert("name"@ != "city"@) by {
            assert("name"@[0] != "city"@[0]);
        }
        assert("name"@ != "age"@);
        assert("age"@ != "city"@);
        assert(column_name(columns@[0]) == "name"@);
        assert(column_name(columns@[1]) == "age"@);
        assert(column_name(columns@[2]) == "city"@);
        assert(names_distinct(columns@));
    }
    let df = frame_from_columns(columns).expect("Falha ao criar DataFrame");
    assert(frame_json_writable(df)) by {
        assert(frame_columns(df) == columns@);
    }
    df
}

/// The body of `/users`: the row-oriented JSON document of the users frame,
/// as text.  Rendering it cannot fail.
pub fn users_json_rows() -> (r: String)
    ensures
        exists|df: DataFrame| is_users_frame(df) && r@ == decode_utf8(frame_json_rows(df)),
{
    let mut df = users_frame();
    let ghost before = df;
    let r = df_to_json_each_row(&mut df);
    match r {
        Ok(s) => {
            assert(is_users_frame(before) && s@ == decode_utf8(frame_json_rows(before)));
            s
        },
        Err(_) => {
            assert(false);
            String::new()
        },
    }
}

} // verus!
