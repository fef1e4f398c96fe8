use dataframe_api::frame::{df_to_json_each_row, frame_from_text_columns, rows_json_text};
use dataframe_api::oracle_query::{connect_string, query_result_to_frame, rows_to_columns};
use dataframe_api::users::{users_frame, users_json_rows};

fn text(s: &str) -> Option<String> {
    Some(s.to_string())
}

#[test]
fn rows_become_columns() {
    let rows = vec![
        vec![text("1"), text("a")],
        vec![text("2"), None],
        vec![None, text("c")],
    ];
    let columns = rows_to_columns(2, &rows);
    assert_eq!(columns, vec![vec![text("1"), text("2"), None], vec![text("a"), None, text("c")]]);
}

#[test]
fn no_rows_give_empty_columns() {
    let columns = rows_to_columns(3, &Vec::new());
    assert_eq!(columns, vec![Vec::<Option<String>>::new(), Vec::new(), Vec::new()]);
}

#[test]
fn query_result_frame_holds_every_cell() {
    let names = vec!["ID".to_string(), "NAME".to_string()];
    let rows = vec![vec![text("1"), text("Ana")], vec![text("2"), None]];
    let df = query_result_to_frame(&names, &rows).unwrap();
    assert_eq!(df.height(), 2);
    let cols: Vec<String> = df.get_column_names().iter().map(|n| n.to_string()).collect();
    assert_eq!(cols, vec!["ID".to_string(), "NAME".to_string()]);
    assert_eq!(df.width(), 2);
    assert_eq!(df.column("ID").unwrap().dtype(), &polars::prelude::DataType::String);
    assert_eq!(df.column("NAME").unwrap().dtype(), &polars::prelude::DataType::String);
    let ids = df.column("ID").unwrap().str().unwrap();
    assert_eq!(ids.get(0), Some("1"));
    assert_eq!(ids.get(1), Some("2"));
    let people = df.column("NAME").unwrap().str().unwrap();
    assert_eq!(people.get(0), Some("Ana"));
    assert_eq!(people.get(1), None);
}

#[test]
fn query_result_with_duplicate_names_is_refused() {
    let names = vec!["X".to_string(), "X".to_string()];
    let rows = vec![vec![text("1"), text("2")]];
    assert!(query_result_to_frame(&names, &rows).is_err());
}

#[test]
fn text_columns_of_different_heights_are_refused() {
    let names = vec!["a".to_string(), "b".to_string()];
    let columns = vec![vec![text("x")], vec![text("y"), text("z")]];
    assert!(frame_from_text_columns(&names, &columns).is_err());
    let even = vec![vec![text("x")], vec![text("y")]];
    assert!(frame_from_text_columns(&names, &even).is_ok());
}

#[test]
fn users_frame_has_four_people() {
    let df = users_frame();
    assert_eq!(df.height(), 4);
    let cols: Vec<String> = df.get_column_names().iter().map(|n| n.to_string()).collect();
    assert_eq!(cols, vec!["name".to_string(), "age".to_string(), "city".to_string()]);
    let ages = df.column("age").unwrap().i32().unwrap();
    assert_eq!(ages.get(2), Some(35));
    let cities = df.column("city").unwrap().str().unwrap();
    assert_eq!(cities.get(1), Some("Los Angeles"));
}

#[test]
fn users_frame_as_json_rows() {
    let mut df = users_frame();
    let text = df_to_json_each_row(&mut df).unwrap();
    assert_eq!(df.height(), 4);
    assert_eq!(df.column("age").unwrap().dtype(), &polars::prelude::DataType::Int32);
    assert_eq!(df.column("age").unwrap().i32().unwrap().get(1), Some(25));
    assert_eq!(df.column("name").unwrap().str().unwrap().get(3), Some("Jill"));
    let value: serde_json::Value = serde_json::from_str(&text).unwrap();
    let rows = value.as_array().unwrap();
    assert_eq!(rows.len(), 4);
    assert_eq!(rows[0]["name"], serde_json::Value::from("John"));
    assert_eq!(rows[0]["age"], serde_json::Value::from(30));
    assert_eq!(rows[3]["city"], serde_json::Value::from("Houston"));
    assert!(text.starts_with('['));
}

#[test]
fn json_bytes_must_be_utf8() {
    assert_eq!(rows_json_text(b"[{\"a\":1}]".to_vec()).unwrap(), "[{\"a\":1}]");
    assert_eq!(rows_json_text("[\"é\"]".as_bytes().to_vec()).unwrap(), "[\"é\"]");
    assert_eq!(rows_json_text(vec![0x5b, 0xff, 0x5d]), None);
}

#[test]
fn oracle_connect_string() {
    assert_eq!(connect_string("db.local", "1521", "ORCL"), "//db.local:1521/ORCL");
    assert_eq!(connect_string("", "", ""), "//:/");
}

#[test]
fn users_body_lists_the_four_people() {
    let text = users_json_rows();
    let value: serde_json::Value = serde_json::from_str(&text).unwrap();
    let rows = value.as_array().unwrap();
    let expected = [
        ("John", 30, "New York"),
        ("Jane", 25, "Los Angeles"),
        ("Jim", 35, "Chicago"),
        ("Jill", 28, "Houston"),
    ];
    assert_eq!(rows.len(), expected.len());
    for (row, (name, age, city)) in rows.iter().zip(expected.iter()) {
        let object = row.as_object().unwrap();
        assert_eq!(object.len(), 3);
        assert_eq!(row["name"], serde_json::Value::from(*name));
        assert_eq!(row["age"], serde_json::Value::from(*age));
        assert_eq!(row["city"], serde_json::Value::from(*city));
    }
}

#[test]
fn query_frames_render_as_rows() {
    let names = vec!["ID".to_string(), "NAME".to_string()];
    let rows = vec![vec![text("1"), text("Ana")], vec![text("2"), None]];
    let mut df = query_result_to_frame(&names, &rows).unwrap();
    let text = df_to_json_each_row(&mut df).unwrap();
    let value: serde_json::Value = serde_json::from_str(&text).unwrap();
    assert_eq!(value[0]["NAME"], serde_json::Value::from("Ana"));
    assert_eq!(value[1]["NAME"], serde_json::Value::Null);
}
