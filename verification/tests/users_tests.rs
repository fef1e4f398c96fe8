use dataframe_api::users::{sample_user, synthetic_rows, SYNTHETIC_ROWS};

#[test]
fn sample_user_is_john_doe() {
    let u = sample_user();
    assert_eq!(u.name, "John Doe");
    assert_eq!(u.email, "john@example.com");
    assert_eq!(u.age, 30);
    assert_eq!(u.names, vec!["John".to_string(), "Doe".to_string()]);
}

#[test]
fn synthetic_rows_follow_the_pattern() {
    let rows = synthetic_rows(1002);
    assert_eq!(rows.names.len(), 1002);
    assert_eq!(rows.names[0], "User0");
    assert_eq!(rows.names[7], "User7");
    assert_eq!(rows.names[999], "User999");
    assert_eq!(rows.names[1000], "User0");
    assert_eq!(rows.names[1001], "User1");
    assert_eq!(rows.ages[0], 18);
    assert_eq!(rows.ages[59], 77);
    assert_eq!(rows.ages[60], 18);
    assert_eq!(rows.steps[49], 49);
    assert_eq!(rows.steps[50], 0);
}

#[test]
fn synthetic_rows_full_size() {
    let rows = synthetic_rows(SYNTHETIC_ROWS);
    assert_eq!(rows.names.len(), 100_000);
    assert_eq!(rows.names[99_999], "User999");
    assert_eq!(rows.ages[99_999], (99_999 % 60 + 18) as u32);
}

#[test]
fn no_synthetic_rows() {
    let rows = synthetic_rows(0);
    assert!(rows.names.is_empty() && rows.ages.is_empty() && rows.steps.is_empty());
}
