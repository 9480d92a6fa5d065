use ngenrs::rows::{QueryResultRow, SqlValue};

fn row() -> QueryResultRow {
    QueryResultRow::new(
        vec!["id".to_string(), "name".to_string(), "score".to_string(), "id".to_string()],
        vec![
            SqlValue::Integer(1),
            SqlValue::Text("ada".to_string()),
            SqlValue::Real(2.5f64.to_bits()),
            SqlValue::Integer(9),
        ],
    )
}

#[test]
fn typed_getters_match_the_column_type() {
    let r = row();
    assert_eq!(r.get_string("name"), Some("ada".to_string()));
    assert_eq!(r.get_i64("name"), None);
    assert_eq!(r.get_f64_bits("score").map(f64::from_bits), Some(2.5));
    assert_eq!(r.get_string("score"), None);
    assert_eq!(r.get_i64("missing"), None);
}

#[test]
fn repeated_column_name_resolves_to_the_last() {
    assert_eq!(row().get_i64("id"), Some(9));
}

#[test]
fn null_column_gives_none() {
    let r = QueryResultRow::new(vec!["x".to_string()], vec![SqlValue::Null]);
    assert_eq!(r.get_string("x"), None);
    assert_eq!(r.get_i64("x"), None);
    assert!(matches!(r.get_value("x"), Some(SqlValue::Null)));
}
