use dbclient::query::{connection_url, from_outcomes, query_type};
use dbclient::{DbConfig, Outcome, QueryResult, TaggedValue};

#[test]
fn batch_keeps_counts_and_rows_apart() {
    let outs = vec![
        Outcome::Affected(2),
        Outcome::Row(vec!["id".to_string()], vec![TaggedValue::Int(1)]),
        Outcome::Row(vec!["id".to_string()], vec![TaggedValue::Int(2)]),
        Outcome::Affected(3),
    ];
    let r = from_outcomes("UPDATE t SET a = 1; SELECT id FROM t", outs);
    assert_eq!(r.affected_rows, 5);
    assert_eq!(r.columns, vec!["id".to_string()]);
    assert_eq!(r.rows, vec![vec![TaggedValue::Int(1)], vec![TaggedValue::Int(2)]]);
    assert_eq!(r.query_type, "UPDATE");
}

#[test]
fn columns_come_from_first_row_only() {
    let outs = vec![
        Outcome::Row(vec!["a".to_string(), "a".to_string()], vec![TaggedValue::Null, TaggedValue::Null]),
        Outcome::Row(vec!["b".to_string()], vec![TaggedValue::Null]),
    ];
    let r = from_outcomes("select", outs);
    assert_eq!(r.columns, vec!["a".to_string(), "a".to_string()]);
    assert_eq!(r.rows.len(), 2);
    assert_eq!(r.affected_rows, 0);
}

#[test]
fn pure_dml_has_no_rows() {
    let r = from_outcomes("delete from t", vec![Outcome::Affected(7)]);
    assert!(r.columns.is_empty());
    assert!(r.rows.is_empty());
    assert_eq!(r.affected_rows, 7);
    assert_eq!(r.query_type, "DELETE");
}

#[test]
fn affected_count_saturates() {
    let r = from_outcomes("x", vec![Outcome::Affected(u64::MAX), Outcome::Affected(1)]);
    assert_eq!(r.affected_rows, u64::MAX);
}

#[test]
fn record_one_outcome() {
    let mut r = QueryResult::empty("SELECT".to_string());
    r.record(Outcome::Affected(4));
    r.record(Outcome::Row(vec!["n".to_string()], vec![TaggedValue::Bool(true)]));
    assert_eq!(r.affected_rows, 4);
    assert_eq!(r.columns, vec!["n".to_string()]);
    assert_eq!(r.rows, vec![vec![TaggedValue::Bool(true)]]);
}

#[test]
fn query_type_is_first_word_upper_cased() {
    assert_eq!(query_type("  select * from t"), "SELECT");
    assert_eq!(query_type("\n\tupdate x set a=1"), "UPDATE");
    assert_eq!(query_type("with"), "WITH");
    assert_eq!(query_type(""), "UNKNOWN");
    assert_eq!(query_type("   \n "), "UNKNOWN");
}

#[test]
fn connection_url_with_and_without_password() {
    let mut c = DbConfig {
        host: "localhost".to_string(),
        port: 5432,
        user: "me".to_string(),
        password: Some("pw".to_string()),
        dbname: "app".to_string(),
    };
    assert_eq!(connection_url(&c), "postgres://me:pw@localhost:5432/app");
    c.password = None;
    assert_eq!(connection_url(&c), "postgres://me:@localhost:5432/app");
}
