//! The queries that are handed to `sqlx`.

use matrix_sdk_sql::bind::Parameter;
use matrix_sdk_sql::driver::{postgres_query, sqlite_query};
use matrix_sdk_sql::helpers::SupportedDatabase;
use matrix_sdk_sql::value::Value;
use sqlx::{Arguments, Execute, Postgres, Sqlite};

fn member_args() -> Vec<Value> {
    vec![
        Value::Text("!r".to_string()),
        Value::Text("@u".to_string()),
        Value::Bool(true),
        Value::Blob(vec![1, 2]),
        Value::Null,
        Value::Null,
    ]
}

#[test]
fn a_query_for_sqlite_holds_the_text_and_every_parameter() {
    let prepared = Sqlite::member_upsert_query().prepare(&member_args()).unwrap();
    let mut filled = sqlite_query(&prepared);
    assert_eq!(filled.query.sql(), prepared.sql);
    let bound = format!("{:?}", filled.query.take_arguments().unwrap());
    assert_eq!(
        bound,
        "SqliteArguments { values: [Text(\"!r\"), Text(\"@u\"), Int(1), Blob([1, 2]), Null, Null] }"
    );
}

#[test]
fn a_query_for_sqlite_without_parameters_binds_nothing() {
    let prepared = Sqlite::media_insert_query_2().prepare(&vec![]).unwrap();
    let mut filled = sqlite_query(&prepared);
    assert_eq!(filled.query.sql(), prepared.sql);
    assert_eq!(format!("{:?}", filled.query.take_arguments().unwrap()), "SqliteArguments { values: [] }");
}

#[test]
fn a_query_for_postgres_holds_the_text_and_every_parameter() {
    let prepared = Postgres::member_upsert_query().prepare(&member_args()).unwrap();
    assert_eq!(prepared.parameters[4], Parameter::Text(None));
    let mut filled = postgres_query(&prepared);
    assert_eq!(filled.query.sql(), prepared.sql);
    let bound = filled.query.take_arguments().unwrap();
    // The driver numbers the next placeholder after the values it holds.
    let mut placeholder = String::new();
    bound.format_placeholder(&mut placeholder).unwrap();
    assert_eq!(placeholder, "$6");
}

#[test]
fn a_query_for_postgres_counts_each_kind_of_parameter() {
    for (stmt, args, count) in [
        (Postgres::media_insert_query_2(), vec![], "$0"),
        (Postgres::room_info_load_query(), vec![Value::Bool(false)], "$1"),
        (Postgres::kv_load_query(), vec![Value::Text("k".to_string())], "$1"),
        (Postgres::kv_upsert_query(), vec![Value::Text("k".to_string()), Value::Blob(vec![7])], "$2"),
    ] {
        let prepared = stmt.prepare(&args).unwrap();
        let mut filled = postgres_query(&prepared);
        let mut placeholder = String::new();
        filled.query.take_arguments().unwrap().format_placeholder(&mut placeholder).unwrap();
        assert_eq!(placeholder, count);
    }
}
