//! The engine on concrete values: what each kind of statement does, and
//! when it is refused.

use matrix_sdk_sql::bind::Parameter;
use matrix_sdk_sql::database::MemoryDatabase;
use matrix_sdk_sql::helpers::SupportedDatabase;
use sqlx::{Postgres, Sqlite};
use matrix_sdk_sql::schema::Table;
use matrix_sdk_sql::semantics::Error;
use matrix_sdk_sql::statement::{Clock, Conflict, Filter, Stamp, Statement};
use matrix_sdk_sql::store::StateStore;
use matrix_sdk_sql::table::Rows;
use matrix_sdk_sql::value::{Value, ValueKind};

fn text(s: &str) -> Value {
    Value::Text(s.to_string())
}

fn blob(b: &[u8]) -> Value {
    Value::Blob(b.to_vec())
}

fn flag(b: bool) -> Value {
    Value::Bool(b)
}

fn open() -> StateStore<Postgres> {
    StateStore::<Postgres>::new(MemoryDatabase::new()).unwrap()
}

#[test]
fn kv_round_trip() {
    let mut store = open();
    let out = store.execute(&Postgres::kv_upsert_query(), &vec![text("k"), blob(b"v1")], 0);
    assert_eq!(out, Ok(vec![]));
    let read = store.execute(&Postgres::kv_load_query(), &vec![text("k")], 0);
    assert_eq!(read, Ok(vec![vec![blob(b"v1")]]));
}

#[test]
fn kv_last_write_wins() {
    let mut store = open();
    store.execute(&Postgres::kv_upsert_query(), &vec![text("k"), blob(b"v1")], 0).unwrap();
    store.execute(&Postgres::kv_upsert_query(), &vec![text("k"), blob(b"v2")], 0).unwrap();
    let read = store.execute(&Postgres::kv_load_query(), &vec![text("k")], 0);
    assert_eq!(read, Ok(vec![vec![blob(b"v2")]]));
    assert_eq!(store.database().rows(Table::Kv).unwrap().len(), 1);
}

#[test]
fn upsert_twice_is_upsert_once() {
    let mut store = open();
    let args = vec![text("!r"), text("m.room.topic"), text(""), flag(false), blob(b"e"), text("$1")];
    store.execute(&Postgres::state_upsert_query(), &args, 1).unwrap();
    let once = store.database().rows(Table::State).unwrap();
    let read = vec![text("!r"), text("m.room.topic"), text("")];
    let first = store.execute(&Postgres::state_load_query(), &read, 2).unwrap();
    store.execute(&Postgres::state_upsert_query(), &args, 3).unwrap();
    assert_eq!(store.database().rows(Table::State).unwrap(), once);
    let second = store.execute(&Postgres::state_load_query(), &read, 4).unwrap();
    assert_eq!(first, second);
    assert_eq!(first, vec![vec![blob(b"e")]]);
}

#[test]
fn media_insert_twice_keeps_the_first_payload_and_time() {
    let mut rows = Rows::new(Table::Media);
    rows.execute(&Postgres::media_insert_query_1(), &vec![text("mxc://a"), blob(b"one")], 5).unwrap();
    rows.execute(&Postgres::media_insert_query_1(), &vec![text("mxc://a"), blob(b"two")], 9).unwrap();
    assert_eq!(rows.snapshot(), vec![vec![text("mxc://a"), blob(b"one"), Value::Time(5)]]);
}

#[test]
fn profile_upsert_keeps_the_member_event() {
    let mut store = open();
    store
        .execute(
            &Postgres::member_upsert_query(),
            &vec![text("!r"), text("@u"), flag(false), blob(b"event"), text("Una"), flag(true)],
            0,
        )
        .unwrap();
    let key = vec![text("!r"), text("@u")];
    let before = store.execute(&Postgres::member_load_query(), &key, 0).unwrap();
    assert_eq!(before, vec![vec![flag(false), blob(b"event")]]);
    store
        .execute(
            &Postgres::member_profile_upsert_query(),
            &vec![text("!r"), text("@u"), flag(true), blob(b"profile")],
            0,
        )
        .unwrap();
    assert_eq!(store.execute(&Postgres::member_load_query(), &key, 0).unwrap(), before);
    assert_eq!(
        store.execute(&Postgres::profile_load_query(), &key, 0).unwrap(),
        vec![vec![blob(b"profile")]]
    );
    assert_eq!(
        store.database().rows(Table::Members).unwrap(),
        vec![vec![
            text("!r"),
            text("@u"),
            flag(false),
            blob(b"event"),
            text("Una"),
            flag(true),
            blob(b"profile"),
        ]]
    );
}

#[test]
fn member_upsert_keeps_the_profile() {
    let mut store = open();
    let key = vec![text("!r"), text("@u")];
    store
        .execute(
            &Postgres::member_profile_upsert_query(),
            &vec![text("!r"), text("@u"), flag(true), blob(b"profile")],
            0,
        )
        .unwrap();
    assert_eq!(store.execute(&Postgres::member_load_query(), &key, 0).unwrap(), Vec::<Vec<Value>>::new());
    store
        .execute(
            &Postgres::member_upsert_query(),
            &vec![text("!r"), text("@u"), flag(false), blob(b"event"), Value::Null, flag(false)],
            0,
        )
        .unwrap();
    assert_eq!(
        store.execute(&Postgres::profile_load_query(), &key, 0).unwrap(),
        vec![vec![blob(b"profile")]]
    );
    assert_eq!(
        store.execute(&Postgres::member_load_query(), &key, 0).unwrap(),
        vec![vec![flag(false), blob(b"event")]]
    );
}

#[test]
fn state_upserts_with_one_key_leave_one_row() {
    let mut store = open();
    for (i, payload) in [b"a", b"b", b"c"].iter().enumerate() {
        let id = format!("${}", i);
        store
            .execute(
                &Postgres::state_upsert_query(),
                &vec![text("!r"), text("m.room.name"), text(""), flag(false), blob(*payload), text(&id)],
                i as u64,
            )
            .unwrap();
    }
    assert_eq!(store.database().rows(Table::State).unwrap().len(), 1);
    let read = store
        .execute(&Postgres::state_load_query(), &vec![text("!r"), text("m.room.name"), text("")], 9)
        .unwrap();
    assert_eq!(read, vec![vec![blob(b"c")]]);
}

#[test]
fn partial_state_is_filtered_from_the_point_lookup() {
    let mut store = open();
    store
        .execute(
            &Postgres::state_upsert_query(),
            &vec![text("!r"), text("m.room.name"), text(""), flag(true), blob(b"p"), text("$1")],
            0,
        )
        .unwrap();
    let point = vec![text("!r"), text("m.room.name"), text("")];
    assert_eq!(store.execute(&Postgres::state_load_query(), &point, 0), Ok(vec![]));
    let partial = vec![text("!r"), text("m.room.name"), flag(true)];
    assert_eq!(store.execute(&Postgres::states_load_query(), &partial, 0), Ok(vec![vec![blob(b"p")]]));
    let complete = vec![text("!r"), text("m.room.name"), flag(false)];
    assert_eq!(store.execute(&Postgres::states_load_query(), &complete, 0), Ok(vec![]));
}

#[test]
fn redaction_needs_the_matching_event_id() {
    let mut store = open();
    store
        .execute(
            &Postgres::state_upsert_query(),
            &vec![text("!r"), text("m.room.name"), text(""), flag(false), blob(b"e"), text("$1")],
            0,
        )
        .unwrap();
    let point = vec![text("!r"), text("m.room.name"), text("")];
    assert_eq!(store.execute(&Postgres::state_redact_query(), &vec![text("!r"), text("$2")], 0), Ok(vec![]));
    assert_eq!(store.execute(&Postgres::state_load_query(), &point, 0), Ok(vec![vec![blob(b"e")]]));
    assert_eq!(store.execute(&Postgres::state_redact_query(), &vec![text("!other"), text("$1")], 0), Ok(vec![]));
    assert_eq!(store.execute(&Postgres::state_load_query(), &point, 0), Ok(vec![vec![blob(b"e")]]));
    assert_eq!(store.execute(&Postgres::state_redact_query(), &vec![text("!r"), text("$1")], 0), Ok(vec![]));
    assert_eq!(store.execute(&Postgres::state_load_query(), &point, 0), Ok(vec![]));
}

#[test]
fn state_event_without_event_id_is_never_redacted() {
    let mut store = open();
    store
        .execute(
            &Postgres::state_upsert_query(),
            &vec![text("!r"), text("m.room.name"), text(""), flag(false), blob(b"e"), Value::Null],
            0,
        )
        .unwrap();
    store.execute(&Postgres::state_redact_query(), &vec![text("!r"), Value::Null], 0).unwrap();
    assert_eq!(store.database().rows(Table::State).unwrap().len(), 1);
}

#[test]
fn reading_a_key_never_written_is_empty() {
    let mut store = open();
    assert_eq!(store.execute(&Postgres::kv_load_query(), &vec![text("missing")], 0), Ok(vec![]));
    assert_eq!(store.execute(&Postgres::presence_load_query(), &vec![text("@u")], 0), Ok(vec![]));
    assert_eq!(store.execute(&Postgres::members_load_query(), &vec![text("!r")], 0), Ok(vec![]));
    assert_eq!(store.execute(&Postgres::tracked_users_fetch_query(), &vec![], 0), Ok(vec![]));
    assert_eq!(store.execute(&Postgres::message_known_query(), &vec![text("k"), text("h")], 0), Ok(vec![]));
}

#[test]
fn deleting_what_is_not_there_is_no_error() {
    let mut store = open();
    assert_eq!(store.execute(&Postgres::device_delete_query(), &vec![text("u"), text("d")], 0), Ok(vec![]));
    assert_eq!(store.execute(&Postgres::media_delete_query(), &vec![text("mxc://a")], 0), Ok(vec![]));
    assert_eq!(store.execute(&Postgres::member_remove_query(), &vec![text("!r"), text("@u")], 0), Ok(vec![]));
}

#[test]
fn every_keyed_entity_round_trips() {
    let mut store = open();
    let s = &mut store;
    let mut write = |stmt: Statement, args: Vec<Value>| s.execute(&stmt, &args, 0).unwrap();
    write(Postgres::account_data_upsert_query(), vec![text("!r"), text("m.tag"), blob(b"\x00\xff")]);
    write(Postgres::presence_upsert_query(), vec![text("@u"), blob(b"online")]);
    write(Postgres::room_upsert_query(), vec![text("!r"), flag(false), blob(b"info")]);
    write(
        Postgres::receipt_upsert_query(),
        vec![text("!r"), text("$e"), text("m.read"), text("@u"), blob(b"receipt")],
    );
    write(Postgres::identity_upsert_query(), vec![text("u"), blob(b"identity")]);
    write(Postgres::device_upsert_query(), vec![text("u"), text("d"), blob(b"device")]);
    write(Postgres::tracked_user_upsert_query(), vec![text("u"), blob(b"tracked")]);
    write(Postgres::outbound_group_session_store_query(), vec![text("r"), blob(b"out")]);
    write(
        Postgres::inbound_group_session_upsert_query(),
        vec![text("r"), text("sk"), text("sid"), blob(b"in")],
    );
    write(
        Postgres::gossip_request_store_query(),
        vec![text("to"), text("req"), text("info"), flag(true), blob(b"gossip")],
    );
    write(Postgres::session_store_query(), vec![text("sk"), blob(b"session")]);
    write(Postgres::olm_message_hash_store_query(), vec![text("sk"), text("hash")]);
    let mut read = |stmt: Statement, args: Vec<Value>| s.execute(&stmt, &args, 0).unwrap();
    assert_eq!(
        read(Postgres::account_data_load_query(), vec![text("!r"), text("m.tag")]),
        vec![vec![blob(b"\x00\xff")]]
    );
    assert_eq!(read(Postgres::presence_load_query(), vec![text("@u")]), vec![vec![blob(b"online")]]);
    assert_eq!(read(Postgres::room_info_load_query(), vec![flag(false)]), vec![vec![blob(b"info")]]);
    assert_eq!(
        read(Postgres::receipt_load_query(), vec![text("!r"), text("m.read"), text("@u")]),
        vec![vec![text("$e"), blob(b"receipt")]]
    );
    assert_eq!(
        read(Postgres::event_receipt_load_query(), vec![text("!r"), text("m.read"), text("$e")]),
        vec![vec![text("@u"), blob(b"receipt")]]
    );
    assert_eq!(read(Postgres::identity_fetch_query(), vec![text("u")]), vec![vec![blob(b"identity")]]);
    assert_eq!(read(Postgres::device_fetch_query(), vec![text("u"), text("d")]), vec![vec![blob(b"device")]]);
    assert_eq!(read(Postgres::devices_for_user_query(), vec![text("u")]), vec![vec![blob(b"device")]]);
    assert_eq!(read(Postgres::tracked_users_fetch_query(), vec![]), vec![vec![blob(b"tracked")]]);
    assert_eq!(
        read(Postgres::outbound_group_session_load_query(), vec![text("r")]),
        vec![vec![blob(b"out")]]
    );
    assert_eq!(
        read(Postgres::inbound_group_session_fetch_query(), vec![text("r"), text("sk"), text("sid")]),
        vec![vec![blob(b"in")]]
    );
    assert_eq!(read(Postgres::inbound_group_sessions_fetch_query(), vec![]), vec![vec![blob(b"in")]]);
    assert_eq!(read(Postgres::gossip_request_fetch_query(), vec![text("req")]), vec![vec![blob(b"gossip")]]);
    assert_eq!(
        read(Postgres::gossip_request_info_fetch_query(), vec![text("info")]),
        vec![vec![blob(b"gossip")]]
    );
    assert_eq!(
        read(Postgres::gossip_requests_sent_state_fetch_query(), vec![flag(true)]),
        vec![vec![blob(b"gossip")]]
    );
    assert_eq!(read(Postgres::sessions_for_user_query(), vec![text("sk")]), vec![vec![blob(b"session")]]);
    assert_eq!(
        read(Postgres::message_known_query(), vec![text("sk"), text("hash")]),
        vec![Vec::<Value>::new()]
    );
}

#[test]
fn sessions_with_one_sender_key_are_all_kept() {
    let mut store = open();
    store.execute(&Postgres::session_store_query(), &vec![text("sk"), blob(b"1")], 0).unwrap();
    store.execute(&Postgres::session_store_query(), &vec![text("sk"), blob(b"1")], 0).unwrap();
    store.execute(&Postgres::session_store_query(), &vec![text("sk"), blob(b"2")], 0).unwrap();
    assert_eq!(
        store.execute(&Postgres::sessions_for_user_query(), &vec![text("sk")], 0).unwrap(),
        vec![vec![blob(b"1")], vec![blob(b"1")], vec![blob(b"2")]]
    );
}

#[test]
fn a_message_seen_twice_is_refused_the_second_time() {
    let mut store = open();
    let args = vec![text("sk"), text("hash")];
    assert_eq!(store.execute(&Postgres::olm_message_hash_store_query(), &args, 0), Ok(vec![]));
    assert_eq!(store.execute(&Postgres::olm_message_hash_store_query(), &args, 0), Err(Error::Duplicate));
    assert_eq!(store.database().rows(Table::MessageHashes).unwrap().len(), 1);
}

#[test]
fn wrong_parameter_count_is_refused() {
    let mut store = open();
    assert_eq!(
        store.execute(&Postgres::kv_upsert_query(), &vec![text("k")], 0),
        Err(Error::ParameterCount)
    );
    assert_eq!(
        store.execute(&Postgres::media_insert_query_2(), &vec![text("k")], 0),
        Err(Error::ParameterCount)
    );
}

#[test]
fn wrong_parameter_kind_is_refused() {
    let mut store = open();
    assert_eq!(
        store.execute(&Postgres::kv_upsert_query(), &vec![text("k"), text("v")], 0),
        Err(Error::ParameterKind)
    );
    assert_eq!(
        store.execute(&Postgres::room_info_load_query(), &vec![text("true")], 0),
        Err(Error::ParameterKind)
    );
    assert_eq!(store.database().rows(Table::Kv).unwrap().len(), 0);
}

#[test]
fn null_where_a_value_is_needed_is_refused() {
    let mut store = open();
    assert_eq!(
        store.execute(&Postgres::kv_upsert_query(), &vec![Value::Null, blob(b"v")], 0),
        Err(Error::NotNull)
    );
    assert_eq!(
        store.execute(&Postgres::kv_upsert_query(), &vec![text("k"), Value::Null], 0),
        Err(Error::NotNull)
    );
    // A column that the statement does not name holds NULL in a new row.
    let short = Statement::Insert {
        table: Table::Kv,
        columns: vec![0],
        stamp: None,
        conflict: Conflict::Abort,
    };
    assert_eq!(store.execute(&short, &vec![text("k")], 0), Err(Error::NotNull));
    assert_eq!(store.database().rows(Table::Kv).unwrap().len(), 0);
}

#[test]
fn malformed_statement_is_refused() {
    let mut store = open();
    let bad = Statement::Delete { table: Table::Kv, filter: Filter { equals: vec![7], guards: vec![] } };
    assert_eq!(store.execute(&bad, &vec![text("k")], 0), Err(Error::Malformed));
    // Malformed comes before the count of parameters.
    assert_eq!(store.execute(&bad, &vec![], 0), Err(Error::Malformed));
}

#[test]
fn statement_on_a_missing_table_is_refused() {
    let mut db = MemoryDatabase::new();
    assert_eq!(db.execute(&Sqlite::kv_load_query(), &vec![text("k")], 0), Err(Error::NoSuchTable));
    assert_eq!(db.rows(Table::Kv), None);
    assert!(!db.has_table(Table::Kv));
}

#[test]
fn null_parameter_matches_no_row() {
    let mut store = open();
    store
        .execute(
            &Postgres::member_upsert_query(),
            &vec![text("!r"), text("@u"), flag(false), blob(b"e"), Value::Null, Value::Null],
            0,
        )
        .unwrap();
    assert_eq!(
        store.execute(&Postgres::users_with_display_name_load_query(), &vec![text("!r"), Value::Null], 0),
        Ok(vec![])
    );
    assert_eq!(
        store.execute(&Postgres::members_load_query_with_join_status(), &vec![text("!r"), Value::Null], 0),
        Ok(vec![])
    );
    assert_eq!(store.execute(&Postgres::members_load_query(), &vec![text("!r")], 0), Ok(vec![vec![text("@u")]]));
}

#[test]
fn results_come_in_table_order() {
    let mut store = open();
    for user in ["@c", "@a", "@b"] {
        store
            .execute(
                &Postgres::member_upsert_query(),
                &vec![text("!r"), text(user), flag(false), blob(b"e"), Value::Null, flag(true)],
                0,
            )
            .unwrap();
    }
    // An upsert keeps the row where it is.
    store
        .execute(
            &Postgres::member_upsert_query(),
            &vec![text("!r"), text("@c"), flag(false), blob(b"e2"), Value::Null, flag(true)],
            0,
        )
        .unwrap();
    assert_eq!(
        store.execute(&Postgres::members_load_query(), &vec![text("!r")], 0).unwrap(),
        vec![vec![text("@c")], vec![text("@a")], vec![text("@b")]]
    );
}

#[test]
fn trim_deletes_the_lowest_ranking_rows_first() {
    let mut rows = Rows::new(Table::Media);
    for (url, at) in [("a", 5u64), ("b", 1), ("c", 9), ("d", 1), ("e", 7)] {
        rows.execute(&Sqlite::media_insert_query_1(), &vec![text(url), blob(b"x")], at).unwrap();
    }
    let trim = Statement::Trim { table: Table::Media, by: 2, keep: 3 };
    assert_eq!(rows.execute(&trim, &vec![], 0), Ok(vec![]));
    let left: Vec<Value> = rows.snapshot().into_iter().map(|row| row[0].clone()).collect();
    assert_eq!(left, vec![text("a"), text("c"), text("e")]);
    // Of rows that tie, the one that stands first goes first.
    let mut tied = Rows::new(Table::Media);
    for url in ["a", "b", "c"] {
        tied.execute(&Sqlite::media_insert_query_1(), &vec![text(url), blob(b"x")], 4).unwrap();
    }
    let trim = Statement::Trim { table: Table::Media, by: 2, keep: 1 };
    tied.execute(&trim, &vec![], 0).unwrap();
    assert_eq!(tied.snapshot(), vec![vec![text("c"), blob(b"x"), Value::Time(4)]]);
    let none = Statement::Trim { table: Table::Media, by: 2, keep: 0 };
    tied.execute(&none, &vec![], 0).unwrap();
    assert_eq!(tied.len(), 0);
}

#[test]
fn touch_stamps_only_the_rows_that_pass() {
    let mut rows = Rows::new(Table::Media);
    rows.execute(&Postgres::media_insert_query_1(), &vec![text("a"), blob(b"1")], 1).unwrap();
    rows.execute(&Postgres::media_insert_query_1(), &vec![text("b"), blob(b"2")], 2).unwrap();
    let read = rows.execute(&Postgres::media_load_query(), &vec![text("a")], 8);
    assert_eq!(read, Ok(vec![vec![blob(b"1")]]));
    assert_eq!(
        rows.snapshot(),
        vec![
            vec![text("a"), blob(b"1"), Value::Time(8)],
            vec![text("b"), blob(b"2"), Value::Time(2)],
        ]
    );
    let stamp = Statement::Touch {
        table: Table::Media,
        stamp: Stamp { column: 2, clock: Clock::Now },
        filter: Filter { equals: vec![], guards: vec![] },
        returning: vec![0],
    };
    assert_eq!(rows.execute(&stamp, &vec![], 9), Ok(vec![vec![text("a")], vec![text("b")]]));
    assert_eq!(rows.snapshot()[1][2], Value::Time(9));
}

#[test]
fn timestamps_are_neither_bound_nor_read() {
    let mut rows = Rows::new(Table::Media);
    let read = Statement::Select {
        table: Table::Media,
        columns: vec![2],
        filter: Filter { equals: vec![0], guards: vec![] },
    };
    assert_eq!(rows.execute(&read, &vec![text("a")], 0), Err(Error::Malformed));
    let by_time = Statement::Delete { table: Table::Media, filter: Filter { equals: vec![2], guards: vec![] } };
    assert_eq!(rows.execute(&by_time, &vec![Value::Time(1)], 0), Err(Error::Malformed));
    let write = Statement::Insert {
        table: Table::Media,
        columns: vec![0, 1, 2],
        stamp: None,
        conflict: Conflict::Abort,
    };
    assert_eq!(write.sql(), Err(Error::Malformed));
    // Any other column takes no timestamp either.
    assert_eq!(
        rows.execute(&Postgres::media_delete_query(), &vec![Value::Time(1)], 0),
        Err(Error::ParameterKind)
    );
}

#[test]
fn a_statement_is_prepared_as_the_engine_would_run_it() {
    let upsert = Postgres::member_upsert_query();
    let args = vec![text("!r"), text("@u"), flag(false), blob(b"e"), Value::Null, Value::Null];
    let prepared = upsert.prepare(&args).unwrap();
    assert_eq!(prepared.sql, upsert.sql().unwrap());
    assert_eq!(
        prepared.parameters,
        vec![
            Parameter::Text(Some("!r".to_string())),
            Parameter::Text(Some("@u".to_string())),
            Parameter::Bool(Some(false)),
            Parameter::Blob(Some(b"e".to_vec())),
            Parameter::Text(None),
            Parameter::Bool(None),
        ]
    );
    assert_eq!(prepared.parameters[5].kind(), ValueKind::Bool);
    assert_eq!(prepared.results, vec![]);
    let load = Postgres::member_load_query().prepare(&args[..2].to_vec()).unwrap();
    assert_eq!(load.results, vec![ValueKind::Bool, ValueKind::Blob]);
    assert_eq!(upsert.prepare(&args[..2].to_vec()), Err(Error::ParameterCount));
    let wrong = vec![text("!r"), blob(b"@u"), flag(false), blob(b"e"), Value::Null, Value::Null];
    assert_eq!(upsert.prepare(&wrong), Err(Error::ParameterKind));
    let bad = Statement::Delete { table: Table::Kv, filter: Filter { equals: vec![7], guards: vec![] } };
    assert_eq!(bad.prepare(&vec![]), Err(Error::Malformed));
    assert_eq!(Parameter::typed(&Value::Null, ValueKind::Time), None);
    assert_eq!(Parameter::typed(&Value::Time(1), ValueKind::Time), None);
    assert_eq!(Parameter::typed(&Value::Null, ValueKind::Blob), Some(Parameter::Blob(None)));
}

#[test]
fn values_know_their_kind() {
    assert_eq!(Value::Null.kind(), None);
    assert_eq!(flag(true).kind(), Some(ValueKind::Bool));
    assert_eq!(text("t").kind(), Some(ValueKind::Text));
    assert_eq!(blob(b"b").kind(), Some(ValueKind::Blob));
    assert_eq!(Value::Time(3).kind(), Some(ValueKind::Time));
    assert!(Value::Null.is_null());
    assert!(!text("").is_null());
    assert!(Value::Null.fits(ValueKind::Blob));
    assert!(text("t").fits(ValueKind::Text));
    assert!(!text("t").fits(ValueKind::Blob));
    assert!(text("t").same(&text("t")));
    assert!(!text("t").same(&text("u")));
    assert!(!text("t").same(&blob(b"t")));
    assert!(blob(b"abc").same(&blob(b"abc")));
    assert!(!blob(b"abc").same(&blob(b"abd")));
    assert!(!blob(b"abc").same(&blob(b"ab")));
    assert!(Value::Null.same(&Value::Null));
    assert_eq!(blob(b"abc").clone(), blob(b"abc"));
}

#[test]
fn tables_know_their_schema() {
    assert_eq!(Table::Kv.name(), "statestore_kv");
    assert_eq!(Table::TrackedUsers.name(), "cryptostore_tracked_user");
    assert_eq!(Table::Receipts.key_len(), 3);
    assert_eq!(Table::Sessions.key_len(), 0);
    let columns = Table::Members.columns();
    assert_eq!(columns.len(), 7);
    assert_eq!(columns[6].name, "user_profile");
    assert_eq!(columns[6].kind, ValueKind::Blob);
    assert!(columns[6].nullable);
    assert!(!columns[0].nullable);
    for i in 0..16 {
        assert_eq!(Table::at(i).unwrap().index(), i);
    }
    assert_eq!(Table::at(16), None);
}

#[test]
fn statements_announce_the_kinds_of_parameters_and_results() {
    let upsert = Postgres::member_upsert_query();
    assert_eq!(
        upsert.parameter_kinds(),
        Some(vec![
            ValueKind::Text,
            ValueKind::Text,
            ValueKind::Bool,
            ValueKind::Blob,
            ValueKind::Text,
            ValueKind::Bool,
        ])
    );
    assert_eq!(upsert.result_kinds(), Some(vec![]));
    assert_eq!(upsert.result_width(), 0);
    assert_eq!(upsert.table(), Table::Members);
    let load = Postgres::member_load_query();
    assert_eq!(load.parameter_kinds(), Some(vec![ValueKind::Text, ValueKind::Text]));
    assert_eq!(load.result_kinds(), Some(vec![ValueKind::Bool, ValueKind::Blob]));
    assert_eq!(load.result_width(), 2);
    let receipt = Postgres::receipt_upsert_query();
    assert_eq!(
        receipt.parameter_kinds(),
        Some(vec![ValueKind::Text, ValueKind::Text, ValueKind::Text, ValueKind::Text, ValueKind::Blob])
    );
    assert_eq!(Postgres::media_load_query().result_kinds(), Some(vec![ValueKind::Blob]));
    assert_eq!(Postgres::media_insert_query_2().parameter_kinds(), Some(vec![]));
    assert_eq!(Postgres::message_known_query().result_kinds(), Some(vec![]));
    let bad = Statement::Delete { table: Table::Kv, filter: Filter { equals: vec![7], guards: vec![] } };
    assert_eq!(bad.parameter_kinds(), None);
    assert_eq!(bad.result_kinds(), None);
}

#[test]
fn an_inbound_group_session_is_read_by_its_whole_key() {
    let mut store = open();
    for (sender, data) in [("alice", b"one"), ("bob", b"two")] {
        store
            .execute(
                &Postgres::inbound_group_session_upsert_query(),
                &vec![text("room"), text(sender), text("sid"), blob(data)],
                0,
            )
            .unwrap();
    }
    let fetch = Postgres::inbound_group_session_fetch_query();
    let read = |store: &mut StateStore<Postgres>, key: [&str; 3]| {
        store.execute(&fetch, &vec![text(key[0]), text(key[1]), text(key[2])], 0)
    };
    assert_eq!(read(&mut store, ["room", "alice", "sid"]), Ok(vec![vec![blob(b"one")]]));
    assert_eq!(read(&mut store, ["room", "bob", "sid"]), Ok(vec![vec![blob(b"two")]]));
    assert_eq!(read(&mut store, ["other", "alice", "sid"]), Ok(vec![]));
    assert_eq!(read(&mut store, ["room", "carol", "sid"]), Ok(vec![]));
    assert_eq!(read(&mut store, ["room", "alice", "other"]), Ok(vec![]));
    assert_eq!(
        store.execute(&fetch, &vec![text("room"), text("sid")], 0),
        Err(Error::ParameterCount)
    );
    assert_eq!(
        store.execute(&Postgres::inbound_group_sessions_fetch_query(), &vec![], 0),
        Ok(vec![vec![blob(b"one")], vec![blob(b"two")]])
    );
}
