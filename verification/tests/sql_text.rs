//! The SQL text of every statement of the store.

use matrix_sdk_sql::helpers::SupportedDatabase;
use sqlx::{Postgres, Sqlite};
use matrix_sdk_sql::schema::Table;
use matrix_sdk_sql::semantics::Error;
use matrix_sdk_sql::statement::{Clock, Conflict, Filter, Guard, Stamp, Statement};

#[test]
fn text_of_kv_upsert_query() {
    let expected = "INSERT INTO statestore_kv (kv_key, kv_value) VALUES ($1, $2) ON CONFLICT (kv_key) DO UPDATE SET kv_value = $2";
    assert_eq!(Postgres::kv_upsert_query().sql().unwrap(), expected);
    assert_eq!(Sqlite::kv_upsert_query().sql().unwrap(), expected);
    assert_eq!(Postgres::kv_upsert_query().arity(), 2);
}

#[test]
fn text_of_kv_load_query() {
    let expected = "SELECT kv_value FROM statestore_kv WHERE kv_key = $1";
    assert_eq!(Postgres::kv_load_query().sql().unwrap(), expected);
    assert_eq!(Sqlite::kv_load_query().sql().unwrap(), expected);
    assert_eq!(Postgres::kv_load_query().arity(), 1);
}

#[test]
fn text_of_media_load_query() {
    let expected = "UPDATE statestore_media SET last_access = NOW() WHERE media_url = $1 RETURNING media_data";
    assert_eq!(Postgres::media_load_query().sql().unwrap(), expected);
    let local = "UPDATE statestore_media SET last_access = datetime(CURRENT_TIMESTAMP, 'localtime') WHERE media_url = $1 RETURNING media_data";
    assert_eq!(Sqlite::media_load_query().sql().unwrap(), local);
    assert_eq!(Postgres::media_load_query().arity(), 1);
}

#[test]
fn text_of_media_insert_query_1() {
    let expected = "INSERT INTO statestore_media (media_url, media_data, last_access) VALUES ($1, $2, NOW()) ON CONFLICT (media_url) DO NOTHING";
    assert_eq!(Postgres::media_insert_query_1().sql().unwrap(), expected);
    let local = "INSERT INTO statestore_media (media_url, media_data, last_access) VALUES ($1, $2, datetime(CURRENT_TIMESTAMP, 'localtime')) ON CONFLICT (media_url) DO NOTHING";
    assert_eq!(Sqlite::media_insert_query_1().sql().unwrap(), local);
    assert_eq!(Postgres::media_insert_query_1().arity(), 2);
}

#[test]
fn text_of_media_insert_query_2() {
    let expected = "DELETE FROM statestore_media WHERE media_url NOT IN (SELECT media_url FROM statestore_media ORDER BY last_access DESC LIMIT 100)";
    assert_eq!(Postgres::media_insert_query_2().sql().unwrap(), expected);
    assert_eq!(Sqlite::media_insert_query_2().sql().unwrap(), expected);
    assert_eq!(Postgres::media_insert_query_2().arity(), 0);
}

#[test]
fn text_of_media_delete_query() {
    let expected = "DELETE FROM statestore_media WHERE media_url = $1";
    assert_eq!(Postgres::media_delete_query().sql().unwrap(), expected);
    assert_eq!(Sqlite::media_delete_query().sql().unwrap(), expected);
    assert_eq!(Postgres::media_delete_query().arity(), 1);
}

#[test]
fn text_of_account_data_upsert_query() {
    let expected = "INSERT INTO statestore_accountdata (room_id, event_type, account_data) VALUES ($1, $2, $3) ON CONFLICT (room_id, event_type) DO UPDATE SET account_data = $3";
    assert_eq!(Postgres::account_data_upsert_query().sql().unwrap(), expected);
    assert_eq!(Sqlite::account_data_upsert_query().sql().unwrap(), expected);
    assert_eq!(Postgres::account_data_upsert_query().arity(), 3);
}

#[test]
fn text_of_account_data_load_query() {
    let expected = "SELECT account_data FROM statestore_accountdata WHERE room_id = $1 AND event_type = $2";
    assert_eq!(Postgres::account_data_load_query().sql().unwrap(), expected);
    assert_eq!(Sqlite::account_data_load_query().sql().unwrap(), expected);
    assert_eq!(Postgres::account_data_load_query().arity(), 2);
}

#[test]
fn text_of_presence_upsert_query() {
    let expected = "INSERT INTO statestore_presence (user_id, presence) VALUES ($1, $2) ON CONFLICT (user_id) DO UPDATE SET presence = $2";
    assert_eq!(Postgres::presence_upsert_query().sql().unwrap(), expected);
    assert_eq!(Sqlite::presence_upsert_query().sql().unwrap(), expected);
    assert_eq!(Postgres::presence_upsert_query().arity(), 2);
}

#[test]
fn text_of_presence_load_query() {
    let expected = "SELECT presence FROM statestore_presence WHERE user_id = $1";
    assert_eq!(Postgres::presence_load_query().sql().unwrap(), expected);
    assert_eq!(Sqlite::presence_load_query().sql().unwrap(), expected);
    assert_eq!(Postgres::presence_load_query().arity(), 1);
}

#[test]
fn text_of_member_upsert_query() {
    let expected = "INSERT INTO statestore_members (room_id, user_id, is_partial, member_event, displayname, joined) VALUES ($1, $2, $3, $4, $5, $6) ON CONFLICT (room_id, user_id) DO UPDATE SET is_partial = $3, member_event = $4, displayname = $5, joined = $6";
    assert_eq!(Postgres::member_upsert_query().sql().unwrap(), expected);
    assert_eq!(Sqlite::member_upsert_query().sql().unwrap(), expected);
    assert_eq!(Postgres::member_upsert_query().arity(), 6);
}

#[test]
fn text_of_member_profile_upsert_query() {
    let expected = "INSERT INTO statestore_members (room_id, user_id, is_partial, user_profile) VALUES ($1, $2, $3, $4) ON CONFLICT (room_id, user_id) DO UPDATE SET user_profile = $4";
    assert_eq!(Postgres::member_profile_upsert_query().sql().unwrap(), expected);
    assert_eq!(Sqlite::member_profile_upsert_query().sql().unwrap(), expected);
    assert_eq!(Postgres::member_profile_upsert_query().arity(), 4);
}

#[test]
fn text_of_state_upsert_query() {
    let expected = "INSERT INTO statestore_state (room_id, event_type, state_key, is_partial, state_event, event_id) VALUES ($1, $2, $3, $4, $5, $6) ON CONFLICT (room_id, event_type, state_key) DO UPDATE SET is_partial = $4, state_event = $5, event_id = $6";
    assert_eq!(Postgres::state_upsert_query().sql().unwrap(), expected);
    assert_eq!(Sqlite::state_upsert_query().sql().unwrap(), expected);
    assert_eq!(Postgres::state_upsert_query().arity(), 6);
}

#[test]
fn text_of_state_redact_query() {
    let expected = "DELETE FROM statestore_state WHERE room_id = $1 AND event_id = $2";
    assert_eq!(Postgres::state_redact_query().sql().unwrap(), expected);
    assert_eq!(Sqlite::state_redact_query().sql().unwrap(), expected);
    assert_eq!(Postgres::state_redact_query().arity(), 2);
}

#[test]
fn text_of_room_upsert_query() {
    let expected = "INSERT INTO statestore_rooms (room_id, is_partial, room_info) VALUES ($1, $2, $3) ON CONFLICT (room_id) DO UPDATE SET is_partial = $2, room_info = $3";
    assert_eq!(Postgres::room_upsert_query().sql().unwrap(), expected);
    assert_eq!(Sqlite::room_upsert_query().sql().unwrap(), expected);
    assert_eq!(Postgres::room_upsert_query().arity(), 3);
}

#[test]
fn text_of_receipt_upsert_query() {
    let expected = "INSERT INTO statestore_receipts (room_id, event_id, receipt_type, user_id, receipt) VALUES ($1, $2, $3, $4, $5) ON CONFLICT (room_id, receipt_type, user_id) DO UPDATE SET event_id = $2, receipt_type = $3, receipt = $5";
    assert_eq!(Postgres::receipt_upsert_query().sql().unwrap(), expected);
    assert_eq!(Sqlite::receipt_upsert_query().sql().unwrap(), expected);
    assert_eq!(Postgres::receipt_upsert_query().arity(), 5);
}

#[test]
fn text_of_state_load_query() {
    let expected = "SELECT state_event FROM statestore_state WHERE room_id = $1 AND event_type = $2 AND state_key = $3 AND is_partial = '0'";
    assert_eq!(Postgres::state_load_query().sql().unwrap(), expected);
    assert_eq!(Sqlite::state_load_query().sql().unwrap(), expected);
    assert_eq!(Postgres::state_load_query().arity(), 3);
}

#[test]
fn text_of_states_load_query() {
    let expected = "SELECT state_event FROM statestore_state WHERE room_id = $1 AND event_type = $2 AND is_partial = $3";
    assert_eq!(Postgres::states_load_query().sql().unwrap(), expected);
    assert_eq!(Sqlite::states_load_query().sql().unwrap(), expected);
    assert_eq!(Postgres::states_load_query().arity(), 3);
}

#[test]
fn text_of_profile_load_query() {
    let expected = "SELECT user_profile FROM statestore_members WHERE room_id = $1 AND user_id = $2 AND user_profile IS NOT NULL";
    assert_eq!(Postgres::profile_load_query().sql().unwrap(), expected);
    assert_eq!(Sqlite::profile_load_query().sql().unwrap(), expected);
    assert_eq!(Postgres::profile_load_query().arity(), 2);
}

#[test]
fn text_of_member_remove_query() {
    let expected = "DELETE FROM statestore_members WHERE room_id = $1 AND user_id = $2";
    assert_eq!(Postgres::member_remove_query().sql().unwrap(), expected);
    assert_eq!(Sqlite::member_remove_query().sql().unwrap(), expected);
    assert_eq!(Postgres::member_remove_query().arity(), 2);
}

#[test]
fn text_of_members_load_query() {
    let expected = "SELECT user_id FROM statestore_members WHERE room_id = $1";
    assert_eq!(Postgres::members_load_query().sql().unwrap(), expected);
    assert_eq!(Sqlite::members_load_query().sql().unwrap(), expected);
    assert_eq!(Postgres::members_load_query().arity(), 1);
}

#[test]
fn text_of_members_load_query_with_join_status() {
    let expected = "SELECT user_id FROM statestore_members WHERE room_id = $1 AND joined = $2";
    assert_eq!(Postgres::members_load_query_with_join_status().sql().unwrap(), expected);
    assert_eq!(Sqlite::members_load_query_with_join_status().sql().unwrap(), expected);
    assert_eq!(Postgres::members_load_query_with_join_status().arity(), 2);
}

#[test]
fn text_of_member_load_query() {
    let expected = "SELECT is_partial, member_event FROM statestore_members WHERE room_id = $1 AND user_id = $2 AND member_event IS NOT NULL";
    assert_eq!(Postgres::member_load_query().sql().unwrap(), expected);
    assert_eq!(Sqlite::member_load_query().sql().unwrap(), expected);
    assert_eq!(Postgres::member_load_query().arity(), 2);
}

#[test]
fn text_of_room_info_load_query() {
    let expected = "SELECT room_info FROM statestore_rooms WHERE is_partial = $1";
    assert_eq!(Postgres::room_info_load_query().sql().unwrap(), expected);
    assert_eq!(Sqlite::room_info_load_query().sql().unwrap(), expected);
    assert_eq!(Postgres::room_info_load_query().arity(), 1);
}

#[test]
fn text_of_users_with_display_name_load_query() {
    let expected = "SELECT user_id FROM statestore_members WHERE room_id = $1 AND displayname = $2";
    assert_eq!(Postgres::users_with_display_name_load_query().sql().unwrap(), expected);
    assert_eq!(Sqlite::users_with_display_name_load_query().sql().unwrap(), expected);
    assert_eq!(Postgres::users_with_display_name_load_query().arity(), 2);
}

#[test]
fn text_of_receipt_load_query() {
    let expected = "SELECT event_id, receipt FROM statestore_receipts WHERE room_id = $1 AND receipt_type = $2 AND user_id = $3";
    assert_eq!(Postgres::receipt_load_query().sql().unwrap(), expected);
    assert_eq!(Sqlite::receipt_load_query().sql().unwrap(), expected);
    assert_eq!(Postgres::receipt_load_query().arity(), 3);
}

#[test]
fn text_of_event_receipt_load_query() {
    let expected = "SELECT user_id, receipt FROM statestore_receipts WHERE room_id = $1 AND receipt_type = $2 AND event_id = $3";
    assert_eq!(Postgres::event_receipt_load_query().sql().unwrap(), expected);
    assert_eq!(Sqlite::event_receipt_load_query().sql().unwrap(), expected);
    assert_eq!(Postgres::event_receipt_load_query().arity(), 3);
}

#[test]
fn text_of_session_store_query() {
    let expected = "INSERT INTO cryptostore_session (sender_key, session_data) VALUES ($1, $2)";
    assert_eq!(Postgres::session_store_query().sql().unwrap(), expected);
    assert_eq!(Sqlite::session_store_query().sql().unwrap(), expected);
    assert_eq!(Postgres::session_store_query().arity(), 2);
}

#[test]
fn text_of_olm_message_hash_store_query() {
    let expected = "INSERT INTO cryptostore_message_hash (sender_key, message_hash) VALUES ($1, $2)";
    assert_eq!(Postgres::olm_message_hash_store_query().sql().unwrap(), expected);
    assert_eq!(Sqlite::olm_message_hash_store_query().sql().unwrap(), expected);
    assert_eq!(Postgres::olm_message_hash_store_query().arity(), 2);
}

#[test]
fn text_of_inbound_group_session_upsert_query() {
    let expected = "INSERT INTO cryptostore_inbound_group_session (room_id, sender_key, session_id, session_data) VALUES ($1, $2, $3, $4) ON CONFLICT (room_id, sender_key, session_id) DO UPDATE SET session_data = $4";
    assert_eq!(Postgres::inbound_group_session_upsert_query().sql().unwrap(), expected);
    assert_eq!(Sqlite::inbound_group_session_upsert_query().sql().unwrap(), expected);
    assert_eq!(Postgres::inbound_group_session_upsert_query().arity(), 4);
}

#[test]
fn text_of_outbound_group_session_store_query() {
    let expected = "INSERT INTO cryptostore_outbound_group_session (room_id, session_data) VALUES ($1, $2) ON CONFLICT (room_id) DO UPDATE SET session_data = $2";
    assert_eq!(Postgres::outbound_group_session_store_query().sql().unwrap(), expected);
    assert_eq!(Sqlite::outbound_group_session_store_query().sql().unwrap(), expected);
    assert_eq!(Postgres::outbound_group_session_store_query().arity(), 2);
}

#[test]
fn text_of_gossip_request_store_query() {
    let expected = "INSERT INTO cryptostore_gossip_request (recipient_id, request_id, info_key, sent_out, gossip_data) VALUES ($1, $2, $3, $4, $5) ON CONFLICT (request_id) DO UPDATE SET recipient_id = $1, info_key = $3, sent_out = $4, gossip_data = $5";
    assert_eq!(Postgres::gossip_request_store_query().sql().unwrap(), expected);
    assert_eq!(Sqlite::gossip_request_store_query().sql().unwrap(), expected);
    assert_eq!(Postgres::gossip_request_store_query().arity(), 5);
}

#[test]
fn text_of_identity_upsert_query() {
    let expected = "INSERT INTO cryptostore_identity (user_id, identity_data) VALUES ($1, $2) ON CONFLICT (user_id) DO UPDATE SET identity_data = $2";
    assert_eq!(Postgres::identity_upsert_query().sql().unwrap(), expected);
    assert_eq!(Sqlite::identity_upsert_query().sql().unwrap(), expected);
    assert_eq!(Postgres::identity_upsert_query().arity(), 2);
}

#[test]
fn text_of_device_upsert_query() {
    let expected = "INSERT INTO cryptostore_device (user_id, device_id, device_info) VALUES ($1, $2, $3) ON CONFLICT (user_id, device_id) DO UPDATE SET device_info = $3";
    assert_eq!(Postgres::device_upsert_query().sql().unwrap(), expected);
    assert_eq!(Sqlite::device_upsert_query().sql().unwrap(), expected);
    assert_eq!(Postgres::device_upsert_query().arity(), 3);
}

#[test]
fn text_of_device_delete_query() {
    let expected = "DELETE FROM cryptostore_device WHERE user_id = $1 AND device_id = $2";
    assert_eq!(Postgres::device_delete_query().sql().unwrap(), expected);
    assert_eq!(Sqlite::device_delete_query().sql().unwrap(), expected);
    assert_eq!(Postgres::device_delete_query().arity(), 2);
}

#[test]
fn text_of_sessions_for_user_query() {
    let expected = "SELECT session_data FROM cryptostore_session WHERE sender_key = $1";
    assert_eq!(Postgres::sessions_for_user_query().sql().unwrap(), expected);
    assert_eq!(Sqlite::sessions_for_user_query().sql().unwrap(), expected);
    assert_eq!(Postgres::sessions_for_user_query().arity(), 1);
}

#[test]
fn text_of_inbound_group_session_fetch_query() {
    let expected = "SELECT session_data FROM cryptostore_inbound_group_session WHERE room_id = $1 AND sender_key = $2 AND session_id = $3";
    assert_eq!(Postgres::inbound_group_session_fetch_query().sql().unwrap(), expected);
    assert_eq!(Sqlite::inbound_group_session_fetch_query().sql().unwrap(), expected);
    assert_eq!(Postgres::inbound_group_session_fetch_query().arity(), 3);
}

#[test]
fn text_of_inbound_group_sessions_fetch_query() {
    let expected = "SELECT session_data FROM cryptostore_inbound_group_session";
    assert_eq!(Postgres::inbound_group_sessions_fetch_query().sql().unwrap(), expected);
    assert_eq!(Sqlite::inbound_group_sessions_fetch_query().sql().unwrap(), expected);
    assert_eq!(Postgres::inbound_group_sessions_fetch_query().arity(), 0);
}

#[test]
fn text_of_outbound_group_session_load_query() {
    let expected = "SELECT session_data FROM cryptostore_outbound_group_session WHERE room_id = $1";
    assert_eq!(Postgres::outbound_group_session_load_query().sql().unwrap(), expected);
    assert_eq!(Sqlite::outbound_group_session_load_query().sql().unwrap(), expected);
    assert_eq!(Postgres::outbound_group_session_load_query().arity(), 1);
}

#[test]
fn text_of_tracked_user_upsert_query() {
    let expected = "INSERT INTO cryptostore_tracked_user (user_id, tracked_user_data) VALUES ($1, $2) ON CONFLICT (user_id) DO UPDATE SET tracked_user_data = $2";
    assert_eq!(Postgres::tracked_user_upsert_query().sql().unwrap(), expected);
    assert_eq!(Sqlite::tracked_user_upsert_query().sql().unwrap(), expected);
    assert_eq!(Postgres::tracked_user_upsert_query().arity(), 2);
}

#[test]
fn text_of_device_fetch_query() {
    let expected = "SELECT device_info FROM cryptostore_device WHERE user_id = $1 AND device_id = $2";
    assert_eq!(Postgres::device_fetch_query().sql().unwrap(), expected);
    assert_eq!(Sqlite::device_fetch_query().sql().unwrap(), expected);
    assert_eq!(Postgres::device_fetch_query().arity(), 2);
}

#[test]
fn text_of_devices_for_user_query() {
    let expected = "SELECT device_info FROM cryptostore_device WHERE user_id = $1";
    assert_eq!(Postgres::devices_for_user_query().sql().unwrap(), expected);
    assert_eq!(Sqlite::devices_for_user_query().sql().unwrap(), expected);
    assert_eq!(Postgres::devices_for_user_query().arity(), 1);
}

#[test]
fn text_of_tracked_users_fetch_query() {
    let expected = "SELECT tracked_user_data FROM cryptostore_tracked_user";
    assert_eq!(Postgres::tracked_users_fetch_query().sql().unwrap(), expected);
    assert_eq!(Sqlite::tracked_users_fetch_query().sql().unwrap(), expected);
    assert_eq!(Postgres::tracked_users_fetch_query().arity(), 0);
}

#[test]
fn text_of_identity_fetch_query() {
    let expected = "SELECT identity_data FROM cryptostore_identity WHERE user_id = $1";
    assert_eq!(Postgres::identity_fetch_query().sql().unwrap(), expected);
    assert_eq!(Sqlite::identity_fetch_query().sql().unwrap(), expected);
    assert_eq!(Postgres::identity_fetch_query().arity(), 1);
}

#[test]
fn text_of_message_known_query() {
    let expected = "SELECT 1 FROM cryptostore_message_hash WHERE sender_key = $1 AND message_hash = $2";
    assert_eq!(Postgres::message_known_query().sql().unwrap(), expected);
    assert_eq!(Sqlite::message_known_query().sql().unwrap(), expected);
    assert_eq!(Postgres::message_known_query().arity(), 2);
}

#[test]
fn text_of_gossip_request_fetch_query() {
    let expected = "SELECT gossip_data FROM cryptostore_gossip_request WHERE request_id = $1";
    assert_eq!(Postgres::gossip_request_fetch_query().sql().unwrap(), expected);
    assert_eq!(Sqlite::gossip_request_fetch_query().sql().unwrap(), expected);
    assert_eq!(Postgres::gossip_request_fetch_query().arity(), 1);
}

#[test]
fn text_of_gossip_request_info_fetch_query() {
    let expected = "SELECT gossip_data FROM cryptostore_gossip_request WHERE info_key = $1";
    assert_eq!(Postgres::gossip_request_info_fetch_query().sql().unwrap(), expected);
    assert_eq!(Sqlite::gossip_request_info_fetch_query().sql().unwrap(), expected);
    assert_eq!(Postgres::gossip_request_info_fetch_query().arity(), 1);
}

#[test]
fn text_of_gossip_requests_sent_state_fetch_query() {
    let expected = "SELECT gossip_data FROM cryptostore_gossip_request WHERE sent_out = $1";
    assert_eq!(Postgres::gossip_requests_sent_state_fetch_query().sql().unwrap(), expected);
    assert_eq!(Sqlite::gossip_requests_sent_state_fetch_query().sql().unwrap(), expected);
    assert_eq!(Postgres::gossip_requests_sent_state_fetch_query().arity(), 1);
}

#[test]
fn text_of_gossip_request_delete_query() {
    let expected = "DELETE FROM cryptostore_gossip_request WHERE request_id = $1";
    assert_eq!(Postgres::gossip_request_delete_query().sql().unwrap(), expected);
    assert_eq!(Sqlite::gossip_request_delete_query().sql().unwrap(), expected);
    assert_eq!(Postgres::gossip_request_delete_query().arity(), 1);
}

#[test]
fn text_of_room_remove_queries() {
    let expected = vec![
        "DELETE FROM statestore_rooms WHERE room_id = $1",
        "DELETE FROM statestore_accountdata WHERE room_id = $1",
        "DELETE FROM statestore_members WHERE room_id = $1",
        "DELETE FROM statestore_state WHERE room_id = $1",
        "DELETE FROM statestore_receipts WHERE room_id = $1",
    ];
    let texts: Vec<String> =
        Postgres::room_remove_queries().iter().map(|q| q.sql().unwrap()).collect();
    assert_eq!(texts, expected);
    let texts: Vec<String> =
        Sqlite::room_remove_queries().iter().map(|q| q.sql().unwrap()).collect();
    assert_eq!(texts, expected);
}

#[test]
fn dialects_differ_only_in_the_clock() {
    assert_eq!(Postgres::kv_upsert_query(), Sqlite::kv_upsert_query());
    assert_ne!(Postgres::media_load_query(), Sqlite::media_load_query());
    assert_ne!(Postgres::media_insert_query_1(), Sqlite::media_insert_query_1());
    assert_eq!(Postgres::media_insert_query_2(), Sqlite::media_insert_query_2());
}

#[test]
fn parameters_beyond_nine_are_written_in_decimal() {
    // No table is that wide; the statement is refused, whatever it names.
    let columns: Vec<usize> = (0..12).collect();
    let wide = Statement::Insert {
        table: Table::Members,
        columns,
        stamp: None,
        conflict: Conflict::Abort,
    };
    assert_eq!(wide.sql(), Err(Error::Malformed));
    // A limit, though, can have any number of digits.
    let trim = Statement::Trim { table: Table::Media, by: 2, keep: 1205 };
    assert_eq!(
        trim.sql().unwrap(),
        "DELETE FROM statestore_media WHERE media_url NOT IN (SELECT media_url FROM statestore_media ORDER BY last_access DESC LIMIT 1205)"
    );
    let none = Statement::Trim { table: Table::Media, by: 2, keep: 0 };
    assert!(none.sql().unwrap().ends_with("LIMIT 0)"));
}

#[test]
fn statements_without_conflict_clause_or_filter() {
    let plain = Statement::Insert {
        table: Table::Kv,
        columns: vec![1, 0],
        stamp: None,
        conflict: Conflict::Abort,
    };
    assert_eq!(plain.sql().unwrap(), "INSERT INTO statestore_kv (kv_value, kv_key) VALUES ($1, $2)");
    let ignore = Statement::Insert {
        table: Table::Devices,
        columns: vec![0, 1, 2],
        stamp: None,
        conflict: Conflict::Ignore,
    };
    assert_eq!(
        ignore.sql().unwrap(),
        "INSERT INTO cryptostore_device (user_id, device_id, device_info) VALUES ($1, $2, $3) ON CONFLICT (user_id, device_id) DO NOTHING"
    );
    let all = Statement::Delete { table: Table::Presence, filter: Filter { equals: vec![], guards: vec![] } };
    assert_eq!(all.sql().unwrap(), "DELETE FROM statestore_presence");
    let guarded = Statement::Select {
        table: Table::Members,
        columns: vec![1],
        filter: Filter { equals: vec![], guards: vec![Guard::NotNull(6), Guard::IsFalse(5)] },
    };
    assert_eq!(
        guarded.sql().unwrap(),
        "SELECT user_id FROM statestore_members WHERE user_profile IS NOT NULL AND joined = '0'"
    );
}

#[test]
fn malformed_statements_have_no_text() {
    let out_of_range = Statement::Select {
        table: Table::Kv,
        columns: vec![2],
        filter: Filter { equals: vec![0], guards: vec![] },
    };
    assert_eq!(out_of_range.sql(), Err(Error::Malformed));
    assert!(!out_of_range.is_well_formed());
    let twice = Statement::Insert {
        table: Table::Kv,
        columns: vec![0, 0],
        stamp: None,
        conflict: Conflict::Abort,
    };
    assert_eq!(twice.sql(), Err(Error::Malformed));
    let empty = Statement::Insert { table: Table::Kv, columns: vec![], stamp: None, conflict: Conflict::Abort };
    assert_eq!(empty.sql(), Err(Error::Malformed));
    let no_key = Statement::Insert {
        table: Table::Sessions,
        columns: vec![0, 1],
        stamp: None,
        conflict: Conflict::Ignore,
    };
    assert_eq!(no_key.sql(), Err(Error::Malformed));
    let stamp_on_text = Statement::Insert {
        table: Table::Media,
        columns: vec![0],
        stamp: Some(Stamp { column: 1, clock: Clock::Now }),
        conflict: Conflict::Abort,
    };
    assert_eq!(stamp_on_text.sql(), Err(Error::Malformed));
    let stamp_twice = Statement::Insert {
        table: Table::Media,
        columns: vec![0, 1, 2],
        stamp: Some(Stamp { column: 2, clock: Clock::Now }),
        conflict: Conflict::Abort,
    };
    assert_eq!(stamp_twice.sql(), Err(Error::Malformed));
    let bad_param = Statement::Insert {
        table: Table::Kv,
        columns: vec![0, 1],
        stamp: None,
        conflict: Conflict::Update(vec![2]),
    };
    assert_eq!(bad_param.sql(), Err(Error::Malformed));
    let touch_filter = Statement::Touch {
        table: Table::Media,
        stamp: Stamp { column: 2, clock: Clock::Now },
        filter: Filter { equals: vec![2], guards: vec![] },
        returning: vec![1],
    };
    assert_eq!(touch_filter.sql(), Err(Error::Malformed));
    let touch_nothing = Statement::Touch {
        table: Table::Media,
        stamp: Stamp { column: 2, clock: Clock::Now },
        filter: Filter { equals: vec![0], guards: vec![] },
        returning: vec![],
    };
    assert_eq!(touch_nothing.sql(), Err(Error::Malformed));
    let trim_by_text = Statement::Trim { table: Table::Media, by: 0, keep: 1 };
    assert_eq!(trim_by_text.sql(), Err(Error::Malformed));
    let trim_wide_key = Statement::Trim { table: Table::Devices, by: 2, keep: 1 };
    assert_eq!(trim_wide_key.sql(), Err(Error::Malformed));
}
