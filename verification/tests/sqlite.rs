//! The engine against SQLite: the same statements, run on a database in
//! memory, report what the engine reports.

use std::borrow::Cow;

use matrix_sdk_sql::database::MemoryDatabase;
use matrix_sdk_sql::driver::sqlite_query;
use matrix_sdk_sql::helpers::SupportedDatabase;
use matrix_sdk_sql::statement::Statement;
use matrix_sdk_sql::store::StateStore;
use matrix_sdk_sql::value::{Value, ValueKind};
use sqlx::sqlite::{SqlitePool, SqlitePoolOptions, SqliteRow};
use sqlx::{Row, Sqlite};

fn text(s: &str) -> Value {
    Value::Text(s.to_string())
}

fn blob(b: &[u8]) -> Value {
    Value::Blob(b.to_vec())
}

fn flag(b: bool) -> Value {
    Value::Bool(b)
}

fn runtime() -> tokio::runtime::Runtime {
    tokio::runtime::Builder::new_current_thread().enable_all().build().unwrap()
}

fn sqlx_migrator() -> sqlx::migrate::Migrator {
    let ours = Sqlite::get_migrator();
    let migrations: Vec<sqlx::migrate::Migration> = ours
        .migrations
        .iter()
        .map(|m| {
            sqlx::migrate::Migration::new(
                m.version,
                Cow::Owned(m.description.clone()),
                sqlx::migrate::MigrationType::Simple,
                Cow::Owned(m.sql.clone()),
            )
        })
        .collect();
    sqlx::migrate::Migrator {
        migrations: Cow::Owned(migrations),
        ignore_missing: ours.ignore_missing,
        locking: true,
    }
}

async fn connect() -> SqlitePool {
    let pool = SqlitePoolOptions::new().max_connections(1).connect("sqlite::memory:").await.unwrap();
    sqlx_migrator().run(&pool).await.unwrap();
    pool
}

fn decode(row: &SqliteRow, kinds: &[ValueKind]) -> Vec<Value> {
    let mut out = Vec::new();
    for (i, kind) in kinds.iter().enumerate() {
        let value = match kind {
            ValueKind::Bool => row.try_get::<Option<bool>, usize>(i).unwrap().map(Value::Bool),
            ValueKind::Text => row.try_get::<Option<String>, usize>(i).unwrap().map(Value::Text),
            ValueKind::Blob => row.try_get::<Option<Vec<u8>>, usize>(i).unwrap().map(Value::Blob),
            ValueKind::Time => panic!("no statement reads a timestamp"),
        };
        out.push(value.unwrap_or(Value::Null));
    }
    out
}

async fn run_on_sqlite(
    pool: &SqlitePool,
    stmt: &Statement,
    args: &[Value],
) -> Result<Vec<Vec<Value>>, sqlx::Error> {
    let prepared = stmt.prepare(&args.to_vec()).unwrap();
    let rows = sqlite_query(&prepared).query.fetch_all(pool).await?;
    Ok(rows.iter().map(|row| decode(row, &prepared.results)).collect())
}

/// The rows in an order of their own: SQL leaves the order of results open,
/// and SQLite reads some tables by their key.
fn sorted(mut rows: Vec<Vec<Value>>) -> Vec<Vec<Value>> {
    rows.sort_by_key(|row| format!("{:?}", row));
    rows
}

/// Runs the steps on the engine and on SQLite, and checks after each that
/// both report the same rows.
fn agree(steps: Vec<(Statement, Vec<Value>)>) {
    runtime().block_on(async {
        let pool = connect().await;
        let mut store = StateStore::<Sqlite>::new(MemoryDatabase::new()).unwrap();
        for (n, (stmt, args)) in steps.iter().enumerate() {
            let ours = store.execute(stmt, args, n as u64);
            let theirs = run_on_sqlite(&pool, stmt, args).await;
            match (ours, theirs) {
                (Ok(a), Ok(b)) => assert_eq!(sorted(a), sorted(b), "step {}: {}", n, stmt.sql().unwrap()),
                (Err(_), Err(_)) => {}
                (a, b) => panic!("step {}: {}: engine {:?}, sqlite {:?}", n, stmt.sql().unwrap(), a, b),
            }
        }
    });
}

#[test]
fn sqlite_accepts_the_schema_twice() {
    runtime().block_on(async {
        let pool = connect().await;
        sqlx_migrator().run(&pool).await.unwrap();
        let applied: Vec<i64> = sqlx::query("SELECT version FROM _sqlx_migrations ORDER BY version")
            .fetch_all(&pool)
            .await
            .unwrap()
            .iter()
            .map(|row| row.get::<i64, usize>(0))
            .collect();
        assert_eq!(applied, vec![1, 2]);
    });
}

#[test]
fn sqlite_agrees_on_key_value() {
    agree(vec![
        (Sqlite::kv_load_query(), vec![text("k")]),
        (Sqlite::kv_upsert_query(), vec![text("k"), blob(b"one")]),
        (Sqlite::kv_load_query(), vec![text("k")]),
        (Sqlite::kv_upsert_query(), vec![text("k"), blob(b"two")]),
        (Sqlite::kv_upsert_query(), vec![text("k"), blob(b"two")]),
        (Sqlite::kv_load_query(), vec![text("k")]),
        (Sqlite::kv_load_query(), vec![text("other")]),
    ]);
}

#[test]
fn sqlite_agrees_on_members() {
    agree(vec![
        (
            Sqlite::member_upsert_query(),
            vec![text("!r"), text("@u"), flag(false), blob(b"event"), text("Una"), flag(true)],
        ),
        (Sqlite::member_profile_upsert_query(), vec![text("!r"), text("@u"), flag(true), blob(b"profile")]),
        (Sqlite::member_load_query(), vec![text("!r"), text("@u")]),
        (Sqlite::profile_load_query(), vec![text("!r"), text("@u")]),
        (Sqlite::member_profile_upsert_query(), vec![text("!r"), text("@v"), flag(true), blob(b"second")]),
        (Sqlite::member_load_query(), vec![text("!r"), text("@v")]),
        (Sqlite::profile_load_query(), vec![text("!r"), text("@v")]),
        (Sqlite::members_load_query(), vec![text("!r")]),
        (Sqlite::members_load_query_with_join_status(), vec![text("!r"), flag(true)]),
        (Sqlite::members_load_query_with_join_status(), vec![text("!r"), flag(false)]),
        (Sqlite::users_with_display_name_load_query(), vec![text("!r"), text("Una")]),
        (Sqlite::users_with_display_name_load_query(), vec![text("!r"), Value::Null]),
        (
            Sqlite::member_upsert_query(),
            vec![text("!r"), text("@v"), flag(false), blob(b"e2"), Value::Null, flag(false)],
        ),
        (Sqlite::member_load_query(), vec![text("!r"), text("@v")]),
        (Sqlite::profile_load_query(), vec![text("!r"), text("@v")]),
        (Sqlite::member_remove_query(), vec![text("!r"), text("@u")]),
        (Sqlite::members_load_query(), vec![text("!r")]),
    ]);
}

#[test]
fn sqlite_agrees_on_state() {
    agree(vec![
        (
            Sqlite::state_upsert_query(),
            vec![text("!r"), text("m.room.name"), text(""), flag(true), blob(b"partial"), text("$1")],
        ),
        (Sqlite::state_load_query(), vec![text("!r"), text("m.room.name"), text("")]),
        (Sqlite::states_load_query(), vec![text("!r"), text("m.room.name"), flag(true)]),
        (Sqlite::states_load_query(), vec![text("!r"), text("m.room.name"), flag(false)]),
        (
            Sqlite::state_upsert_query(),
            vec![text("!r"), text("m.room.name"), text(""), flag(false), blob(b"full"), text("$2")],
        ),
        (Sqlite::state_load_query(), vec![text("!r"), text("m.room.name"), text("")]),
        (Sqlite::state_redact_query(), vec![text("!r"), text("$1")]),
        (Sqlite::state_load_query(), vec![text("!r"), text("m.room.name"), text("")]),
        (Sqlite::state_redact_query(), vec![text("!r"), text("$2")]),
        (Sqlite::state_load_query(), vec![text("!r"), text("m.room.name"), text("")]),
    ]);
}

#[test]
fn sqlite_agrees_on_rooms_receipts_and_account_data() {
    agree(vec![
        (Sqlite::room_upsert_query(), vec![text("!a"), flag(false), blob(b"a")]),
        (Sqlite::room_upsert_query(), vec![text("!b"), flag(true), blob(b"b")]),
        (Sqlite::room_info_load_query(), vec![flag(false)]),
        (Sqlite::room_info_load_query(), vec![flag(true)]),
        (
            Sqlite::receipt_upsert_query(),
            vec![text("!a"), text("$1"), text("m.read"), text("@u"), blob(b"r1")],
        ),
        (
            Sqlite::receipt_upsert_query(),
            vec![text("!a"), text("$1"), text("m.read"), text("@v"), blob(b"r2")],
        ),
        (Sqlite::receipt_load_query(), vec![text("!a"), text("m.read"), text("@u")]),
        (Sqlite::event_receipt_load_query(), vec![text("!a"), text("m.read"), text("$1")]),
        (
            Sqlite::receipt_upsert_query(),
            vec![text("!a"), text("$2"), text("m.read"), text("@u"), blob(b"r3")],
        ),
        (Sqlite::receipt_load_query(), vec![text("!a"), text("m.read"), text("@u")]),
        (Sqlite::event_receipt_load_query(), vec![text("!a"), text("m.read"), text("$1")]),
        (Sqlite::account_data_upsert_query(), vec![text("!a"), text("m.tag"), blob(b"t")]),
        (Sqlite::account_data_load_query(), vec![text("!a"), text("m.tag")]),
        (Sqlite::presence_upsert_query(), vec![text("@u"), blob(b"online")]),
        (Sqlite::presence_load_query(), vec![text("@u")]),
    ]);
}

#[test]
fn sqlite_agrees_on_room_removal() {
    let mut steps = vec![
        (Sqlite::room_upsert_query(), vec![text("!a"), flag(false), blob(b"a")]),
        (Sqlite::room_upsert_query(), vec![text("!b"), flag(false), blob(b"b")]),
        (Sqlite::account_data_upsert_query(), vec![text("!a"), text("m.tag"), blob(b"t")]),
        (
            Sqlite::member_upsert_query(),
            vec![text("!a"), text("@u"), flag(false), blob(b"e"), text("Una"), flag(true)],
        ),
        (
            Sqlite::member_upsert_query(),
            vec![text("!b"), text("@u"), flag(false), blob(b"e"), text("Una"), flag(true)],
        ),
    ];
    for stmt in Sqlite::room_remove_queries() {
        steps.push((stmt, vec![text("!a")]));
    }
    steps.push((Sqlite::room_info_load_query(), vec![flag(false)]));
    steps.push((Sqlite::members_load_query(), vec![text("!a")]));
    steps.push((Sqlite::members_load_query(), vec![text("!b")]));
    steps.push((Sqlite::account_data_load_query(), vec![text("!a"), text("m.tag")]));
    agree(steps);
}

#[test]
fn sqlite_agrees_on_key_material() {
    agree(vec![
        (Sqlite::session_store_query(), vec![text("sk"), blob(b"s1")]),
        (Sqlite::session_store_query(), vec![text("sk"), blob(b"s2")]),
        (Sqlite::sessions_for_user_query(), vec![text("sk")]),
        (Sqlite::message_known_query(), vec![text("sk"), text("h")]),
        (Sqlite::olm_message_hash_store_query(), vec![text("sk"), text("h")]),
        (Sqlite::message_known_query(), vec![text("sk"), text("h")]),
        (Sqlite::olm_message_hash_store_query(), vec![text("sk"), text("h")]),
        (Sqlite::message_known_query(), vec![text("sk"), text("h")]),
        (
            Sqlite::inbound_group_session_upsert_query(),
            vec![text("r"), text("sk"), text("id"), blob(b"g1")],
        ),
        (
            Sqlite::inbound_group_session_upsert_query(),
            vec![text("r"), text("sk2"), text("id"), blob(b"g2")],
        ),
        (
            Sqlite::inbound_group_session_upsert_query(),
            vec![text("r"), text("sk"), text("id"), blob(b"g3")],
        ),
        (Sqlite::inbound_group_session_fetch_query(), vec![text("r"), text("sk"), text("id")]),
        (Sqlite::inbound_group_session_fetch_query(), vec![text("r"), text("sk2"), text("id")]),
        (Sqlite::inbound_group_session_fetch_query(), vec![text("r"), text("sk3"), text("id")]),
        (Sqlite::inbound_group_session_fetch_query(), vec![text("r"), text("sk"), text("other")]),
        (Sqlite::inbound_group_session_fetch_query(), vec![text("other"), text("sk"), text("id")]),
        (Sqlite::inbound_group_sessions_fetch_query(), vec![]),
        (Sqlite::outbound_group_session_store_query(), vec![text("r"), blob(b"o1")]),
        (Sqlite::outbound_group_session_store_query(), vec![text("r"), blob(b"o2")]),
        (Sqlite::outbound_group_session_load_query(), vec![text("r")]),
        (
            Sqlite::gossip_request_store_query(),
            vec![text("to"), text("req"), text("info"), flag(false), blob(b"q1")],
        ),
        (Sqlite::gossip_request_fetch_query(), vec![text("req")]),
        (Sqlite::gossip_request_info_fetch_query(), vec![text("info")]),
        (Sqlite::gossip_requests_sent_state_fetch_query(), vec![flag(false)]),
        (
            Sqlite::gossip_request_store_query(),
            vec![text("to"), text("req"), text("info"), flag(true), blob(b"q2")],
        ),
        (Sqlite::gossip_requests_sent_state_fetch_query(), vec![flag(false)]),
        (Sqlite::gossip_requests_sent_state_fetch_query(), vec![flag(true)]),
        (Sqlite::gossip_request_delete_query(), vec![text("req")]),
        (Sqlite::gossip_request_fetch_query(), vec![text("req")]),
        (Sqlite::identity_upsert_query(), vec![text("u"), blob(b"i")]),
        (Sqlite::identity_fetch_query(), vec![text("u")]),
        (Sqlite::device_upsert_query(), vec![text("u"), text("d1"), blob(b"x")]),
        (Sqlite::device_upsert_query(), vec![text("u"), text("d2"), blob(b"y")]),
        (Sqlite::devices_for_user_query(), vec![text("u")]),
        (Sqlite::device_fetch_query(), vec![text("u"), text("d2")]),
        (Sqlite::device_delete_query(), vec![text("u"), text("d1")]),
        (Sqlite::devices_for_user_query(), vec![text("u")]),
        (Sqlite::tracked_user_upsert_query(), vec![text("u"), blob(b"t")]),
        (Sqlite::tracked_users_fetch_query(), vec![]),
    ]);
}

#[test]
fn sqlite_agrees_on_media() {
    let mut steps = vec![
        (Sqlite::media_load_query(), vec![text("mxc://a")]),
        (Sqlite::media_insert_query_1(), vec![text("mxc://a"), blob(b"a")]),
        (Sqlite::media_insert_query_2(), vec![]),
        (Sqlite::media_insert_query_1(), vec![text("mxc://a"), blob(b"again")]),
        (Sqlite::media_insert_query_2(), vec![]),
        (Sqlite::media_load_query(), vec![text("mxc://a")]),
        (Sqlite::media_delete_query(), vec![text("mxc://a")]),
        (Sqlite::media_load_query(), vec![text("mxc://a")]),
    ];
    steps.push((Sqlite::media_delete_query(), vec![text("mxc://a")]));
    agree(steps);
}

#[test]
fn sqlite_keeps_the_media_cache_at_its_capacity() {
    runtime().block_on(async {
        let pool = connect().await;
        for i in 0..150 {
            let url = format!("mxc://{}", i);
            run_on_sqlite(&pool, &Sqlite::media_insert_query_1(), &[text(&url), blob(b"m")]).await.unwrap();
            run_on_sqlite(&pool, &Sqlite::media_insert_query_2(), &[]).await.unwrap();
        }
        let count: i64 = sqlx::query("SELECT COUNT(*) FROM statestore_media")
            .fetch_one(&pool)
            .await
            .unwrap()
            .get::<i64, usize>(0);
        assert_eq!(count, 100);
    });
}

/// A sequence of numbers that looks random and is the same on every run.
struct Dice(u64);

impl Dice {
    fn roll(&mut self, sides: u64) -> u64 {
        self.0 = self.0.wrapping_mul(6364136223846793005).wrapping_add(1442695040888963407);
        (self.0 >> 33) % sides
    }

    fn pick(&mut self, from: &[&str]) -> Value {
        text(from[self.roll(from.len() as u64) as usize])
    }

    fn maybe(&mut self, value: Value) -> Value {
        if self.roll(4) == 0 {
            Value::Null
        } else {
            value
        }
    }
}

#[test]
fn sqlite_agrees_on_a_long_mixed_run() {
    let rooms = ["!a", "!b"];
    let users = ["@u", "@v", "@w"];
    let kinds = ["m.room.name", "m.room.topic"];
    let ids = ["$1", "$2", "$3"];
    let names = ["Una", "Vic"];
    let mut dice = Dice(2024);
    let mut steps = Vec::new();
    for n in 0..400u64 {
        let payload = blob(&n.to_be_bytes());
        let step = match dice.roll(14) {
            0 => (
                Sqlite::member_upsert_query(),
                vec![
                    dice.pick(&rooms),
                    dice.pick(&users),
                    flag(dice.roll(2) == 0),
                    dice.maybe(payload),
                    {
                        let name = dice.pick(&names);
                        dice.maybe(name)
                    },
                    dice.maybe(flag(n % 2 == 0)),
                ],
            ),
            1 => (
                Sqlite::member_profile_upsert_query(),
                vec![dice.pick(&rooms), dice.pick(&users), flag(dice.roll(2) == 0), dice.maybe(payload)],
            ),
            2 => (Sqlite::member_load_query(), vec![dice.pick(&rooms), dice.pick(&users)]),
            3 => (Sqlite::profile_load_query(), vec![dice.pick(&rooms), dice.pick(&users)]),
            4 => (Sqlite::members_load_query(), vec![dice.pick(&rooms)]),
            5 => (
                Sqlite::members_load_query_with_join_status(),
                vec![dice.pick(&rooms), flag(dice.roll(2) == 0)],
            ),
            6 => (Sqlite::users_with_display_name_load_query(), vec![dice.pick(&rooms), dice.pick(&names)]),
            7 => (Sqlite::member_remove_query(), vec![dice.pick(&rooms), dice.pick(&users)]),
            8 => (
                Sqlite::state_upsert_query(),
                vec![
                    dice.pick(&rooms),
                    dice.pick(&kinds),
                    text(""),
                    flag(dice.roll(2) == 0),
                    payload,
                    {
                        let id = dice.pick(&ids);
                        dice.maybe(id)
                    },
                ],
            ),
            9 => (Sqlite::state_load_query(), vec![dice.pick(&rooms), dice.pick(&kinds), text("")]),
            10 => (
                Sqlite::states_load_query(),
                vec![dice.pick(&rooms), dice.pick(&kinds), flag(dice.roll(2) == 0)],
            ),
            11 => (Sqlite::state_redact_query(), vec![dice.pick(&rooms), dice.pick(&ids)]),
            12 => (Sqlite::olm_message_hash_store_query(), vec![dice.pick(&users), dice.pick(&ids)]),
            _ => (Sqlite::message_known_query(), vec![dice.pick(&users), dice.pick(&ids)]),
        };
        steps.push(step);
    }
    agree(steps);
}
