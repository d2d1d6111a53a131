//! Migrations: applied once, in order, and tolerant of versions that a
//! later release has recorded.

use matrix_sdk_sql::database::MemoryDatabase;
use matrix_sdk_sql::helpers::SupportedDatabase;
use sqlx::{Postgres, Sqlite};
use matrix_sdk_sql::migrate::{
    create_sql, postgres_type_names, schema_sql, sqlite_type_names, MigrateError, Migration, Migrator,
    SchemaState,
};
use matrix_sdk_sql::schema::Table;
use matrix_sdk_sql::semantics::Error;
use matrix_sdk_sql::store::StateStore;
use matrix_sdk_sql::value::Value;

#[test]
fn a_blank_database_gets_every_table() {
    let db = MemoryDatabase::new();
    assert!(!db.is_complete());
    assert_eq!(db.history(), Vec::<i64>::new());
    let store = StateStore::<Postgres>::new(db).unwrap();
    let db = store.into_database();
    assert!(db.is_complete());
    assert_eq!(db.history(), vec![1, 2]);
    for i in 0..16 {
        assert_eq!(db.rows(Table::at(i).unwrap()), Some(vec![]));
    }
}

#[test]
fn opening_a_migrated_database_again_changes_nothing() {
    let mut store = StateStore::<Sqlite>::new(MemoryDatabase::new()).unwrap();
    store
        .execute(&Sqlite::kv_upsert_query(), &vec![Value::Text("k".into()), Value::Blob(vec![7])], 0)
        .unwrap();
    let db = store.into_database();
    let history = db.history();
    let rows = db.rows(Table::Kv);
    let mut again = StateStore::<Sqlite>::new(db).unwrap();
    assert_eq!(again.database().history(), history);
    assert_eq!(again.database().rows(Table::Kv), rows);
    assert_eq!(
        again.execute(&Sqlite::kv_load_query(), &vec![Value::Text("k".into())], 0),
        Ok(vec![vec![Value::Blob(vec![7])]])
    );
}

#[test]
fn the_migrator_ignores_versions_it_does_not_know() {
    let migrator = Postgres::get_migrator();
    assert!(migrator.ignore_missing);
    assert_eq!(migrator.migrations.len(), 2);
    assert_eq!(migrator.migrations[0].version, 1);
    assert_eq!(migrator.migrations[1].version, 2);
    assert!(migrator.knows(1));
    assert!(!migrator.knows(3));
    let mut db = MemoryDatabase::new();
    db.create(77, &vec![]).unwrap();
    assert_eq!(migrator.run(&mut db), Ok(()));
    assert_eq!(db.history(), vec![77, 1, 2]);
    assert!(db.is_complete());
}

#[test]
fn a_strict_migrator_reports_the_first_unknown_version() {
    let mut migrator = Postgres::get_migrator();
    migrator.ignore_missing = false;
    let mut db = MemoryDatabase::new();
    db.create(1, &vec![Table::Kv]).unwrap();
    db.create(77, &vec![]).unwrap();
    db.create(78, &vec![]).unwrap();
    assert_eq!(migrator.run(&mut db), Err(MigrateError::VersionMissing(77)));
    assert_eq!(db.history(), vec![1, 77, 78]);
    assert!(!db.has_table(Table::Media));
}

#[test]
fn a_partly_migrated_database_gets_the_rest() {
    let migrator = Sqlite::get_migrator();
    let mut db = MemoryDatabase::new();
    db.create(1, &migrator.migrations[0].tables).unwrap();
    assert!(db.has_table(Table::Receipts));
    assert!(!db.has_table(Table::Devices));
    assert_eq!(
        db.execute(&Sqlite::identity_fetch_query(), &vec![Value::Text("u".into())], 0),
        Err(Error::NoSuchTable)
    );
    assert_eq!(migrator.run(&mut db), Ok(()));
    assert_eq!(db.history(), vec![1, 2]);
    assert!(db.is_complete());
}

#[test]
fn a_migration_that_fails_stops_the_run_and_changes_nothing_itself() {
    let migrator = Postgres::get_migrator();
    let mut db = MemoryDatabase::new();
    // The table is there, but no record says which migration made it.
    db.create(9, &vec![Table::Devices]).unwrap();
    assert_eq!(migrator.run(&mut db), Err(MigrateError::TableExists(Table::Devices)));
    // The first migration was applied and stays; the second left no trace.
    assert_eq!(db.history(), vec![9, 1]);
    assert!(db.has_table(Table::Kv));
    assert!(!db.has_table(Table::Sessions));
    assert!(StateStore::<Postgres>::new(db).is_err());
}

#[test]
fn creating_a_table_twice_fails() {
    let mut db = MemoryDatabase::new();
    assert_eq!(db.create(1, &vec![Table::Kv, Table::Media]), Ok(()));
    assert_eq!(db.create(2, &vec![Table::Rooms, Table::Media]), Err(Table::Media));
    assert!(!db.has_table(Table::Rooms));
    assert_eq!(db.create(3, &vec![Table::Rooms, Table::Rooms]), Err(Table::Rooms));
    assert!(!db.has_table(Table::Rooms));
    assert_eq!(db.history(), vec![1]);
    assert!(db.has_version(1));
    assert!(!db.has_version(2));
}

#[test]
fn ddl_of_a_keyed_table() {
    assert_eq!(
        create_sql(Table::Receipts, &sqlite_type_names()),
        "CREATE TABLE statestore_receipts (room_id TEXT NOT NULL, receipt_type TEXT NOT NULL, user_id TEXT NOT NULL, event_id TEXT NOT NULL, receipt BLOB NOT NULL, PRIMARY KEY (room_id, receipt_type, user_id));"
    );
}

#[test]
fn ddl_of_a_table_without_key() {
    let types = postgres_type_names();
    assert_eq!(types.time, "TIMESTAMP WITH TIME ZONE");
    assert_eq!(
        create_sql(Table::Sessions, &types),
        "CREATE TABLE cryptostore_session (sender_key TEXT NOT NULL, session_data BYTEA NOT NULL);"
    );
    assert_eq!(
        create_sql(Table::Media, &types),
        "CREATE TABLE statestore_media (media_url TEXT NOT NULL, media_data BYTEA NOT NULL, last_access TIMESTAMP WITH TIME ZONE NOT NULL, PRIMARY KEY (media_url));"
    );
}

#[test]
fn ddl_of_nullable_columns() {
    assert_eq!(
        create_sql(Table::Members, &sqlite_type_names()),
        "CREATE TABLE statestore_members (room_id TEXT NOT NULL, user_id TEXT NOT NULL, is_partial BOOLEAN NOT NULL, member_event BLOB, displayname TEXT, joined BOOLEAN, user_profile BLOB, PRIMARY KEY (room_id, user_id));"
    );
}

#[test]
fn migrations_hold_the_ddl_of_their_tables() {
    let migrator = Sqlite::get_migrator();
    for migration in &migrator.migrations {
        assert_eq!(migration.sql, schema_sql(&migration.tables, &sqlite_type_names()));
        assert_eq!(migration.sql.lines().count(), migration.tables.len());
    }
    assert_eq!(migrator.migrations[0].description, "state store");
    assert_eq!(migrator.migrations[1].description, "key-material store");
    assert_eq!(schema_sql(&vec![], &sqlite_type_names()), "");
    let postgres = Postgres::get_migrator();
    assert!(postgres.migrations[0].sql.contains("kv_value BYTEA NOT NULL"));
    assert!(migrator.migrations[0].sql.contains("kv_value BLOB NOT NULL"));
}

#[test]
fn a_migrator_of_ones_own_runs_too() {
    let migrator = Migrator {
        migrations: vec![
            Migration { version: 5, description: "kv".into(), tables: vec![Table::Kv], sql: String::new() },
            Migration { version: 3, description: "media".into(), tables: vec![Table::Media], sql: String::new() },
        ],
        ignore_missing: false,
    };
    let mut db = MemoryDatabase::new();
    assert_eq!(migrator.run(&mut db), Ok(()));
    // In the order of the list, not of the versions.
    assert_eq!(db.history(), vec![5, 3]);
    assert_eq!(migrator.run(&mut db), Ok(()));
    assert_eq!(db.history(), vec![5, 3]);
}

#[test]
fn the_record_tells_how_far_the_schema_has_come() {
    let migrator = Sqlite::get_migrator();
    let mut db = MemoryDatabase::new();
    assert_eq!(migrator.state(&db), SchemaState::Blank);
    db.create(77, &vec![]).unwrap();
    assert_eq!(migrator.state(&db), SchemaState::Blank);
    db.create(1, &migrator.migrations[0].tables).unwrap();
    assert_eq!(migrator.state(&db), SchemaState::Partial);
    migrator.run(&mut db).unwrap();
    assert_eq!(migrator.state(&db), SchemaState::Current);
    let nothing = Migrator { migrations: vec![], ignore_missing: true };
    assert_eq!(nothing.state(&db), SchemaState::Current);
}
