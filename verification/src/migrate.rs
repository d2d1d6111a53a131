//! Schema migrations: the ordered list of steps that create the tables, and
//! the runner that applies those not yet recorded as applied.
//!
//! A migration is applied whole or not at all. A run stops at the first
//! migration that fails and reports why; the migrations applied before it
//! stay applied, and nothing is tried again.
//!
//! The runner here works on the database in memory. On a real database the
//! store hands the same list to the runner of `sqlx`; what that runner can
//! report and this one cannot is said at [`MigratorView::run`].

use vstd::prelude::*;
use vstd::string::StringExecFns;
use crate::database::{created, MemoryDatabase, DatabaseView};
use crate::render::{column_name, join, key_names, push_joined, texts};
use crate::schema::Table;
use crate::value::ValueKind;

verus! {

/// How a dialect names the types of columns.
#[derive(Clone, Copy, Debug)]
pub struct TypeNames {
    /// The type of a flag.
    pub flag: &'static str,
    /// The type of an identifier.
    pub text: &'static str,
    /// The type of an opaque payload.
    pub blob: &'static str,
    /// The type of a point in time.
    pub time: &'static str,
}

impl TypeNames {
    /// The name of the type for a kind of value.
    pub open spec fn spec_of(self, kind: ValueKind) -> &'static str {
        match kind {
            ValueKind::Bool => self.flag,
            ValueKind::Text => self.text,
            ValueKind::Blob => self.blob,
            ValueKind::Time => self.time,
        }
    }

    /// The name of the type for a kind of value.
    pub fn of(&self, kind: ValueKind) -> (r: &'static str)
        ensures
            r == self.spec_of(kind),
    {
        match kind {
            ValueKind::Bool => self.flag,
            ValueKind::Text => self.text,
            ValueKind::Blob => self.blob,
            ValueKind::Time => self.time,
        }
    }
}

/// The type names of PostgreSQL.
pub open spec fn postgres_types() -> TypeNames {
    TypeNames { flag: "BOOLEAN", text: "TEXT", blob: "BYTEA", time: "TIMESTAMP WITH TIME ZONE" }
}

/// The type names of SQLite.
pub open spec fn sqlite_types() -> TypeNames {
    TypeNames { flag: "BOOLEAN", text: "TEXT", blob: "BLOB", time: "TIMESTAMP" }
}

/// The type names of PostgreSQL.
pub fn postgres_type_names() -> (r: TypeNames)
    ensures
        r == postgres_types(),
{
    TypeNames { flag: "BOOLEAN", text: "TEXT", blob: "BYTEA", time: "TIMESTAMP WITH TIME ZONE" }
}

/// The type names of SQLite.
pub fn sqlite_type_names() -> (r: TypeNames)
    ensures
        r == sqlite_types(),
{
    TypeNames { flag: "BOOLEAN", text: "TEXT", blob: "BLOB", time: "TIMESTAMP" }
}

/// The definition of column `c` of the table.
pub open spec fn column_text(table: Table, c: int, types: TypeNames) -> Seq<char> {
    let column = table.spec_columns()[c];
    if column.nullable {
        column.name@ + " "@ + types.spec_of(column.kind)@
    } else {
        column.name@ + " "@ + types.spec_of(column.kind)@ + " NOT NULL"@
    }
}

/// The definitions of the table's columns.
pub open spec fn column_texts(table: Table, types: TypeNames) -> Seq<Seq<char>> {
    Seq::new(table.spec_width(), |c: int| column_text(table, c, types))
}

/// The clause that declares the table's key; nothing for a table without
/// one.
pub open spec fn key_text(table: Table) -> Seq<char> {
    if table.spec_key_len() == 0 {
        Seq::empty()
    } else {
        ", PRIMARY KEY ("@ + join(key_names(table), ", "@) + ")"@
    }
}

/// The statement that creates the table.
pub open spec fn create_text(table: Table, types: TypeNames) -> Seq<char> {
    "CREATE TABLE "@ + table.spec_name()@ + " ("@ + join(column_texts(table, types), ", "@)
        + key_text(table) + ");"@
}

/// The statements that create the listed tables, one to a line.
pub open spec fn schema_text(tables: Seq<Table>, types: TypeNames) -> Seq<char> {
    join(Seq::new(tables.len(), |i: int| create_text(tables[i], types)), "\n"@)
}

/// The statement that creates the table.
pub fn create_sql(table: Table, types: &TypeNames) -> (r: String)
    ensures
        r@ == create_text(table, *types),
{
    let cols = table.columns();
    proof {
        table.lemma_schema();
    }
    let mut defs: Vec<String> = Vec::new();
    let mut c: usize = 0;
    while c < cols.len()
        invariant
            c <= cols.len(),
            defs.len() == c,
            cols@ == table.spec_columns(),
            forall|x: int| 0 <= x < c ==> (#[trigger] defs@[x])@ == column_text(table, x, *types),
        decreases cols.len() - c,
    {
        let mut def = String::from_str(cols[c].name);
        def.append(" ");
        def.append(types.of(cols[c].kind));
        if !cols[c].nullable {
            def.append(" NOT NULL");
        }
        defs.push(def);
        c += 1;
    }
    assert(texts(defs@) =~= column_texts(table, *types));
    let mut out = String::from_str("CREATE TABLE ");
    out.append(table.name());
    out.append(" (");
    push_joined(&mut out, &defs, ", ");
    let k: usize = table.key_len();
    let ghost head = out@;
    if k > 0 {
        let mut keys: Vec<String> = Vec::new();
        let mut i: usize = 0;
        while i < k
            invariant
                i <= k <= cols.len(),
                keys.len() == i,
                cols@ == table.spec_columns(),
                forall|x: int|
                    0 <= x < i ==> (#[trigger] keys@[x])@ == column_name(table, x as usize),
            decreases k - i,
        {
            keys.push(String::from_str(cols[i].name));
            i += 1;
        }
        assert(texts(keys@) =~= key_names(table));
        out.append(", PRIMARY KEY (");
        push_joined(&mut out, &keys, ", ");
        out.append(")");
        assert(out@ =~= head + key_text(table));
    } else {
        assert(out@ =~= head + key_text(table));
    }
    out.append(");");
    out
}

/// The statements that create the listed tables, one to a line.
pub fn schema_sql(tables: &Vec<Table>, types: &TypeNames) -> (r: String)
    ensures
        r@ == schema_text(tables@, *types),
{
    let mut items: Vec<String> = Vec::new();
    let mut i: usize = 0;
    while i < tables.len()
        invariant
            i <= tables.len(),
            items.len() == i,
            forall|x: int|
                0 <= x < i ==> (#[trigger] items@[x])@ == create_text(tables@[x], *types),
        decreases tables.len() - i,
    {
        items.push(create_sql(tables[i], types));
        i += 1;
    }
    assert(texts(items@) =~= Seq::new(
        tables@.len(),
        |i: int| create_text(tables@[i], *types),
    ));
    let mut out = String::new();
    push_joined(&mut out, &items, "\n");
    assert(out@ =~= schema_text(tables@, *types));
    out
}

/// One step of the schema's history.
#[derive(Debug)]
pub struct Migration {
    /// The number by which the step is recorded once it has been applied.
    pub version: i64,
    /// What the step is for.
    pub description: String,
    /// The tables that the step creates.
    pub tables: Vec<Table>,
    /// The SQL text that creates them.
    pub sql: String,
}

/// The content of a [`Migration`].
pub struct MigrationView {
    pub version: i64,
    pub description: Seq<char>,
    pub tables: Seq<Table>,
    pub sql: Seq<char>,
}

impl View for Migration {
    type V = MigrationView;

    open spec fn view(&self) -> MigrationView {
        MigrationView {
            version: self.version,
            description: self.description@,
            tables: self.tables@,
            sql: self.sql@,
        }
    }
}

/// Why a run of the migrations stopped.
#[derive(Clone, Copy, Debug, PartialEq, Eq, Structural)]
pub enum MigrateError {
    /// A migration with this version is recorded as applied, the list does
    /// not hold it, and unknown versions are not to be ignored.
    VersionMissing(i64),
    /// A migration could not create this table, because it exists.
    TableExists(Table),
}

/// How far the schema of a database has come.
#[derive(Clone, Copy, Debug, PartialEq, Eq, Structural)]
pub enum SchemaState {
    /// No migration of the list is on record.
    Blank,
    /// Some migrations of the list are on record, others are not.
    Partial,
    /// Every migration of the list is on record.
    Current,
}

/// A database, and how the run that produced it ended.
pub struct Migrated {
    pub db: DatabaseView,
    pub result: Result<(), MigrateError>,
}

impl MigrationView {
    /// The database after the migration, or why it could not be applied.
    pub open spec fn apply(self, db: DatabaseView) -> Result<DatabaseView, MigrateError> {
        match created(db.tables, self.tables, self.tables.len()) {
            Ok(tables) => Ok(DatabaseView { history: db.history.push(self.version), tables }),
            Err(table) => Err(MigrateError::TableExists(table)),
        }
    }
}

/// The list of migrations, in the order in which they are applied.
#[derive(Debug)]
pub struct Migrator {
    /// The migrations.
    pub migrations: Vec<Migration>,
    /// Whether a version that is recorded as applied but is not in the list
    /// counts as applied rather than as an error.
    pub ignore_missing: bool,
}

/// The content of a [`Migrator`].
pub struct MigratorView {
    pub migrations: Seq<MigrationView>,
    pub ignore_missing: bool,
}

impl View for Migrator {
    type V = MigratorView;

    open spec fn view(&self) -> MigratorView {
        MigratorView {
            migrations: Seq::new(self.migrations@.len(), |i: int| self.migrations@[i]@),
            ignore_missing: self.ignore_missing,
        }
    }
}

impl MigratorView {
    /// Whether the list holds a migration with this version.
    pub open spec fn knows(self, version: i64) -> bool {
        exists|i: int| 0 <= i < self.migrations.len() && (#[trigger] self.migrations[i]).version == version
    }

    /// The first version at or after position `i` of the record that the
    /// list does not hold.
    pub open spec fn unknown_from(self, history: Seq<i64>, i: nat) -> Option<i64>
        decreases history.len() - i,
    {
        if i >= history.len() {
            None
        } else if !self.knows(history[i as int]) {
            Some(history[i as int])
        } else {
            self.unknown_from(history, i + 1)
        }
    }

    /// Where the migrations from position `i` on lead: each one whose
    /// version is not on record is applied, in order, up to the first that
    /// fails.
    pub open spec fn run_from(self, db: DatabaseView, i: nat) -> Migrated
        decreases self.migrations.len() - i,
    {
        if i >= self.migrations.len() {
            Migrated { db, result: Ok(()) }
        } else if db.history.contains(self.migrations[i as int].version) {
            self.run_from(db, i + 1)
        } else {
            match self.migrations[i as int].apply(db) {
                Ok(after) => self.run_from(after, i + 1),
                Err(e) => Migrated { db, result: Err(e) },
            }
        }
    }

    /// Where a run leads. Unless unknown versions are ignored, a run on a
    /// database whose record holds one changes nothing and reports the first
    /// of them.
    ///
    /// The steps are those of the runner of `sqlx` (`Migrator::run`), as far
    /// as the database in memory gives occasion for them: the record is
    /// looked through for unknown versions first; then the list is gone
    /// through in order, a version on record is passed over, and any other
    /// migration is applied and recorded, up to the first that fails.
    ///
    /// The runner of `sqlx` has outcomes that this one has not:
    ///
    /// * `Dirty`: the record holds a migration that was begun and not
    ///   finished. A migration in memory is applied whole or not at all, so
    ///   the record in memory never holds one.
    /// * `VersionMismatch`: the text of a migration is not the text that
    ///   was recorded for its version. The record in memory keeps versions
    ///   and no checksums, so a changed text goes unnoticed here.
    /// * An error of the database itself: the lock is not had, the
    ///   connection is lost, a statement of a migration is rejected. Here a
    ///   migration fails in one way only, on a table that exists.
    ///
    /// What is proved of a run is proved of this function. It carries over
    /// to a real database where none of those outcomes occurs.
    pub open spec fn run(self, db: DatabaseView) -> Migrated {
        if !self.ignore_missing && self.unknown_from(db.history, 0) is Some {
            Migrated {
                db,
                result: Err(MigrateError::VersionMissing(self.unknown_from(db.history, 0)->Some_0)),
            }
        } else {
            self.run_from(db, 0)
        }
    }

    /// How far the schema of the database has come, by its record.
    pub open spec fn state(self, db: DatabaseView) -> SchemaState {
        if forall|i: int|
            0 <= i < self.migrations.len() ==> db.history.contains(
                (#[trigger] self.migrations[i]).version,
            ) {
            SchemaState::Current
        } else if forall|i: int|
            0 <= i < self.migrations.len() ==> !db.history.contains(
                (#[trigger] self.migrations[i]).version,
            ) {
            SchemaState::Blank
        } else {
            SchemaState::Partial
        }
    }
}

impl Migrator {
    /// Whether the list holds a migration with this version.
    pub fn knows(&self, version: i64) -> (r: bool)
        ensures
            r == self@.knows(version),
    {
        let mut i: usize = 0;
        while i < self.migrations.len()
            invariant
                i <= self.migrations.len(),
                forall|k: int| 0 <= k < i ==> (#[trigger] self@.migrations[k]).version != version,
            decreases self.migrations.len() - i,
        {
            if self.migrations[i].version == version {
                assert(self@.migrations[i as int].version == version);
                return true;
            }
            i += 1;
        }
        false
    }

    /// How far the schema of the database has come, by its record.
    pub fn state(&self, db: &MemoryDatabase) -> (r: SchemaState)
        ensures
            r == self@.state(db@),
    {
        let mut all = true;
        let mut none = true;
        let mut i: usize = 0;
        while i < self.migrations.len()
            invariant
                i <= self.migrations.len(),
                all == forall|k: int|
                    0 <= k < i ==> db@.history.contains((#[trigger] self@.migrations[k]).version),
                none == forall|k: int|
                    0 <= k < i ==> !db@.history.contains((#[trigger] self@.migrations[k]).version),
            decreases self.migrations.len() - i,
        {
            assert(self@.migrations[i as int] == self.migrations@[i as int]@);
            if db.has_version(self.migrations[i].version) {
                none = false;
                assert(db@.history.contains(self@.migrations[i as int].version));
            } else {
                all = false;
                assert(!db@.history.contains(self@.migrations[i as int].version));
            }
            i += 1;
        }
        if all {
            SchemaState::Current
        } else if none {
            SchemaState::Blank
        } else {
            SchemaState::Partial
        }
    }

    /// Applies to the database, in order, each migration whose version is
    /// not on its record, and records it.
    ///
    /// The database that results and the way the run ends are those of
    /// [`MigratorView::run`]. This is the runner for the database in
    /// memory; it knows neither a half-applied migration nor a changed
    /// checksum nor a lost lock, which the runner of `sqlx` reports on a
    /// real database.
    #[verifier::loop_isolation(false)]
    pub fn run(&self, db: &mut MemoryDatabase) -> (r: Result<(), MigrateError>)
        requires
            old(db).wf(),
        ensures
            final(db).wf(),
            final(db)@ == self@.run(old(db)@).db,
            r == self@.run(old(db)@).result,
    {
        if !self.ignore_missing {
            let history = db.history();
            let mut i: usize = 0;
            while i < history.len()
                invariant
                    i <= history.len(),
                    history@ == db@.history,
                    self@.unknown_from(history@, 0) == self@.unknown_from(history@, i as nat),
                decreases history.len() - i,
            {
                if !self.knows(history[i]) {
                    return Err(MigrateError::VersionMissing(history[i]));
                }
                i += 1;
            }
        }
        let mut i: usize = 0;
        while i < self.migrations.len()
            invariant
                i <= self.migrations.len(),
                db.wf(),
                self@.run(old(db)@) == self@.run_from(db@, i as nat),
            decreases self.migrations.len() - i,
        {
            let migration = &self.migrations[i];
            assert(self@.migrations[i as int] == migration@);
            if !db.has_version(migration.version) {
                match db.create(migration.version, &migration.tables) {
                    Ok(_) => {},
                    Err(table) => {
                        return Err(MigrateError::TableExists(table));
                    },
                }
            }
            i += 1;
        }
        Ok(())
    }
}

/// The tables of the state store.
pub open spec fn state_tables() -> Seq<Table> {
    seq![
        Table::Kv,
        Table::Media,
        Table::Rooms,
        Table::AccountData,
        Table::Presence,
        Table::Members,
        Table::State,
        Table::Receipts,
    ]
}

/// The tables of the key-material store.
pub open spec fn crypto_tables() -> Seq<Table> {
    seq![
        Table::Sessions,
        Table::MessageHashes,
        Table::InboundGroupSessions,
        Table::OutboundGroupSessions,
        Table::GossipRequests,
        Table::Identities,
        Table::Devices,
        Table::TrackedUsers,
    ]
}

/// The migrations of the store for a dialect with the given type names:
/// first the tables of the state store, then those of the key-material
/// store. Versions on record that the list does not hold are ignored, so
/// that a database migrated by a later release can still be opened.
pub open spec fn store_migrator(types: TypeNames) -> MigratorView {
    MigratorView {
        migrations: seq![
            MigrationView {
                version: 1,
                description: "state store"@,
                tables: state_tables(),
                sql: schema_text(state_tables(), types),
            },
            MigrationView {
                version: 2,
                description: "key-material store"@,
                tables: crypto_tables(),
                sql: schema_text(crypto_tables(), types),
            },
        ],
        ignore_missing: true,
    }
}

/// The migrations of the store for a dialect with the given type names.
pub fn build_migrator(types: TypeNames) -> (m: Migrator)
    ensures
        m@ == store_migrator(types),
{
    let state: Vec<Table> = vec![
        Table::Kv,
        Table::Media,
        Table::Rooms,
        Table::AccountData,
        Table::Presence,
        Table::Members,
        Table::State,
        Table::Receipts,
    ];
    let crypto: Vec<Table> = vec![
        Table::Sessions,
        Table::MessageHashes,
        Table::InboundGroupSessions,
        Table::OutboundGroupSessions,
        Table::GossipRequests,
        Table::Identities,
        Table::Devices,
        Table::TrackedUsers,
    ];
    assert(state@ =~= state_tables());
    assert(crypto@ =~= crypto_tables());
    let first = Migration {
        version: 1,
        description: String::from_str("state store"),
        sql: schema_sql(&state, &types),
        tables: state,
    };
    let second = Migration {
        version: 2,
        description: String::from_str("key-material store"),
        sql: schema_sql(&crypto, &types),
        tables: crypto,
    };
    let m = Migrator { migrations: vec![first, second], ignore_missing: true };
    assert(m@.migrations =~= store_migrator(types).migrations);
    m
}

/// Whether `longer` starts with `shorter`.
pub open spec fn extends(longer: Seq<i64>, shorter: Seq<i64>) -> bool {
    &&& shorter.len() <= longer.len()
    &&& forall|x: int| 0 <= x < shorter.len() ==> longer[x] == shorter[x]
}

/// What a run from position `i` does to the record: it adds versions of the
/// list at the end and changes nothing else; if it ends well, the record
/// holds the version of every migration from position `i` on.
pub proof fn lemma_run_from(m: MigratorView, db: DatabaseView, i: nat)
    ensures
        extends(m.run_from(db, i).db.history, db.history),
        forall|x: int|
            db.history.len() <= x < m.run_from(db, i).db.history.len() ==> m.knows(
                #[trigger] m.run_from(db, i).db.history[x],
            ),
        m.run_from(db, i).result is Ok ==> forall|j: int|
            i <= j < m.migrations.len() ==> m.run_from(db, i).db.history.contains(
                (#[trigger] m.migrations[j]).version,
            ),
        !(m.run_from(db, i).result matches Err(MigrateError::VersionMissing(_))),
    decreases m.migrations.len() - i,
{
    if i < m.migrations.len() {
        let version = m.migrations[i as int].version;
        let end = m.run_from(db, i);
        if db.history.contains(version) {
            lemma_run_from(m, db, i + 1);
            if end.result is Ok {
                assert forall|j: int| i <= j < m.migrations.len() implies end.db.history.contains(
                    (#[trigger] m.migrations[j]).version,
                ) by {
                    if j == i {
                        let x = choose|x: int| 0 <= x < db.history.len() && db.history[x] == version;
                        assert(end.db.history[x] == version);
                    }
                }
            }
        } else {
            match m.migrations[i as int].apply(db) {
                Ok(after) => {
                    lemma_run_from(m, after, i + 1);
                    assert(after.history[db.history.len() as int] == version);
                    assert forall|x: int|
                        db.history.len() <= x < end.db.history.len() implies m.knows(
                        #[trigger] end.db.history[x],
                    ) by {
                        if x == db.history.len() {
                            assert(end.db.history[x] == after.history[x]);
                            assert(m.migrations[i as int].version == version);
                        }
                    }
                    if end.result is Ok {
                        assert forall|j: int|
                            i <= j < m.migrations.len() implies end.db.history.contains(
                            (#[trigger] m.migrations[j]).version,
                        ) by {
                            if j == i {
                                assert(end.db.history[db.history.len() as int] == version);
                            }
                        }
                    }
                },
                Err(_) => {},
            }
        }
    }
}

/// A run on a database whose record holds the version of every migration
/// from position `i` on applies nothing.
pub proof fn lemma_run_from_settled(m: MigratorView, db: DatabaseView, i: nat)
    requires
        forall|j: int|
            i <= j < m.migrations.len() ==> db.history.contains(
                (#[trigger] m.migrations[j]).version,
            ),
    ensures
        m.run_from(db, i) == (Migrated { db, result: Ok(()) }),
    decreases m.migrations.len() - i,
{
    if i < m.migrations.len() {
        assert(db.history.contains(m.migrations[i as int].version));
        lemma_run_from_settled(m, db, i + 1);
    }
}

/// No version at or after position `i` of the record is unknown exactly if
/// the list holds each of them.
pub proof fn lemma_unknown_from(m: MigratorView, history: Seq<i64>, i: nat)
    ensures
        m.unknown_from(history, i) is None <==> forall|x: int|
            i <= x < history.len() ==> m.knows(#[trigger] history[x]),
    decreases history.len() - i,
{
    if i < history.len() {
        lemma_unknown_from(m, history, i + 1);
        if m.knows(history[i as int]) {
            if m.unknown_from(history, i + 1) is None {
                assert forall|x: int| i <= x < history.len() implies m.knows(
                    #[trigger] history[x],
                ) by {
                    if x > i {
                        assert(i + 1 <= x);
                    }
                }
            }
        }
    }
}

/// Migrations are applied once.
///
/// A run that ended well has brought the schema up to date and left
/// nothing to do: a second run on the database that the first one left
/// changes nothing, and ends well.
///
/// This is a law of the runner in memory, [`MigratorView::run`]. The runner
/// of `sqlx` can end a second run in ways that this one cannot: with
/// `Dirty`, with `VersionMismatch`, or with an error of the database. After
/// a run of its own that ended well, and with the same list, it has no
/// ground for the first two: it records each migration as finished, with
/// the checksum of the text that it applied.
pub proof fn law_migrations_run_once(m: MigratorView, db: DatabaseView)
    requires
        m.run(db).result is Ok,
    ensures
        m.state(m.run(db).db) == SchemaState::Current,
        m.run(m.run(db).db) == (Migrated { db: m.run(db).db, result: Ok(()) }),
{
    let after = m.run(db).db;
    lemma_run_from(m, db, 0);
    lemma_run_from_settled(m, after, 0);
    if !m.ignore_missing {
        lemma_unknown_from(m, db.history, 0);
        lemma_unknown_from(m, after.history, 0);
        assert forall|x: int| 0 <= x < after.history.len() implies m.knows(
            #[trigger] after.history[x],
        ) by {
            if x < db.history.len() {
                assert(after.history[x] == db.history[x]);
                assert(m.knows(db.history[x]));
            }
        }
    }
}

/// Versions on record that the list does not hold are no error where they
/// are to be ignored: they count as applied, and the run goes on as if they
/// were not there.
pub proof fn law_unknown_versions_are_ignored(m: MigratorView, db: DatabaseView)
    requires
        m.ignore_missing,
    ensures
        m.run(db) == m.run_from(db, 0),
        !(m.run(db).result matches Err(MigrateError::VersionMissing(_))),
{
    lemma_run_from(m, db, 0);
}

/// A database without tables and without a record.
pub open spec fn blank() -> DatabaseView {
    DatabaseView {
        history: Seq::empty(),
        tables: Seq::new(crate::schema::TABLE_COUNT as nat, |i: int| None),
    }
}

/// A database with every table, each empty, and both migrations on record.
pub open spec fn fresh() -> DatabaseView {
    DatabaseView {
        history: seq![1i64, 2i64],
        tables: Seq::new(crate::schema::TABLE_COUNT as nat, |i: int| Some(Seq::empty())),
    }
}

/// The migrations of the store turn a blank database into one with every
/// table, each empty.
pub proof fn law_blank_database_is_migrated(types: TypeNames)
    ensures
        store_migrator(types).run(blank()) == (Migrated { db: fresh(), result: Ok(()) }),
{
    let m = store_migrator(types);
    reveal_with_fuel(created, 9);
    reveal_with_fuel(MigratorView::run_from, 3);
    let first = m.migrations[0].apply(blank());
    assert(created(blank().tables, state_tables(), 8) is Ok);
    let mid = first->Ok_0;
    assert(mid.history =~= seq![1i64]);
    assert(!mid.history.contains(2i64));
    let second = m.migrations[1].apply(mid);
    assert(created(mid.tables, crypto_tables(), 8) is Ok);
    let end = second->Ok_0;
    assert(end.history =~= seq![1i64, 2i64]);
    assert(end.tables =~= fresh().tables);
    assert(!blank().history.contains(1i64));
}

} // verus!
