//! A database held in memory: the tables that have been created, and the
//! record of the migrations that created them.
//!
//! It is the store's model of the database that it talks to. Statements run
//! on it do what [`crate::semantics`] says; migrations are applied to it as
//! [`crate::migrate`] says.

use vstd::prelude::*;
use crate::schema::{Table, TABLE_COUNT};
use crate::semantics::{next, output, table_ok, Error, Row};
use crate::statement::{Statement, StatementView};
use crate::table::{outcome_view, row_view, rows_view, Rows};
use crate::value::Value;

verus! {

/// The content of a [`MemoryDatabase`].
pub struct DatabaseView {
    /// The versions of the migrations that have been applied, in the order
    /// in which they were recorded.
    pub history: Seq<i64>,
    /// For each table, by its position among the tables: its rows if it has
    /// been created.
    pub tables: Seq<Option<Seq<Row>>>,
}

impl DatabaseView {
    /// The rows of a table, if it has been created.
    pub open spec fn rows(self, table: Table) -> Option<Seq<Row>> {
        self.tables[table.spec_index() as int]
    }

    /// The database with the rows of a table replaced.
    pub open spec fn with_rows(self, table: Table, rows: Seq<Row>) -> DatabaseView {
        DatabaseView {
            history: self.history,
            tables: self.tables.update(table.spec_index() as int, Some(rows)),
        }
    }

    /// Whether every table has been created.
    pub open spec fn complete(self) -> bool {
        forall|i: int| 0 <= i < self.tables.len() ==> (#[trigger] self.tables[i]) is Some
    }

    /// Every table that has been created is in a state of that table.
    pub open spec fn wf(self) -> bool {
        &&& self.tables.len() == TABLE_COUNT
        &&& forall|table: Table| #[trigger]
            self.rows(table) matches Some(rows) ==> table_ok(table, rows)
    }

    /// What the statement reports when it is run on this database.
    pub open spec fn report(self, stmt: StatementView, args: Row, now: u64) -> Result<
        Seq<Row>,
        Error,
    > {
        match self.rows(stmt.table()) {
            Some(rows) => output(stmt, rows, args, now),
            None => Err(Error::NoSuchTable),
        }
    }

    /// The database that the statement leaves. It changes no table but its
    /// own, and it does not touch the record of migrations.
    pub open spec fn step(self, stmt: StatementView, args: Row, now: u64) -> DatabaseView {
        match self.rows(stmt.table()) {
            Some(rows) => self.with_rows(stmt.table(), next(stmt, rows, args, now)),
            None => self,
        }
    }

    /// A statement that is refused leaves the database as it was.
    pub proof fn lemma_refused(self, stmt: StatementView, args: Row, now: u64)
        requires
            self.wf(),
            self.report(stmt, args, now) is Err,
        ensures
            self.step(stmt, args, now) == self,
    {
        assert(self.step(stmt, args, now).tables =~= self.tables);
    }

    /// A statement leaves every table in place, and changes no table but its
    /// own.
    pub proof fn lemma_step(self, stmt: StatementView, args: Row, now: u64)
        requires
            self.wf(),
        ensures
            self.step(stmt, args, now).wf(),
            self.step(stmt, args, now).history == self.history,
            forall|table: Table|
                table != stmt.table() ==> #[trigger] self.step(stmt, args, now).rows(table)
                    == self.rows(table),
            self.step(stmt, args, now).rows(stmt.table()) is Some == self.rows(
                stmt.table(),
            ) is Some,
    {
        let after = self.step(stmt, args, now);
        if self.rows(stmt.table()) is Some {
            crate::facts::lemma_next_ok(stmt, self.rows(stmt.table())->Some_0, args, now);
        }
        assert forall|table: Table| table != stmt.table() implies #[trigger] after.rows(table)
            == self.rows(table) by {
            if table.spec_index() == stmt.table().spec_index() {
                lemma_index_injective(table, stmt.table());
            }
        }
        assert forall|table: Table| (#[trigger] after.rows(table)) is Some implies table_ok(
            table,
            after.rows(table)->Some_0,
        ) by {
            if table != stmt.table() {
                assert(self.rows(table) is Some);
            }
        }
    }
}

/// A database held in memory.
pub struct MemoryDatabase {
    history: Vec<i64>,
    tables: Vec<Option<Rows>>,
}

/// The content of a table that may not have been created.
pub open spec fn slot_view(slot: Option<Rows>) -> Option<Seq<Row>> {
    match slot {
        Some(rows) => Some(rows@),
        None => None,
    }
}

impl View for MemoryDatabase {
    type V = DatabaseView;

    closed spec fn view(&self) -> DatabaseView {
        DatabaseView {
            history: self.history@,
            tables: Seq::new(self.tables@.len(), |i: int| slot_view(self.tables@[i])),
        }
    }
}

impl MemoryDatabase {
    /// Each table that has been created stands at its own position and is in
    /// a state of that table.
    pub closed spec fn wf(&self) -> bool {
        &&& self.tables@.len() == TABLE_COUNT
        &&& forall|i: int|
            0 <= i < self.tables@.len() ==> (#[trigger] self.tables@[i] matches Some(rows)
                ==> rows.wf() && rows.spec_table().spec_index() == i)
    }

    /// A well-formed database has well-formed content.
    pub proof fn lemma_wf(&self)
        requires
            self.wf(),
        ensures
            self@.wf(),
    {
        assert forall|table: Table| (#[trigger] self@.rows(table)) is Some implies table_ok(
            table,
            self@.rows(table)->Some_0,
        ) by {
            let i = table.spec_index() as int;
            assert(self@.tables[i] == slot_view(self.tables@[i]));
            let rows = self.tables@[i]->Some_0;
            assert(rows.spec_table().spec_index() == table.spec_index());
            lemma_index_injective(rows.spec_table(), table);
        }
    }

    /// A database without tables, to which no migration has been applied.
    pub fn new() -> (r: MemoryDatabase)
        ensures
            r.wf(),
            r@.history == Seq::<i64>::empty(),
            r@.tables.len() == TABLE_COUNT,
            forall|i: int| 0 <= i < TABLE_COUNT ==> (#[trigger] r@.tables[i]) is None,
    {
        let mut tables: Vec<Option<Rows>> = Vec::new();
        let mut i: usize = 0;
        while i < TABLE_COUNT
            invariant
                i <= TABLE_COUNT,
                tables.len() == i,
                forall|k: int| 0 <= k < i ==> (#[trigger] tables@[k]) is None,
            decreases TABLE_COUNT - i,
        {
            tables.push(None);
            i += 1;
        }
        MemoryDatabase { history: Vec::new(), tables }
    }

    /// Whether a table has been created.
    pub fn has_table(&self, table: Table) -> (r: bool)
        requires
            self.wf(),
        ensures
            r == self@.rows(table) is Some,
    {
        self.tables[table.index()].is_some()
    }

    /// Whether every table has been created.
    pub fn is_complete(&self) -> (r: bool)
        requires
            self.wf(),
        ensures
            r == self@.complete(),
    {
        let mut i: usize = 0;
        while i < self.tables.len()
            invariant
                i <= self.tables.len(),
                forall|k: int| 0 <= k < i ==> (#[trigger] self@.tables[k]) is Some,
            decreases self.tables.len() - i,
        {
            if self.tables[i].is_none() {
                assert(self@.tables[i as int] is None);
                return false;
            }
            i += 1;
        }
        true
    }

    /// The versions of the migrations that have been applied, in the order
    /// in which they were recorded.
    pub fn history(&self) -> (r: Vec<i64>)
        ensures
            r@ == self@.history,
    {
        let mut out: Vec<i64> = Vec::new();
        let mut i: usize = 0;
        while i < self.history.len()
            invariant
                i <= self.history.len(),
                out@ == self.history@.take(i as int),
            decreases self.history.len() - i,
        {
            out.push(self.history[i]);
            i += 1;
        }
        out
    }

    /// Whether the migration with this version has been applied.
    pub fn has_version(&self, version: i64) -> (r: bool)
        ensures
            r == self@.history.contains(version),
    {
        let mut i: usize = 0;
        while i < self.history.len()
            invariant
                i <= self.history.len(),
                forall|k: int| 0 <= k < i ==> self.history@[k] != version,
            decreases self.history.len() - i,
        {
            if self.history[i] == version {
                return true;
            }
            i += 1;
        }
        false
    }

    /// A copy of the rows of a table, in table order, if the table has been
    /// created.
    pub fn rows(&self, table: Table) -> (r: Option<Vec<Vec<Value>>>)
        requires
            self.wf(),
        ensures
            match r {
                Some(rows) => self@.rows(table) == Some(rows_view(rows@)),
                None => self@.rows(table) is None,
            },
    {
        match &self.tables[table.index()] {
            Some(rows) => Some(rows.snapshot()),
            None => None,
        }
    }

    /// Creates the listed tables, each empty, and records the version; or,
    /// if one of them has been created before, changes nothing and returns
    /// the first such table.
    pub fn create(&mut self, version: i64, tables: &Vec<Table>) -> (r: Result<(), Table>)
        requires
            old(self).wf(),
        ensures
            final(self).wf(),
            match created(old(self)@.tables, tables@, tables@.len()) {
                Ok(after) => r is Ok && final(self)@ == (DatabaseView {
                    history: old(self)@.history.push(version),
                    tables: after,
                }),
                Err(table) => r == Err::<(), Table>(table) && final(self)@ == old(self)@,
            },
    {
        let ghost before = self@.tables;
        // Look before changing anything: a table that exists, or that is
        // listed twice, stops the whole step.
        let mut i: usize = 0;
        while i < tables.len()
            invariant
                i <= tables.len(),
                self.wf(),
                before == self@.tables,
                before.len() == TABLE_COUNT,
                created(before, tables@, i as nat) is Ok,
                forall|k: int|
                    0 <= k < TABLE_COUNT ==> (#[trigger] created(
                        before,
                        tables@,
                        i as nat,
                    )->Ok_0[k]) is Some == (before[k] is Some || exists|x: int|
                        0 <= x < i && tables@[x].spec_index() == k),
            decreases tables.len() - i,
        {
            let table = tables[i];
            let mut taken = self.tables[table.index()].is_some();
            assert(before[table.spec_index() as int] == slot_view(
                self.tables@[table.spec_index() as int],
            ));
            let mut x: usize = 0;
            while x < i && !taken
                invariant
                    x <= i < tables.len(),
                    table == tables@[i as int],
                    !taken ==> before[table.spec_index() as int] is None,
                    !taken ==> forall|y: int|
                        0 <= y < x ==> tables@[y].spec_index() != table.spec_index(),
                    taken ==> before[table.spec_index() as int] is Some || exists|y: int|
                        0 <= y < i && tables@[y].spec_index() == table.spec_index(),
                    before == self@.tables,
                    self.wf(),
                decreases i - x,
            {
                if tables[x].index() == table.index() {
                    taken = true;
                }
                x += 1;
            }
            proof {
                lemma_created_len(before, tables@, i as nat);
            }
            if taken {
                assert(created(before, tables@, i as nat)->Ok_0[table.spec_index() as int] is Some);
                proof {
                    lemma_created_fails(before, tables@, (i + 1) as nat, tables@.len());
                }
                return Err(table);
            }
            assert(created(before, tables@, i as nat)->Ok_0[table.spec_index() as int] is None);
            assert(created(before, tables@, (i + 1) as nat) is Ok);
            proof {
                let prev = created(before, tables@, i as nat)->Ok_0;
                let cur = created(before, tables@, (i + 1) as nat)->Ok_0;
                assert forall|k: int| 0 <= k < TABLE_COUNT implies (#[trigger] cur[k]) is Some == (
                before[k] is Some || exists|x: int|
                    0 <= x < i + 1 && tables@[x].spec_index() == k) by {
                    if k == table.spec_index() {
                        assert(tables@[i as int].spec_index() == k);
                    } else {
                        assert(cur[k] == prev[k]);
                        assert(prev[k] is Some == (before[k] is Some || exists|x: int|
                            0 <= x < i && tables@[x].spec_index() == k));
                        if exists|x: int| 0 <= x < i + 1 && tables@[x].spec_index() == k {
                            let x = choose|x: int| 0 <= x < i + 1 && tables@[x].spec_index() == k;
                            assert(0 <= x < i);
                        }
                    }
                }
            }
            i += 1;
        }
        let mut i: usize = 0;
        while i < tables.len()
            invariant
                i <= tables.len(),
                self.wf(),
                self.history == old(self).history,
                before.len() == TABLE_COUNT,
                created(before, tables@, tables@.len()) is Ok,
                self@.tables == created(before, tables@, i as nat)->Ok_0,
            decreases tables.len() - i,
        {
            proof {
                lemma_created_prefix(before, tables@, (i + 1) as nat, tables@.len());
                lemma_created_len(before, tables@, i as nat);
            }
            let table = tables[i];
            let fresh = Rows::new(table);
            let ghost prev = self@.tables;
            self.tables.set(table.index(), Some(fresh));
            assert(self@.tables =~= prev.update(table.spec_index() as int, Some(Seq::<Row>::empty())));
            i += 1;
        }
        self.history.push(version);
        Ok(())
    }

    /// Runs a statement on the statement's table.
    ///
    /// If the table has not been created, `Error::NoSuchTable` is returned
    /// and nothing changes. Otherwise the table becomes what [`next`] says
    /// and what [`output`] says is reported; no other table changes.
    pub fn execute(&mut self, stmt: &Statement, args: &Vec<Value>, now: u64) -> (r: Result<
        Vec<Vec<Value>>,
        Error,
    >)
        requires
            old(self).wf(),
        ensures
            final(self).wf(),
            final(self)@ == old(self)@.step(stmt@, row_view(args@), now),
            outcome_view(r) == old(self)@.report(stmt@, row_view(args@), now),
            r is Err ==> final(self)@ == old(self)@,
    {
        let table = stmt.table();
        let i: usize = table.index();
        let ghost before = self@;
        proof {
            self.lemma_wf();
            if before.report(stmt@, row_view(args@), now) is Err {
                before.lemma_refused(stmt@, row_view(args@), now);
            }
        }
        let r = match &mut self.tables[i] {
            Some(rows) => {
                proof {
                    lemma_index_injective(rows.spec_table(), table);
                }
                rows.execute(stmt, args, now)
            },
            None => Err(Error::NoSuchTable),
        };
        assert(self@.tables =~= before.step(stmt@, row_view(args@), now).tables);
        r
    }
}

/// The tables after those listed before position `n` have been created,
/// each empty; or the first of them that had been created already.
pub open spec fn created(tables: Seq<Option<Seq<Row>>>, list: Seq<Table>, n: nat) -> Result<
    Seq<Option<Seq<Row>>>,
    Table,
>
    decreases n,
{
    if n == 0 {
        Ok(tables)
    } else {
        match created(tables, list, (n - 1) as nat) {
            Err(table) => Err(table),
            Ok(before) => {
                let table = list[n - 1];
                if before[table.spec_index() as int] is Some {
                    Err(table)
                } else {
                    Ok(before.update(table.spec_index() as int, Some(Seq::empty())))
                }
            },
        }
    }
}

/// Creating tables neither adds nor removes a position.
pub proof fn lemma_created_len(tables: Seq<Option<Seq<Row>>>, list: Seq<Table>, n: nat)
    requires
        tables.len() == TABLE_COUNT,
    ensures
        created(tables, list, n) matches Ok(after) ==> after.len() == tables.len(),
    decreases n,
{
    if n > 0 {
        lemma_created_len(tables, list, (n - 1) as nat);
    }
}

/// Once creating the first `n` tables has failed, creating more fails the
/// same way.
pub proof fn lemma_created_fails(tables: Seq<Option<Seq<Row>>>, list: Seq<Table>, n: nat, m: nat)
    requires
        n <= m,
        created(tables, list, n) is Err,
    ensures
        created(tables, list, m) == created(tables, list, n),
    decreases m,
{
    if n < m {
        lemma_created_fails(tables, list, n, (m - 1) as nat);
    }
}

/// If creating the first `m` tables succeeds, so does creating the first
/// `n` of them.
pub proof fn lemma_created_prefix(tables: Seq<Option<Seq<Row>>>, list: Seq<Table>, n: nat, m: nat)
    requires
        n <= m,
        created(tables, list, m) is Ok,
    ensures
        created(tables, list, n) is Ok,
    decreases m,
{
    if created(tables, list, n) is Err {
        lemma_created_fails(tables, list, n, m);
    }
}

/// Two tables at the same position are the same table.
pub proof fn lemma_index_injective(a: Table, b: Table)
    requires
        a.spec_index() == b.spec_index(),
    ensures
        a == b,
{
}

} // verus!
