//! The store: the one object through which statements are run.
//!
//! [`StateStore`] runs on the database in memory, and so shows what the
//! store does on any database that implements its statements faithfully.
//! The same store on a real database differs in one thing only: where it
//! sends the statements.

use core::marker::PhantomData;
use vstd::prelude::*;
use vstd::string::StringExecFns;
use crate::catalog;
use crate::catalog::MEDIA_CAPACITY;
use crate::database::{MemoryDatabase, DatabaseView};
use crate::helpers::SupportedDatabase;
use crate::migrate::{law_migrations_run_once, store_migrator, MigrateError, SchemaState};
use crate::schema::{Table, MEDIA_DATA};
use crate::facts::{lemma_clock, lemma_next_ok, lemma_select_within, shows};
use crate::semantics::{cell_fits, next, passes, project, row_fits, Error, Row};
use crate::statement::{Clock, Statement, StatementView};
use crate::table::{outcome_view, row_view, rows_view};
use crate::value::{copy_bytes, Value, ValueView};

verus! {

/// SQL state storage, running the statements of dialect `DB` on a database
/// held in memory.
///
/// The store owns its database. It is made by [`StateStore::new`], which
/// brings the database's schema up to date, and from then on every
/// statement goes through it. It keeps no copy of any row: every read goes
/// to the database. It neither batches nor retries.
pub struct StateStore<DB: SupportedDatabase> {
    db: MemoryDatabase,
    dialect: PhantomData<DB>,
}

impl<DB: SupportedDatabase> View for StateStore<DB> {
    type V = DatabaseView;

    closed spec fn view(&self) -> DatabaseView {
        self.db@
    }
}

/// The parameters of a statement that takes one piece of text.
pub open spec fn text_args(text: Seq<char>) -> Row {
    seq![ValueView::Text(text)]
}

/// The parameters of a statement that takes a piece of text and a payload.
pub open spec fn text_blob_args(text: Seq<char>, blob: Seq<u8>) -> Row {
    seq![ValueView::Text(text), ValueView::Blob(blob)]
}

/// The database after the statements before position `n` have been run with
/// the same parameters, up to the first that is refused.
pub open spec fn batch(db: DatabaseView, stmts: Seq<StatementView>, args: Row, now: u64, n: nat) -> DatabaseView
    decreases n,
{
    if n == 0 {
        db
    } else {
        let before = batch(db, stmts, args, now, (n - 1) as nat);
        if batch_error(db, stmts, args, now, (n - 1) as nat) is Some {
            before
        } else {
            before.step(stmts[n - 1], args, now)
        }
    }
}

/// Why the first statement before position `n` that is refused is refused,
/// if one is.
pub open spec fn batch_error(db: DatabaseView, stmts: Seq<StatementView>, args: Row, now: u64, n: nat) -> Option<Error>
    decreases n,
{
    if n == 0 {
        None
    } else {
        match batch_error(db, stmts, args, now, (n - 1) as nat) {
            Some(e) => Some(e),
            None => match batch(db, stmts, args, now, (n - 1) as nat).report(stmts[n - 1], args, now) {
                Ok(_) => None,
                Err(e) => Some(e),
            },
        }
    }
}

impl<DB: SupportedDatabase> StateStore<DB> {
    /// The database is well formed.
    pub closed spec fn wf(&self) -> bool {
        self.db.wf()
    }

    /// The content of a well-formed store is well formed.
    pub proof fn lemma_wf(&self)
        requires
            self.wf(),
        ensures
            self@.wf(),
    {
        self.db.lemma_wf();
    }

    /// Opens the store on a database, applying the dialect's migrations that
    /// the database has not on record.
    ///
    /// If a migration fails, no store is returned, and the error says why.
    /// The run is that of [`crate::migrate::MigratorView::run`], which also
    /// says what a run on a real database can report beyond it.
    pub fn new(db: MemoryDatabase) -> (r: Result<Self, MigrateError>)
        requires
            db.wf(),
        ensures
            match r {
                Ok(store) => {
                    &&& store.wf()
                    &&& store_migrator(DB::type_names()).run(db@).result is Ok
                    &&& store@ == store_migrator(DB::type_names()).run(db@).db
                    &&& store_migrator(DB::type_names()).state(store@) == SchemaState::Current
                },
                Err(e) => store_migrator(DB::type_names()).run(db@).result == Err::<
                    (),
                    MigrateError,
                >(e),
            },
    {
        proof {
            if store_migrator(DB::type_names()).run(db@).result is Ok {
                law_migrations_run_once(store_migrator(DB::type_names()), db@);
            }
        }
        let mut db = db;
        let migrator = DB::get_migrator();
        match migrator.run(&mut db) {
            Ok(_) => Ok(StateStore { db, dialect: PhantomData }),
            Err(e) => Err(e),
        }
    }

    /// Closes the store and gives the database back.
    pub fn into_database(self) -> (db: MemoryDatabase)
        requires
            self.wf(),
        ensures
            db.wf(),
            db@ == self@,
    {
        self.db
    }

    /// The database, for reading.
    pub fn database(&self) -> (db: &MemoryDatabase)
        requires
            self.wf(),
        ensures
            db.wf(),
            db@ == self@,
    {
        &self.db
    }

    /// Runs a statement with the given parameters, at the given time on the
    /// database's clock.
    pub fn execute(&mut self, stmt: &Statement, args: &Vec<Value>, now: u64) -> (r: Result<
        Vec<Vec<Value>>,
        Error,
    >)
        requires
            old(self).wf(),
        ensures
            final(self).wf(),
            final(self)@ == old(self)@.step(stmt@, row_view(args@), now),
            outcome_view(r) == old(self)@.report(stmt@, row_view(args@), now),
            r is Err ==> final(self)@ == old(self)@,
    {
        self.db.execute(stmt, args, now)
    }

    /// Caches a media payload: inserts it unless its locator is cached
    /// already, then evicts all but the most recently used payloads.
    ///
    /// The two statements are run one after the other, not as one unit. If
    /// the first is refused, the second is not run. Whatever the cache held
    /// before, it holds no more than [`MEDIA_CAPACITY`] payloads after a
    /// write that was accepted.
    pub fn save_media(&mut self, url: &str, data: &Vec<u8>, now: u64) -> (r: Result<(), Error>)
        requires
            old(self).wf(),
        ensures
            final(self).wf(),
            r is Ok ==> (final(self)@.rows(Table::Media) matches Some(rows) && rows.len()
                <= MEDIA_CAPACITY),
            ({
                let insert = catalog::media_insert_1(Clock::Now);
                let args = text_blob_args(url@, data@);
                match old(self)@.report(insert, args, now) {
                    Err(e) => r == Err::<(), Error>(e) && final(self)@ == old(self)@,
                    Ok(_) => {
                        let mid = old(self)@.step(insert, args, now);
                        &&& final(self)@ == mid.step(catalog::media_insert_2(), Seq::empty(), now)
                        &&& r is Ok
                    },
                }
            }),
    {
        let insert = DB::media_insert_query_1();
        let mut args: Vec<Value> = Vec::new();
        args.push(Value::Text(String::from_str(url)));
        args.push(Value::Blob(copy_bytes(data)));
        assert(row_view(args@) =~= text_blob_args(url@, data@));
        proof {
            let table = insert@.table();
            assert(insert@.with_clock(Clock::Now) == catalog::media_insert_1(Clock::Now));
            if self.db@.rows(table) is Some {
                lemma_clock(insert@, Clock::Now, self.db@.rows(table)->Some_0, row_view(args@), now);
            }
        }
        let ghost start = self.db@;
        proof {
            self.db.lemma_wf();
            start.lemma_step(catalog::media_insert_1(Clock::Now), text_blob_args(url@, data@), now);
            if start.rows(Table::Media) is Some {
                crate::laws::media::law_media_capacity(
                    start.rows(Table::Media)->Some_0,
                    url@,
                    data@,
                    Clock::Now,
                    now,
                    now,
                );
            }
        }
        match self.db.execute(&insert, &args, now) {
            Err(e) => Err(e),
            Ok(_) => {
                let evict = DB::media_insert_query_2();
                let none: Vec<Value> = Vec::new();
                assert(row_view(none@) =~= Seq::<ValueView>::empty());
                match self.db.execute(&evict, &none, now) {
                    Ok(_) => Ok(()),
                    Err(e) => Err(e),
                }
            },
        }
    }

    /// Reads a cached media payload and marks it as used at `now`.
    ///
    /// A locator that is not cached reads as `None`; that is no error.
    pub fn load_media(&mut self, url: &str, now: u64) -> (r: Result<Option<Vec<u8>>, Error>)
        requires
            old(self).wf(),
        ensures
            final(self).wf(),
            final(self)@ == old(self)@.step(catalog::media_load(Clock::Now), text_args(url@), now),
            match old(self)@.report(catalog::media_load(Clock::Now), text_args(url@), now) {
                Err(e) => r == Err::<Option<Vec<u8>>, Error>(e),
                Ok(rows) => match r {
                    Ok(Some(data)) => rows.len() > 0 && rows[0] == seq![ValueView::Blob(data@)],
                    Ok(None) => rows.len() == 0,
                    Err(_) => false,
                },
            },
    {
        let load = DB::media_load_query();
        let mut args: Vec<Value> = Vec::new();
        args.push(Value::Text(String::from_str(url)));
        let ghost av = text_args(url@);
        assert(row_view(args@) =~= av);
        let ghost start = self.db@;
        proof {
            self.db.lemma_wf();
            let table = load@.table();
            assert(load@.with_clock(Clock::Now) == catalog::media_load(Clock::Now));
            if start.rows(table) is Some {
                let rows = start.rows(table)->Some_0;
                lemma_clock(load@, Clock::Now, rows, av, now);
                lemma_next_ok(load@, rows, av, now);
                let after = next(load@, rows, av, now);
                lemma_select_within(after, load@->Touch_filter, av, load@->returning);
            }
        }
        match self.db.execute(&load, &args, now) {
            Err(e) => Err(e),
            Ok(found) => {
                if found.len() == 0 {
                    return Ok(None);
                }
                let ghost shown = rows_view(found@)[0];
                assert(shown == row_view(found@[0]@));
                proof {
                    let rows = start.rows(Table::Media)->Some_0;
                    let after = next(load@, rows, av, now);
                    assert(shows(after, load@->Touch_filter, av, load@->returning, shown));
                    let i = choose|i: int|
                        0 <= i < after.len() && passes(
                            #[trigger] after[i],
                            load@->Touch_filter,
                            av,
                        ) && shown == project(after[i], load@->returning);
                    assert(row_fits(Table::Media, after[i]));
                    assert(cell_fits(Table::Media, MEDIA_DATA as int, after[i][MEDIA_DATA as int]));
                    assert(shown.len() == 1);
                    assert(shown[0] == after[i][MEDIA_DATA as int]);
                }
                match &found[0][0] {
                    Value::Blob(data) => {
                        let data = copy_bytes(data);
                        assert(shown =~= seq![ValueView::Blob(data@)]);
                        Ok(Some(data))
                    },
                    _ => {
                        assert(false);
                        Ok(None)
                    },
                }
            },
        }
    }

    /// Removes a media payload from the cache.
    pub fn remove_media(&mut self, url: &str) -> (r: Result<(), Error>)
        requires
            old(self).wf(),
        ensures
            final(self).wf(),
            final(self)@ == old(self)@.step(catalog::media_delete(), text_args(url@), 0),
            match old(self)@.report(catalog::media_delete(), text_args(url@), 0) {
                Err(e) => r == Err::<(), Error>(e),
                Ok(_) => r is Ok,
            },
    {
        let delete = DB::media_delete_query();
        let mut args: Vec<Value> = Vec::new();
        args.push(Value::Text(String::from_str(url)));
        assert(row_view(args@) =~= text_args(url@));
        match self.db.execute(&delete, &args, 0) {
            Err(e) => Err(e),
            Ok(_) => Ok(()),
        }
    }

    /// Removes a room: its row, and every row of the room in the tables that
    /// hold account data, members, state and receipts.
    ///
    /// The statements are run one after the other, not as one unit; the
    /// first that is refused ends the removal.
    #[verifier::loop_isolation(false)]
    pub fn remove_room(&mut self, room_id: &str) -> (r: Result<(), Error>)
        requires
            old(self).wf(),
        ensures
            final(self).wf(),
            final(self)@ == batch(
                old(self)@,
                catalog::room_remove(),
                text_args(room_id@),
                0,
                catalog::room_remove().len(),
            ),
            r == match batch_error(
                old(self)@,
                catalog::room_remove(),
                text_args(room_id@),
                0,
                catalog::room_remove().len(),
            ) {
                Some(e) => Err::<(), Error>(e),
                None => Ok(()),
            },
    {
        let stmts = DB::room_remove_queries();
        let mut args: Vec<Value> = Vec::new();
        args.push(Value::Text(String::from_str(room_id)));
        let ghost av = text_args(room_id@);
        assert(row_view(args@) =~= av);
        let ghost start = self.db@;
        let ghost list = catalog::room_remove();
        let mut i: usize = 0;
        while i < stmts.len()
            invariant
                i <= stmts.len(),
                self.db.wf(),
                stmts@.len() == list.len(),
                list == catalog::room_remove(),
                forall|k: int| 0 <= k < stmts@.len() ==> (#[trigger] stmts@[k])@ == list[k],
                row_view(args@) == av,
                self.db@ == batch(start, list, av, 0, i as nat),
                batch_error(start, list, av, 0, i as nat) is None,
            decreases stmts.len() - i,
        {
            assert(stmts@[i as int]@ == list[i as int]);
            match self.db.execute(&stmts[i], &args, 0) {
                Ok(_) => {},
                Err(e) => {
                    proof {
                        lemma_batch_stops(start, list, av, 0, (i + 1) as nat, list.len());
                    }
                    return Err(e);
                },
            }
            i += 1;
        }
        Ok(())
    }
}

/// Once a statement of a batch has been refused, running more of the batch
/// changes nothing.
pub proof fn lemma_batch_stops(
    db: DatabaseView,
    stmts: Seq<StatementView>,
    args: Row,
    now: u64,
    n: nat,
    m: nat,
)
    requires
        n <= m,
        batch_error(db, stmts, args, now, n) is Some,
    ensures
        batch_error(db, stmts, args, now, m) == batch_error(db, stmts, args, now, n),
        batch(db, stmts, args, now, m) == batch(db, stmts, args, now, n),
    decreases m,
{
    if n < m {
        lemma_batch_stops(db, stmts, args, now, n, (m - 1) as nat);
    }
}

} // verus!
