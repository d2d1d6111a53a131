//! An engine that runs statements on a table held in memory.
//!
//! [`Rows`] holds one table. [`Rows::execute`] does to it exactly what
//! [`crate::semantics`] says the statement does.

use vstd::prelude::*;
use crate::schema::{Column, Table};
use crate::facts::lemma_find_is;
use crate::semantics::{
    assign, candidate, collision, delete, equal_at, guard_holds, kinds_fit, lacks_value, next,
    oldest, output, passes, project, refusal, rewrite, row_fits, same_key, select, table_ok,
    touch, trim, Error, Row,
};
use crate::statement::{all_below, Conflict, Filter, Guard, Stamp, Statement, StatementView};
use crate::value::{Value, ValueKind, ValueView};

verus! {

/// The content of a row of values.
pub open spec fn row_view(cells: Seq<Value>) -> Row {
    Seq::new(cells.len(), |c: int| cells[c]@)
}

/// The content of a list of rows.
pub open spec fn rows_view(rows: Seq<Vec<Value>>) -> Seq<Row> {
    Seq::new(rows.len(), |i: int| row_view(rows[i]@))
}

/// The content of what a statement reports.
pub open spec fn outcome_view(r: Result<Vec<Vec<Value>>, Error>) -> Result<Seq<Row>, Error> {
    match r {
        Ok(rows) => Ok(rows_view(rows@)),
        Err(e) => Err(e),
    }
}

/// A copy of a row.
pub(crate) fn copy_row(row: &Vec<Value>) -> (r: Vec<Value>)
    ensures
        row_view(r@) == row_view(row@),
{
    let mut out: Vec<Value> = Vec::new();
    let mut c: usize = 0;
    while c < row.len()
        invariant
            c <= row.len(),
            out.len() == c,
            forall|k: int| 0 <= k < c ==> (#[trigger] out@[k])@ == row@[k]@,
        decreases row.len() - c,
    {
        out.push(row[c].clone());
        c += 1;
    }
    assert(row_view(out@) =~= row_view(row@));
    out
}

/// Whether the row passes the filter.
fn row_passes(row: &Vec<Value>, filter: &Filter, args: &Vec<Value>) -> (r: bool)
    requires
        all_below(filter@.equals, row@.len() as nat),
        forall|j: int|
            0 <= j < filter@.guards.len() ==> (#[trigger] filter@.guards[j]).spec_column()
                < row@.len(),
        args@.len() == filter@.equals.len(),
    ensures
        r == passes(row_view(row@), filter@, row_view(args@)),
{
    let ghost rv = row_view(row@);
    let ghost av = row_view(args@);
    let mut i: usize = 0;
    while i < filter.equals.len()
        invariant
            i <= filter.equals.len(),
            rv == row_view(row@),
            av == row_view(args@),
            all_below(filter@.equals, row@.len() as nat),
            args@.len() == filter@.equals.len(),
            forall|k: int| 0 <= k < i ==> #[trigger] equal_at(rv, filter@.equals, av, k),
        decreases filter.equals.len() - i,
    {
        let column: usize = filter.equals[i];
        assert(filter@.equals[i as int] < row@.len());
        if args[i].is_null() || !row[column].same(&args[i]) {
            assert(!equal_at(rv, filter@.equals, av, i as int));
            return false;
        }
        i += 1;
    }
    let mut j: usize = 0;
    while j < filter.guards.len()
        invariant
            j <= filter.guards.len(),
            rv == row_view(row@),
            forall|j: int|
                0 <= j < filter@.guards.len() ==> (#[trigger] filter@.guards[j]).spec_column()
                    < row@.len(),
            forall|k: int| 0 <= k < j ==> guard_holds(rv, #[trigger] filter@.guards[k]),
        decreases filter.guards.len() - j,
    {
        assert(filter@.guards[j as int].spec_column() < row@.len());
        let holds = match filter.guards[j] {
            Guard::NotNull(c) => !row[c].is_null(),
            Guard::IsFalse(c) => match &row[c] {
                Value::Bool(b) => !*b,
                _ => false,
            },
        };
        if !holds {
            assert(!guard_holds(rv, filter@.guards[j as int]));
            return false;
        }
        j += 1;
    }
    true
}

/// The listed columns of the row.
fn pick(row: &Vec<Value>, columns: &Vec<usize>) -> (r: Vec<Value>)
    requires
        all_below(columns@, row@.len() as nat),
    ensures
        row_view(r@) == project(row_view(row@), columns@),
{
    let mut out: Vec<Value> = Vec::new();
    let mut i: usize = 0;
    while i < columns.len()
        invariant
            i <= columns.len(),
            out.len() == i,
            all_below(columns@, row@.len() as nat),
            forall|k: int| 0 <= k < i ==> (#[trigger] out@[k])@ == row@[columns@[k] as int]@,
        decreases columns.len() - i,
    {
        assert(columns@[i as int] < row@.len());
        out.push(row[columns[i]].clone());
        i += 1;
    }
    assert(row_view(out@) =~= project(row_view(row@), columns@));
    out
}

/// Whether two rows agree on their first `k` columns.
fn keys_agree(a: &Vec<Value>, b: &Vec<Value>, k: usize) -> (r: bool)
    requires
        k <= a@.len(),
        k <= b@.len(),
    ensures
        r == same_key(row_view(a@), row_view(b@), k as nat),
{
    let mut c: usize = 0;
    while c < k
        invariant
            c <= k,
            k <= a@.len(),
            k <= b@.len(),
            forall|x: int| 0 <= x < c ==> row_view(a@)[x] == row_view(b@)[x],
        decreases k - c,
    {
        if !a[c].same(&b[c]) {
            assert(row_view(a@)[c as int] != row_view(b@)[c as int]);
            return false;
        }
        c += 1;
    }
    true
}

/// One table, held in memory.
pub struct Rows {
    table: Table,
    rows: Vec<Vec<Value>>,
}

impl View for Rows {
    type V = Seq<Row>;

    closed spec fn view(&self) -> Seq<Row> {
        rows_view(self.rows@)
    }
}

impl Rows {
    /// The table that these rows belong to.
    pub closed spec fn spec_table(&self) -> Table {
        self.table
    }

    /// The rows are a state of their table.
    pub open spec fn wf(&self) -> bool {
        table_ok(self.spec_table(), self@)
    }

    /// The empty table.
    pub fn new(table: Table) -> (r: Rows)
        ensures
            r.wf(),
            r.spec_table() == table,
            r@ == Seq::<Row>::empty(),
    {
        let r = Rows { table, rows: Vec::new() };
        assert(r@ =~= Seq::<Row>::empty());
        r
    }

    /// The table that these rows belong to.
    pub fn table(&self) -> (r: Table)
        ensures
            r == self.spec_table(),
    {
        self.table
    }

    /// The number of rows.
    pub fn len(&self) -> (r: usize)
        ensures
            r == self@.len(),
    {
        self.rows.len()
    }

    /// A copy of the rows, in table order.
    pub fn snapshot(&self) -> (r: Vec<Vec<Value>>)
        ensures
            rows_view(r@) == self@,
    {
        let mut out: Vec<Vec<Value>> = Vec::new();
        let mut i: usize = 0;
        while i < self.rows.len()
            invariant
                i <= self.rows.len(),
                out.len() == i,
                forall|k: int| 0 <= k < i ==> row_view((#[trigger] out@[k])@) == row_view(self.rows@[k]@),
            decreases self.rows.len() - i,
        {
            out.push(copy_row(&self.rows[i]));
            i += 1;
        }
        assert(rows_view(out@) =~= rows_view(self.rows@));
        out
    }

    /// Every row has one cell for each column of the table.
    proof fn lemma_widths(&self)
        requires
            self.wf(),
        ensures
            forall|i: int| 0 <= i < self.rows@.len() ==> (#[trigger] self.rows@[i])@.len() == self.table.spec_width(),
    {
        assert forall|i: int| 0 <= i < self.rows@.len() implies (#[trigger] self.rows@[i])@.len() == self.table.spec_width() by {
            assert(row_fits(self.table, self@[i]));
        }
    }

    /// The listed columns of the rows that pass the filter.
    fn run_select(&self, filter: &Filter, args: &Vec<Value>, columns: &Vec<usize>) -> (r: Vec<Vec<Value>>)
        requires
            self.wf(),
            filter@.wf(self.spec_table()),
            args@.len() == filter@.equals.len(),
            all_below(columns@, self.spec_table().spec_width()),
        ensures
            rows_view(r@) == select(self@, filter@, row_view(args@), columns@),
    {
        proof {
            self.lemma_widths();
        }
        let ghost rv = rows_view(self.rows@);
        let ghost av = row_view(args@);
        let mut out: Vec<Vec<Value>> = Vec::new();
        let mut i: usize = 0;
        assert(rows_view(out@) =~= Seq::<Row>::empty());
        assert(rv.take(0) =~= Seq::<Row>::empty());
        while i < self.rows.len()
            invariant
                i <= self.rows.len(),
                rv == rows_view(self.rows@),
                av == row_view(args@),
                filter@.wf(self.table),
                args@.len() == filter@.equals.len(),
                all_below(columns@, self.table.spec_width()),
                forall|k: int| 0 <= k < self.rows@.len() ==> (#[trigger] self.rows@[k])@.len() == self.table.spec_width(),
                rows_view(out@) == select(rv.take(i as int), filter@, av, columns@),
            decreases self.rows.len() - i,
        {
            let row = &self.rows[i];
            assert(rv.take(i + 1).drop_last() =~= rv.take(i as int));
            assert(rv.take(i + 1).last() == row_view(row@));
            if row_passes(row, filter, args) {
                let picked = pick(row, columns);
                let ghost before = rows_view(out@);
                out.push(picked);
                assert(rows_view(out@) =~= before.push(row_view(picked@)));
            }
            i += 1;
        }
        assert(rv.take(self.rows@.len() as int) =~= rv);
        out
    }

    /// Deletes the rows that pass the filter.
    fn run_delete(&mut self, filter: &Filter, args: &Vec<Value>)
        requires
            old(self).wf(),
            filter@.wf(old(self).spec_table()),
            args@.len() == filter@.equals.len(),
        ensures
            final(self).spec_table() == old(self).spec_table(),
            final(self)@ == delete(old(self)@, filter@, row_view(args@)),
    {
        proof {
            self.lemma_widths();
        }
        let ghost rv = rows_view(self.rows@);
        let ghost av = row_view(args@);
        let mut kept: Vec<Vec<Value>> = Vec::new();
        let mut i: usize = 0;
        assert(rows_view(kept@) =~= Seq::<Row>::empty());
        assert(rv.take(0) =~= Seq::<Row>::empty());
        while i < self.rows.len()
            invariant
                i <= self.rows.len(),
                rv == rows_view(self.rows@),
                av == row_view(args@),
                filter@.wf(self.table),
                args@.len() == filter@.equals.len(),
                forall|k: int| 0 <= k < self.rows@.len() ==> (#[trigger] self.rows@[k])@.len() == self.table.spec_width(),
                rows_view(kept@) == delete(rv.take(i as int), filter@, av),
            decreases self.rows.len() - i,
        {
            let row = &self.rows[i];
            assert(rv.take(i + 1).drop_last() =~= rv.take(i as int));
            assert(rv.take(i + 1).last() == row_view(row@));
            if !row_passes(row, filter, args) {
                let copy = copy_row(row);
                let ghost before = rows_view(kept@);
                kept.push(copy);
                assert(rows_view(kept@) =~= before.push(row_view(copy@)));
            }
            i += 1;
        }
        assert(rv.take(self.rows@.len() as int) =~= rv);
        self.rows = kept;
    }

    /// Stamps the rows that pass the filter, and reads the listed columns of
    /// those rows.
    fn run_touch(&mut self, stamp: Stamp, filter: &Filter, args: &Vec<Value>, returning: &Vec<usize>, now: u64) -> (r: Vec<Vec<Value>>)
        requires
            old(self).wf(),
            old(self).spec_table().spec_key_len() <= stamp.column < old(self).spec_table().spec_width(),
            old(self).spec_table().spec_kind(stamp.column as int) == ValueKind::Time,
            filter@.wf(old(self).spec_table()),
            args@.len() == filter@.equals.len(),
            all_below(returning@, old(self).spec_table().spec_width()),
        ensures
            final(self).spec_table() == old(self).spec_table(),
            final(self)@ == touch(old(self)@, filter@, row_view(args@), stamp.column, now),
            rows_view(r@) == select(final(self)@, filter@, row_view(args@), returning@),
    {
        proof {
            self.lemma_widths();
        }
        let ghost rv = rows_view(self.rows@);
        let ghost av = row_view(args@);
        let ghost width = self.table.spec_width();
        let mut i: usize = 0;
        while i < self.rows.len()
            invariant
                i <= self.rows.len(),
                self.rows@.len() == rv.len(),
                self.table == old(self).table,
                width == self.table.spec_width(),
                av == row_view(args@),
                stamp.column < width,
                self.table.spec_key_len() <= stamp.column,
                self.table.spec_kind(stamp.column as int) == ValueKind::Time,
                table_ok(self.table, rv),
                filter@.wf(self.table),
                args@.len() == filter@.equals.len(),
                forall|k: int| 0 <= k < rv.len() ==> (#[trigger] rv[k]).len() == width,
                forall|k: int| 0 <= k < self.rows@.len() ==> (#[trigger] self.rows@[k])@.len() == width,
                forall|k: int| 0 <= k < i ==> row_view((#[trigger] self.rows@[k])@) == touch(rv, filter@, av, stamp.column, now)[k],
                forall|k: int| i <= k < rv.len() ==> row_view((#[trigger] self.rows@[k])@) == rv[k],
            decreases self.rows.len() - i,
        {
            if row_passes(&self.rows[i], filter, args) {
                let mut copy = copy_row(&self.rows[i]);
                assert(row_view(copy@).len() == copy@.len());
                copy.set(stamp.column, Value::Time(now));
                assert(row_view(copy@) =~= rv[i as int].update(stamp.column as int, ValueView::Time(now)));
                self.rows.set(i, copy);
            }
            i += 1;
        }
        assert(rows_view(self.rows@) =~= touch(rv, filter@, av, stamp.column, now));
        proof {
            crate::facts::lemma_touch_ok(self.table, rv, filter@, av, stamp.column, now);
        }
        self.run_select(filter, args, returning)
    }

    /// The position of the first row with the key of `probe`, or the number
    /// of rows if there is none or the table has no key.
    fn locate(&self, probe: &Vec<Value>) -> (r: usize)
        requires
            self.wf(),
            probe@.len() == self.spec_table().spec_width(),
        ensures
            r == collision(self.spec_table(), self@, row_view(probe@)),
    {
        proof {
            self.lemma_widths();
            self.table.lemma_schema();
        }
        let k: usize = self.table.key_len();
        if k == 0 {
            return self.rows.len();
        }
        let ghost rv = rows_view(self.rows@);
        let ghost pv = row_view(probe@);
        let mut j: usize = 0;
        while j < self.rows.len()
            invariant
                j <= self.rows.len(),
                rv == rows_view(self.rows@),
                pv == row_view(probe@),
                0 < k == self.table.spec_key_len(),
                k <= self.table.spec_width(),
                probe@.len() == self.table.spec_width(),
                forall|i: int|
                    0 <= i < self.rows@.len() ==> (#[trigger] self.rows@[i])@.len()
                        == self.table.spec_width(),
                forall|i: int| 0 <= i < j ==> !same_key(#[trigger] rv[i], pv, k as nat),
            decreases self.rows.len() - j,
        {
            assert(rv[j as int] == row_view(self.rows@[j as int]@));
            if keys_agree(&self.rows[j], probe, k) {
                proof {
                    lemma_find_is(rv, pv, k as nat, j as int);
                }
                return j;
            }
            j += 1;
        }
        proof {
            lemma_find_is(rv, pv, k as nat, rv.len() as int);
        }
        j
    }

    /// Inserts a row, or resolves the conflict with the row that has its
    /// key.
    #[verifier::loop_isolation(false)]
    fn run_insert(
        &mut self,
        columns: &Vec<usize>,
        stamp: Option<Stamp>,
        conflict: &Conflict,
        args: &Vec<Value>,
        now: u64,
    ) -> (r: Result<(), Error>)
        requires
            old(self).wf(),
            refusal(
                StatementView::Insert {
                    table: old(self).spec_table(),
                    columns: columns@,
                    stamp,
                    conflict: conflict@,
                },
                row_view(args@),
            ) is None,
        ensures
            final(self).spec_table() == old(self).spec_table(),
            final(self)@ == next(
                StatementView::Insert {
                    table: old(self).spec_table(),
                    columns: columns@,
                    stamp,
                    conflict: conflict@,
                },
                old(self)@,
                row_view(args@),
                now,
            ),
            (match r {
                Ok(_) => Ok(Seq::<Row>::empty()),
                Err(e) => Err(e),
            }) == output(
                StatementView::Insert {
                    table: old(self).spec_table(),
                    columns: columns@,
                    stamp,
                    conflict: conflict@,
                },
                old(self)@,
                row_view(args@),
                now,
            ),
    {
        let table = self.table;
        let ghost stmt = StatementView::Insert {
            table,
            columns: columns@,
            stamp,
            conflict: conflict@,
        };
        let ghost rv = rows_view(self.rows@);
        let ghost av = row_view(args@);
        let ghost blank = Seq::new(table.spec_width(), |c: int| ValueView::Null);
        let cols = table.columns();
        let width: usize = cols.len();
        proof {
            self.lemma_widths();
        }
        let mut row: Vec<Value> = Vec::new();
        let mut c: usize = 0;
        while c < width
            invariant
                c <= width,
                row.len() == c,
                forall|x: int| 0 <= x < c ==> (#[trigger] row@[x])@ is Null,
            decreases width - c,
        {
            row.push(Value::Null);
            c += 1;
        }
        assert(row_view(row@) =~= blank);
        let mut i: usize = 0;
        while i < columns.len()
            invariant
                i <= columns.len(),
                row.len() == width,
                width == table.spec_width(),
                av == row_view(args@),
                args@.len() == columns@.len(),
                all_below(columns@, width as nat),
                row_view(row@) == assign(blank, columns@, av, i as nat),
            decreases columns.len() - i,
        {
            assert(columns@[i as int] < width);
            let ghost before = row_view(row@);
            row.set(columns[i], args[i].clone());
            assert(row_view(row@) =~= before.update(columns@[i as int] as int, av[i as int]));
            i += 1;
        }
        match stamp {
            Some(s) => {
                let ghost before = row_view(row@);
                row.set(s.column, Value::Time(now));
                assert(row_view(row@) =~= before.update(s.column as int, ValueView::Time(now)));
            },
            None => {},
        }
        let ghost cand = candidate(table, columns@, stamp, av, now);
        assert(row_view(row@) == cand);
        let mut c: usize = 0;
        while c < width
            invariant
                c <= width,
                row.len() == width,
                cols@ == table.spec_columns(),
                width == table.spec_width(),
                cand == row_view(row@),
                forall|x: int|
                    0 <= x < c ==> !((#[trigger] cand[x]) is Null && !table.spec_nullable(x)),
            decreases width - c,
        {
            if row[c].is_null() && !cols[c].nullable {
                assert(cand[c as int] is Null && !table.spec_nullable(c as int));
                assert(lacks_value(table, cand));
                return Err(Error::NotNull);
            }
            c += 1;
        }
        assert(!lacks_value(table, cand));
        let at: usize = self.locate(&row);
        if at == self.rows.len() {
            self.rows.push(row);
            assert(rows_view(self.rows@) =~= rv.push(cand));
            return Ok(());
        }
        match conflict {
            Conflict::Abort => Err(Error::Duplicate),
            Conflict::Ignore => Ok(()),
            Conflict::Update(params) => {
                let mut fresh = copy_row(&self.rows[at]);
                let ghost old_row = rv[at as int];
                assert(row_view(fresh@).len() == fresh@.len());
                let mut k: usize = 0;
                while k < params.len()
                    invariant
                        k <= params.len(),
                        fresh.len() == width,
                        width == table.spec_width(),
                        av == row_view(args@),
                        args@.len() == columns@.len(),
                        all_below(columns@, width as nat),
                        all_below(params@, columns@.len()),
                        row_view(fresh@) == rewrite(old_row, columns@, av, params@, k as nat),
                    decreases params.len() - k,
                {
                    let p: usize = params[k];
                    assert(params@[k as int] < columns@.len());
                    assert(columns@[p as int] < width);
                    let ghost before = row_view(fresh@);
                    fresh.set(columns[p], args[p].clone());
                    assert(row_view(fresh@) =~= before.update(
                        columns@[p as int] as int,
                        av[p as int],
                    ));
                    k += 1;
                }
                let ghost new_row = row_view(fresh@);
                self.rows.set(at, fresh);
                assert(rows_view(self.rows@) =~= rv.update(at as int, new_row));
                Ok(())
            },
        }
    }

    /// Deletes the lowest-ranking row until no more than `keep` rows remain.
    fn run_trim(&mut self, by: usize, keep: usize)
        requires
            old(self).wf(),
            by < old(self).spec_table().spec_width(),
        ensures
            final(self).spec_table() == old(self).spec_table(),
            final(self)@ == trim(old(self)@, by, keep),
    {
        let ghost start = rows_view(self.rows@);
        while self.rows.len() > keep
            invariant
                self.table == old(self).table,
                by < self.table.spec_width(),
                table_ok(self.table, rows_view(self.rows@)),
                trim(rows_view(self.rows@), by, keep) == trim(start, by, keep),
            decreases self.rows.len(),
        {
            let ghost rv = rows_view(self.rows@);
            proof {
                self.lemma_widths();
            }
            let mut best: usize = 0;
            let mut i: usize = 1;
            assert(rv.take(1).drop_last() =~= rv.take(0));
            while i < self.rows.len()
                invariant
                    1 <= i <= self.rows.len(),
                    best < i,
                    rv == rows_view(self.rows@),
                    by < self.table.spec_width(),
                    forall|x: int|
                        0 <= x < self.rows@.len() ==> (#[trigger] self.rows@[x])@.len()
                            == self.table.spec_width(),
                    best == oldest(rv.take(i as int), by),
                decreases self.rows.len() - i,
            {
                assert(rv.take(i + 1).drop_last() =~= rv.take(i as int));
                assert(rv.take(i + 1).last() == rv[i as int]);
                assert(rv.take(i + 1)[best as int] == rv[best as int]);
                if rank(&self.rows[i][by]) < rank(&self.rows[best][by]) {
                    best = i;
                }
                i += 1;
            }
            assert(rv.take(self.rows@.len() as int) =~= rv);
            self.rows.remove(best);
            assert(rows_view(self.rows@) =~= rv.remove(best as int));
            proof {
                crate::facts::lemma_remove_ok(self.table, rv, best as int);
            }
        }
    }

    /// Runs a statement on the table.
    ///
    /// The table that results and what is reported are those of
    /// [`next`] and [`output`]. A refused statement leaves the table as it
    /// was. A statement for another table is refused with
    /// `Error::NoSuchTable`.
    pub fn execute(&mut self, stmt: &Statement, args: &Vec<Value>, now: u64) -> (r: Result<
        Vec<Vec<Value>>,
        Error,
    >)
        requires
            old(self).wf(),
        ensures
            final(self).wf(),
            final(self).spec_table() == old(self).spec_table(),
            stmt@.table() == old(self).spec_table() ==> final(self)@ == next(
                stmt@,
                old(self)@,
                row_view(args@),
                now,
            ) && outcome_view(r) == output(stmt@, old(self)@, row_view(args@), now),
            stmt@.table() != old(self).spec_table() ==> final(self)@ == old(self)@ && r == Err::<
                Vec<Vec<Value>>,
                Error,
            >(Error::NoSuchTable),
    {
        if stmt.table() != self.table {
            return Err(Error::NoSuchTable);
        }
        proof {
            crate::facts::lemma_next_ok(stmt@, self@, row_view(args@), now);
        }
        if !stmt.is_well_formed() {
            return Err(Error::Malformed);
        }
        if args.len() != stmt.arity() {
            return Err(Error::ParameterCount);
        }
        if !kinds_agree(stmt, args) {
            return Err(Error::ParameterKind);
        }
        assert(refusal(stmt@, row_view(args@)) is None);
        match stmt {
            Statement::Insert { table, columns, stamp, conflict } => {
                match self.run_insert(columns, *stamp, conflict, args, now) {
                    Ok(_) => {
                        let out: Vec<Vec<Value>> = Vec::new();
                        assert(rows_view(out@) =~= Seq::<Row>::empty());
                        Ok(out)
                    },
                    Err(e) => Err(e),
                }
            },
            Statement::Select { table, columns, filter } => Ok(
                self.run_select(filter, args, columns),
            ),
            Statement::Delete { table, filter } => {
                self.run_delete(filter, args);
                let out: Vec<Vec<Value>> = Vec::new();
                assert(rows_view(out@) =~= Seq::<Row>::empty());
                Ok(out)
            },
            Statement::Touch { table, stamp, filter, returning } => Ok(
                self.run_touch(*stamp, filter, args, returning, now),
            ),
            Statement::Trim { table, by, keep } => {
                self.run_trim(*by, *keep);
                let out: Vec<Vec<Value>> = Vec::new();
                assert(rows_view(out@) =~= Seq::<Row>::empty());
                Ok(out)
            },
        }
    }
}

/// Where a value stands on the clock; below every timestamp if it is none.
fn rank(v: &Value) -> (r: i128)
    ensures
        r == v@.stamp(),
{
    match v {
        Value::Time(t) => *t as i128,
        _ => -1,
    }
}

/// Whether the parameters are of the kinds that the statement takes.
fn kinds_agree(stmt: &Statement, args: &Vec<Value>) -> (r: bool)
    requires
        stmt@.wf(),
        args@.len() == stmt@.arity(),
    ensures
        r == kinds_fit(stmt@, row_view(args@)),
{
    let cols = stmt.table().columns();
    let ghost av = row_view(args@);
    match stmt {
        Statement::Insert { columns, .. } => kinds_agree_with(&cols, columns, args, Ghost(stmt@)),
        Statement::Select { filter, .. } => kinds_agree_with(&cols, &filter.equals, args, Ghost(stmt@)),
        Statement::Delete { filter, .. } => kinds_agree_with(&cols, &filter.equals, args, Ghost(stmt@)),
        Statement::Touch { filter, .. } => kinds_agree_with(&cols, &filter.equals, args, Ghost(stmt@)),
        Statement::Trim { .. } => true,
    }
}

/// Whether parameter `i` is of the kind of column `targets[i]`, for each
/// `i`.
fn kinds_agree_with(
    cols: &Vec<Column>,
    targets: &Vec<usize>,
    args: &Vec<Value>,
    Ghost(stmt): Ghost<StatementView>,
) -> (r: bool)
    requires
        cols@ == stmt.table().spec_columns(),
        targets@ == stmt.targets(),
        all_below(targets@, cols@.len()),
        args@.len() == targets@.len(),
    ensures
        r == kinds_fit(stmt, row_view(args@)),
{
    let ghost av = row_view(args@);
    let mut i: usize = 0;
    while i < args.len()
        invariant
            i <= args.len(),
            av == row_view(args@),
            cols@ == stmt.table().spec_columns(),
            targets@ == stmt.targets(),
            all_below(targets@, cols@.len()),
            args@.len() == targets@.len(),
            forall|x: int| 0 <= x < i ==> (#[trigger] av[x]).fits(stmt.param_kind(x)),
        decreases args.len() - i,
    {
        assert(targets@[i as int] < cols@.len());
        if !args[i].fits(cols[targets[i]].kind) {
            assert(!av[i as int].fits(stmt.param_kind(i as int)));
            return false;
        }
        i += 1;
    }
    true
}

} // verus!
