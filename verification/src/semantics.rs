//! What a statement does to a table.
//!
//! A table is a sequence of rows, in the order in which they were inserted;
//! a row is a sequence of values, one for each column. The functions here
//! say, for every statement, every table and every list of parameters, which
//! table results and what the statement reports. They are the meaning that
//! the store relies on when it hands the statement's SQL text to a database,
//! and the contract of the engine in [`crate::table`].
//!
//! Two things are settled here that SQL leaves open. Results come in table
//! order. Where rows tie on the column that a trim ranks by, the row that
//! stands first in the table is deleted first. The laws in [`crate::laws`]
//! that speak of trimming hold however ties are broken.

use vstd::prelude::*;
use crate::schema::Table;
use crate::statement::{ConflictView, FilterView, Guard, Stamp, StatementView};
use crate::value::ValueView;

verus! {

/// Why a statement was refused. A refused statement leaves the table as it
/// was.
#[derive(Clone, Copy, Debug, PartialEq, Eq, Structural)]
pub enum Error {
    /// The statement does not make sense for its table.
    Malformed,
    /// The number of parameters is not the number that the statement takes.
    ParameterCount,
    /// A parameter is of another kind than the column it stands for.
    ParameterKind,
    /// The new row would hold `NULL` in a column that may not.
    NotNull,
    /// The table already holds a row with the new row's key, and the
    /// statement does not say what to do then.
    Duplicate,
    /// The statement's table is not there: it has not been created, or the
    /// statement was given to another table.
    NoSuchTable,
}

/// A row, as a sequence of values.
pub type Row = Seq<ValueView>;

/// Whether `v` may stand in column `c` of `table`.
pub open spec fn cell_fits(table: Table, c: int, v: ValueView) -> bool {
    &&& v.fits(table.spec_kind(c))
    &&& v is Null ==> table.spec_nullable(c)
}

/// Whether `row` is a row of `table`: it has a value of the right kind for
/// each column, and `NULL` only where the column allows it.
pub open spec fn row_fits(table: Table, row: Row) -> bool {
    &&& row.len() == table.spec_width()
    &&& forall|c: int| 0 <= c < row.len() ==> cell_fits(table, c, #[trigger] row[c])
}

/// Whether two rows agree on their first `k` columns.
pub open spec fn same_key(a: Row, b: Row, k: nat) -> bool {
    forall|c: int| 0 <= c < k ==> a[c] == b[c]
}

/// Whether `rows` is a state of `table`: every row is a row of the table,
/// and no two rows have the same key.
pub open spec fn table_ok(table: Table, rows: Seq<Row>) -> bool {
    &&& forall|i: int| 0 <= i < rows.len() ==> row_fits(table, #[trigger] rows[i])
    &&& table.spec_key_len() > 0 ==> forall|i: int, j: int|
        0 <= i < j < rows.len() ==> !same_key(
            #[trigger] rows[i],
            #[trigger] rows[j],
            table.spec_key_len(),
        )
}

/// Whether the parameters are of the kinds that the statement takes.
pub open spec fn kinds_fit(stmt: StatementView, args: Row) -> bool {
    forall|i: int| 0 <= i < args.len() ==> (#[trigger] args[i]).fits(stmt.param_kind(i))
}

/// Why the statement is refused before it looks at the table, if it is.
pub open spec fn refusal(stmt: StatementView, args: Row) -> Option<Error> {
    if !stmt.wf() {
        Some(Error::Malformed)
    } else if args.len() != stmt.arity() {
        Some(Error::ParameterCount)
    } else if !kinds_fit(stmt, args) {
        Some(Error::ParameterKind)
    } else {
        None
    }
}

/// Whether column `equals[i]` of the row holds parameter `i`. `NULL` equals
/// nothing, not even `NULL`.
pub open spec fn equal_at(row: Row, equals: Seq<usize>, args: Row, i: int) -> bool {
    &&& !(args[i] is Null)
    &&& row[equals[i] as int] == args[i]
}

/// Whether the row passes the guard.
pub open spec fn guard_holds(row: Row, guard: Guard) -> bool {
    match guard {
        Guard::NotNull(c) => !(row[c as int] is Null),
        Guard::IsFalse(c) => row[c as int] == ValueView::Bool(false),
    }
}

/// Whether the row passes the filter.
pub open spec fn passes(row: Row, filter: FilterView, args: Row) -> bool {
    &&& forall|i: int|
        0 <= i < filter.equals.len() ==> #[trigger] equal_at(row, filter.equals, args, i)
    &&& forall|j: int|
        0 <= j < filter.guards.len() ==> guard_holds(row, #[trigger] filter.guards[j])
}

/// The listed columns of the row.
pub open spec fn project(row: Row, columns: Seq<usize>) -> Row {
    Seq::new(columns.len(), |i: int| row[columns[i] as int])
}

/// The listed columns of the rows that pass the filter, in table order.
pub open spec fn select(rows: Seq<Row>, filter: FilterView, args: Row, columns: Seq<usize>) -> Seq<
    Row,
>
    decreases rows.len(),
{
    if rows.len() == 0 {
        Seq::empty()
    } else {
        let rest = select(rows.drop_last(), filter, args, columns);
        if passes(rows.last(), filter, args) {
            rest.push(project(rows.last(), columns))
        } else {
            rest
        }
    }
}

/// The rows that do not pass the filter, in table order.
pub open spec fn delete(rows: Seq<Row>, filter: FilterView, args: Row) -> Seq<Row>
    decreases rows.len(),
{
    if rows.len() == 0 {
        Seq::empty()
    } else {
        let rest = delete(rows.drop_last(), filter, args);
        if passes(rows.last(), filter, args) {
            rest
        } else {
            rest.push(rows.last())
        }
    }
}

/// The rows, with the stamp column of those that pass the filter set to
/// `now`.
pub open spec fn touch(rows: Seq<Row>, filter: FilterView, args: Row, column: usize, now: u64) -> Seq<
    Row,
> {
    Seq::new(
        rows.len(),
        |i: int|
            if passes(rows[i], filter, args) {
                rows[i].update(column as int, ValueView::Time(now))
            } else {
                rows[i]
            },
    )
}

/// The row, with parameter `i` written to column `columns[i]` for each `i`
/// below `n`.
pub open spec fn assign(row: Row, columns: Seq<usize>, args: Row, n: nat) -> Row
    decreases n,
{
    if n == 0 {
        row
    } else {
        assign(row, columns, args, (n - 1) as nat).update(
            columns[n - 1] as int,
            args[n - 1],
        )
    }
}

/// The row, with parameter `params[k]` written to the column it belongs to,
/// for each `k` below `n`.
pub open spec fn rewrite(row: Row, columns: Seq<usize>, args: Row, params: Seq<usize>, n: nat) -> Row
    decreases n,
{
    if n == 0 {
        row
    } else {
        let p = params[n - 1] as int;
        rewrite(row, columns, args, params, (n - 1) as nat).update(columns[p] as int, args[p])
    }
}

/// The row that an insert proposes: the parameters in their columns, the
/// current time in the stamp column, `NULL` everywhere else.
pub open spec fn candidate(
    table: Table,
    columns: Seq<usize>,
    stamp: Option<Stamp>,
    args: Row,
    now: u64,
) -> Row {
    let blank = Seq::new(table.spec_width(), |c: int| ValueView::Null);
    let filled = assign(blank, columns, args, columns.len());
    match stamp {
        Some(s) => filled.update(s.column as int, ValueView::Time(now)),
        None => filled,
    }
}

/// Whether the row holds `NULL` in a column of `table` that may not.
pub open spec fn lacks_value(table: Table, row: Row) -> bool {
    exists|c: int| 0 <= c < row.len() && (#[trigger] row[c]) is Null && !table.spec_nullable(c)
}

/// The position of the first row with the key of `probe`, or the number of
/// rows if there is none.
pub open spec fn find(rows: Seq<Row>, probe: Row, k: nat) -> int
    decreases rows.len(),
{
    if rows.len() == 0 {
        0
    } else {
        let before = find(rows.drop_last(), probe, k);
        if before < rows.len() - 1 {
            before
        } else if same_key(rows.last(), probe, k) {
            rows.len() - 1
        } else {
            rows.len() as int
        }
    }
}

/// Where an insert finds the row that its candidate collides with; the
/// number of rows if it collides with none. Rows of a table without a key
/// never collide.
pub open spec fn collision(table: Table, rows: Seq<Row>, probe: Row) -> int {
    if table.spec_key_len() == 0 {
        rows.len() as int
    } else {
        find(rows, probe, table.spec_key_len())
    }
}

/// The position of the row that ranks lowest by column `by`; of those that
/// tie, the first.
pub open spec fn oldest(rows: Seq<Row>, by: usize) -> int
    decreases rows.len(),
{
    if rows.len() <= 1 {
        0
    } else {
        let o = oldest(rows.drop_last(), by);
        if rows.last()[by as int].stamp() < rows[o][by as int].stamp() {
            rows.len() - 1
        } else {
            o
        }
    }
}

/// The rows that are left when the lowest-ranking row is deleted until no
/// more than `keep` rows remain.
pub open spec fn trim(rows: Seq<Row>, by: usize, keep: usize) -> Seq<Row>
    decreases rows.len(),
{
    if rows.len() <= keep {
        rows
    } else {
        proof {
            lemma_oldest(rows, by);
        }
        trim(rows.remove(oldest(rows, by)), by, keep)
    }
}

/// What `oldest` returns: a position in the table at which no row ranks
/// lower, and before which every row ranks higher.
pub proof fn lemma_oldest(rows: Seq<Row>, by: usize)
    requires
        rows.len() > 0,
    ensures
        0 <= oldest(rows, by) < rows.len(),
        forall|i: int|
            0 <= i < rows.len() ==> rows[oldest(rows, by)][by as int].stamp() <= (
            #[trigger] rows[i])[by as int].stamp(),
        forall|i: int|
            0 <= i < oldest(rows, by) ==> rows[oldest(rows, by)][by as int].stamp() < (
            #[trigger] rows[i])[by as int].stamp(),
    decreases rows.len(),
{
    if rows.len() > 1 {
        let front = rows.drop_last();
        lemma_oldest(front, by);
        let o = oldest(front, by);
        assert(rows[o] == front[o]);
        assert forall|i: int| 0 <= i < rows.len() implies rows[oldest(rows, by)][by as int].stamp()
            <= (#[trigger] rows[i])[by as int].stamp() by {
            if i < rows.len() - 1 {
                assert(rows[i] == front[i]);
            }
        }
        assert forall|i: int| 0 <= i < oldest(rows, by) implies rows[oldest(
            rows,
            by,
        )][by as int].stamp() < (#[trigger] rows[i])[by as int].stamp() by {
            if i < rows.len() - 1 {
                assert(rows[i] == front[i]);
            }
        }
    }
}

/// What the statement reports: the result rows, or why it was refused.
pub open spec fn output(stmt: StatementView, rows: Seq<Row>, args: Row, now: u64) -> Result<
    Seq<Row>,
    Error,
> {
    match refusal(stmt, args) {
        Some(e) => Err(e),
        None => match stmt {
            StatementView::Insert { table, columns, stamp, conflict } => {
                let row = candidate(table, columns, stamp, args, now);
                if lacks_value(table, row) {
                    Err(Error::NotNull)
                } else if conflict is Abort && collision(table, rows, row) < rows.len() {
                    Err(Error::Duplicate)
                } else {
                    Ok(Seq::empty())
                }
            },
            StatementView::Select { columns, filter, .. } => Ok(
                select(rows, filter, args, columns),
            ),
            StatementView::Delete { .. } => Ok(Seq::empty()),
            StatementView::Touch { stamp, filter, returning, .. } => Ok(
                select(touch(rows, filter, args, stamp.column, now), filter, args, returning),
            ),
            StatementView::Trim { .. } => Ok(Seq::empty()),
        },
    }
}

/// The table that the statement leaves.
pub open spec fn next(stmt: StatementView, rows: Seq<Row>, args: Row, now: u64) -> Seq<Row> {
    if output(stmt, rows, args, now) is Err {
        rows
    } else {
        match stmt {
            StatementView::Insert { table, columns, stamp, conflict } => {
                let row = candidate(table, columns, stamp, args, now);
                let at = collision(table, rows, row);
                if at == rows.len() {
                    rows.push(row)
                } else {
                    match conflict {
                        ConflictView::Update(params) => rows.update(
                            at,
                            rewrite(rows[at], columns, args, params, params.len()),
                        ),
                        _ => rows,
                    }
                }
            },
            StatementView::Select { .. } => rows,
            StatementView::Delete { filter, .. } => delete(rows, filter, args),
            StatementView::Touch { stamp, filter, .. } => touch(
                rows,
                filter,
                args,
                stamp.column,
                now,
            ),
            StatementView::Trim { by, keep, .. } => trim(rows, by, keep),
        }
    }
}

} // verus!
