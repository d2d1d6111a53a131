//! Facts about the meaning of statements that the engine and the laws
//! build on: what the pieces of [`crate::semantics`] compute, and that every
//! statement leaves a table in a state of that table.

use vstd::prelude::*;
use crate::schema::Table;
use crate::semantics::{
    assign, candidate, cell_fits, collision, delete, find, kinds_fit, lacks_value, lemma_oldest,
    next, oldest, output, passes, project, refusal, rewrite, row_fits, same_key, select,
    table_ok, touch, trim, Row,
};
use crate::statement::{all_below, Clock, ConflictView, FilterView, Stamp, StatementView};
use crate::value::{ValueKind, ValueView};

verus! {

/// What `find` returns: a position at which the key is that of `probe`,
/// with no such position before it; or the number of rows, and there is no
/// such position.
pub proof fn lemma_find(rows: Seq<Row>, probe: Row, k: nat)
    ensures
        0 <= find(rows, probe, k) <= rows.len(),
        find(rows, probe, k) < rows.len() ==> same_key(rows[find(rows, probe, k)], probe, k),
        forall|i: int| 0 <= i < find(rows, probe, k) ==> !same_key(#[trigger] rows[i], probe, k),
    decreases rows.len(),
{
    if rows.len() > 0 {
        lemma_find(rows.drop_last(), probe, k);
        let before = find(rows.drop_last(), probe, k);
        assert forall|i: int| 0 <= i < find(rows, probe, k) implies !same_key(
            #[trigger] rows[i],
            probe,
            k,
        ) by {
            if i < rows.len() - 1 {
                assert(rows[i] == rows.drop_last()[i]);
            }
        }
        if before < rows.len() - 1 {
            assert(rows[before] == rows.drop_last()[before]);
        }
    }
}

/// A position whose key is that of `probe`, with no such position before
/// it, is what `find` returns.
pub proof fn lemma_find_is(rows: Seq<Row>, probe: Row, k: nat, at: int)
    requires
        0 <= at <= rows.len(),
        at < rows.len() ==> same_key(rows[at], probe, k),
        forall|i: int| 0 <= i < at ==> !same_key(#[trigger] rows[i], probe, k),
    ensures
        find(rows, probe, k) == at,
{
    lemma_find(rows, probe, k);
    let f = find(rows, probe, k);
    if f < at {
        assert(!same_key(rows[f], probe, k));
    }
}

/// Each cell of an assigned row is the cell it had, or the parameter that
/// belongs to its column.
pub proof fn lemma_assign(row: Row, columns: Seq<usize>, args: Row, n: nat)
    requires
        n <= columns.len(),
        all_below(columns, row.len()),
    ensures
        assign(row, columns, args, n).len() == row.len(),
        forall|c: int|
            0 <= c < row.len() ==> {
                let v = #[trigger] assign(row, columns, args, n)[c];
                ||| v == row[c] && forall|i: int| 0 <= i < n ==> columns[i] != c
                ||| exists|i: int| 0 <= i < n && columns[i] == c && v == args[i]
            },
    decreases n,
{
    if n > 0 {
        let m = (n - 1) as nat;
        lemma_assign(row, columns, args, m);
        let prev = assign(row, columns, args, m);
        let cur = assign(row, columns, args, n);
        assert(columns[n - 1] < row.len());
        assert forall|c: int| 0 <= c < row.len() implies {
            let v = #[trigger] cur[c];
            ||| v == row[c] && forall|i: int| 0 <= i < n ==> columns[i] != c
            ||| exists|i: int| 0 <= i < n && columns[i] == c && v == args[i]
        } by {
            if c == columns[n - 1] {
                assert(columns[n - 1] == c && cur[c] == args[n - 1]);
            } else {
                assert(cur[c] == prev[c]);
                if prev[c] == row[c] && forall|i: int| 0 <= i < m ==> columns[i] != c {
                    assert forall|i: int| 0 <= i < n implies columns[i] != c by {}
                } else {
                    let i = choose|i: int| 0 <= i < m && columns[i] == c && prev[c] == args[i];
                    assert(0 <= i < n && columns[i] == c && cur[c] == args[i]);
                }
            }
        }
    }
}

/// With no column named twice, an assigned row holds each parameter in its
/// column.
pub proof fn lemma_assign_holds(row: Row, columns: Seq<usize>, args: Row, n: nat, i: int)
    requires
        n <= columns.len(),
        all_below(columns, row.len()),
        forall|a: int, b: int| 0 <= a < b < columns.len() ==> columns[a] != columns[b],
        0 <= i < n,
    ensures
        assign(row, columns, args, n)[columns[i] as int] == args[i],
    decreases n,
{
    lemma_assign(row, columns, args, (n - 1) as nat);
    if i < n - 1 {
        lemma_assign_holds(row, columns, args, (n - 1) as nat, i);
        assert(columns[i] != columns[n - 1]);
    }
}

/// Each cell of a rewritten row is the cell it had, or a rewritten
/// parameter that belongs to its column.
pub proof fn lemma_rewrite(row: Row, columns: Seq<usize>, args: Row, params: Seq<usize>, n: nat)
    requires
        n <= params.len(),
        all_below(columns, row.len()),
        all_below(params, columns.len()),
    ensures
        rewrite(row, columns, args, params, n).len() == row.len(),
        forall|c: int|
            0 <= c < row.len() ==> {
                let v = #[trigger] rewrite(row, columns, args, params, n)[c];
                ||| v == row[c] && forall|k: int| 0 <= k < n ==> columns[params[k] as int] != c
                ||| exists|k: int|
                    0 <= k < n && columns[params[k] as int] == c && v == args[params[k] as int]
            },
    decreases n,
{
    if n > 0 {
        let m = (n - 1) as nat;
        lemma_rewrite(row, columns, args, params, m);
        let prev = rewrite(row, columns, args, params, m);
        let cur = rewrite(row, columns, args, params, n);
        let p = params[n - 1] as int;
        assert(params[n - 1] < columns.len());
        assert(columns[p] < row.len());
        assert forall|c: int| 0 <= c < row.len() implies {
            let v = #[trigger] cur[c];
            ||| v == row[c] && forall|k: int| 0 <= k < n ==> columns[params[k] as int] != c
            ||| exists|k: int|
                0 <= k < n && columns[params[k] as int] == c && v == args[params[k] as int]
        } by {
            if c == columns[p] {
                assert(columns[params[n - 1] as int] == c && cur[c] == args[params[n - 1] as int]);
            } else {
                assert(cur[c] == prev[c]);
                if prev[c] == row[c] && forall|k: int|
                    0 <= k < m ==> columns[params[k] as int] != c {
                    assert forall|k: int| 0 <= k < n implies columns[params[k] as int] != c by {}
                } else {
                    let k = choose|k: int|
                        0 <= k < m && columns[params[k] as int] == c && prev[c]
                            == args[params[k] as int];
                    assert(0 <= k < n && columns[params[k] as int] == c && cur[c]
                        == args[params[k] as int]);
                }
            }
        }
    }
}

/// Stamping rows of a table leaves a state of the table, as long as the
/// stamp goes to a timestamp column outside the key.
pub proof fn lemma_touch_ok(
    table: Table,
    rows: Seq<Row>,
    filter: FilterView,
    args: Row,
    column: usize,
    now: u64,
)
    requires
        table_ok(table, rows),
        table.spec_key_len() <= column < table.spec_width(),
        table.spec_kind(column as int) == ValueKind::Time,
    ensures
        table_ok(table, touch(rows, filter, args, column, now)),
{
    let after = touch(rows, filter, args, column, now);
    assert forall|i: int| 0 <= i < after.len() implies row_fits(table, #[trigger] after[i]) by {
        assert(row_fits(table, rows[i]));
    }
    if table.spec_key_len() > 0 {
        assert forall|i: int, j: int| 0 <= i < j < after.len() implies !same_key(
            #[trigger] after[i],
            #[trigger] after[j],
            table.spec_key_len(),
        ) by {
            assert(!same_key(rows[i], rows[j], table.spec_key_len()));
            assert(row_fits(table, rows[i]));
            assert(row_fits(table, rows[j]));
        }
    }
}

/// Deleting one row of a table leaves a state of the table.
pub proof fn lemma_remove_ok(table: Table, rows: Seq<Row>, at: int)
    requires
        table_ok(table, rows),
        0 <= at < rows.len(),
    ensures
        table_ok(table, rows.remove(at)),
{
    let after = rows.remove(at);
    assert forall|i: int| 0 <= i < after.len() implies row_fits(table, #[trigger] after[i]) by {
        if i < at {
            assert(after[i] == rows[i]);
        } else {
            assert(after[i] == rows[i + 1]);
        }
    }
    if table.spec_key_len() > 0 {
        assert forall|i: int, j: int| 0 <= i < j < after.len() implies !same_key(
            #[trigger] after[i],
            #[trigger] after[j],
            table.spec_key_len(),
        ) by {
            let a = if i < at { i } else { i + 1 };
            let b = if j < at { j } else { j + 1 };
            assert(after[i] == rows[a]);
            assert(after[j] == rows[b]);
            assert(!same_key(rows[a], rows[b], table.spec_key_len()));
        }
    }
}

/// Every row that a delete leaves is a row of the table it started from.
pub proof fn lemma_delete_within(rows: Seq<Row>, filter: FilterView, args: Row)
    ensures
        delete(rows, filter, args).len() <= rows.len(),
        forall|k: int|
            0 <= k < delete(rows, filter, args).len() ==> exists|i: int|
                0 <= i < rows.len() && rows[i] == #[trigger] delete(rows, filter, args)[k]
                    && !passes(rows[i], filter, args),
    decreases rows.len(),
{
    if rows.len() > 0 {
        let front = rows.drop_last();
        lemma_delete_within(front, filter, args);
        let rest = delete(front, filter, args);
        let after = delete(rows, filter, args);
        assert forall|k: int| 0 <= k < after.len() implies exists|i: int|
            0 <= i < rows.len() && rows[i] == #[trigger] after[k] && !passes(
                rows[i],
                filter,
                args,
            ) by {
            if k < rest.len() {
                assert(after[k] == rest[k]);
                let i = choose|i: int|
                    0 <= i < front.len() && front[i] == rest[k] && !passes(front[i], filter, args);
                assert(rows[i] == front[i]);
            } else {
                assert(after[k] == rows[rows.len() - 1]);
            }
        }
    }
}

/// A delete leaves a state of the table.
pub proof fn lemma_delete_ok(table: Table, rows: Seq<Row>, filter: FilterView, args: Row)
    requires
        table_ok(table, rows),
    ensures
        table_ok(table, delete(rows, filter, args)),
    decreases rows.len(),
{
    if rows.len() > 0 {
        let front = rows.drop_last();
        assert forall|i: int| 0 <= i < front.len() implies row_fits(table, #[trigger] front[i]) by {
            assert(front[i] == rows[i]);
        }
        if table.spec_key_len() > 0 {
            assert forall|i: int, j: int| 0 <= i < j < front.len() implies !same_key(
                #[trigger] front[i],
                #[trigger] front[j],
                table.spec_key_len(),
            ) by {
                assert(front[i] == rows[i] && front[j] == rows[j]);
            }
        }
        lemma_delete_ok(table, front, filter, args);
        lemma_delete_within(front, filter, args);
        let rest = delete(front, filter, args);
        let after = delete(rows, filter, args);
        if !passes(rows.last(), filter, args) {
            assert forall|i: int| 0 <= i < after.len() implies row_fits(
                table,
                #[trigger] after[i],
            ) by {
                if i < rest.len() {
                    assert(after[i] == rest[i]);
                } else {
                    assert(after[i] == rows[rows.len() - 1]);
                }
            }
            if table.spec_key_len() > 0 {
                assert forall|i: int, j: int| 0 <= i < j < after.len() implies !same_key(
                    #[trigger] after[i],
                    #[trigger] after[j],
                    table.spec_key_len(),
                ) by {
                    assert(after[i] == rest[i]);
                    if j < rest.len() {
                        assert(after[j] == rest[j]);
                    } else {
                        let a = choose|a: int| 0 <= a < front.len() && front[a] == rest[i];
                        assert(rows[a] == front[a]);
                        assert(after[j] == rows[rows.len() - 1]);
                        assert(!same_key(rows[a], rows[rows.len() - 1], table.spec_key_len()));
                    }
                }
            }
        }
    }
}

/// A trim leaves a state of the table.
pub proof fn lemma_trim_ok(table: Table, rows: Seq<Row>, by: usize, keep: usize)
    requires
        table_ok(table, rows),
    ensures
        table_ok(table, trim(rows, by, keep)),
    decreases rows.len(),
{
    if rows.len() > keep {
        lemma_oldest(rows, by);
        lemma_remove_ok(table, rows, oldest(rows, by));
        lemma_trim_ok(table, rows.remove(oldest(rows, by)), by, keep);
    }
}

/// What holds of the row that an accepted insert proposes: it is a row of
/// the table if it lacks no value, and it holds each parameter in its
/// column.
pub proof fn lemma_candidate(
    table: Table,
    columns: Seq<usize>,
    stamp: Option<Stamp>,
    conflict: ConflictView,
    args: Row,
    now: u64,
)
    requires
        refusal(StatementView::Insert { table, columns, stamp, conflict }, args) is None,
    ensures
        candidate(table, columns, stamp, args, now).len() == table.spec_width(),
        forall|i: int|
            0 <= i < columns.len() ==> candidate(table, columns, stamp, args, now)[(
            #[trigger] columns[i]) as int] == args[i],
        !lacks_value(table, candidate(table, columns, stamp, args, now)) ==> row_fits(
            table,
            candidate(table, columns, stamp, args, now),
        ),
        forall|c: int|
            0 <= c < table.spec_width() && (forall|i: int|
                0 <= i < columns.len() ==> columns[i] != c) && !(stamp matches Some(s)
                && s.column == c) ==> (#[trigger] candidate(
                table,
                columns,
                stamp,
                args,
                now,
            )[c]) is Null,
        stamp matches Some(s) ==> candidate(table, columns, stamp, args, now)[s.column as int]
            == ValueView::Time(now),
{
    let stmt = StatementView::Insert { table, columns, stamp, conflict };
    let blank = Seq::new(table.spec_width(), |c: int| ValueView::Null);
    let filled = assign(blank, columns, args, columns.len());
    let row = candidate(table, columns, stamp, args, now);
    assert(all_below(columns, blank.len()));
    lemma_assign(blank, columns, args, columns.len());
    assert forall|i: int| 0 <= i < columns.len() implies row[(#[trigger] columns[i]) as int]
        == args[i] by {
        lemma_assign_holds(blank, columns, args, columns.len(), i);
    }
    if !lacks_value(table, row) {
        assert forall|c: int| 0 <= c < row.len() implies cell_fits(table, c, #[trigger] row[c]) by {
            if stamp is Some && stamp->0.column == c {
            } else {
                assert(row[c] == filled[c]);
                if exists|i: int| 0 <= i < columns.len() && columns[i] == c && filled[c] == args[i] {
                    let i = choose|i: int|
                        0 <= i < columns.len() && columns[i] == c && filled[c] == args[i];
                    assert(args[i].fits(stmt.param_kind(i)));
                }
            }
        }
    }
}

/// An insert leaves a state of the table.
pub proof fn lemma_insert_ok(
    table: Table,
    columns: Seq<usize>,
    stamp: Option<Stamp>,
    conflict: ConflictView,
    rows: Seq<Row>,
    args: Row,
    now: u64,
)
    requires
        table_ok(table, rows),
    ensures
        table_ok(
            table,
            next(StatementView::Insert { table, columns, stamp, conflict }, rows, args, now),
        ),
{
    let stmt = StatementView::Insert { table, columns, stamp, conflict };
    let after = next(stmt, rows, args, now);
    if output(stmt, rows, args, now) is Ok {
        let k = table.spec_key_len();
        let row = candidate(table, columns, stamp, args, now);
        let at = collision(table, rows, row);
        lemma_candidate(table, columns, stamp, conflict, args, now);
        table.lemma_schema();
        if k > 0 {
            lemma_find(rows, row, k);
        }
        if at == rows.len() {
            assert forall|i: int| 0 <= i < after.len() implies row_fits(
                table,
                #[trigger] after[i],
            ) by {
                if i < rows.len() {
                    assert(after[i] == rows[i]);
                }
            }
            if k > 0 {
                assert forall|i: int, j: int| 0 <= i < j < after.len() implies !same_key(
                    #[trigger] after[i],
                    #[trigger] after[j],
                    k,
                ) by {
                    assert(after[i] == rows[i]);
                    if j < rows.len() {
                        assert(after[j] == rows[j]);
                    } else {
                        assert(!same_key(rows[i], row, k));
                    }
                }
            }
        } else if conflict is Update {
            let params = conflict->Update_0;
            let old_row = rows[at];
            let new_row = rewrite(old_row, columns, args, params, params.len());
            assert(row_fits(table, old_row));
            assert(all_below(columns, old_row.len()));
            assert(all_below(params, columns.len()));
            lemma_rewrite(old_row, columns, args, params, params.len());
            assert forall|c: int| 0 <= c < new_row.len() implies cell_fits(
                table,
                c,
                #[trigger] new_row[c],
            ) && (c < k ==> new_row[c] == old_row[c]) by {
                if exists|x: int|
                    0 <= x < params.len() && columns[params[x] as int] == c && new_row[c]
                        == args[params[x] as int] {
                    let x = choose|x: int|
                        0 <= x < params.len() && columns[params[x] as int] == c && new_row[c]
                            == args[params[x] as int];
                    let p = params[x] as int;
                    assert(0 <= p < columns.len());
                    assert(row[columns[p] as int] == args[p]);
                    assert(args[p].fits(stmt.param_kind(p)));
                    if args[p] is Null {
                        assert(row[c] is Null);
                    }
                } else {
                    assert(new_row[c] == old_row[c]);
                    assert(cell_fits(table, c, old_row[c]));
                }
            }
            assert(row_fits(table, new_row));
            assert forall|i: int| 0 <= i < after.len() implies row_fits(
                table,
                #[trigger] after[i],
            ) by {
                if i != at {
                    assert(after[i] == rows[i]);
                }
            }
            assert forall|i: int, j: int| 0 <= i < j < after.len() implies !same_key(
                #[trigger] after[i],
                #[trigger] after[j],
                k,
            ) by {
                assert(!same_key(rows[i], rows[j], k));
                assert(row_fits(table, rows[i]) && row_fits(table, rows[j]));
            }
        }
    }
}

/// Whatever the statement and its parameters, a state of the statement's
/// table is followed by a state of that table: every row fits the table,
/// and no two rows have the same key.
pub proof fn lemma_next_ok(stmt: StatementView, rows: Seq<Row>, args: Row, now: u64)
    requires
        table_ok(stmt.table(), rows),
    ensures
        table_ok(stmt.table(), next(stmt, rows, args, now)),
{
    if output(stmt, rows, args, now) is Ok {
        match stmt {
            StatementView::Insert { table, columns, stamp, conflict } => {
                lemma_insert_ok(table, columns, stamp, conflict, rows, args, now);
            },
            StatementView::Select { .. } => {},
            StatementView::Delete { table, filter } => {
                lemma_delete_ok(table, rows, filter, args);
            },
            StatementView::Touch { table, stamp, filter, .. } => {
                lemma_touch_ok(table, rows, filter, args, stamp.column, now);
            },
            StatementView::Trim { table, by, keep } => {
                lemma_trim_ok(table, rows, by, keep);
            },
        }
    }
}

/// What a statement does and reports does not depend on how it spells the
/// current time.
pub proof fn lemma_clock(
    stmt: StatementView,
    clock: Clock,
    rows: Seq<Row>,
    args: Row,
    now: u64,
)
    ensures
        stmt.with_clock(clock).table() == stmt.table(),
        stmt.with_clock(clock).wf() == stmt.wf(),
        refusal(stmt.with_clock(clock), args) == refusal(stmt, args),
        output(stmt.with_clock(clock), rows, args, now) == output(stmt, rows, args, now),
        next(stmt.with_clock(clock), rows, args, now) == next(stmt, rows, args, now),
{
    let other = stmt.with_clock(clock);
    assert(other.targets() == stmt.targets());
    assert(kinds_fit(other, args) == kinds_fit(stmt, args)) by {
        if kinds_fit(stmt, args) {
            assert forall|i: int| 0 <= i < args.len() implies (#[trigger] args[i]).fits(
                other.param_kind(i),
            ) by {
                assert(args[i].fits(stmt.param_kind(i)));
            }
        }
        if kinds_fit(other, args) {
            assert forall|i: int| 0 <= i < args.len() implies (#[trigger] args[i]).fits(
                stmt.param_kind(i),
            ) by {
                assert(args[i].fits(other.param_kind(i)));
            }
        }
    }
}

/// Whether some row of the table passes the filter and holds `shown` in
/// the listed columns.
pub open spec fn shows(rows: Seq<Row>, filter: FilterView, args: Row, columns: Seq<usize>, shown: Row) -> bool {
    exists|i: int|
        0 <= i < rows.len() && passes(#[trigger] rows[i], filter, args) && shown == project(
            rows[i],
            columns,
        )
}

/// Every result row of a select shows the listed columns of a row of the
/// table that passes the filter.
pub proof fn lemma_select_within(rows: Seq<Row>, filter: FilterView, args: Row, columns: Seq<usize>)
    ensures
        select(rows, filter, args, columns).len() <= rows.len(),
        forall|k: int|
            0 <= k < select(rows, filter, args, columns).len() ==> shows(
                rows,
                filter,
                args,
                columns,
                #[trigger] select(rows, filter, args, columns)[k],
            ),
    decreases rows.len(),
{
    if rows.len() > 0 {
        let front = rows.drop_last();
        lemma_select_within(front, filter, args, columns);
        let rest = select(front, filter, args, columns);
        let all = select(rows, filter, args, columns);
        assert forall|k: int| 0 <= k < all.len() implies shows(
            rows,
            filter,
            args,
            columns,
            #[trigger] all[k],
        ) by {
            if k < rest.len() {
                assert(all[k] == rest[k]);
                assert(shows(front, filter, args, columns, rest[k]));
                let i = choose|i: int|
                    0 <= i < front.len() && passes(#[trigger] front[i], filter, args) && rest[k]
                        == project(front[i], columns);
                assert(rows[i] == front[i]);
            } else {
                assert(passes(rows[rows.len() - 1], filter, args));
            }
        }
    }
}

/// A select on a table of which no row passes the filter reads nothing.
pub proof fn lemma_select_none(rows: Seq<Row>, filter: FilterView, args: Row, columns: Seq<usize>)
    requires
        forall|i: int| 0 <= i < rows.len() ==> !passes(#[trigger] rows[i], filter, args),
    ensures
        select(rows, filter, args, columns) == Seq::<Row>::empty(),
    decreases rows.len(),
{
    if rows.len() > 0 {
        let front = rows.drop_last();
        assert forall|i: int| 0 <= i < front.len() implies !passes(
            #[trigger] front[i],
            filter,
            args,
        ) by {
            assert(front[i] == rows[i]);
        }
        lemma_select_none(front, filter, args, columns);
        assert(rows.last() == rows[rows.len() - 1]);
    }
}

/// A select on a table of which exactly one row passes the filter reads
/// that row.
pub proof fn lemma_select_one(
    rows: Seq<Row>,
    filter: FilterView,
    args: Row,
    columns: Seq<usize>,
    at: int,
)
    requires
        0 <= at < rows.len(),
        passes(rows[at], filter, args),
        forall|i: int| 0 <= i < rows.len() && i != at ==> !passes(#[trigger] rows[i], filter, args),
    ensures
        select(rows, filter, args, columns) == seq![project(rows[at], columns)],
    decreases rows.len(),
{
    let front = rows.drop_last();
    assert(rows.last() == rows[rows.len() - 1]);
    if at == rows.len() - 1 {
        assert forall|i: int| 0 <= i < front.len() implies !passes(
            #[trigger] front[i],
            filter,
            args,
        ) by {
            assert(front[i] == rows[i]);
        }
        lemma_select_none(front, filter, args, columns);
        assert(select(rows, filter, args, columns) =~= seq![project(rows[at], columns)]);
    } else {
        assert(front[at] == rows[at]);
        assert forall|i: int| 0 <= i < front.len() && i != at implies !passes(
            #[trigger] front[i],
            filter,
            args,
        ) by {
            assert(front[i] == rows[i]);
        }
        lemma_select_one(front, filter, args, columns, at);
    }
}

/// Two tables whose rows pass the filter alike, and show the same in the
/// listed columns where they pass, read the same.
pub proof fn lemma_select_alike(
    a: Seq<Row>,
    b: Seq<Row>,
    filter: FilterView,
    args: Row,
    columns: Seq<usize>,
)
    requires
        a.len() == b.len(),
        forall|i: int|
            0 <= i < a.len() ==> passes(#[trigger] a[i], filter, args) == passes(
                b[i],
                filter,
                args,
            ),
        forall|i: int|
            0 <= i < a.len() && passes(#[trigger] a[i], filter, args) ==> project(a[i], columns)
                == project(b[i], columns),
    ensures
        select(a, filter, args, columns) == select(b, filter, args, columns),
    decreases a.len(),
{
    if a.len() > 0 {
        let fa = a.drop_last();
        let fb = b.drop_last();
        assert forall|i: int| 0 <= i < fa.len() implies passes(#[trigger] fa[i], filter, args)
            == passes(fb[i], filter, args) by {
            assert(fa[i] == a[i] && fb[i] == b[i]);
        }
        assert forall|i: int|
            0 <= i < fa.len() && passes(#[trigger] fa[i], filter, args) implies project(
            fa[i],
            columns,
        ) == project(fb[i], columns) by {
            assert(fa[i] == a[i] && fb[i] == b[i]);
        }
        lemma_select_alike(fa, fb, filter, args, columns);
        assert(a.last() == a[a.len() - 1] && b.last() == b[b.len() - 1]);
    }
}

/// A row that does not pass the filter, added at the end of a table, does
/// not change what a select reads; one that passes is read last.
pub proof fn lemma_select_push(
    rows: Seq<Row>,
    row: Row,
    filter: FilterView,
    args: Row,
    columns: Seq<usize>,
)
    ensures
        select(rows.push(row), filter, args, columns) == if passes(row, filter, args) {
            select(rows, filter, args, columns).push(project(row, columns))
        } else {
            select(rows, filter, args, columns)
        },
{
    assert(rows.push(row).drop_last() =~= rows);
    assert(rows.push(row).last() == row);
}

/// A select reads each row of the table that passes the filter.
pub proof fn lemma_select_has(
    rows: Seq<Row>,
    filter: FilterView,
    args: Row,
    columns: Seq<usize>,
    at: int,
)
    requires
        0 <= at < rows.len(),
        passes(rows[at], filter, args),
    ensures
        select(rows, filter, args, columns).contains(project(rows[at], columns)),
    decreases rows.len(),
{
    let front = rows.drop_last();
    let all = select(rows, filter, args, columns);
    assert(rows.last() == rows[rows.len() - 1]);
    if at == rows.len() - 1 {
        assert(all[all.len() - 1] == project(rows[at], columns));
    } else {
        assert(front[at] == rows[at]);
        lemma_select_has(front, filter, args, columns, at);
        let rest = select(front, filter, args, columns);
        let k = choose|k: int| 0 <= k < rest.len() && rest[k] == project(rows[at], columns);
        assert(all[k] == rest[k]);
    }
}

} // verus!
