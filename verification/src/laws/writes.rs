//! Laws of writing: what an insert does, that keys stay unique, and that an
//! upsert is idempotent.

use vstd::prelude::*;
use crate::laws::reads::written;
use crate::schema::Table;
use crate::facts::{
    lemma_assign, lemma_candidate, lemma_find, lemma_find_is, lemma_insert_ok, lemma_next_ok,
    lemma_rewrite,
};
use crate::semantics::{
    assign, candidate, collision, lacks_value, next, output, refusal, rewrite, row_fits,
    same_key, table_ok, Row,
};
use crate::statement::{all_below, ConflictView, Stamp, StatementView};
use crate::value::ValueView;

verus! {

/// Keys stay unique.
///
/// Whatever statement is run on a table, with whatever parameters, and be
/// it refused or not: if no two rows had the same key before, no two rows
/// have the same key after, and every row still fits the table.
pub proof fn law_keys_stay_unique(stmt: StatementView, rows: Seq<Row>, args: Row, now: u64)
    requires
        table_ok(stmt.table(), rows),
    ensures
        table_ok(stmt.table(), next(stmt, rows, args, now)),
{
    lemma_next_ok(stmt, rows, args, now);
}

/// Whether an upsert that meets a row with its key writes to column `c` of
/// that row.
pub open spec fn overwrites(columns: Seq<usize>, params: Seq<usize>, c: int) -> bool {
    exists|x: int| 0 <= x < params.len() && columns[(#[trigger] params[x]) as int] == c
}

/// What an accepted insert does to the table.
///
/// If no row has the key of the proposed row, that row is added at the end
/// and every row stays. If a row has it, no row is added and every other
/// row stays; that row stays too unless the statement updates it, and then
/// it holds each rewritten parameter in its column and keeps every other
/// column: what was written to the row by another statement, into columns
/// that this one does not name, is still there.
pub proof fn law_insert(
    table: Table,
    columns: Seq<usize>,
    stamp: Option<Stamp>,
    conflict: ConflictView,
    rows: Seq<Row>,
    args: Row,
    now: u64,
)
    requires
        table_ok(table, rows),
        output(StatementView::Insert { table, columns, stamp, conflict }, rows, args, now) is Ok,
    ensures
        ({
            let stmt = StatementView::Insert { table, columns, stamp, conflict };
            let row = candidate(table, columns, stamp, args, now);
            let at = collision(table, rows, row);
            let after = next(stmt, rows, args, now);
            &&& 0 <= at <= rows.len()
            &&& table_ok(table, after)
            &&& row_fits(table, row)
            &&& forall|i: int| 0 <= i < columns.len() ==> row[(#[trigger] columns[i]) as int] == args[i]
            &&& forall|i: int| 0 <= i < rows.len() && i != at ==> #[trigger] after[i] == rows[i]
            &&& at == rows.len() ==> after == rows.push(row)
            &&& at < rows.len() ==> {
                &&& after.len() == rows.len()
                &&& same_key(rows[at], row, table.spec_key_len())
                &&& same_key(after[at], row, table.spec_key_len())
                &&& !(conflict is Update) ==> after == rows
                &&& conflict matches ConflictView::Update(params) ==> forall|c: int|
                    0 <= c < table.spec_width() ==> #[trigger] after[at][c] == if overwrites(
                        columns,
                        params,
                        c,
                    ) {
                        row[c]
                    } else {
                        rows[at][c]
                    }
            }
        }),
{
    let stmt = StatementView::Insert { table, columns, stamp, conflict };
    let k = table.spec_key_len();
    let row = candidate(table, columns, stamp, args, now);
    let at = collision(table, rows, row);
    let after = next(stmt, rows, args, now);
    lemma_candidate(table, columns, stamp, conflict, args, now);
    lemma_insert_ok(table, columns, stamp, conflict, rows, args, now);
    lemma_find(rows, row, k);
    table.lemma_schema();
    if at < rows.len() {
        if conflict is Update {
            let params = conflict->Update_0;
            let old_row = rows[at];
            let new_row = rewrite(old_row, columns, args, params, params.len());
            assert(row_fits(table, old_row));
            assert(all_below(columns, old_row.len()));
            assert(all_below(params, columns.len()));
            lemma_rewrite(old_row, columns, args, params, params.len());
            assert forall|c: int| 0 <= c < table.spec_width() implies #[trigger] after[at][c]
                == if overwrites(columns, params, c) {
                row[c]
            } else {
                rows[at][c]
            } by {
                if overwrites(columns, params, c) {
                    let x = choose|x: int|
                        0 <= x < params.len() && columns[(#[trigger] params[x]) as int] == c;
                    lemma_rewrite_holds(old_row, columns, args, params, x);
                    assert(params[x] < columns.len());
                    assert(row[columns[params[x] as int] as int] == args[params[x] as int]);
                } else {
                    if exists|x: int|
                        0 <= x < params.len() && columns[params[x] as int] == c && new_row[c]
                            == args[params[x] as int] {
                        let x = choose|x: int|
                            0 <= x < params.len() && columns[params[x] as int] == c && new_row[c]
                                == args[params[x] as int];
                        assert(columns[params[x] as int] == c);
                    }
                }
            }
            assert forall|c: int| 0 <= c < k implies after[at][c] == row[c] by {
                assert(after[at][c] == if overwrites(columns, params, c) {
                    row[c]
                } else {
                    rows[at][c]
                });
            }
        }
    }
}

/// Rewriting a row with parameters that it holds already changes nothing.
pub proof fn lemma_rewrite_same(row: Row, columns: Seq<usize>, args: Row, params: Seq<usize>, n: nat)
    requires
        n <= params.len(),
        all_below(columns, row.len()),
        all_below(params, columns.len()),
        forall|k: int|
            0 <= k < n ==> row[columns[(#[trigger] params[k]) as int] as int]
                == args[params[k] as int],
    ensures
        rewrite(row, columns, args, params, n) == row,
    decreases n,
{
    if n > 0 {
        lemma_rewrite_same(row, columns, args, params, (n - 1) as nat);
        let p = params[n - 1] as int;
        assert(params[n - 1] < columns.len());
        assert(columns[p] < row.len());
        assert(row[columns[p] as int] == args[p]);
        assert(row.update(columns[p] as int, args[p]) =~= row);
    }
}

/// A rewritten row holds each rewritten parameter in its column, as long as
/// no column is named twice.
pub proof fn lemma_rewrite_holds(
    row: Row,
    columns: Seq<usize>,
    args: Row,
    params: Seq<usize>,
    k: int,
)
    requires
        all_below(columns, row.len()),
        all_below(params, columns.len()),
        forall|a: int, b: int| 0 <= a < b < columns.len() ==> columns[a] != columns[b],
        0 <= k < params.len(),
    ensures
        rewrite(row, columns, args, params, params.len())[columns[params[k] as int] as int]
            == args[params[k] as int],
{
    lemma_rewrite(row, columns, args, params, params.len());
    let after = rewrite(row, columns, args, params, params.len());
    assert(params[k] < columns.len());
    let c = columns[params[k] as int] as int;
    assert(0 <= c < row.len());
    let v = after[c];
    if exists|x: int|
        0 <= x < params.len() && columns[params[x] as int] == c && v == args[params[x] as int] {
        let x = choose|x: int|
            0 <= x < params.len() && columns[params[x] as int] == c && v
                == args[params[x] as int];
        assert(params[x] < columns.len());
        if params[x] != params[k] {
            if params[x] < params[k] {
                assert(columns[params[x] as int] != columns[params[k] as int]);
            } else {
                assert(columns[params[k] as int] != columns[params[x] as int]);
            }
        }
    }
}

/// An upsert is idempotent: run a second time with the same parameters, at
/// whatever time, it leaves the table as the first run left it, and reports
/// what the first run reported.
pub proof fn law_upsert_idempotent(
    stmt: StatementView,
    rows: Seq<Row>,
    args: Row,
    first: u64,
    second: u64,
)
    requires
        stmt matches StatementView::Insert { conflict, .. } && !(conflict is Abort),
        table_ok(stmt.table(), rows),
    ensures
        next(stmt, next(stmt, rows, args, first), args, second) == next(stmt, rows, args, first),
        output(stmt, next(stmt, rows, args, first), args, second) == output(
            stmt,
            rows,
            args,
            first,
        ),
{
    let table = stmt.table();
    let columns = stmt->Insert_columns;
    let stamp = stmt->Insert_stamp;
    let conflict = stmt->Insert_conflict;
    let k = table.spec_key_len();
    let once = next(stmt, rows, args, first);
    if refusal(stmt, args) is None {
        let one = candidate(table, columns, stamp, args, first);
        let two = candidate(table, columns, stamp, args, second);
        lemma_candidate(table, columns, stamp, conflict, args, first);
        lemma_candidate(table, columns, stamp, conflict, args, second);
        table.lemma_schema();
        assert forall|c: int| 0 <= c < one.len() implies (#[trigger] one[c] is Null) == (
        two[c] is Null) && (c < k ==> one[c] == two[c]) by {
            let blank = Seq::new(table.spec_width(), |c: int| ValueView::Null);
            let filled = assign(blank, columns, args, columns.len());
            lemma_assign(blank, columns, args, columns.len());
            if stamp is Some && stamp->0.column == c {
            } else {
                assert(one[c] == filled[c]);
                assert(two[c] == filled[c]);
            }
        }
        assert(lacks_value(table, one) == lacks_value(table, two)) by {
            if lacks_value(table, one) {
                let c = choose|c: int|
                    0 <= c < one.len() && (#[trigger] one[c]) is Null && !table.spec_nullable(c);
                assert(two[c] is Null);
            }
            if lacks_value(table, two) {
                let c = choose|c: int|
                    0 <= c < two.len() && (#[trigger] two[c]) is Null && !table.spec_nullable(c);
                assert(one[c] is Null);
            }
        }
        if !lacks_value(table, one) {
            lemma_find(rows, one, k);
            let at = collision(table, rows, one);
            assert(same_key(one, two, k));
            lemma_insert_ok(table, columns, stamp, conflict, rows, args, first);
            if at == rows.len() {
                assert(once == rows.push(one));
                assert forall|i: int| 0 <= i < at implies !same_key(
                    #[trigger] once[i],
                    two,
                    k,
                ) by {
                    assert(once[i] == rows[i]);
                    assert(!same_key(rows[i], one, k));
                }
                assert(same_key(once[at], two, k));
                lemma_find_is(once, two, k, at);
                if conflict is Update {
                    let params = conflict->Update_0;
                    assert(all_below(columns, one.len()));
                    assert(all_below(params, columns.len()));
                    assert forall|x: int| 0 <= x < params.len() implies one[columns[(
                    #[trigger] params[x]) as int] as int] == args[params[x] as int] by {
                        assert(params[x] < columns.len());
                    }
                    lemma_rewrite_same(one, columns, args, params, params.len());
                    assert(once.update(at, one) =~= once);
                }
            } else {
                let old_row = rows[at];
                assert(row_fits(table, old_row));
                if conflict is Update {
                    let params = conflict->Update_0;
                    let new_row = rewrite(old_row, columns, args, params, params.len());
                    assert(all_below(columns, old_row.len()));
                    assert(all_below(params, columns.len()));
                    lemma_rewrite(old_row, columns, args, params, params.len());
                    assert forall|c: int| 0 <= c < k implies new_row[c] == old_row[c] by {
                        if exists|x: int|
                            0 <= x < params.len() && columns[params[x] as int] == c && new_row[c]
                                == args[params[x] as int] {
                            let x = choose|x: int|
                                0 <= x < params.len() && columns[params[x] as int] == c
                                    && new_row[c] == args[params[x] as int];
                            assert(params[x] < columns.len());
                            assert(one[columns[params[x] as int] as int] == args[params[x] as int]);
                        }
                    }
                    assert(once == rows.update(at, new_row));
                    assert forall|i: int| 0 <= i < at implies !same_key(
                        #[trigger] once[i],
                        two,
                        k,
                    ) by {
                        assert(once[i] == rows[i]);
                        assert(!same_key(rows[i], one, k));
                    }
                    assert(same_key(once[at], two, k));
                    lemma_find_is(once, two, k, at);
                    assert forall|x: int| 0 <= x < params.len() implies new_row[columns[(
                    #[trigger] params[x]) as int] as int] == args[params[x] as int] by {
                        lemma_rewrite_holds(old_row, columns, args, params, x);
                    }
                    lemma_rewrite_same(new_row, columns, args, params, params.len());
                    assert(once.update(at, new_row) =~= once);
                } else {
                    assert(once == rows);
                    assert forall|i: int| 0 <= i < at implies !same_key(
                        #[trigger] rows[i],
                        two,
                        k,
                    ) by {
                        assert(!same_key(rows[i], one, k));
                    }
                    lemma_find_is(rows, two, k, at);
                }
            }
        }
    }
}

} // verus!
