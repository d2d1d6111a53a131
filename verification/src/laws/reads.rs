//! Laws of reading: a read by key gives the last write, what was never
//! written reads as nothing, and what is written is read back unchanged.

use vstd::prelude::*;
use crate::catalog;
use crate::laws::writes::{law_insert, overwrites};
use crate::schema::{KV_VALUE, Table};
use crate::facts::{
    lemma_candidate, lemma_select_alike, lemma_select_has, lemma_select_none, lemma_select_one,
    lemma_select_push, lemma_select_within, lemma_touch_ok, shows,
};
use crate::semantics::{
    candidate, cell_fits, collision, delete, equal_at, guard_holds, lacks_value, next, output,
    passes, project, refusal, row_fits, same_key, select, table_ok, touch, Error, Row,
};
use crate::statement::{all_below, ConflictView, FilterView, Guard, Stamp, StatementView};
use crate::value::ValueView;

verus! {

/// A select reads the rows that pass its filter, each cut down to the
/// listed columns; a delete leaves the rows that do not pass. Both keep the
/// order of the table.
pub proof fn law_select_and_delete_filter(
    rows: Seq<Row>,
    filter: FilterView,
    args: Row,
    columns: Seq<usize>,
)
    ensures
        select(rows, filter, args, columns) == rows.filter(
            |row: Row| passes(row, filter, args),
        ).map_values(|row: Row| project(row, columns)),
        delete(rows, filter, args) == rows.filter(|row: Row| !passes(row, filter, args)),
    decreases rows.len(),
{
    let keep = |row: Row| passes(row, filter, args);
    let drop = |row: Row| !passes(row, filter, args);
    let cut = |row: Row| project(row, columns);
    reveal(Seq::filter);
    if rows.len() > 0 {
        let front = rows.drop_last();
        law_select_and_delete_filter(front, filter, args, columns);
        if passes(rows.last(), filter, args) {
            assert(front.filter(keep).push(rows.last()).map_values(cut) =~= front.filter(
                keep,
            ).map_values(cut).push(project(rows.last(), columns)));
        }
    } else {
        assert(rows.filter(keep).map_values(cut) =~= Seq::<Row>::empty());
    }
}

/// Reading what was never written is no error: a select that no row passes
/// reports an empty result, and a select changes nothing.
pub proof fn law_absent_reads_empty(
    table: Table,
    reads: Seq<usize>,
    filter: FilterView,
    rows: Seq<Row>,
    args: Row,
    now: u64,
)
    requires
        refusal(StatementView::Select { table, columns: reads, filter }, args) is None,
        forall|i: int| 0 <= i < rows.len() ==> !passes(#[trigger] rows[i], filter, args),
    ensures
        output(StatementView::Select { table, columns: reads, filter }, rows, args, now) == Ok::<
            Seq<Row>,
            Error,
        >(Seq::empty()),
        next(StatementView::Select { table, columns: reads, filter }, rows, args, now) == rows,
{
    lemma_select_none(rows, filter, args, reads);
}

/// A select on a keyed table by the key reads at most one row.
pub proof fn law_point_lookup(
    table: Table,
    reads: Seq<usize>,
    guards: Seq<Guard>,
    rows: Seq<Row>,
    key: Row,
)
    requires
        table_ok(table, rows),
        table.spec_key_len() > 0,
        key.len() == table.spec_key_len(),
    ensures
        select(rows, by_key(table, guards), key, reads).len() <= 1,
{
    let filter = by_key(table, guards);
    let k = table.spec_key_len();
    table.lemma_schema();
    if exists|at: int| 0 <= at < rows.len() && passes(#[trigger] rows[at], filter, key) {
        let at = choose|at: int| 0 <= at < rows.len() && passes(#[trigger] rows[at], filter, key);
        assert forall|i: int| 0 <= i < rows.len() && i != at implies !passes(
            #[trigger] rows[i],
            filter,
            key,
        ) by {
            if passes(rows[i], filter, key) {
                assert forall|c: int| 0 <= c < k implies rows[i][c] == rows[at][c] by {
                    assert(equal_at(rows[i], filter.equals, key, c));
                    assert(equal_at(rows[at], filter.equals, key, c));
                }
                if i < at {
                    assert(!same_key(rows[i], rows[at], k));
                } else {
                    assert(!same_key(rows[at], rows[i], k));
                }
            }
        }
        lemma_select_one(rows, filter, key, reads, at);
    } else {
        lemma_select_none(rows, filter, key, reads);
    }
}

/// Result rows hold values of the kinds that the statement announces: each
/// row that a statement reports has one value for each column that the
/// statement shows, of that column's kind or `NULL`.
pub proof fn law_results_fit(stmt: StatementView, rows: Seq<Row>, args: Row, now: u64)
    requires
        table_ok(stmt.table(), rows),
    ensures
        output(stmt, rows, args, now) matches Ok(found) ==> forall|k: int|
            0 <= k < found.len() ==> (#[trigger] found[k]).len() == stmt.result_width()
                && forall|i: int|
                0 <= i < stmt.result_width() ==> (#[trigger] found[k][i]).fits(stmt.result_kind(i)),
{
    if output(stmt, rows, args, now) is Ok {
        let found = output(stmt, rows, args, now)->Ok_0;
        let table = stmt.table();
        match stmt {
            StatementView::Select { columns, filter, .. } => {
                lemma_results_fit(table, rows, filter, args, columns);
            },
            StatementView::Touch { stamp, filter, returning, .. } => {
                lemma_touch_ok(table, rows, filter, args, stamp.column, now);
                lemma_results_fit(
                    table,
                    touch(rows, filter, args, stamp.column, now),
                    filter,
                    args,
                    returning,
                );
            },
            _ => {},
        }
    }
}

/// What a select reads of a state of a table fits the columns that it
/// reads.
pub proof fn lemma_results_fit(
    table: Table,
    rows: Seq<Row>,
    filter: FilterView,
    args: Row,
    columns: Seq<usize>,
)
    requires
        table_ok(table, rows),
        all_below(columns, table.spec_width()),
    ensures
        forall|k: int|
            0 <= k < select(rows, filter, args, columns).len() ==> (#[trigger] select(
                rows,
                filter,
                args,
                columns,
            )[k]).len() == columns.len() && forall|i: int|
                0 <= i < columns.len() ==> (#[trigger] select(rows, filter, args, columns)[k][i]).fits(
                    table.spec_kind(columns[i] as int),
                ),
{
    let found = select(rows, filter, args, columns);
    lemma_select_within(rows, filter, args, columns);
    assert forall|k: int| 0 <= k < found.len() implies (#[trigger] found[k]).len() == columns.len()
        && forall|i: int|
        0 <= i < columns.len() ==> (#[trigger] found[k][i]).fits(
            table.spec_kind(columns[i] as int),
        ) by {
        assert(shows(rows, filter, args, columns, found[k]));
        let x = choose|x: int|
            0 <= x < rows.len() && passes(#[trigger] rows[x], filter, args) && found[k] == project(
                rows[x],
                columns,
            );
        assert(row_fits(table, rows[x]));
        assert forall|i: int| 0 <= i < columns.len() implies (#[trigger] found[k][i]).fits(
            table.spec_kind(columns[i] as int),
        ) by {
            assert(columns[i] < table.spec_width());
            assert(cell_fits(table, columns[i] as int, rows[x][columns[i] as int]));
        }
    }
}

/// The filter that selects by the table's key: parameter `i` is compared
/// with key column `i`.
pub open spec fn by_key(table: Table, guards: Seq<Guard>) -> FilterView {
    FilterView { equals: Seq::new(table.spec_key_len(), |i: int| i as usize), guards }
}

/// The row that an accepted insert leaves where its proposed row belongs.
pub open spec fn written(
    table: Table,
    columns: Seq<usize>,
    stamp: Option<Stamp>,
    conflict: ConflictView,
    rows: Seq<Row>,
    args: Row,
    now: u64,
) -> Row {
    let row = candidate(table, columns, stamp, args, now);
    next(StatementView::Insert { table, columns, stamp, conflict }, rows, args, now)[collision(
        table,
        rows,
        row,
    )]
}

/// Reading by key gives the last write.
///
/// After an insert that was accepted and not ignored, a select on the same
/// table whose parameters are the key of the written row, in key order,
/// reads exactly one row: the written one, as long as it passes the
/// select's guards. So no second row with that key exists, and what is read
/// is what was written last.
pub proof fn law_read_after_write(
    table: Table,
    columns: Seq<usize>,
    stamp: Option<Stamp>,
    conflict: ConflictView,
    rows: Seq<Row>,
    args: Row,
    now: u64,
    reads: Seq<usize>,
    guards: Seq<Guard>,
    later: u64,
)
    requires
        table_ok(table, rows),
        table.spec_key_len() > 0,
        output(StatementView::Insert { table, columns, stamp, conflict }, rows, args, now) is Ok,
        !(conflict is Ignore),
        (StatementView::Select { table, columns: reads, filter: by_key(table, guards) }).wf(),
        forall|j: int|
            0 <= j < guards.len() ==> guard_holds(
                written(table, columns, stamp, conflict, rows, args, now),
                #[trigger] guards[j],
            ),
    ensures
        ({
            let insert = StatementView::Insert { table, columns, stamp, conflict };
            let read = StatementView::Select { table, columns: reads, filter: by_key(table, guards) };
            let row = written(table, columns, stamp, conflict, rows, args, now);
            let key = candidate(table, columns, stamp, args, now).take(table.spec_key_len() as int);
            output(read, next(insert, rows, args, now), key, later) == Ok::<Seq<Row>, Error>(
                seq![project(row, reads)],
            )
        }),
{
    let insert = StatementView::Insert { table, columns, stamp, conflict };
    let filter = by_key(table, guards);
    let read = StatementView::Select { table, columns: reads, filter };
    let k = table.spec_key_len();
    let proposed = candidate(table, columns, stamp, args, now);
    let at = collision(table, rows, proposed);
    let after = next(insert, rows, args, now);
    let row = after[at];
    let key = proposed.take(k as int);
    law_insert(table, columns, stamp, conflict, rows, args, now);
    table.lemma_schema();
    assert(row_fits(table, proposed));
    assert(same_key(row, proposed, k));
    assert forall|i: int| 0 <= i < key.len() implies (#[trigger] key[i]).fits(
        read.param_kind(i),
    ) by {
        assert(cell_fits(table, i, proposed[i]));
    }
    assert(refusal(read, key) is None);
    assert(passes(row, filter, key)) by {
        assert forall|i: int| 0 <= i < filter.equals.len() implies #[trigger] equal_at(
            row,
            filter.equals,
            key,
            i,
        ) by {
            assert(cell_fits(table, i, proposed[i]));
            assert(!table.spec_nullable(i));
        }
    }
    assert forall|i: int| 0 <= i < after.len() && i != at implies !passes(
        #[trigger] after[i],
        filter,
        key,
    ) by {
        if passes(after[i], filter, key) {
            assert forall|c: int| 0 <= c < k implies after[i][c] == row[c] by {
                assert(equal_at(after[i], filter.equals, key, c));
            }
            assert(same_key(after[i], row, k));
            if i < at {
                assert(!same_key(after[i], after[at], k));
            } else {
                assert(!same_key(after[at], after[i], k));
            }
        }
    }
    lemma_select_one(after, filter, key, reads, at);
}

/// A write under one key does not change what is read under another.
///
/// After an insert that was accepted, a select by key whose parameters
/// differ from the key of the written row, be it in one part of the key
/// only, reads what it read before the insert. So what was never written
/// under a key still reads as nothing, whatever was written under keys
/// that share a part with it.
pub proof fn law_write_spares_other_keys(
    table: Table,
    columns: Seq<usize>,
    stamp: Option<Stamp>,
    conflict: ConflictView,
    rows: Seq<Row>,
    args: Row,
    now: u64,
    reads: Seq<usize>,
    guards: Seq<Guard>,
    key: Row,
    part: int,
    later: u64,
)
    requires
        table_ok(table, rows),
        output(StatementView::Insert { table, columns, stamp, conflict }, rows, args, now) is Ok,
        0 <= part < table.spec_key_len(),
        key[part] != candidate(table, columns, stamp, args, now)[part],
    ensures
        output(
            StatementView::Select { table, columns: reads, filter: by_key(table, guards) },
            next(StatementView::Insert { table, columns, stamp, conflict }, rows, args, now),
            key,
            later,
        ) == output(
            StatementView::Select { table, columns: reads, filter: by_key(table, guards) },
            rows,
            key,
            later,
        ),
{
    let insert = StatementView::Insert { table, columns, stamp, conflict };
    let filter = by_key(table, guards);
    let read = StatementView::Select { table, columns: reads, filter };
    let k = table.spec_key_len();
    let proposed = candidate(table, columns, stamp, args, now);
    let at = collision(table, rows, proposed);
    let after = next(insert, rows, args, now);
    law_insert(table, columns, stamp, conflict, rows, args, now);
    table.lemma_schema();
    assert forall|row: Row| same_key(row, proposed, k) implies !passes(row, filter, key) by {
        if passes(row, filter, key) {
            assert(equal_at(row, filter.equals, key, part));
        }
    }
    if refusal(read, key) is None {
        if at == rows.len() {
            assert(same_key(proposed, proposed, k));
            lemma_select_push(rows, proposed, filter, key, reads);
        } else {
            assert forall|i: int| 0 <= i < rows.len() implies passes(
                #[trigger] rows[i],
                filter,
                key,
            ) == passes(after[i], filter, key) by {
                if i != at {
                    assert(after[i] == rows[i]);
                }
            }
            assert forall|i: int|
                0 <= i < rows.len() && passes(#[trigger] rows[i], filter, key) implies project(
                rows[i],
                reads,
            ) == project(after[i], reads) by {
                assert(i != at);
                assert(after[i] == rows[i]);
            }
            lemma_select_alike(rows, after, filter, key, reads);
        }
    }
}

/// A row that was written is listed by every select that it passes.
pub proof fn law_write_is_listed(
    table: Table,
    columns: Seq<usize>,
    stamp: Option<Stamp>,
    conflict: ConflictView,
    rows: Seq<Row>,
    args: Row,
    now: u64,
    reads: Seq<usize>,
    filter: FilterView,
    params: Row,
    later: u64,
)
    requires
        table_ok(table, rows),
        output(StatementView::Insert { table, columns, stamp, conflict }, rows, args, now) is Ok,
        refusal(StatementView::Select { table, columns: reads, filter }, params) is None,
        passes(written(table, columns, stamp, conflict, rows, args, now), filter, params),
    ensures
        ({
            let insert = StatementView::Insert { table, columns, stamp, conflict };
            let read = StatementView::Select { table, columns: reads, filter };
            let row = written(table, columns, stamp, conflict, rows, args, now);
            output(read, next(insert, rows, args, now), params, later) matches Ok(found)
                && found.contains(project(row, reads))
        }),
{
    let insert = StatementView::Insert { table, columns, stamp, conflict };
    let proposed = candidate(table, columns, stamp, args, now);
    let at = collision(table, rows, proposed);
    let after = next(insert, rows, args, now);
    law_insert(table, columns, stamp, conflict, rows, args, now);
    lemma_select_has(after, filter, params, reads, at);
}

/// Whether an upsert settles what column `c` of its row holds: the column
/// is part of the key, or the upsert writes to it even where the row
/// exists.
pub open spec fn settles(table: Table, columns: Seq<usize>, params: Seq<usize>, c: usize) -> bool {
    c < table.spec_key_len() || overwrites(columns, params, c as int)
}

/// Whether `read` reads back what `write` writes: `write` is an upsert and
/// `read` a select by key on the same table, and `write` settles every
/// column that `read` reads or guards.
pub open spec fn reads_back(write: StatementView, read: StatementView) -> bool {
    &&& write.wf()
    &&& read.wf()
    &&& write.table().spec_key_len() > 0
    &&& write matches StatementView::Insert { table, columns, conflict, .. }
    &&& conflict matches ConflictView::Update(params)
    &&& read matches StatementView::Select { table: read_table, columns: reads, filter }
    &&& read_table == table
    &&& filter.equals =~= by_key(table, filter.guards).equals
    &&& forall|i: int| 0 <= i < reads.len() ==> settles(table, columns, params, #[trigger] reads[i])
    &&& forall|j: int|
        0 <= j < filter.guards.len() ==> settles(
            table,
            columns,
            params,
            (#[trigger] filter.guards[j]).spec_column(),
        )
}

/// What is written is read back unchanged.
///
/// If `read` reads back what `write` writes, then after `write` has been
/// accepted, `read`, given the key that was written, reports exactly one
/// row, and that row holds what `write` proposed, value for value; unless
/// the proposed row does not pass the guards of `read`.
pub proof fn law_round_trip(
    write: StatementView,
    read: StatementView,
    rows: Seq<Row>,
    args: Row,
    now: u64,
    later: u64,
)
    requires
        reads_back(write, read),
        table_ok(write.table(), rows),
        output(write, rows, args, now) is Ok,
        forall|j: int|
            0 <= j < read->Select_filter.guards.len() ==> guard_holds(
                candidate(write.table(), write->Insert_columns, write->Insert_stamp, args, now),
                #[trigger] read->Select_filter.guards[j],
            ),
    ensures
        ({
            let row = candidate(
                write.table(),
                write->Insert_columns,
                write->Insert_stamp,
                args,
                now,
            );
            output(
                read,
                next(write, rows, args, now),
                row.take(write.table().spec_key_len() as int),
                later,
            ) == Ok::<Seq<Row>, Error>(seq![project(row, read->Select_columns)])
        }),
{
    let table = write.table();
    let columns = write->Insert_columns;
    let stamp = write->Insert_stamp;
    let conflict = write->Insert_conflict;
    let params = conflict->Update_0;
    let reads = read->Select_columns;
    let filter = read->Select_filter;
    let guards = filter.guards;
    let k = table.spec_key_len();
    let row = candidate(table, columns, stamp, args, now);
    let at = collision(table, rows, row);
    let stored = written(table, columns, stamp, conflict, rows, args, now);
    law_insert(table, columns, stamp, conflict, rows, args, now);
    assert(filter =~~= by_key(table, guards));
    assert forall|c: usize| c < table.spec_width() && settles(table, columns, params, c) implies stored[c as int]
        == row[c as int] by {
        if at < rows.len() {
            assert(same_key(stored, row, k));
        }
    }
    assert forall|j: int| 0 <= j < guards.len() implies guard_holds(stored, #[trigger] guards[j]) by {
        assert(guard_holds(row, guards[j]));
        assert(settles(table, columns, params, guards[j].spec_column()));
        assert(guards[j].spec_column() < table.spec_width());
    }
    law_read_after_write(table, columns, stamp, conflict, rows, args, now, reads, guards, later);
    assert(row_fits(table, stored));
    assert(project(stored, reads) =~= project(row, reads)) by {
        assert forall|i: int| 0 <= i < reads.len() implies stored[reads[i] as int]
            == row[reads[i] as int] by {
            assert(settles(table, columns, params, reads[i]));
            assert(reads[i] < table.spec_width());
        }
    }
}

/// A rewritten parameter's column is overwritten.
pub proof fn lemma_overwrites(columns: Seq<usize>, params: Seq<usize>, x: int)
    requires
        0 <= x < params.len(),
    ensures
        overwrites(columns, params, columns[params[x] as int] as int),
{
}

/// For each entity that is read by its key, the statement that reads it
/// reads back what the statement that stores it writes.
pub proof fn law_catalog_round_trips()
    ensures
        reads_back(catalog::kv_upsert(), catalog::kv_load()),
        reads_back(catalog::account_data_upsert(), catalog::account_data_load()),
        reads_back(catalog::presence_upsert(), catalog::presence_load()),
        reads_back(catalog::member_upsert(), catalog::member_load()),
        reads_back(catalog::member_profile_upsert(), catalog::profile_load()),
        reads_back(catalog::state_upsert(), catalog::state_load()),
        reads_back(catalog::receipt_upsert(), catalog::receipt_load()),
        reads_back(
            catalog::inbound_group_session_upsert(),
            catalog::inbound_group_session_fetch(),
        ),
        reads_back(catalog::outbound_group_session_store(), catalog::outbound_group_session_load()),
        reads_back(catalog::gossip_request_store(), catalog::gossip_request_fetch()),
        reads_back(catalog::identity_upsert(), catalog::identity_fetch()),
        reads_back(catalog::device_upsert(), catalog::device_fetch()),
{
    assert(reads_back(catalog::kv_upsert(), catalog::kv_load())) by {
        let write = catalog::kv_upsert();
        lemma_overwrites(write->Insert_columns, write->Insert_conflict->Update_0, 0);
    }
    assert(reads_back(catalog::account_data_upsert(), catalog::account_data_load())) by {
        let write = catalog::account_data_upsert();
        lemma_overwrites(write->Insert_columns, write->Insert_conflict->Update_0, 0);
    }
    assert(reads_back(catalog::presence_upsert(), catalog::presence_load())) by {
        let write = catalog::presence_upsert();
        lemma_overwrites(write->Insert_columns, write->Insert_conflict->Update_0, 0);
    }
    assert(reads_back(catalog::member_upsert(), catalog::member_load())) by {
        let write = catalog::member_upsert();
        lemma_overwrites(write->Insert_columns, write->Insert_conflict->Update_0, 0);
        lemma_overwrites(write->Insert_columns, write->Insert_conflict->Update_0, 1);
    }
    assert(reads_back(catalog::member_profile_upsert(), catalog::profile_load())) by {
        let write = catalog::member_profile_upsert();
        lemma_overwrites(write->Insert_columns, write->Insert_conflict->Update_0, 0);
    }
    assert(reads_back(catalog::state_upsert(), catalog::state_load())) by {
        let write = catalog::state_upsert();
        lemma_overwrites(write->Insert_columns, write->Insert_conflict->Update_0, 0);
        lemma_overwrites(write->Insert_columns, write->Insert_conflict->Update_0, 1);
    }
    assert(reads_back(catalog::receipt_upsert(), catalog::receipt_load())) by {
        let write = catalog::receipt_upsert();
        lemma_overwrites(write->Insert_columns, write->Insert_conflict->Update_0, 0);
        lemma_overwrites(write->Insert_columns, write->Insert_conflict->Update_0, 2);
    }
    assert(reads_back(
        catalog::inbound_group_session_upsert(),
        catalog::inbound_group_session_fetch(),
    )) by {
        let write = catalog::inbound_group_session_upsert();
        lemma_overwrites(write->Insert_columns, write->Insert_conflict->Update_0, 0);
    }
    assert(reads_back(catalog::outbound_group_session_store(), catalog::outbound_group_session_load())) by {
        let write = catalog::outbound_group_session_store();
        lemma_overwrites(write->Insert_columns, write->Insert_conflict->Update_0, 0);
    }
    assert(reads_back(catalog::gossip_request_store(), catalog::gossip_request_fetch())) by {
        let write = catalog::gossip_request_store();
        lemma_overwrites(write->Insert_columns, write->Insert_conflict->Update_0, 3);
    }
    assert(reads_back(catalog::identity_upsert(), catalog::identity_fetch())) by {
        let write = catalog::identity_upsert();
        lemma_overwrites(write->Insert_columns, write->Insert_conflict->Update_0, 0);
    }
    assert(reads_back(catalog::device_upsert(), catalog::device_fetch())) by {
        let write = catalog::device_upsert();
        lemma_overwrites(write->Insert_columns, write->Insert_conflict->Update_0, 0);
    }
}

/// A value stored under a key is read back byte for byte, whatever the
/// table held and whatever the key held before.
pub proof fn law_kv_round_trip(rows: Seq<Row>, key: Seq<char>, value: Seq<u8>, now: u64, later: u64)
    requires
        table_ok(Table::Kv, rows),
    ensures
        output(
            catalog::kv_load(),
            next(
                catalog::kv_upsert(),
                rows,
                seq![ValueView::Text(key), ValueView::Blob(value)],
                now,
            ),
            seq![ValueView::Text(key)],
            later,
        ) == Ok::<Seq<Row>, Error>(seq![seq![ValueView::Blob(value)]]),
{
    let write = catalog::kv_upsert();
    let read = catalog::kv_load();
    let args = seq![ValueView::Text(key), ValueView::Blob(value)];
    let columns = write->Insert_columns;
    let conflict = write->Insert_conflict;
    let params = conflict->Update_0;
    assert(refusal(write, args) is None);
    let row = candidate(Table::Kv, columns, None, args, now);
    lemma_candidate(Table::Kv, columns, None, conflict, args, now);
    assert forall|c: int| 0 <= c < 2 implies row[c] == args[c] by {
        assert(row[columns[c] as int] == args[c]);
    }
    assert(!lacks_value(Table::Kv, row));
    law_insert(Table::Kv, columns, None, conflict, rows, args, now);
    let stored = written(Table::Kv, columns, None, conflict, rows, args, now);
    let at = collision(Table::Kv, rows, row);
    assert(stored[KV_VALUE as int] == args[1]) by {
        if at < rows.len() {
            assert(columns[params[0] as int] == KV_VALUE);
            assert(overwrites(columns, params, KV_VALUE as int));
        }
    }
    assert(read->Select_filter =~~= by_key(Table::Kv, Seq::empty()));
    law_read_after_write(
        Table::Kv,
        columns,
        None,
        conflict,
        rows,
        args,
        now,
        read->Select_columns,
        Seq::empty(),
        later,
    );
    assert(row.take(1) =~= seq![ValueView::Text(key)]);
    assert(row_fits(Table::Kv, stored));
    assert(project(stored, read->Select_columns) =~= seq![ValueView::Blob(value)]);
}

} // verus!
