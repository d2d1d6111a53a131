//! Laws of deleting: a delete removes what its filter selects and nothing
//! else, for a redacted event as for a removed room.

use vstd::prelude::*;
use crate::catalog;
use crate::database::DatabaseView;
use crate::schema::{
    ACCOUNT_ROOM_ID, MEMBER_ROOM_ID, RECEIPT_ROOM_ID, ROOM_ID, STATE_EVENT_ID, STATE_ROOM_ID,
    Table,
};
use crate::semantics::{delete, equal_at, next, output, passes, refusal, Error, Row};
use crate::statement::FilterView;
use crate::store::{batch, batch_error, text_args};
use crate::value::{ValueKind, ValueView};

verus! {

/// A delete removes the rows that pass its filter, and no other: every row
/// that it leaves was in the table and does not pass, and every row of the
/// table that does not pass is left. A delete that no row passes deletes
/// nothing, and is no error.
pub proof fn law_delete(rows: Seq<Row>, filter: FilterView, args: Row)
    ensures
        forall|k: int|
            0 <= k < delete(rows, filter, args).len() ==> !passes(
                #[trigger] delete(rows, filter, args)[k],
                filter,
                args,
            ) && rows.contains(delete(rows, filter, args)[k]),
        forall|i: int|
            0 <= i < rows.len() && !passes(#[trigger] rows[i], filter, args) ==> delete(
                rows,
                filter,
                args,
            ).contains(rows[i]),
        (forall|i: int| 0 <= i < rows.len() ==> !passes(#[trigger] rows[i], filter, args))
            ==> delete(rows, filter, args) == rows,
    decreases rows.len(),
{
    let after = delete(rows, filter, args);
    if rows.len() > 0 {
        let front = rows.drop_last();
        let rest = delete(front, filter, args);
        law_delete(front, filter, args);
        assert(rows.last() == rows[rows.len() - 1]);
        assert forall|k: int| 0 <= k < after.len() implies !passes(
            #[trigger] after[k],
            filter,
            args,
        ) && rows.contains(after[k]) by {
            if k < rest.len() {
                assert(after[k] == rest[k]);
                assert(front.contains(rest[k]));
                let i = choose|i: int| 0 <= i < front.len() && front[i] == rest[k];
                assert(rows[i] == front[i]);
            } else {
                assert(after[k] == rows[rows.len() - 1]);
            }
        }
        assert forall|i: int|
            0 <= i < rows.len() && !passes(#[trigger] rows[i], filter, args) implies after.contains(
            rows[i],
        ) by {
            if i < rows.len() - 1 {
                assert(front[i] == rows[i]);
                assert(rest.contains(front[i]));
                let k = choose|k: int| 0 <= k < rest.len() && rest[k] == front[i];
                assert(after[k] == rest[k]);
            } else {
                assert(after[after.len() - 1] == rows[i]);
            }
        }
        if forall|i: int| 0 <= i < rows.len() ==> !passes(#[trigger] rows[i], filter, args) {
            assert forall|i: int| 0 <= i < front.len() implies !passes(
                #[trigger] front[i],
                filter,
                args,
            ) by {
                assert(front[i] == rows[i]);
            }
            assert(after =~= rows);
        }
    }
}

/// Redaction removes a state event only if its event id matches.
///
/// After the statement that redacts an event of a room, no state event of
/// that room with that event id is left, and every state event of another
/// room, or with another event id or none, is still there.
pub proof fn law_redaction(rows: Seq<Row>, room: Seq<char>, event_id: Seq<char>, now: u64)
    ensures
        ({
            let args = seq![ValueView::Text(room), ValueView::Text(event_id)];
            let after = next(catalog::state_redact(), rows, args, now);
            &&& output(catalog::state_redact(), rows, args, now) == Ok::<Seq<Row>, Error>(
                Seq::empty(),
            )
            &&& forall|k: int|
                0 <= k < after.len() ==> rows.contains(#[trigger] after[k]) && !(
                after[k][STATE_ROOM_ID as int] == ValueView::Text(room)
                    && after[k][STATE_EVENT_ID as int] == ValueView::Text(event_id))
            &&& forall|i: int|
                0 <= i < rows.len() && !((#[trigger] rows[i])[STATE_ROOM_ID as int]
                    == ValueView::Text(room) && rows[i][STATE_EVENT_ID as int] == ValueView::Text(
                    event_id,
                )) ==> after.contains(rows[i])
        }),
{
    let stmt = catalog::state_redact();
    let filter = stmt->Delete_filter;
    let args = seq![ValueView::Text(room), ValueView::Text(event_id)];
    let after = next(stmt, rows, args, now);
    assert(refusal(stmt, args) is None);
    law_delete(rows, filter, args);
    assert forall|row: Row|
        passes(row, filter, args) == (row[STATE_ROOM_ID as int] == ValueView::Text(room)
            && row[STATE_EVENT_ID as int] == ValueView::Text(event_id)) by {
        if row[STATE_ROOM_ID as int] == ValueView::Text(room) && row[STATE_EVENT_ID as int]
            == ValueView::Text(event_id) {
            assert forall|i: int| 0 <= i < filter.equals.len() implies #[trigger] equal_at(
                row,
                filter.equals,
                args,
                i,
            ) by {}
        }
        if passes(row, filter, args) {
            assert(equal_at(row, filter.equals, args, 0));
            assert(equal_at(row, filter.equals, args, 1));
        }
    }
    assert forall|k: int| 0 <= k < after.len() implies rows.contains(#[trigger] after[k]) && !(
    after[k][STATE_ROOM_ID as int] == ValueView::Text(room) && after[k][STATE_EVENT_ID as int]
        == ValueView::Text(event_id)) by {
        assert(!passes(after[k], filter, args));
    }
    assert forall|i: int|
        0 <= i < rows.len() && !((#[trigger] rows[i])[STATE_ROOM_ID as int] == ValueView::Text(room)
            && rows[i][STATE_EVENT_ID as int] == ValueView::Text(event_id)) implies after.contains(
        rows[i],
    ) by {
        assert(!passes(rows[i], filter, args));
    }
}

/// Whether no row holds the room id in column `column`.
pub open spec fn room_gone(rows: Seq<Row>, column: usize, room: Seq<char>) -> bool {
    forall|k: int| 0 <= k < rows.len() ==> (#[trigger] rows[k])[column as int] != ValueView::Text(room)
}

/// Whether every row of `before` that belongs to another room is in
/// `after`, and every row of `after` was in `before`.
pub open spec fn others_stay(before: Seq<Row>, after: Seq<Row>, column: usize, room: Seq<char>) -> bool {
    &&& forall|i: int|
        0 <= i < before.len() && (#[trigger] before[i])[column as int] != ValueView::Text(room)
            ==> after.contains(before[i])
    &&& forall|k: int| 0 <= k < after.len() ==> before.contains(#[trigger] after[k])
}

/// What one statement of a room's removal does: in its table, the rows of
/// the room are gone and the others stay; the rest of the database is as it
/// was.
pub proof fn lemma_room_removed_from(db: DatabaseView, table: Table, column: usize, room: Seq<char>)
    requires
        db.wf(),
        db.rows(table) is Some,
        catalog::room_remove_from(table, column).wf(),
        table.spec_kind(column as int) == ValueKind::Text,
    ensures
        ({
            let stmt = catalog::room_remove_from(table, column);
            let after = db.step(stmt, text_args(room), 0);
            &&& db.report(stmt, text_args(room), 0) is Ok
            &&& after.wf()
            &&& after.history == db.history
            &&& after.rows(table) matches Some(rows) && room_gone(rows, column, room)
                && others_stay(db.rows(table)->Some_0, rows, column, room)
            &&& forall|other: Table| other != table ==> #[trigger] after.rows(other) == db.rows(other)
        }),
{
    let stmt = catalog::room_remove_from(table, column);
    let filter = stmt->Delete_filter;
    let args = text_args(room);
    let rows = db.rows(table)->Some_0;
    let left = delete(rows, filter, args);
    assert(refusal(stmt, args) is None) by {
        assert forall|i: int| 0 <= i < args.len() implies (#[trigger] args[i]).fits(
            stmt.param_kind(i),
        ) by {}
    }
    db.lemma_step(stmt, args, 0);
    law_delete(rows, filter, args);
    assert forall|row: Row| passes(row, filter, args) == (row[column as int] == ValueView::Text(room)) by {
        if row[column as int] == ValueView::Text(room) {
            assert forall|i: int| 0 <= i < filter.equals.len() implies #[trigger] equal_at(
                row,
                filter.equals,
                args,
                i,
            ) by {}
        }
        if passes(row, filter, args) {
            assert(equal_at(row, filter.equals, args, 0));
        }
    }
    assert forall|k: int| 0 <= k < left.len() implies (#[trigger] left[k])[column as int]
        != ValueView::Text(room) by {
        assert(!passes(left[k], filter, args));
    }
    assert forall|i: int|
        0 <= i < rows.len() && (#[trigger] rows[i])[column as int] != ValueView::Text(
            room,
        ) implies left.contains(rows[i]) by {
        assert(!passes(rows[i], filter, args));
    }
}

/// Removing a room removes every row of the room.
///
/// On a database with all tables, the statements of a room's removal are
/// all accepted. After them the room's row is gone, and so is every row of
/// the room in the tables of account data, members, state and receipts;
/// the rows of other rooms are still there, and no other table has changed.
pub proof fn law_room_removal(db: DatabaseView, room: Seq<char>)
    requires
        db.wf(),
        db.complete(),
    ensures
        ({
            let after = batch(db, catalog::room_remove(), text_args(room), 0, 5);
            &&& batch_error(db, catalog::room_remove(), text_args(room), 0, 5) is None
            &&& after.wf()
            &&& after.history == db.history
            &&& forall|i: int|
                0 <= i < 5 ==> {
                    let table = (#[trigger] catalog::room_remove()[i]).table();
                    let column = catalog::room_remove()[i]->Delete_filter.equals[0];
                    after.rows(table) matches Some(rows) && room_gone(rows, column, room)
                        && others_stay(db.rows(table)->Some_0, rows, column, room)
                }
            &&& forall|other: Table|
                other != Table::Rooms && other != Table::AccountData && other != Table::Members
                    && other != Table::State && other != Table::Receipts
                    ==> #[trigger] after.rows(other) == db.rows(other)
        }),
{
    let list = catalog::room_remove();
    let args = text_args(room);
    reveal_with_fuel(batch, 6);
    reveal_with_fuel(batch_error, 6);
    assert forall|table: Table| (#[trigger] db.rows(table)) is Some by {
        assert(db.tables[table.spec_index() as int] is Some);
    }
    let d0 = db;
    lemma_room_removed_from(d0, Table::Rooms, ROOM_ID, room);
    let d1 = d0.step(list[0], args, 0);
    lemma_room_removed_from(d1, Table::AccountData, ACCOUNT_ROOM_ID, room);
    let d2 = d1.step(list[1], args, 0);
    lemma_room_removed_from(d2, Table::Members, MEMBER_ROOM_ID, room);
    let d3 = d2.step(list[2], args, 0);
    lemma_room_removed_from(d3, Table::State, STATE_ROOM_ID, room);
    let d4 = d3.step(list[3], args, 0);
    lemma_room_removed_from(d4, Table::Receipts, RECEIPT_ROOM_ID, room);
    let d5 = d4.step(list[4], args, 0);
    assert(batch(db, list, args, 0, 1) == d1);
    assert(batch(db, list, args, 0, 2) == d2);
    assert(batch(db, list, args, 0, 3) == d3);
    assert(batch(db, list, args, 0, 4) == d4);
    assert(batch(db, list, args, 0, 5) == d5);
    assert(d5.rows(Table::Rooms) == d1.rows(Table::Rooms));
    assert(d5.rows(Table::AccountData) == d2.rows(Table::AccountData));
    assert(d5.rows(Table::Members) == d3.rows(Table::Members));
    assert(d5.rows(Table::State) == d4.rows(Table::State));
    assert(d1.rows(Table::AccountData) == d0.rows(Table::AccountData));
    assert(d2.rows(Table::Members) == d0.rows(Table::Members));
    assert(d3.rows(Table::State) == d0.rows(Table::State));
    assert(d4.rows(Table::Receipts) == d0.rows(Table::Receipts));
}

} // verus!
