//! Laws of membership and state: the two write paths of a member do not
//! clobber each other, and partial state is kept out of the point lookup.

use vstd::prelude::*;
use crate::catalog;
use crate::laws::writes::{law_insert, overwrites};
use crate::schema::{MEMBER_EVENT, MEMBER_IS_PARTIAL, MEMBER_ROOM_ID, MEMBER_USER_ID, Table};
use crate::facts::{
    lemma_candidate, lemma_select_alike, lemma_select_has, lemma_select_none, lemma_select_one,
    lemma_select_push, shows,
};
use crate::semantics::{
    candidate, collision, equal_at, guard_holds, lacks_value, next, output, passes, project,
    refusal, row_fits, same_key, table_ok, Error, Row,
};
use crate::statement::FilterView;
use crate::value::ValueView;

verus! {

/// Storing a profile leaves every membership event as it is.
///
/// Whatever the table holds, after the statement that stores a profile the
/// statement that reads a membership event reads, for every room and user,
/// what it read before: the event stored by the other write path is not
/// clobbered, and a row made for the profile alone shows no event.
pub proof fn law_profile_spares_member_event(
    rows: Seq<Row>,
    args: Row,
    now: u64,
    key: Row,
    later: u64,
)
    requires
        table_ok(Table::Members, rows),
    ensures
        output(
            catalog::member_load(),
            next(catalog::member_profile_upsert(), rows, args, now),
            key,
            later,
        ) == output(catalog::member_load(), rows, key, later),
{
    let write = catalog::member_profile_upsert();
    let read = catalog::member_load();
    let after = next(write, rows, args, now);
    if output(write, rows, args, now) is Ok && refusal(read, key) is None {
        let columns = write->Insert_columns;
        let conflict = write->Insert_conflict;
        let params = conflict->Update_0;
        let filter = read->Select_filter;
        let reads = read->Select_columns;
        law_insert(Table::Members, columns, None, conflict, rows, args, now);
        lemma_candidate(Table::Members, columns, None, conflict, args, now);
        let row = candidate(Table::Members, columns, None, args, now);
        let at = collision(Table::Members, rows, row);
        if at == rows.len() {
            assert(row[MEMBER_EVENT as int] is Null) by {
                assert forall|i: int| 0 <= i < columns.len() implies columns[i] != MEMBER_EVENT by {}
            }
            assert(!passes(row, filter, key)) by {
                assert(!guard_holds(row, filter.guards[0]));
            }
            lemma_select_push(rows, row, filter, key, reads);
        } else {
            assert forall|c: int| 0 <= c < 4 implies !overwrites(columns, params, c) by {}
            assert forall|i: int| 0 <= i < rows.len() implies passes(
                #[trigger] rows[i],
                filter,
                key,
            ) == passes(after[i], filter, key) && project(rows[i], reads) == project(
                after[i],
                reads,
            ) by {
                if i == at {
                    assert(after[at][MEMBER_ROOM_ID as int] == rows[at][MEMBER_ROOM_ID as int]);
                    assert(after[at][MEMBER_USER_ID as int] == rows[at][MEMBER_USER_ID as int]);
                    assert(after[at][MEMBER_IS_PARTIAL as int] == rows[at][MEMBER_IS_PARTIAL as int]);
                    assert(after[at][MEMBER_EVENT as int] == rows[at][MEMBER_EVENT as int]);
                    assert(project(rows[i], reads) =~= project(after[i], reads));
                    lemma_passes_alike(rows[at], after[at], filter, key);
                }
            }
            lemma_select_alike(rows, after, filter, key, reads);
        }
    }
}

/// Two rows that agree on every column that a filter looks at pass the
/// filter alike.
pub proof fn lemma_passes_alike(a: Row, b: Row, filter: FilterView, args: Row)
    requires
        forall|i: int|
            0 <= i < filter.equals.len() ==> a[(#[trigger] filter.equals[i]) as int]
                == b[filter.equals[i] as int],
        forall|j: int|
            0 <= j < filter.guards.len() ==> a[(#[trigger] filter.guards[j]).spec_column() as int]
                == b[filter.guards[j].spec_column() as int],
    ensures
        passes(a, filter, args) == passes(b, filter, args),
{
    if passes(a, filter, args) {
        assert forall|i: int| 0 <= i < filter.equals.len() implies #[trigger] equal_at(
            b,
            filter.equals,
            args,
            i,
        ) by {
            assert(equal_at(a, filter.equals, args, i));
            assert(a[filter.equals[i] as int] == b[filter.equals[i] as int]);
        }
        assert forall|j: int| 0 <= j < filter.guards.len() implies guard_holds(
            b,
            #[trigger] filter.guards[j],
        ) by {
            assert(guard_holds(a, filter.guards[j]));
            assert(a[filter.guards[j].spec_column() as int] == b[filter.guards[j].spec_column() as int]);
        }
    }
    if passes(b, filter, args) {
        assert forall|i: int| 0 <= i < filter.equals.len() implies #[trigger] equal_at(
            a,
            filter.equals,
            args,
            i,
        ) by {
            assert(equal_at(b, filter.equals, args, i));
            assert(a[filter.equals[i] as int] == b[filter.equals[i] as int]);
        }
        assert forall|j: int| 0 <= j < filter.guards.len() implies guard_holds(
            a,
            #[trigger] filter.guards[j],
        ) by {
            assert(guard_holds(b, filter.guards[j]));
            assert(a[filter.guards[j].spec_column() as int] == b[filter.guards[j].spec_column() as int]);
        }
    }
}

/// The parameters of the statement that stores a state event.
pub open spec fn state_args(
    room: Seq<char>,
    kind: Seq<char>,
    state_key: Seq<char>,
    partial: bool,
    event: Seq<u8>,
    event_id: Seq<char>,
) -> Row {
    seq![
        ValueView::Text(room),
        ValueView::Text(kind),
        ValueView::Text(state_key),
        ValueView::Bool(partial),
        ValueView::Blob(event),
        ValueView::Text(event_id),
    ]
}

/// What the statement that stores a state event leaves: a table in which
/// one row holds the parameters, each in its column, and in which no other
/// row has that row's room, type and state key.
pub proof fn lemma_state_stored(rows: Seq<Row>, args: Row, now: u64)
    requires
        table_ok(Table::State, rows),
        refusal(catalog::state_upsert(), args) is None,
        forall|c: int| 0 <= c < 5 ==> !((#[trigger] args[c]) is Null),
    ensures
        ({
            let write = catalog::state_upsert();
            let after = next(write, rows, args, now);
            let at = collision(
                Table::State,
                rows,
                candidate(Table::State, write->Insert_columns, None, args, now),
            );
            &&& output(write, rows, args, now) is Ok
            &&& table_ok(Table::State, after)
            &&& 0 <= at < after.len()
            &&& forall|c: int| 0 <= c < 6 ==> after[at][c] == #[trigger] args[c]
            &&& forall|i: int|
                0 <= i < after.len() && i != at ==> !same_key(#[trigger] after[i], after[at], 3)
        }),
{
    let write = catalog::state_upsert();
    let columns = write->Insert_columns;
    let conflict = write->Insert_conflict;
    let params = conflict->Update_0;
    let after = next(write, rows, args, now);
    let row = candidate(Table::State, columns, None, args, now);
    lemma_candidate(Table::State, columns, None, conflict, args, now);
    assert forall|c: int| 0 <= c < 6 implies row[c] == #[trigger] args[c] by {
        assert(row[columns[c] as int] == args[c]);
    }
    assert(!lacks_value(Table::State, row)) by {
        assert forall|c: int| 0 <= c < row.len() && (#[trigger] row[c]) is Null implies Table::State.spec_nullable(
            c,
        ) by {
            if c < 5 {
                assert(!(args[c] is Null));
            }
        }
    }
    law_insert(Table::State, columns, None, conflict, rows, args, now);
    let at = collision(Table::State, rows, row);
    assert forall|c: int| 0 <= c < 6 implies after[at][c] == #[trigger] args[c] by {
        if at < rows.len() {
            if c >= 3 {
                assert(columns[params[c - 3] as int] == c);
                assert(overwrites(columns, params, c));
            }
            assert(after[at][c] == if overwrites(columns, params, c) {
                row[c]
            } else {
                rows[at][c]
            });
        }
    }
    assert forall|i: int| 0 <= i < after.len() && i != at implies !same_key(
        #[trigger] after[i],
        after[at],
        3,
    ) by {
        if i < at {
            assert(!same_key(after[i], after[at], 3));
        } else {
            assert(!same_key(after[at], after[i], 3));
            if same_key(after[i], after[at], 3) {
                assert forall|c: int| 0 <= c < 3 implies after[at][c] == after[i][c] by {}
            }
        }
    }
}

/// A partial state event is kept out of the point lookup.
///
/// After a state event has been stored, the statement that reads the event
/// of its room, type and state key reads nothing if it was stored as
/// partial, and reads that event, and no other, if it was not.
pub proof fn law_partial_state_is_not_read(
    rows: Seq<Row>,
    room: Seq<char>,
    kind: Seq<char>,
    state_key: Seq<char>,
    partial: bool,
    event: Seq<u8>,
    event_id: Seq<char>,
    now: u64,
    later: u64,
)
    requires
        table_ok(Table::State, rows),
    ensures
        output(
            catalog::state_load(),
            next(
                catalog::state_upsert(),
                rows,
                state_args(room, kind, state_key, partial, event, event_id),
                now,
            ),
            seq![ValueView::Text(room), ValueView::Text(kind), ValueView::Text(state_key)],
            later,
        ) == Ok::<Seq<Row>, Error>(
            if partial {
                Seq::empty()
            } else {
                seq![seq![ValueView::Blob(event)]]
            },
        ),
{
    let write = catalog::state_upsert();
    let args = state_args(room, kind, state_key, partial, event, event_id);
    let after = next(write, rows, args, now);
    let point = seq![ValueView::Text(room), ValueView::Text(kind), ValueView::Text(state_key)];
    assert(refusal(write, args) is None);
    lemma_state_stored(rows, args, now);
    let at = collision(
        Table::State,
        rows,
        candidate(Table::State, write->Insert_columns, None, args, now),
    );
    let stored = after[at];
    assert forall|c: int| 0 <= c < 6 implies stored[c] == args[c] by {
        assert(after[at][c] == args[c]);
    }
    let read = catalog::state_load();
    let filter = read->Select_filter;
    assert(refusal(read, point) is None);
    assert forall|i: int| 0 <= i < after.len() && i != at implies !passes(
        #[trigger] after[i],
        filter,
        point,
    ) by {
        if passes(after[i], filter, point) {
            assert forall|c: int| 0 <= c < 3 implies after[i][c] == stored[c] by {
                assert(equal_at(after[i], filter.equals, point, c));
            }
            assert(same_key(after[i], after[at], 3));
        }
    }
    assert(row_fits(Table::State, stored));
    assert(project(stored, read->Select_columns) =~= seq![ValueView::Blob(event)]);
    if partial {
        assert(!passes(stored, filter, point)) by {
            assert(!guard_holds(stored, filter.guards[0]));
        }
        lemma_select_none(after, filter, point, read->Select_columns);
    } else {
        assert(passes(stored, filter, point)) by {
            assert forall|i: int| 0 <= i < filter.equals.len() implies #[trigger] equal_at(
                stored,
                filter.equals,
                point,
                i,
            ) by {}
        }
        lemma_select_one(after, filter, point, read->Select_columns, at);
    }
}

/// A partial state event is listed with the partial events.
///
/// After a state event has been stored, the statement that lists the events
/// of its room and type that are partial, or those that are not, lists it
/// when asked for the events that are as partial as it is.
pub proof fn law_partial_state_is_listed(
    rows: Seq<Row>,
    room: Seq<char>,
    kind: Seq<char>,
    state_key: Seq<char>,
    partial: bool,
    event: Seq<u8>,
    event_id: Seq<char>,
    now: u64,
    later: u64,
)
    requires
        table_ok(Table::State, rows),
    ensures
        output(
            catalog::states_load(),
            next(
                catalog::state_upsert(),
                rows,
                state_args(room, kind, state_key, partial, event, event_id),
                now,
            ),
            seq![ValueView::Text(room), ValueView::Text(kind), ValueView::Bool(partial)],
            later,
        ) matches Ok(found) && found.contains(seq![ValueView::Blob(event)]),
{
    let write = catalog::state_upsert();
    let args = state_args(room, kind, state_key, partial, event, event_id);
    let after = next(write, rows, args, now);
    assert(refusal(write, args) is None);
    lemma_state_stored(rows, args, now);
    let at = collision(
        Table::State,
        rows,
        candidate(Table::State, write->Insert_columns, None, args, now),
    );
    let stored = after[at];
    assert forall|c: int| 0 <= c < 6 implies stored[c] == args[c] by {
        assert(after[at][c] == args[c]);
    }
    let list = catalog::states_load();
    let same = seq![ValueView::Text(room), ValueView::Text(kind), ValueView::Bool(partial)];
    assert(refusal(list, same) is None);
    assert(passes(stored, list->Select_filter, same)) by {
        assert forall|i: int|
            0 <= i < list->Select_filter.equals.len() implies #[trigger] equal_at(
            stored,
            list->Select_filter.equals,
            same,
            i,
        ) by {}
    }
    assert(row_fits(Table::State, stored));
    assert(project(stored, list->Select_columns) =~= seq![ValueView::Blob(event)]);
    lemma_select_has(after, list->Select_filter, same, list->Select_columns, at);
}

} // verus!
