//! The SQL text of a statement.
//!
//! Parameter `i` is written `$i+1`. Both dialects read that form, so the
//! text of a statement depends on the statement alone; the one thing that
//! the dialects spell differently, the current time, is part of the
//! statement.

use vstd::prelude::*;
use vstd::string::StringExecFns;
use crate::schema::{Column, Table};
use crate::semantics::Error;
use crate::statement::{
    all_below, Clock, Conflict, ConflictView, Filter, FilterView, Guard, Stamp, Statement,
    StatementView,
};

verus! {

/// The digit `d`, as text.
pub open spec fn digit_text(d: nat) -> Seq<char> {
    if d == 0 {
        "0"@
    } else if d == 1 {
        "1"@
    } else if d == 2 {
        "2"@
    } else if d == 3 {
        "3"@
    } else if d == 4 {
        "4"@
    } else if d == 5 {
        "5"@
    } else if d == 6 {
        "6"@
    } else if d == 7 {
        "7"@
    } else if d == 8 {
        "8"@
    } else {
        "9"@
    }
}

/// The number `n` in decimal notation.
pub open spec fn decimal(n: nat) -> Seq<char>
    decreases n,
{
    if n < 10 {
        digit_text(n)
    } else {
        decimal(n / 10) + digit_text(n % 10)
    }
}

/// The texts in `items`, with `sep` between each two of them.
pub open spec fn join(items: Seq<Seq<char>>, sep: Seq<char>) -> Seq<char>
    decreases items.len(),
{
    if items.len() == 0 {
        Seq::empty()
    } else if items.len() == 1 {
        items[0]
    } else {
        join(items.drop_last(), sep) + sep + items.last()
    }
}

/// The name of column `c` of the table.
pub open spec fn column_name(table: Table, c: usize) -> Seq<char> {
    table.spec_columns()[c as int].name@
}

/// The names of the listed columns.
pub open spec fn column_names(table: Table, columns: Seq<usize>) -> Seq<Seq<char>> {
    Seq::new(columns.len(), |i: int| column_name(table, columns[i]))
}

/// The names of the table's key columns.
pub open spec fn key_names(table: Table) -> Seq<Seq<char>> {
    Seq::new(table.spec_key_len(), |i: int| column_name(table, i as usize))
}

/// How the statement spells "the current time".
pub open spec fn clock_text(clock: Clock) -> Seq<char> {
    match clock {
        Clock::Now => "NOW()"@,
        Clock::LocalDatetime => "datetime(CURRENT_TIMESTAMP, 'localtime')"@,
    }
}

/// The condition that column `c` holds parameter `i`.
pub open spec fn equal_text(table: Table, c: usize, i: nat) -> Seq<char> {
    column_name(table, c) + " = $"@ + decimal(i + 1)
}

/// The condition that the row passes the guard.
pub open spec fn guard_text(table: Table, guard: Guard) -> Seq<char> {
    match guard {
        Guard::NotNull(c) => column_name(table, c) + " IS NOT NULL"@,
        Guard::IsFalse(c) => column_name(table, c) + " = '0'"@,
    }
}

/// The conditions of the filter, first those with a parameter.
pub open spec fn conditions(table: Table, filter: FilterView) -> Seq<Seq<char>> {
    Seq::new(
        filter.equals.len() + filter.guards.len(),
        |i: int|
            if i < filter.equals.len() {
                equal_text(table, filter.equals[i], i as nat)
            } else {
                guard_text(table, filter.guards[i - filter.equals.len()])
            },
    )
}

/// The `WHERE` clause of the filter; nothing for a filter that every row
/// passes.
pub open spec fn where_text(table: Table, filter: FilterView) -> Seq<char> {
    if filter.equals.len() + filter.guards.len() == 0 {
        Seq::empty()
    } else {
        " WHERE "@ + join(conditions(table, filter), " AND "@)
    }
}

/// The column names of an insert: the listed columns, then the stamp
/// column.
pub open spec fn insert_names(table: Table, columns: Seq<usize>, stamp: Option<Stamp>) -> Seq<
    Seq<char>,
> {
    match stamp {
        Some(s) => column_names(table, columns).push(column_name(table, s.column)),
        None => column_names(table, columns),
    }
}

/// The values of an insert: one parameter for each listed column, then the
/// current time for the stamp column.
pub open spec fn insert_values(n: nat, stamp: Option<Stamp>) -> Seq<Seq<char>> {
    let params = Seq::new(n, |i: int| "$"@ + decimal((i + 1) as nat));
    match stamp {
        Some(s) => params.push(clock_text(s.clock)),
        None => params,
    }
}

/// The assignments of an upsert: each rewritten parameter to its column.
pub open spec fn assignments(table: Table, columns: Seq<usize>, params: Seq<usize>) -> Seq<
    Seq<char>,
> {
    Seq::new(
        params.len(),
        |k: int| equal_text(table, columns[params[k] as int], params[k] as nat),
    )
}

/// The `ON CONFLICT` clause of an insert. Its target is the table's key.
pub open spec fn conflict_text(table: Table, columns: Seq<usize>, conflict: ConflictView) -> Seq<
    char,
> {
    match conflict {
        ConflictView::Abort => Seq::empty(),
        ConflictView::Ignore => " ON CONFLICT ("@ + join(key_names(table), ", "@)
            + ") DO NOTHING"@,
        ConflictView::Update(params) => " ON CONFLICT ("@ + join(key_names(table), ", "@)
            + ") DO UPDATE SET "@ + join(assignments(table, columns, params), ", "@),
    }
}

/// What a select reads: the listed columns, or the constant 1 if none is
/// listed.
pub open spec fn selection_text(table: Table, columns: Seq<usize>) -> Seq<char> {
    if columns.len() == 0 {
        "1"@
    } else {
        join(column_names(table, columns), ", "@)
    }
}

/// The SQL text of a statement that is well formed.
pub open spec fn sql_text(stmt: StatementView) -> Seq<char> {
    match stmt {
        StatementView::Insert { table, columns, stamp, conflict } => "INSERT INTO "@
            + table.spec_name()@ + " ("@ + join(insert_names(table, columns, stamp), ", "@)
            + ") VALUES ("@ + join(insert_values(columns.len(), stamp), ", "@) + ")"@
            + conflict_text(table, columns, conflict),
        StatementView::Select { table, columns, filter } => "SELECT "@ + selection_text(
            table,
            columns,
        ) + " FROM "@ + table.spec_name()@ + where_text(table, filter),
        StatementView::Delete { table, filter } => "DELETE FROM "@ + table.spec_name()@
            + where_text(table, filter),
        StatementView::Touch { table, stamp, filter, returning } => "UPDATE "@
            + table.spec_name()@ + " SET "@ + column_name(table, stamp.column) + " = "@
            + clock_text(stamp.clock) + where_text(table, filter) + " RETURNING "@ + join(
            column_names(table, returning),
            ", "@,
        ),
        StatementView::Trim { table, by, keep } => "DELETE FROM "@ + table.spec_name()@
            + " WHERE "@ + column_name(table, 0) + " NOT IN (SELECT "@ + column_name(table, 0)
            + " FROM "@ + table.spec_name()@ + " ORDER BY "@ + column_name(table, by)
            + " DESC LIMIT "@ + decimal(keep as nat) + ")"@,
    }
}

/// The content of a list of texts.
pub open spec fn texts(items: Seq<String>) -> Seq<Seq<char>> {
    Seq::new(items.len(), |i: int| items[i]@)
}

/// The digit `d`, as text.
fn digit(d: usize) -> (r: &'static str)
    requires
        d < 10,
    ensures
        r@ == digit_text(d as nat),
{
    if d == 0 {
        "0"
    } else if d == 1 {
        "1"
    } else if d == 2 {
        "2"
    } else if d == 3 {
        "3"
    } else if d == 4 {
        "4"
    } else if d == 5 {
        "5"
    } else if d == 6 {
        "6"
    } else if d == 7 {
        "7"
    } else if d == 8 {
        "8"
    } else {
        "9"
    }
}

/// Appends the number `n` in decimal notation.
pub fn push_decimal(out: &mut String, n: usize)
    ensures
        final(out)@ == old(out)@ + decimal(n as nat),
    decreases n,
{
    if n >= 10 {
        push_decimal(out, n / 10);
    }
    let ghost before = out@;
    out.append(digit(n % 10));
    assert(out@ =~= old(out)@ + decimal(n as nat));
}

/// Appends the texts in `items`, with `sep` between each two of them.
pub fn push_joined(out: &mut String, items: &Vec<String>, sep: &str)
    ensures
        final(out)@ == old(out)@ + join(texts(items@), sep@),
{
    let ghost all = texts(items@);
    let mut i: usize = 0;
    assert(all.take(0) =~= Seq::<Seq<char>>::empty());
    assert(out@ =~= old(out)@ + join(all.take(0), sep@));
    while i < items.len()
        invariant
            i <= items.len(),
            all == texts(items@),
            out@ == old(out)@ + join(all.take(i as int), sep@),
        decreases items.len() - i,
    {
        assert(all.take(i + 1).drop_last() =~= all.take(i as int));
        assert(all.take(i + 1).last() == items@[i as int]@);
        if i > 0 {
            out.append(sep);
        }
        out.append(items[i].as_str());
        assert(out@ =~= old(out)@ + join(all.take(i + 1), sep@));
        i += 1;
    }
    assert(all.take(items@.len() as int) =~= all);
}

/// The names of the listed columns.
fn names_of(cols: &Vec<Column>, columns: &Vec<usize>, Ghost(table): Ghost<Table>) -> (r: Vec<String>)
    requires
        cols@ == table.spec_columns(),
        forall|i: int| 0 <= i < columns@.len() ==> (#[trigger] columns@[i]) < cols@.len(),
    ensures
        texts(r@) == column_names(table, columns@),
{
    let mut out: Vec<String> = Vec::new();
    let mut i: usize = 0;
    while i < columns.len()
        invariant
            i <= columns.len(),
            out.len() == i,
            cols@ == table.spec_columns(),
            forall|i: int| 0 <= i < columns@.len() ==> (#[trigger] columns@[i]) < cols@.len(),
            forall|k: int| 0 <= k < i ==> (#[trigger] out@[k])@ == column_name(table, columns@[k]),
        decreases columns.len() - i,
    {
        assert(columns@[i as int] < cols@.len());
        out.push(String::from_str(cols[columns[i]].name));
        i += 1;
    }
    assert(texts(out@) =~= column_names(table, columns@));
    out
}

/// The condition that column `c` holds parameter `i`.
fn equal_of(cols: &Vec<Column>, c: usize, i: usize, Ghost(table): Ghost<Table>) -> (r: String)
    requires
        cols@ == table.spec_columns(),
        c < cols@.len(),
        i < usize::MAX,
    ensures
        r@ == equal_text(table, c, i as nat),
{
    let mut s = String::from_str(cols[c].name);
    s.append(" = $");
    push_decimal(&mut s, i + 1);
    s
}

/// Appends the `WHERE` clause of the filter.
fn push_where(out: &mut String, cols: &Vec<Column>, filter: &Filter, Ghost(table): Ghost<Table>)
    requires
        cols@ == table.spec_columns(),
        filter@.wf(table),
    ensures
        final(out)@ == old(out)@ + where_text(table, filter@),
{
    let ghost all = conditions(table, filter@);
    let mut items: Vec<String> = Vec::new();
    let mut i: usize = 0;
    while i < filter.equals.len()
        invariant
            i <= filter.equals.len(),
            items.len() == i,
            cols@ == table.spec_columns(),
            filter@.wf(table),
            all == conditions(table, filter@),
            forall|k: int| 0 <= k < i ==> (#[trigger] items@[k])@ == all[k],
        decreases filter.equals.len() - i,
    {
        assert(filter@.equals[i as int] < cols@.len());
        items.push(equal_of(cols, filter.equals[i], i, Ghost(table)));
        i += 1;
    }
    let mut j: usize = 0;
    while j < filter.guards.len()
        invariant
            j <= filter.guards.len(),
            items.len() == filter.equals.len() + j,
            cols@ == table.spec_columns(),
            filter@.wf(table),
            all == conditions(table, filter@),
            forall|k: int| 0 <= k < items.len() ==> (#[trigger] items@[k])@ == all[k],
        decreases filter.guards.len() - j,
    {
        assert(filter@.guards[j as int].spec_column() < cols@.len());
        let item = match filter.guards[j] {
            Guard::NotNull(c) => {
                let mut s = String::from_str(cols[c].name);
                s.append(" IS NOT NULL");
                s
            },
            Guard::IsFalse(c) => {
                let mut s = String::from_str(cols[c].name);
                s.append(" = '0'");
                s
            },
        };
        assert(item@ == all[filter.equals.len() + j]);
        items.push(item);
        j += 1;
    }
    assert(texts(items@) =~= all);
    if items.len() == 0 {
        assert(out@ =~= old(out)@ + where_text(table, filter@));
    } else {
        let ghost before = out@;
        out.append(" WHERE ");
        push_joined(out, &items, " AND ");
        assert(out@ =~= before + where_text(table, filter@));
    }
}

/// Appends the parenthesised list of the table's key columns.
fn push_key(out: &mut String, cols: &Vec<Column>, k: usize, Ghost(table): Ghost<Table>)
    requires
        cols@ == table.spec_columns(),
        k == table.spec_key_len(),
        k <= cols@.len(),
    ensures
        final(out)@ == old(out)@ + join(key_names(table), ", "@),
{
    let mut items: Vec<String> = Vec::new();
    let mut i: usize = 0;
    while i < k
        invariant
            i <= k,
            items.len() == i,
            cols@ == table.spec_columns(),
            k == table.spec_key_len(),
            k <= cols@.len(),
            forall|x: int| 0 <= x < i ==> (#[trigger] items@[x])@ == column_name(table, x as usize),
        decreases k - i,
    {
        items.push(String::from_str(cols[i].name));
        i += 1;
    }
    assert(texts(items@) =~= key_names(table));
    push_joined(out, &items, ", ");
}

/// How the statement spells "the current time".
fn clock_str(clock: Clock) -> (r: &'static str)
    ensures
        r@ == clock_text(clock),
{
    match clock {
        Clock::Now => "NOW()",
        Clock::LocalDatetime => "datetime(CURRENT_TIMESTAMP, 'localtime')",
    }
}

/// Appends the `ON CONFLICT` clause of an insert.
fn push_conflict(
    out: &mut String,
    cols: &Vec<Column>,
    table: Table,
    columns: &Vec<usize>,
    conflict: &Conflict,
)
    requires
        cols@ == table.spec_columns(),
        table.spec_key_len() <= table.spec_width(),
        all_below(columns@, table.spec_width()),
        conflict@ matches ConflictView::Update(params) ==> all_below(
            params,
            columns@.len(),
        ),
    ensures
        final(out)@ == old(out)@ + conflict_text(table, columns@, conflict@),
{
    let ghost head = out@;
    match conflict {
        Conflict::Abort => {
            assert(out@ =~= head + conflict_text(table, columns@, conflict@));
        },
        Conflict::Ignore => {
            out.append(" ON CONFLICT (");
            push_key(out, cols, table.key_len(), Ghost(table));
            out.append(") DO NOTHING");
            assert(out@ =~= head + conflict_text(table, columns@, conflict@));
        },
        Conflict::Update(params) => {
            out.append(" ON CONFLICT (");
            push_key(out, cols, table.key_len(), Ghost(table));
            out.append(") DO UPDATE SET ");
            let mut items: Vec<String> = Vec::new();
            let mut k: usize = 0;
            while k < params.len()
                invariant
                    k <= params.len(),
                    items.len() == k,
                    cols@ == table.spec_columns(),
                    all_below(columns@, table.spec_width()),
                    all_below(params@, columns@.len()),
                    forall|x: int|
                        0 <= x < k ==> (#[trigger] items@[x])@ == assignments(
                            table,
                            columns@,
                            params@,
                        )[x],
                decreases params.len() - k,
            {
                let p: usize = params[k];
                assert(params@[k as int] < columns@.len());
                assert(p < columns.len());
                assert(columns@[p as int] < cols@.len());
                items.push(equal_of(cols, columns[p], p, Ghost(table)));
                k += 1;
            }
            assert(texts(items@) =~= assignments(table, columns@, params@));
            push_joined(out, &items, ", ");
            assert(out@ =~= head + conflict_text(table, columns@, conflict@));
        },
    }
}

/// The SQL text of an insert.
fn insert_sql(table: Table, columns: &Vec<usize>, stamp: &Option<Stamp>, conflict: &Conflict) -> (r:
    String)
    requires
        (StatementView::Insert {
            table,
            columns: columns@,
            stamp: *stamp,
            conflict: conflict@,
        }).shaped(),
    ensures
        r@ == sql_text(
            StatementView::Insert { table, columns: columns@, stamp: *stamp, conflict: conflict@ },
        ),
{
    let cols = table.columns();
    proof {
        table.lemma_schema();
    }
    let mut out = String::from_str("INSERT INTO ");
    out.append(table.name());
    out.append(" (");
    let mut names = names_of(&cols, columns, Ghost(table));
    let mut values: Vec<String> = Vec::new();
    let mut i: usize = 0;
    while i < columns.len()
        invariant
            i <= columns.len(),
            values.len() == i,
            forall|x: int|
                0 <= x < i ==> (#[trigger] values@[x])@ == "$"@ + decimal((x + 1) as nat),
        decreases columns.len() - i,
    {
        let mut v = String::from_str("$");
        push_decimal(&mut v, i + 1);
        values.push(v);
        i += 1;
    }
    let ghost params = texts(values@);
    assert(params =~= Seq::new(columns@.len(), |i: int| "$"@ + decimal((i + 1) as nat)));
    match stamp {
        Some(s) => {
            let ghost before = texts(names@);
            names.push(String::from_str(cols[s.column].name));
            assert(texts(names@) =~= before.push(column_name(table, s.column)));
            values.push(String::from_str(clock_str(s.clock)));
            assert(texts(values@) =~= params.push(clock_text(s.clock)));
        },
        None => {},
    }
    assert(texts(names@) == insert_names(table, columns@, *stamp));
    assert(texts(values@) == insert_values(columns@.len(), *stamp));
    push_joined(&mut out, &names, ", ");
    out.append(") VALUES (");
    push_joined(&mut out, &values, ", ");
    out.append(")");
    push_conflict(&mut out, &cols, table, columns, conflict);
    out
}

/// The SQL text of a select.
fn select_sql(table: Table, columns: &Vec<usize>, filter: &Filter) -> (r: String)
    requires
        (StatementView::Select { table, columns: columns@, filter: filter@ }).shaped(),
    ensures
        r@ == sql_text(StatementView::Select { table, columns: columns@, filter: filter@ }),
{
    let cols = table.columns();
    let mut out = String::from_str("SELECT ");
    if columns.len() == 0 {
        out.append("1");
    } else {
        let names = names_of(&cols, columns, Ghost(table));
        push_joined(&mut out, &names, ", ");
    }
    out.append(" FROM ");
    out.append(table.name());
    push_where(&mut out, &cols, filter, Ghost(table));
    out
}

/// The SQL text of a delete.
fn delete_sql(table: Table, filter: &Filter) -> (r: String)
    requires
        (StatementView::Delete { table, filter: filter@ }).shaped(),
    ensures
        r@ == sql_text(StatementView::Delete { table, filter: filter@ }),
{
    let cols = table.columns();
    let mut out = String::from_str("DELETE FROM ");
    out.append(table.name());
    push_where(&mut out, &cols, filter, Ghost(table));
    out
}

/// The SQL text of a touch.
fn touch_sql(table: Table, stamp: Stamp, filter: &Filter, returning: &Vec<usize>) -> (r: String)
    requires
        (StatementView::Touch { table, stamp, filter: filter@, returning: returning@ }).shaped(),
    ensures
        r@ == sql_text(
            StatementView::Touch { table, stamp, filter: filter@, returning: returning@ },
        ),
{
    let cols = table.columns();
    let mut out = String::from_str("UPDATE ");
    out.append(table.name());
    out.append(" SET ");
    out.append(cols[stamp.column].name);
    out.append(" = ");
    out.append(clock_str(stamp.clock));
    push_where(&mut out, &cols, filter, Ghost(table));
    out.append(" RETURNING ");
    let names = names_of(&cols, returning, Ghost(table));
    push_joined(&mut out, &names, ", ");
    out
}

/// The SQL text of a trim.
fn trim_sql(table: Table, by: usize, keep: usize) -> (r: String)
    requires
        (StatementView::Trim { table, by, keep }).shaped(),
    ensures
        r@ == sql_text(StatementView::Trim { table, by, keep }),
{
    let cols = table.columns();
    let mut out = String::from_str("DELETE FROM ");
    out.append(table.name());
    out.append(" WHERE ");
    out.append(cols[0].name);
    out.append(" NOT IN (SELECT ");
    out.append(cols[0].name);
    out.append(" FROM ");
    out.append(table.name());
    out.append(" ORDER BY ");
    out.append(cols[by].name);
    out.append(" DESC LIMIT ");
    push_decimal(&mut out, keep);
    out.append(")");
    out
}

impl Statement {
    /// The SQL text of the statement.
    ///
    /// A statement that does not make sense for its table has none:
    /// `Error::Malformed` is returned for it, and for no other.
    pub fn sql(&self) -> (r: Result<String, Error>)
        ensures
            match r {
                Ok(s) => self@.wf() && s@ == sql_text(self@),
                Err(e) => !self@.wf() && e == Error::Malformed,
            },
    {
        if !self.is_well_formed() {
            return Err(Error::Malformed);
        }
        Ok(
            match self {
                Statement::Insert { table, columns, stamp, conflict } => insert_sql(
                    *table,
                    columns,
                    stamp,
                    conflict,
                ),
                Statement::Select { table, columns, filter } => select_sql(*table, columns, filter),
                Statement::Delete { table, filter } => delete_sql(*table, filter),
                Statement::Touch { table, stamp, filter, returning } => touch_sql(
                    *table,
                    *stamp,
                    filter,
                    returning,
                ),
                Statement::Trim { table, by, keep } => trim_sql(*table, *by, *keep),
            },
        )
    }
}

} // verus!
