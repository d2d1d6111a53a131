//! Parameterized statements as data.
//!
//! A [`Statement`] says which table an operation works on, which columns it
//! writes or reads, and which rows it selects. Parameters are positional:
//! parameter `i` of a statement is written `$i+1` in its SQL text. What a
//! statement does to a table is defined in [`crate::semantics`]; its SQL text
//! in [`crate::render`].

use vstd::prelude::*;
use crate::schema::Table;
use crate::value::ValueKind;

verus! {

/// How a dialect spells "the current time".
#[derive(Clone, Copy, Debug, PartialEq, Eq, Structural)]
pub enum Clock {
    /// `NOW()`.
    Now,
    /// `datetime(CURRENT_TIMESTAMP, 'localtime')`.
    LocalDatetime,
}

/// A column that a statement sets to the current time.
#[derive(Clone, Copy, Debug, PartialEq, Eq, Structural)]
pub struct Stamp {
    pub column: usize,
    pub clock: Clock,
}

/// A condition on a row that takes no parameter.
#[derive(Clone, Copy, Debug, PartialEq, Eq, Structural)]
pub enum Guard {
    /// The column is not `NULL`.
    NotNull(usize),
    /// The flag in the column is false.
    IsFalse(usize),
}

impl Guard {
    /// The column that the guard looks at.
    pub open spec fn spec_column(self) -> usize {
        match self {
            Guard::NotNull(c) => c,
            Guard::IsFalse(c) => c,
        }
    }

    /// The column that the guard looks at.
    pub fn column(self) -> (r: usize)
        ensures
            r == self.spec_column(),
    {
        match self {
            Guard::NotNull(c) => c,
            Guard::IsFalse(c) => c,
        }
    }
}

/// Which rows a statement works on: those whose column `equals[i]` holds
/// parameter `i`, for every `i`, and which pass every guard.
#[derive(Debug, PartialEq, Eq)]
pub struct Filter {
    pub equals: Vec<usize>,
    pub guards: Vec<Guard>,
}

/// The mathematical content of a [`Filter`].
#[verifier::ext_equal]
pub struct FilterView {
    pub equals: Seq<usize>,
    pub guards: Seq<Guard>,
}

impl View for Filter {
    type V = FilterView;

    open spec fn view(&self) -> FilterView {
        FilterView { equals: self.equals@, guards: self.guards@ }
    }
}

/// What an insert does when the table already holds a row with the new
/// row's key.
#[derive(Debug, PartialEq, Eq)]
pub enum Conflict {
    /// The statement fails.
    Abort,
    /// The statement leaves the table as it is.
    Ignore,
    /// The statement writes the listed parameters over the columns that they
    /// belong to, and leaves every other column of the row as it is.
    Update(Vec<usize>),
}

/// The mathematical content of a [`Conflict`].
#[verifier::ext_equal]
pub enum ConflictView {
    Abort,
    Ignore,
    Update(Seq<usize>),
}

impl View for Conflict {
    type V = ConflictView;

    open spec fn view(&self) -> ConflictView {
        match self {
            Conflict::Abort => ConflictView::Abort,
            Conflict::Ignore => ConflictView::Ignore,
            Conflict::Update(params) => ConflictView::Update(params@),
        }
    }
}

/// A parameterized statement.
#[derive(Debug, PartialEq, Eq)]
#[allow(inconsistent_fields)]
pub enum Statement {
    /// Insert a row whose column `columns[i]` holds parameter `i`, whose
    /// stamp column, if any, holds the current time, and whose other columns
    /// hold `NULL`.
    Insert { table: Table, columns: Vec<usize>, stamp: Option<Stamp>, conflict: Conflict },
    /// Read the listed columns of the rows that pass the filter. With no
    /// column listed, each such row is reported by an empty result row.
    Select { table: Table, columns: Vec<usize>, filter: Filter },
    /// Delete the rows that pass the filter.
    Delete { table: Table, filter: Filter },
    /// Set the stamp column of the rows that pass the filter to the current
    /// time, and read the listed columns of those rows.
    Touch { table: Table, stamp: Stamp, filter: Filter, returning: Vec<usize> },
    /// Delete every row but the `keep` rows that rank highest by column `by`.
    Trim { table: Table, by: usize, keep: usize },
}

/// The mathematical content of a [`Statement`].
#[allow(inconsistent_fields)]
#[verifier::ext_equal]
pub enum StatementView {
    Insert { table: Table, columns: Seq<usize>, stamp: Option<Stamp>, conflict: ConflictView },
    Select { table: Table, columns: Seq<usize>, filter: FilterView },
    Delete { table: Table, filter: FilterView },
    Touch { table: Table, stamp: Stamp, filter: FilterView, returning: Seq<usize> },
    Trim { table: Table, by: usize, keep: usize },
}

impl View for Statement {
    type V = StatementView;

    open spec fn view(&self) -> StatementView {
        match self {
            Statement::Insert { table, columns, stamp, conflict } => StatementView::Insert {
                table: *table,
                columns: columns@,
                stamp: *stamp,
                conflict: conflict@,
            },
            Statement::Select { table, columns, filter } => StatementView::Select {
                table: *table,
                columns: columns@,
                filter: filter@,
            },
            Statement::Delete { table, filter } => StatementView::Delete {
                table: *table,
                filter: filter@,
            },
            Statement::Touch { table, stamp, filter, returning } => StatementView::Touch {
                table: *table,
                stamp: *stamp,
                filter: filter@,
                returning: returning@,
            },
            Statement::Trim { table, by, keep } => StatementView::Trim {
                table: *table,
                by: *by,
                keep: *keep,
            },
        }
    }
}

/// Every entry of `v` is below `bound`.
pub open spec fn all_below(v: Seq<usize>, bound: nat) -> bool {
    forall|i: int| 0 <= i < v.len() ==> (#[trigger] v[i]) < bound
}

/// None of the listed columns of the table holds timestamps.
pub open spec fn timeless(table: Table, columns: Seq<usize>) -> bool {
    forall|i: int|
        0 <= i < columns.len() ==> table.spec_kind((#[trigger] columns[i]) as int)
            != ValueKind::Time
}

/// No entry of `v` is `x`.
pub open spec fn none_is(v: Seq<usize>, x: usize) -> bool {
    forall|i: int| 0 <= i < v.len() ==> (#[trigger] v[i]) != x
}

/// No two entries of `v` are the same.
pub open spec fn distinct(v: Seq<usize>) -> bool {
    forall|i: int, j: int| 0 <= i < j < v.len() ==> (#[trigger] v[i]) != (#[trigger] v[j])
}

impl FilterView {
    /// The filter names columns of `table` only.
    pub open spec fn wf(self, table: Table) -> bool {
        &&& all_below(self.equals, table.spec_width())
        &&& forall|j: int|
            0 <= j < self.guards.len() ==> (#[trigger] self.guards[j]).spec_column()
                < table.spec_width()
    }

    /// The filter does not look at column `c`.
    pub open spec fn avoids(self, c: usize) -> bool {
        &&& none_is(self.equals, c)
        &&& forall|j: int|
            0 <= j < self.guards.len() ==> (#[trigger] self.guards[j]).spec_column() != c
    }
}

impl StatementView {
    /// The table that the statement works on.
    pub open spec fn table(self) -> Table {
        match self {
            StatementView::Insert { table, .. } => table,
            StatementView::Select { table, .. } => table,
            StatementView::Delete { table, .. } => table,
            StatementView::Touch { table, .. } => table,
            StatementView::Trim { table, .. } => table,
        }
    }

    /// The columns that the parameters belong to: parameter `i` is stored
    /// in, or compared with, column `targets()[i]`.
    pub open spec fn targets(self) -> Seq<usize> {
        match self {
            StatementView::Insert { columns, .. } => columns,
            StatementView::Select { filter, .. } => filter.equals,
            StatementView::Delete { filter, .. } => filter.equals,
            StatementView::Touch { filter, .. } => filter.equals,
            StatementView::Trim { .. } => Seq::empty(),
        }
    }

    /// How the statement spells "the current time"; `Clock::Now` for a
    /// statement that does not ask for the time.
    pub open spec fn clock(self) -> Clock {
        match self {
            StatementView::Insert { stamp: Some(s), .. } => s.clock,
            StatementView::Touch { stamp, .. } => stamp.clock,
            _ => Clock::Now,
        }
    }

    /// The statement, with the current time spelled as `clock` says.
    pub open spec fn with_clock(self, clock: Clock) -> StatementView {
        match self {
            StatementView::Insert { table, columns, stamp: Some(s), conflict } => {
                StatementView::Insert {
                    table,
                    columns,
                    stamp: Some(Stamp { column: s.column, clock }),
                    conflict,
                }
            },
            StatementView::Touch { table, stamp, filter, returning } => StatementView::Touch {
                table,
                stamp: Stamp { column: stamp.column, clock },
                filter,
                returning,
            },
            _ => self,
        }
    }

    /// The number of parameters.
    pub open spec fn arity(self) -> nat {
        self.targets().len()
    }

    /// The kind of value that parameter `i` stands for.
    pub open spec fn param_kind(self, i: int) -> ValueKind {
        self.table().spec_kind(self.targets()[i] as int)
    }

    /// The columns that a result row shows, in order; none for a statement
    /// that reports no rows.
    pub open spec fn shown(self) -> Seq<usize> {
        match self {
            StatementView::Select { columns, .. } => columns,
            StatementView::Touch { returning, .. } => returning,
            _ => Seq::empty(),
        }
    }

    /// The number of columns in each result row.
    pub open spec fn result_width(self) -> nat {
        self.shown().len()
    }

    /// The kind of value in column `i` of a result row.
    pub open spec fn result_kind(self, i: int) -> ValueKind {
        self.table().spec_kind(self.shown()[i] as int)
    }

    /// Whether the statement makes sense for its table.
    ///
    /// It has the shape that its table asks for, and it neither takes a
    /// timestamp as a parameter nor shows one in its result: timestamps are
    /// set and compared by the database alone.
    pub open spec fn wf(self) -> bool {
        &&& self.shaped()
        &&& timeless(self.table(), self.targets())
        &&& timeless(self.table(), self.shown())
    }

    /// Whether the statement has the shape that its table asks for: it
    /// names columns of the table only; an insert names a column, none
    /// twice, and resolves a conflict only on a keyed table; a touch reads
    /// a column; a stamp goes to a timestamp column outside the key that
    /// the statement does not otherwise write or look at; a trim ranks by a
    /// timestamp column that is never `NULL`, on a table with a one-column
    /// key.
    pub open spec fn shaped(self) -> bool {
        match self {
            StatementView::Insert { table, columns, stamp, conflict } => {
                &&& columns.len() > 0
                &&& all_below(columns, table.spec_width())
                &&& distinct(columns)
                &&& stamp matches Some(s) ==> {
                    &&& table.spec_key_len() <= s.column < table.spec_width()
                    &&& table.spec_kind(s.column as int) == ValueKind::Time
                    &&& none_is(columns, s.column)
                }
                &&& !(conflict is Abort) ==> table.spec_key_len() > 0
                &&& conflict matches ConflictView::Update(params) ==> all_below(
                    params,
                    columns.len(),
                )
            },
            StatementView::Select { table, columns, filter } => {
                &&& all_below(columns, table.spec_width())
                &&& filter.wf(table)
            },
            StatementView::Delete { table, filter } => filter.wf(table),
            StatementView::Touch { table, stamp, filter, returning } => {
                &&& table.spec_key_len() <= stamp.column < table.spec_width()
                &&& table.spec_kind(stamp.column as int) == ValueKind::Time
                &&& filter.wf(table)
                &&& filter.avoids(stamp.column)
                &&& returning.len() > 0
                &&& all_below(returning, table.spec_width())
            },
            StatementView::Trim { table, by, keep } => {
                &&& by < table.spec_width()
                &&& table.spec_kind(by as int) == ValueKind::Time
                &&& !table.spec_nullable(by as int)
                &&& table.spec_key_len() == 1
            },
        }
    }
}

/// Whether every entry of `v` is below `bound`.
fn is_all_below(v: &Vec<usize>, bound: usize) -> (r: bool)
    ensures
        r == all_below(v@, bound as nat),
{
    let mut i: usize = 0;
    while i < v.len()
        invariant
            i <= v.len(),
            forall|k: int| 0 <= k < i ==> (#[trigger] v@[k]) < bound,
        decreases v.len() - i,
    {
        if v[i] >= bound {
            return false;
        }
        i += 1;
    }
    true
}

/// Whether no entry of `v` is `x`.
fn is_none(v: &Vec<usize>, x: usize) -> (r: bool)
    ensures
        r == none_is(v@, x),
{
    let mut i: usize = 0;
    while i < v.len()
        invariant
            i <= v.len(),
            forall|k: int| 0 <= k < i ==> (#[trigger] v@[k]) != x,
        decreases v.len() - i,
    {
        if v[i] == x {
            return false;
        }
        i += 1;
    }
    true
}

/// Whether no two entries of `v` are the same.
fn is_distinct(v: &Vec<usize>) -> (r: bool)
    ensures
        r == distinct(v@),
{
    let mut j: usize = 0;
    while j < v.len()
        invariant
            j <= v.len(),
            forall|a: int, b: int| 0 <= a < b < j ==> (#[trigger] v@[a]) != (#[trigger] v@[b]),
        decreases v.len() - j,
    {
        let mut i: usize = 0;
        while i < j
            invariant
                i <= j < v.len(),
                forall|a: int| 0 <= a < i ==> (#[trigger] v@[a]) != v@[j as int],
            decreases j - i,
        {
            if v[i] == v[j] {
                return false;
            }
            i += 1;
        }
        j += 1;
    }
    true
}

/// Whether none of the listed columns holds timestamps.
fn is_timeless(cols: &Vec<crate::schema::Column>, columns: &Vec<usize>, Ghost(table): Ghost<Table>) -> (r: bool)
    requires
        cols@ == table.spec_columns(),
        all_below(columns@, table.spec_width()),
    ensures
        r == timeless(table, columns@),
{
    let mut i: usize = 0;
    while i < columns.len()
        invariant
            i <= columns.len(),
            cols@ == table.spec_columns(),
            all_below(columns@, table.spec_width()),
            forall|k: int|
                0 <= k < i ==> table.spec_kind((#[trigger] columns@[k]) as int) != ValueKind::Time,
        decreases columns.len() - i,
    {
        assert(columns@[i as int] < table.spec_width());
        match cols[columns[i]].kind {
            ValueKind::Time => {
                return false;
            },
            _ => {},
        }
        i += 1;
    }
    true
}

/// The kinds of the listed columns.
fn kinds_of(cols: &Vec<crate::schema::Column>, columns: &Vec<usize>, Ghost(table): Ghost<Table>) -> (r: Vec<
    ValueKind,
>)
    requires
        cols@ == table.spec_columns(),
        all_below(columns@, table.spec_width()),
    ensures
        r@.len() == columns@.len(),
        forall|i: int| 0 <= i < r@.len() ==> #[trigger] r@[i] == table.spec_kind(columns@[i] as int),
{
    let mut out: Vec<ValueKind> = Vec::new();
    let mut i: usize = 0;
    while i < columns.len()
        invariant
            i <= columns.len(),
            out.len() == i,
            cols@ == table.spec_columns(),
            all_below(columns@, table.spec_width()),
            forall|k: int| 0 <= k < i ==> #[trigger] out@[k] == table.spec_kind(columns@[k] as int),
        decreases columns.len() - i,
    {
        assert(columns@[i as int] < table.spec_width());
        out.push(cols[columns[i]].kind);
        i += 1;
    }
    out
}

impl Filter {
    /// Whether the filter names columns of `table` only.
    pub fn is_well_formed(&self, table: Table) -> (r: bool)
        ensures
            r == self@.wf(table),
    {
        let width: usize = table.columns().len();
        if !is_all_below(&self.equals, width) {
            return false;
        }
        let mut j: usize = 0;
        while j < self.guards.len()
            invariant
                j <= self.guards.len(),
                width == table.spec_width(),
                forall|k: int| 0 <= k < j ==> (#[trigger] self.guards@[k]).spec_column() < width,
            decreases self.guards.len() - j,
        {
            if self.guards[j].column() >= width {
                assert(self@.guards[j as int].spec_column() >= width);
                return false;
            }
            j += 1;
        }
        true
    }

    /// Whether the filter does not look at column `c`.
    pub fn avoids(&self, c: usize) -> (r: bool)
        ensures
            r == self@.avoids(c),
    {
        if !is_none(&self.equals, c) {
            return false;
        }
        let mut j: usize = 0;
        while j < self.guards.len()
            invariant
                j <= self.guards.len(),
                forall|k: int| 0 <= k < j ==> (#[trigger] self.guards@[k]).spec_column() != c,
            decreases self.guards.len() - j,
        {
            if self.guards[j].column() == c {
                assert(self@.guards[j as int].spec_column() == c);
                return false;
            }
            j += 1;
        }
        true
    }
}

impl Statement {
    /// The table that the statement works on.
    pub fn table(&self) -> (r: Table)
        ensures
            r == self@.table(),
    {
        match self {
            Statement::Insert { table, .. } => *table,
            Statement::Select { table, .. } => *table,
            Statement::Delete { table, .. } => *table,
            Statement::Touch { table, .. } => *table,
            Statement::Trim { table, .. } => *table,
        }
    }

    /// The number of parameters.
    pub fn arity(&self) -> (r: usize)
        ensures
            r == self@.arity(),
    {
        match self {
            Statement::Insert { columns, .. } => columns.len(),
            Statement::Select { filter, .. } => filter.equals.len(),
            Statement::Delete { filter, .. } => filter.equals.len(),
            Statement::Touch { filter, .. } => filter.equals.len(),
            Statement::Trim { .. } => 0,
        }
    }

    /// The number of columns in each result row.
    pub fn result_width(&self) -> (r: usize)
        ensures
            r == self@.result_width(),
    {
        match self {
            Statement::Select { columns, .. } => columns.len(),
            Statement::Touch { returning, .. } => returning.len(),
            _ => 0,
        }
    }

    /// The kinds of the statement's parameters, in order: what a driver
    /// needs to know to bind a `NULL` of the right type. `None` for a
    /// statement that does not make sense for its table.
    pub fn parameter_kinds(&self) -> (r: Option<Vec<ValueKind>>)
        ensures
            r is Some == self@.wf(),
            r matches Some(kinds) ==> kinds@.len() == self@.arity() && forall|i: int|
                0 <= i < kinds@.len() ==> #[trigger] kinds@[i] == self@.param_kind(i),
    {
        if !self.is_well_formed() {
            return None;
        }
        let cols = self.table().columns();
        let empty: Vec<usize> = Vec::new();
        let targets: &Vec<usize> = match self {
            Statement::Insert { columns, .. } => columns,
            Statement::Select { filter, .. } => &filter.equals,
            Statement::Delete { filter, .. } => &filter.equals,
            Statement::Touch { filter, .. } => &filter.equals,
            Statement::Trim { .. } => &empty,
        };
        assert(targets@ =~= self@.targets());
        Some(kinds_of(&cols, targets, Ghost(self@.table())))
    }

    /// The kinds of the values in a result row, in order: what a driver
    /// needs to know to decode one. `None` for a statement that does not
    /// make sense for its table.
    pub fn result_kinds(&self) -> (r: Option<Vec<ValueKind>>)
        ensures
            r is Some == self@.wf(),
            r matches Some(kinds) ==> kinds@.len() == self@.result_width() && forall|i: int|
                0 <= i < kinds@.len() ==> #[trigger] kinds@[i] == self@.result_kind(i),
    {
        if !self.is_well_formed() {
            return None;
        }
        let cols = self.table().columns();
        let empty: Vec<usize> = Vec::new();
        let shown: &Vec<usize> = match self {
            Statement::Select { columns, .. } => columns,
            Statement::Touch { returning, .. } => returning,
            _ => &empty,
        };
        assert(shown@ =~= self@.shown());
        Some(kinds_of(&cols, shown, Ghost(self@.table())))
    }

    /// Whether the statement makes sense for its table.
    pub fn is_well_formed(&self) -> (r: bool)
        ensures
            r == self@.wf(),
    {
        if !self.is_shaped() {
            return false;
        }
        let cols = self.table().columns();
        let empty: Vec<usize> = Vec::new();
        let targets: &Vec<usize> = match self {
            Statement::Insert { columns, .. } => columns,
            Statement::Select { filter, .. } => &filter.equals,
            Statement::Delete { filter, .. } => &filter.equals,
            Statement::Touch { filter, .. } => &filter.equals,
            Statement::Trim { .. } => &empty,
        };
        let shown: &Vec<usize> = match self {
            Statement::Select { columns, .. } => columns,
            Statement::Touch { returning, .. } => returning,
            _ => &empty,
        };
        assert(targets@ =~= self@.targets());
        assert(shown@ =~= self@.shown());
        is_timeless(&cols, targets, Ghost(self@.table())) && is_timeless(
            &cols,
            shown,
            Ghost(self@.table()),
        )
    }

    /// Whether the statement has the shape that its table asks for.
    fn is_shaped(&self) -> (r: bool)
        ensures
            r == self@.shaped(),
    {
        match self {
            Statement::Insert { table, columns, stamp, conflict } => {
                let cols = table.columns();
                let width: usize = cols.len();
                if columns.len() == 0 || !is_all_below(columns, width) || !is_distinct(columns) {
                    return false;
                }
                match stamp {
                    Some(s) => {
                        if s.column >= width || s.column < table.key_len() {
                            return false;
                        }
                        let timed = match cols[s.column].kind {
                            ValueKind::Time => true,
                            _ => false,
                        };
                        if !timed || !is_none(columns, s.column) {
                            return false;
                        }
                    },
                    None => {},
                }
                match conflict {
                    Conflict::Abort => true,
                    Conflict::Ignore => table.key_len() > 0,
                    Conflict::Update(params) => table.key_len() > 0 && is_all_below(
                        params,
                        columns.len(),
                    ),
                }
            },
            Statement::Select { table, columns, filter } => {
                let width: usize = table.columns().len();
                is_all_below(columns, width) && filter.is_well_formed(*table)
            },
            Statement::Delete { table, filter } => filter.is_well_formed(*table),
            Statement::Touch { table, stamp, filter, returning } => {
                let cols = table.columns();
                let width: usize = cols.len();
                if stamp.column >= width || stamp.column < table.key_len() {
                    return false;
                }
                let timed = match cols[stamp.column].kind {
                    ValueKind::Time => true,
                    _ => false,
                };
                timed && filter.is_well_formed(*table) && filter.avoids(stamp.column) && returning.len() > 0
                    && is_all_below(returning, width)
            },
            Statement::Trim { table, by, keep } => {
                let cols = table.columns();
                if *by >= cols.len() {
                    return false;
                }
                let timed = match cols[*by].kind {
                    ValueKind::Time => true,
                    _ => false,
                };
                timed && !cols[*by].nullable && table.key_len() == 1
            },
        }
    }
}

} // verus!
