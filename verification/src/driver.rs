//! Queries of `sqlx`, filled from prepared statements.
//!
//! [`postgres_query`] and [`sqlite_query`] turn a prepared statement into
//! the query that `sqlx` runs: the statement's text, with each parameter
//! bound in its place and with its type. What is left to the caller is to
//! run the query on a connection.

use vstd::prelude::*;
use crate::bind::{Parameter, Prepared};
use crate::value::ValueView;

verus! {

/// A query of `sqlx` for PostgreSQL. Nothing but its text and the values
/// bound to it is known of it here.
#[verifier::external_body]
pub struct PostgresQuery<'q> {
    /// The query, for the caller to run.
    pub query: sqlx::query::Query<'q, sqlx::Postgres, sqlx::postgres::PgArguments>,
}

/// A query of `sqlx` for SQLite. Nothing but its text and the values bound
/// to it is known of it here.
#[verifier::external_body]
pub struct SqliteQuery<'q> {
    /// The query, for the caller to run.
    pub query: sqlx::query::Query<'q, sqlx::Sqlite, sqlx::sqlite::SqliteArguments<'q>>,
}

/// The SQL text that a query for PostgreSQL was made from.
pub uninterp spec fn postgres_text(q: PostgresQuery<'_>) -> Seq<char>;

/// The values bound to a query for PostgreSQL, in the order in which they
/// were bound.
pub uninterp spec fn postgres_bound(q: PostgresQuery<'_>) -> Seq<ValueView>;

/// The SQL text that a query for SQLite was made from.
pub uninterp spec fn sqlite_text(q: SqliteQuery<'_>) -> Seq<char>;

/// The values bound to a query for SQLite, in the order in which they were
/// bound.
pub uninterp spec fn sqlite_bound(q: SqliteQuery<'_>) -> Seq<ValueView>;

/// What a flag that may be missing holds.
pub open spec fn flag_view(value: Option<bool>) -> ValueView {
    match value {
        Some(b) => ValueView::Bool(b),
        None => ValueView::Null,
    }
}

/// What a piece of text that may be missing holds.
pub open spec fn text_view(value: Option<&str>) -> ValueView {
    match value {
        Some(s) => ValueView::Text(s@),
        None => ValueView::Null,
    }
}

/// What a payload that may be missing holds.
pub open spec fn blob_view(value: Option<&[u8]>) -> ValueView {
    match value {
        Some(b) => ValueView::Blob(b@),
        None => ValueView::Null,
    }
}

/// `sqlx::query` for PostgreSQL: a query with the given text and no value
/// bound.
#[verifier::external_body]
fn postgres_new<'q>(sql: &'q str) -> (q: PostgresQuery<'q>)
    ensures
        postgres_text(q) == sql@,
        postgres_bound(q) == Seq::<ValueView>::empty(),
{
    PostgresQuery { query: sqlx::query(sql) }
}

/// `Query::bind` for PostgreSQL, on a flag: the query with the same text
/// and one more value bound, which is the flag, or `NULL` of its type.
#[verifier::external_body]
fn postgres_bind_flag<'q>(q: PostgresQuery<'q>, value: Option<bool>) -> (r: PostgresQuery<'q>)
    ensures
        postgres_text(r) == postgres_text(q),
        postgres_bound(r) == postgres_bound(q).push(flag_view(value)),
{
    PostgresQuery { query: q.query.bind(value) }
}

/// `Query::bind` for PostgreSQL, on text: the query with the same text and
/// one more value bound, which is the text, or `NULL` of its type.
#[verifier::external_body]
fn postgres_bind_text<'q>(q: PostgresQuery<'q>, value: Option<&'q str>) -> (r: PostgresQuery<'q>)
    ensures
        postgres_text(r) == postgres_text(q),
        postgres_bound(r) == postgres_bound(q).push(text_view(value)),
{
    PostgresQuery { query: q.query.bind(value) }
}

/// `Query::bind` for PostgreSQL, on a payload: the query with the same text
/// and one more value bound, which is the payload, or `NULL` of its type.
#[verifier::external_body]
fn postgres_bind_blob<'q>(q: PostgresQuery<'q>, value: Option<&'q [u8]>) -> (r: PostgresQuery<'q>)
    ensures
        postgres_text(r) == postgres_text(q),
        postgres_bound(r) == postgres_bound(q).push(blob_view(value)),
{
    PostgresQuery { query: q.query.bind(value) }
}

/// `sqlx::query` for SQLite: a query with the given text and no value
/// bound.
#[verifier::external_body]
fn sqlite_new<'q>(sql: &'q str) -> (q: SqliteQuery<'q>)
    ensures
        sqlite_text(q) == sql@,
        sqlite_bound(q) == Seq::<ValueView>::empty(),
{
    SqliteQuery { query: sqlx::query(sql) }
}

/// `Query::bind` for SQLite, on a flag: the query with the same text and
/// one more value bound, which is the flag, or `NULL`.
#[verifier::external_body]
fn sqlite_bind_flag<'q>(q: SqliteQuery<'q>, value: Option<bool>) -> (r: SqliteQuery<'q>)
    ensures
        sqlite_text(r) == sqlite_text(q),
        sqlite_bound(r) == sqlite_bound(q).push(flag_view(value)),
{
    SqliteQuery { query: q.query.bind(value) }
}

/// `Query::bind` for SQLite, on text: the query with the same text and one
/// more value bound, which is the text, or `NULL`.
#[verifier::external_body]
fn sqlite_bind_text<'q>(q: SqliteQuery<'q>, value: Option<&'q str>) -> (r: SqliteQuery<'q>)
    ensures
        sqlite_text(r) == sqlite_text(q),
        sqlite_bound(r) == sqlite_bound(q).push(text_view(value)),
{
    SqliteQuery { query: q.query.bind(value) }
}

/// `Query::bind` for SQLite, on a payload: the query with the same text and
/// one more value bound, which is the payload, or `NULL`.
#[verifier::external_body]
fn sqlite_bind_blob<'q>(q: SqliteQuery<'q>, value: Option<&'q [u8]>) -> (r: SqliteQuery<'q>)
    ensures
        sqlite_text(r) == sqlite_text(q),
        sqlite_bound(r) == sqlite_bound(q).push(blob_view(value)),
{
    SqliteQuery { query: q.query.bind(value) }
}

/// What the parameters hold, in order.
pub open spec fn values(parameters: Seq<Parameter>) -> Seq<ValueView> {
    Seq::new(parameters.len(), |i: int| parameters[i].spec_value())
}

/// The prepared statement as a query for PostgreSQL: its text, with its
/// parameters bound in order, each with the type of its column.
pub fn postgres_query<'q>(prepared: &'q Prepared) -> (q: PostgresQuery<'q>)
    ensures
        postgres_text(q) == prepared.sql@,
        postgres_bound(q) == values(prepared.parameters@),
{
    let mut q = postgres_new(prepared.sql.as_str());
    let mut i: usize = 0;
    assert(values(prepared.parameters@).take(0) =~= Seq::<ValueView>::empty());
    while i < prepared.parameters.len()
        invariant
            i <= prepared.parameters.len(),
            postgres_text(q) == prepared.sql@,
            postgres_bound(q) == values(prepared.parameters@).take(i as int),
        decreases prepared.parameters.len() - i,
    {
        let ghost before = postgres_bound(q);
        q = match &prepared.parameters[i] {
            Parameter::Bool(b) => postgres_bind_flag(q, *b),
            Parameter::Text(s) => postgres_bind_text(
                q,
                match s {
                    Some(s) => Some(s.as_str()),
                    None => None,
                },
            ),
            Parameter::Blob(b) => postgres_bind_blob(
                q,
                match b {
                    Some(b) => Some(b.as_slice()),
                    None => None,
                },
            ),
        };
        assert(postgres_bound(q) == before.push(prepared.parameters@[i as int].spec_value()));
        assert(values(prepared.parameters@).take(i + 1) =~= values(prepared.parameters@).take(
            i as int,
        ).push(prepared.parameters@[i as int].spec_value()));
        i += 1;
    }
    assert(values(prepared.parameters@).take(prepared.parameters@.len() as int) =~= values(
        prepared.parameters@,
    ));
    q
}

/// The prepared statement as a query for SQLite: its text, with its
/// parameters bound in order.
pub fn sqlite_query<'q>(prepared: &'q Prepared) -> (q: SqliteQuery<'q>)
    ensures
        sqlite_text(q) == prepared.sql@,
        sqlite_bound(q) == values(prepared.parameters@),
{
    let mut q = sqlite_new(prepared.sql.as_str());
    let mut i: usize = 0;
    assert(values(prepared.parameters@).take(0) =~= Seq::<ValueView>::empty());
    while i < prepared.parameters.len()
        invariant
            i <= prepared.parameters.len(),
            sqlite_text(q) == prepared.sql@,
            sqlite_bound(q) == values(prepared.parameters@).take(i as int),
        decreases prepared.parameters.len() - i,
    {
        let ghost before = sqlite_bound(q);
        q = match &prepared.parameters[i] {
            Parameter::Bool(b) => sqlite_bind_flag(q, *b),
            Parameter::Text(s) => sqlite_bind_text(
                q,
                match s {
                    Some(s) => Some(s.as_str()),
                    None => None,
                },
            ),
            Parameter::Blob(b) => sqlite_bind_blob(
                q,
                match b {
                    Some(b) => Some(b.as_slice()),
                    None => None,
                },
            ),
        };
        assert(sqlite_bound(q) == before.push(prepared.parameters@[i as int].spec_value()));
        assert(values(prepared.parameters@).take(i + 1) =~= values(prepared.parameters@).take(
            i as int,
        ).push(prepared.parameters@[i as int].spec_value()));
        i += 1;
    }
    assert(values(prepared.parameters@).take(prepared.parameters@.len() as int) =~= values(
        prepared.parameters@,
    ));
    q
}

} // verus!
