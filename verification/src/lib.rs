//! SQL state storage for a chat-protocol client.
//!
//! The store keeps room state, membership, receipts, account data, presence,
//! a bounded media cache and end-to-end-encryption key material in a
//! relational database, in either of two SQL dialects. Every payload is
//! opaque to it: what goes in comes out, byte for byte.
//!
//! The crate is built in layers.
//!
//! * [`schema`] names the tables, their columns and their keys, and
//!   [`statement`] describes a parameterized statement as data.
//! * [`helpers`] holds the dialects and, for each operation of the store, the
//!   statement that the operation runs; [`catalog`] holds those statements
//!   as mathematical values.
//! * [`render`] gives a statement its SQL text, [`bind`] pairs the text with
//!   typed parameters, and [`driver`] makes the query that `sqlx` runs.
//! * [`semantics`] says what each statement does to a table, and [`laws`]
//!   proves what follows, on the ground of [`facts`]: upserts are idempotent,
//!   reads by key return the last write, the media cache stays within its
//!   capacity, and so on.
//! * [`table`] and [`database`] are an engine that does in memory exactly
//!   what the semantics say; [`migrate`] creates its tables, and [`store`]
//!   is the store on top of it.
//!
//! ```rust,ignore
//! let mut store = StateStore::<sqlx::Sqlite>::new(MemoryDatabase::new())?;
//! store.execute(&sqlx::Sqlite::kv_upsert_query(), &vec![key, value], now)?;
//! ```

pub mod bind;
pub mod catalog;
pub mod database;
pub mod driver;
pub mod facts;
pub mod helpers;
pub mod laws;
pub mod migrate;
pub mod render;
pub mod schema;
pub mod semantics;
pub mod statement;
pub mod store;
pub mod table;
pub mod value;

pub use helpers::SupportedDatabase;
pub use store::StateStore;
