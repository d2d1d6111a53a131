//! What holds of the store, whatever the table and the parameters.
//!
//! Each law is a proof about the meaning of statements in
//! [`crate::semantics`]. The engine does what that meaning says, so each law
//! holds of the engine; a database that implements the statements' SQL text
//! faithfully obeys it as well.

pub mod deletes;
pub mod media;
pub mod reads;
pub mod rooms;
pub mod statements;
pub mod writes;
