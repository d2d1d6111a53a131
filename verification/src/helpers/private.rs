//! Keeps the set of dialects closed.

use vstd::prelude::*;

verus! {

/// A trait that only this crate can implement. A trait that has it as a
/// supertrait has only the implementations that this crate gives it.
pub trait Sealed {

}

impl Sealed for sqlx::Postgres {

}

impl Sealed for sqlx::Sqlite {

}

} // verus!
