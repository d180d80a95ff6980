//! A verified value codec for a relational database wire protocol:
//! text and binary representations of typed column values, the
//! geometric and array grammars built on them, and the projection /
//! row-decoding layer that turns raw result rows into typed records.

pub mod array;
pub mod bytes;
pub mod errors;
pub mod from_sql;
pub mod geo;
pub mod laws;
pub mod pq;
pub mod projection;
pub mod query;
pub mod row;
pub mod scalar;
pub mod text;
pub mod to_sql;

use vstd::prelude::*;

verus! {

/// Every fallible codec operation reports one of the library's own
/// error kinds.
pub type Result<T> = core::result::Result<T, crate::errors::Error>;

} // verus!
