//! Avro schemas as a typed object graph: decoding from a JSON value tree with
//! the grammar's fixed disambiguation order, encoding back to JSON, and the
//! round-trip law between the two. A small module converts command-line
//! literals to the physical representation of a column for bloom-filter checks.

use vstd::prelude::*;

pub mod decode;
pub mod encode;
pub mod filter;
pub mod json;
pub mod laws;
pub mod schema;
pub mod text;

verus! {

} // verus!
