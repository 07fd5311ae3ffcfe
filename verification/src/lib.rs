//! Recognition of the marker calls that `maud` templates expand to, and
//! recovery of the string literals woven into them.
//!
//! The crate works on a small typed expression tree ([`tree`]) together with a
//! table of absolute definition paths ([`resolve`]). The matchers and
//! extractors are in [`util`]. Every one of them is a pure query: a shape
//! that does not fit is an absence, never a fault.

pub mod resolve;
pub mod span;
pub mod text;
pub mod tree;
pub mod util;
