//! Projection of a concrete syntax tree into a property graph.
//!
//! The library is split along the two stages of an indexing run:
//! [`materialize`] turns source text into a flat, arena-indexed
//! [`tree::SyntaxTree`], and [`project`] turns such a tree into the stream
//! of vertex- and edge-creation requests that a graph sink must execute.
//! All storage and network I/O stays with the caller; the request stream is
//! plain data.

pub mod errors;
pub mod label;
pub mod laws;
pub mod materialize;
pub mod project;
pub mod tree;
