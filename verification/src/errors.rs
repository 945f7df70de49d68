//! The failures an indexing run can surface. Parse-side failures and
//! sink-side failures are kept apart, as the two stages surface them to
//! different callers.

use vstd::prelude::*;

verus! {

/// Why the materializer produced no tree.
#[derive(Clone, Copy, PartialEq, Eq, Structural, Debug)]
pub enum ParseError {
    /// The parser would not accept the requested grammar.
    GrammarUnavailable,
    /// The parser rejected the input outright (recoverable syntax errors
    /// still yield a tree and are not reported here).
    ParseRejected,
}

/// What the sink reported when it refused a request.
#[derive(Clone, Copy, PartialEq, Eq, Structural, Debug)]
pub enum SinkError {
    /// The store could not be reached (connection or authorization failure).
    Unavailable,
    /// The store refused the write (duplicate vertex identifier, or an edge
    /// endpoint that does not exist).
    ConstraintViolation,
}

/// A projection run aborted mid-traversal: the identifier of the node whose
/// request the sink refused, and the sink's own error.
#[derive(Clone, Copy, PartialEq, Eq, Structural, Debug)]
pub struct ProjectionFailure {
    pub node_id: usize,
    pub cause: SinkError,
}

} // verus!
