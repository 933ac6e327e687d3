//! Discarding history: the compaction request and its response.

use vstd::prelude::*;

verus! {

/// Asks the store to discard every revision below `revision`. The client's
/// responsibility ends at shaping this request; the store performs the work
/// and may reject an invalid boundary.
pub struct CompactRequest {
    pub revision: i64,
}

impl CompactRequest {
    /// A compaction up to (excluding) `revision`.
    pub fn new(revision: i64) -> (r: Self)
        ensures
            r.revision == revision,
    {
        Self { revision }
    }
}

/// Outcome of a compaction: the store reports only that it happened.
pub struct CompactResponse {}

impl CompactResponse {
    /// Wraps a decoded compaction outcome, which carries no payload.
    pub fn from_wire() -> Self {
        Self {  }
    }
}

} // verus!
