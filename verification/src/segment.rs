//! Segments, the immutable pieces an index is made of.

use vstd::prelude::*;

verus! {

/// Identifies a segment. Every segment gets an id of its own when it is created.
#[derive(Debug, Clone, Copy, PartialEq, Eq, Structural)]
pub struct SegmentId {
    pub uuid: u128,
}

/// What an index remembers of a finished segment.
#[derive(Debug, Clone, Copy, PartialEq, Eq, Structural)]
pub struct SegmentMeta {
    pub segment_id: SegmentId,
    /// How many documents the segment holds.
    pub num_docs: usize,
}

/// Segments that a merge policy proposes to merge into one.
#[derive(Debug)]
pub struct MergeCandidate {
    pub segment_ids: Vec<SegmentId>,
}

} // verus!
