//! Messages to the segment updater.

use crate::segment::{SegmentId, SegmentMeta};
use vstd::prelude::*;

verus! {

/// A change that the segment updater applies to the index.
#[derive(Debug)]
pub enum SegmentUpdate {
    /// An indexing worker has finished a segment.
    AddSegment(SegmentMeta),
    /// The given segments are about to be merged.
    StartMerge(Vec<SegmentId>),
    /// The given segments have been merged into a new one.
    EndMerge(Vec<SegmentId>, SegmentMeta),
    /// Segments that arrive from now on belong to a generation that is being
    /// rolled back.
    CancelGeneration,
    /// A new generation begins: segments are accepted again.
    NewGeneration,
}

} // verus!
