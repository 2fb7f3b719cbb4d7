//! What the index writer knows of its index.

use crate::segment::{SegmentId, SegmentMeta};
use crate::segment_manager::{Registers, SegmentManager, new_entry, segment_ids};
use vstd::prelude::*;

verus! {

/// The state of an index.
#[verifier::ext_equal]
pub struct IndexView {
    pub registers: Registers,
    /// The docstamp of the last commit.
    pub docstamp: u64,
    /// The segments whose files are to be deleted, in order.
    pub deletions: Seq<SegmentId>,
}

impl IndexView {
    /// The files of one more segment are to be deleted.
    pub open spec fn delete_segment(self, segment_id: SegmentId) -> IndexView {
        IndexView { deletions: self.deletions.push(segment_id), ..self }
    }

    /// The files of some more segments are to be deleted.
    pub open spec fn delete_segments(self, segment_ids: Seq<SegmentId>) -> IndexView {
        IndexView { deletions: self.deletions + segment_ids, ..self }
    }

    /// All segments are committed, under the docstamp of the last document in
    /// them.
    pub open spec fn commit(self, docstamp: u64) -> IndexView {
        IndexView { registers: self.registers.commit(), docstamp, ..self }
    }

    /// The uncommitted segments are forgotten and their files are to be deleted.
    pub open spec fn rollback(self) -> IndexView {
        IndexView {
            registers: self.registers.rollback(),
            deletions: self.deletions + segment_ids(self.registers.uncommitted),
            ..self
        }
    }
}

/// An index: its segments, the docstamp of the last commit, and the segments
/// that wait for their files to be deleted.
#[derive(Debug)]
pub struct Index {
    segment_manager: SegmentManager,
    docstamp: u64,
    deletions: Vec<SegmentId>,
}

impl View for Index {
    type V = IndexView;

    closed spec fn view(&self) -> IndexView {
        IndexView {
            registers: self.segment_manager@,
            docstamp: self.docstamp,
            deletions: self.deletions@,
        }
    }
}

/// The segment manager of an index.
pub fn get_segment_manager(index: &Index) -> (segment_manager: &SegmentManager)
    ensures
        segment_manager@ == index@.registers,
{
    &index.segment_manager
}

/// Commits all segments of an index, under the docstamp of the last document in
/// them.
pub fn commit(index: &mut Index, docstamp: u64)
    ensures
        final(index)@ == old(index)@.commit(docstamp),
{
    index.segment_manager.commit();
    index.docstamp = docstamp;
}

impl Index {
    /// An index as its last commit left it.
    pub fn open(committed_segments: &[SegmentMeta], docstamp: u64) -> (index: Index)
        ensures
            index@ == (IndexView {
                registers: Registers {
                    committed: committed_segments@.map_values(|meta: SegmentMeta| new_entry(meta)),
                    uncommitted: Seq::empty(),
                },
                docstamp,
                deletions: Seq::empty(),
            }),
    {
        let index = Index {
            segment_manager: SegmentManager::from_segments(committed_segments),
            docstamp,
            deletions: Vec::new(),
        };
        assert(index@.deletions =~= Seq::empty());
        index
    }

    /// The docstamp of the last commit.
    pub fn docstamp(&self) -> (docstamp: u64)
        ensures
            docstamp == self@.docstamp,
    {
        self.docstamp
    }

    /// Registers a new segment, as uncommitted.
    pub fn add_segment(&mut self, segment_meta: SegmentMeta)
        ensures
            final(self)@ == (IndexView {
                registers: old(self)@.registers.add_segment(segment_meta),
                ..old(self)@
            }),
    {
        self.segment_manager.add_segment(segment_meta);
    }

    /// Marks segments as being merged. Returns whether that changed anything.
    pub fn start_merge(&mut self, segment_ids: &[SegmentId]) -> (has_changed: bool)
        ensures
            final(self)@ == (IndexView {
                registers: old(self)@.registers.start_merge(segment_ids@),
                ..old(self)@
            }),
            has_changed == (final(self)@.registers != old(self)@.registers),
    {
        self.segment_manager.start_merge(segment_ids)
    }

    /// Replaces merged segments by the segment they were merged into.
    pub fn end_merge(&mut self, segment_ids: &[SegmentId], segment_meta: &SegmentMeta)
        ensures
            final(self)@ == (IndexView {
                registers: old(self)@.registers.end_merge(segment_ids@, *segment_meta),
                ..old(self)@
            }),
    {
        self.segment_manager.end_merge(segment_ids, segment_meta);
    }

    /// Has the files of a segment deleted.
    pub fn delete_segment(&mut self, segment_id: SegmentId)
        ensures
            final(self)@ == old(self)@.delete_segment(segment_id),
    {
        self.deletions.push(segment_id);
    }

    /// Forgets the uncommitted segments and has their files deleted.
    pub fn rollback(&mut self)
        ensures
            final(self)@ == old(self)@.rollback(),
    {
        let mut rollbacked = self.segment_manager.rollback();
        self.deletions.append(&mut rollbacked);
    }

    /// Hands out the segments whose files are to be deleted, each of them once.
    pub fn take_deletions(&mut self) -> (segment_ids: Vec<SegmentId>)
        ensures
            segment_ids@ == old(self)@.deletions,
            final(self)@ == (IndexView { deletions: Seq::empty(), ..old(self)@ }),
    {
        let mut segment_ids: Vec<SegmentId> = Vec::new();
        std::mem::swap(&mut segment_ids, &mut self.deletions);
        assert(self.deletions@ =~= Seq::empty());
        segment_ids
    }
}

} // verus!
