//! What the operations on an index do to its segments, told segment by segment.

use crate::index::IndexView;
use crate::segment::{SegmentId, SegmentMeta};
use crate::segment_manager::{
    Registers, SegmentEntry, contains_all, contains_segment, mark_in_merge,
    ready_segments, remove_all, segment_ids,
};
use crate::segment_update::SegmentUpdate;
use crate::segment_updater::{apply_generation, apply_update};
use crate::updater_laws::total_docs;
use vstd::prelude::*;

verus! {

/// A register holds a segment if one of its entries bears the id of it, and holds some
/// segments if it holds each of them.
pub proof fn law_register_holds_each(
    register: Seq<SegmentEntry>,
    ids: Seq<SegmentId>,
    segment_id: SegmentId,
)
    ensures
        contains_segment(register, segment_id) <==> exists|i: int|
            0 <= i < register.len() && (#[trigger] register[i]).meta.segment_id == segment_id,
        contains_all(register, ids) <==> forall|k: int|
            0 <= k < ids.len() ==> contains_segment(register, #[trigger] ids[k]),
{
}

/// Taking segments out of a register drops every entry that bears one of their ids, keeps
/// every other one as it is, and keeps the order.
pub proof fn law_removal_drops_named_segments(
    register: Seq<SegmentEntry>,
    entry: SegmentEntry,
    ids: Seq<SegmentId>,
)
    ensures
        remove_all(Seq::empty(), ids) == Seq::<SegmentEntry>::empty(),
        ids.contains(entry.meta.segment_id) ==> remove_all(register.push(entry), ids)
            == remove_all(register, ids),
        !ids.contains(entry.meta.segment_id) ==> remove_all(register.push(entry), ids)
            == remove_all(register, ids).push(entry),
{
    reveal(Seq::filter);
    assert(register.push(entry).drop_last() =~= register);
}

/// The segments that are ready are those of which no merge has started, each with its
/// full description, in order.
pub proof fn law_ready_segments_are_not_in_merge(
    register: Seq<SegmentEntry>,
    entry: SegmentEntry,
)
    ensures
        ready_segments(Seq::empty()) == Seq::<SegmentMeta>::empty(),
        entry.in_merge ==> ready_segments(register.push(entry)) == ready_segments(register),
        !entry.in_merge ==> ready_segments(register.push(entry)) == ready_segments(register).push(
            entry.meta,
        ),
{
    reveal(Seq::filter);
    assert(register.push(entry).drop_last() =~= register);
    let ready = |entry: SegmentEntry| !entry.in_merge;
    let meta_of = |entry: SegmentEntry| entry.meta;
    assert(register.filter(ready).push(entry).map_values(meta_of) =~= register.filter(
        ready,
    ).map_values(meta_of).push(entry.meta));
    assert(ready_segments(Seq::empty()) =~= Seq::<SegmentMeta>::empty());
}

/// A new segment comes last among the uncommitted ones, under the description that it was
/// given, and is not in a merge. All other segments stay as they are.
pub proof fn law_new_segment_comes_last(registers: Registers, meta: SegmentMeta)
    ensures
        ({
            let next = registers.add_segment(meta);
            &&& next.committed == registers.committed
            &&& next.uncommitted.len() == registers.uncommitted.len() + 1
            &&& next.uncommitted.drop_last() == registers.uncommitted
            &&& next.uncommitted.last().meta == meta
            &&& !next.uncommitted.last().in_merge
        }),
{
    assert(registers.add_segment(meta).uncommitted.drop_last() =~= registers.uncommitted);
}

/// Whether two registers hold the same segments under the same descriptions, and a segment
/// is in a merge in the second one if it is so in the first one or is one of those named.
pub open spec fn differ_by_marks(
    before: Seq<SegmentEntry>,
    after: Seq<SegmentEntry>,
    ids: Seq<SegmentId>,
) -> bool {
    &&& after.len() == before.len()
    &&& forall|i: int|
        0 <= i < before.len() ==> {
            &&& (#[trigger] after[i]).meta == before[i].meta
            &&& after[i].in_merge <==> before[i].in_merge || ids.contains(
                before[i].meta.segment_id,
            )
        }
}

/// The start of a merge marks the named segments, if they are all uncommitted or else all
/// committed, and nothing else. It never changes which segments there are, nor their
/// descriptions.
pub proof fn law_start_of_merge_marks_segments(registers: Registers, ids: Seq<SegmentId>)
    ensures
        ({
            let next = registers.start_merge(ids);
            &&& contains_all(registers.uncommitted, ids) ==> {
                &&& next.committed == registers.committed
                &&& differ_by_marks(registers.uncommitted, next.uncommitted, ids)
            }
            &&& !contains_all(registers.uncommitted, ids) && contains_all(
                registers.committed,
                ids,
            ) ==> {
                &&& next.uncommitted == registers.uncommitted
                &&& differ_by_marks(registers.committed, next.committed, ids)
            }
            &&& !contains_all(registers.uncommitted, ids) && !contains_all(
                registers.committed,
                ids,
            ) ==> next == registers
        }),
{
    assert(forall|i: int|
        0 <= i < registers.uncommitted.len() ==> ((#[trigger] mark_in_merge(
            registers.uncommitted,
            ids,
        )[i]).in_merge <==> registers.uncommitted[i].in_merge || ids.contains(
            registers.uncommitted[i].meta.segment_id,
        )));
    assert(forall|i: int|
        0 <= i < registers.committed.len() ==> ((#[trigger] mark_in_merge(
            registers.committed,
            ids,
        )[i]).in_merge <==> registers.committed[i].in_merge || ids.contains(
            registers.committed[i].meta.segment_id,
        )));
}

/// The end of a merge puts the merged segment, under the description that it was given,
/// in the place of the named ones, if they are all uncommitted or else all committed. All
/// other segments stay as they are.
pub proof fn law_end_of_merge_replaces_segments(
    registers: Registers,
    ids: Seq<SegmentId>,
    meta: SegmentMeta,
)
    ensures
        ({
            let next = registers.end_merge(ids, meta);
            &&& contains_all(registers.uncommitted, ids) ==> {
                &&& next.committed == registers.committed
                &&& next.uncommitted.len() > 0
                &&& next.uncommitted.last().meta == meta
                &&& !next.uncommitted.last().in_merge
                &&& next.uncommitted.drop_last() == remove_all(registers.uncommitted, ids)
            }
            &&& !contains_all(registers.uncommitted, ids) && contains_all(
                registers.committed,
                ids,
            ) ==> {
                &&& next.uncommitted == registers.uncommitted
                &&& next.committed.len() > 0
                &&& next.committed.last().meta == meta
                &&& !next.committed.last().in_merge
                &&& next.committed.drop_last() == remove_all(registers.committed, ids)
            }
            &&& !contains_all(registers.uncommitted, ids) && !contains_all(
                registers.committed,
                ids,
            ) ==> next == registers
        }),
{
    let next = registers.end_merge(ids, meta);
    if contains_all(registers.uncommitted, ids) {
        assert(next.uncommitted.drop_last() =~= remove_all(registers.uncommitted, ids));
    } else if contains_all(registers.committed, ids) {
        assert(next.committed.drop_last() =~= remove_all(registers.committed, ids));
    }
}

proof fn lemma_total_docs_concat(first: Seq<SegmentEntry>, second: Seq<SegmentEntry>)
    ensures
        total_docs(first + second) == total_docs(first) + total_docs(second),
    decreases second.len(),
{
    if second.len() == 0 {
        assert(first + second =~= first);
    } else {
        lemma_total_docs_concat(first, second.drop_last());
        assert((first + second).drop_last() =~= first + second.drop_last());
    }
}

/// A commit publishes every segment as it is described: the committed segments are then
/// those that were committed before, and after them those that were not, each with its id
/// and its number of documents. No segment remains uncommitted. So no document is gained
/// or lost on the way, by the numbers. Only the docstamp changes besides, to the one that
/// was given; no file is deleted.
pub proof fn law_commit_keeps_descriptions(index: IndexView, docstamp: u64)
    ensures
        ({
            let before = index.registers;
            let next = index.commit(docstamp);
            let committed = next.registers.committed;
            &&& committed.len() == before.committed.len() + before.uncommitted.len()
            &&& forall|i: int|
                0 <= i < before.committed.len() ==> #[trigger] committed[i] == before.committed[i]
            &&& forall|i: int|
                0 <= i < before.uncommitted.len() ==> committed[before.committed.len() + i]
                    == #[trigger] before.uncommitted[i]
            &&& next.registers.uncommitted.len() == 0
            &&& total_docs(committed) == total_docs(before.committed) + total_docs(
                before.uncommitted,
            )
            &&& next.docstamp == docstamp
            &&& next.deletions == index.deletions
        }),
{
    lemma_total_docs_concat(index.registers.committed, index.registers.uncommitted);
}

/// A rollback has the files of every uncommitted segment deleted, in order, after those
/// that wait to be deleted already, and of no other segment. No segment remains
/// uncommitted. The committed segments and the docstamp stay as they are.
pub proof fn law_rollback_deletes_uncommitted_segments(index: IndexView)
    ensures
        ({
            let next = index.rollback();
            let uncommitted = index.registers.uncommitted;
            &&& next.deletions.len() == index.deletions.len() + uncommitted.len()
            &&& forall|i: int|
                0 <= i < index.deletions.len() ==> #[trigger] next.deletions[i]
                    == index.deletions[i]
            &&& forall|i: int|
                0 <= i < uncommitted.len() ==> next.deletions[index.deletions.len() + i] == (
                #[trigger] uncommitted[i]).meta.segment_id
            &&& next.registers.uncommitted.len() == 0
            &&& next.registers.committed == index.registers.committed
            &&& next.docstamp == index.docstamp
        }),
{
    assert(segment_ids(index.registers.uncommitted).len() == index.registers.uncommitted.len());
}

/// What an update does to an index, by what it brings. A new segment is registered, or, in
/// a generation that is being rolled back, has its files deleted. The start of a merge marks
/// segments, unless the generation is being rolled back. The end of a merge replaces
/// segments, and has the files of all those named deleted, in order. No update touches the
/// docstamp, and no other files are deleted.
pub proof fn law_updates_do_what_they_bring(
    index: IndexView,
    cancelled: bool,
    update: SegmentUpdate,
)
    ensures
        ({
            let next = apply_update(index, cancelled, update);
            let generation = apply_generation(cancelled, update);
            &&& next.docstamp == index.docstamp
            &&& match update {
                SegmentUpdate::AddSegment(meta) => {
                    &&& generation == cancelled
                    &&& cancelled ==> {
                        &&& next.registers == index.registers
                        &&& next.deletions == index.deletions.push(meta.segment_id)
                    }
                    &&& !cancelled ==> {
                        &&& next.registers.committed == index.registers.committed
                        &&& next.registers.uncommitted.len() > 0
                        &&& next.registers.uncommitted.drop_last() == index.registers.uncommitted
                        &&& next.registers.uncommitted.last().meta == meta
                        &&& !next.registers.uncommitted.last().in_merge
                        &&& next.deletions == index.deletions
                    }
                },
                SegmentUpdate::StartMerge(ids) => {
                    &&& generation == cancelled
                    &&& next.deletions == index.deletions
                    &&& cancelled ==> next.registers == index.registers
                    &&& !cancelled ==> next.registers == index.registers.start_merge(ids@)
                },
                SegmentUpdate::EndMerge(ids, meta) => {
                    &&& generation == cancelled
                    &&& next.deletions == index.deletions + ids@
                    &&& next.registers == index.registers.end_merge(ids@, meta)
                },
                SegmentUpdate::CancelGeneration => next == index && generation,
                SegmentUpdate::NewGeneration => next == index && !generation,
            }
        }),
{
    if let SegmentUpdate::AddSegment(meta) = update {
        law_new_segment_comes_last(index.registers, meta);
    }
}

} // verus!
