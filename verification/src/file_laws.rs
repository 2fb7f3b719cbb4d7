//! Which files the index writer has deleted, however its threads take their turns.

use crate::document::Document;
use crate::index_writer::{Ending, Operation, WriterEvent};
use crate::segment::SegmentId;
use crate::segment_manager::{
    SegmentEntry, contains_all, contains_segment, remove_all, segment_ids,
};
use crate::segment_update::SegmentUpdate;
use crate::system::{Step, System};
use crate::system_laws::{after, can_take, is_opened, law_system_stays_in_order};
use crate::updater_laws::law_empty_merge_changes_nothing;
use vstd::multiset::Multiset;
use vstd::prelude::*;

verus! {

proof fn lemma_contains_in_push(
    register: Seq<SegmentEntry>,
    entry: SegmentEntry,
    segment_id: SegmentId,
)
    ensures
        contains_segment(register.push(entry), segment_id) <==> contains_segment(
            register,
            segment_id,
        ) || entry.meta.segment_id == segment_id,
{
    let pushed = register.push(entry);
    assert(pushed[register.len() as int] == entry);
    assert(forall|i: int| 0 <= i < register.len() ==> pushed[i] == #[trigger] register[i]);
}

proof fn lemma_contains_in_concat(
    first: Seq<SegmentEntry>,
    second: Seq<SegmentEntry>,
    segment_id: SegmentId,
)
    ensures
        contains_segment(first + second, segment_id) <==> contains_segment(first, segment_id)
            || contains_segment(second, segment_id),
{
    let all = first + second;
    assert(forall|i: int| 0 <= i < first.len() ==> all[i] == #[trigger] first[i]);
    assert(forall|i: int| 0 <= i < second.len() ==> all[first.len() + i] == #[trigger] second[i]);
}

proof fn lemma_contains_in_rest(
    register: Seq<SegmentEntry>,
    ids: Seq<SegmentId>,
    segment_id: SegmentId,
)
    requires
        contains_segment(remove_all(register, ids), segment_id),
    ensures
        contains_segment(register, segment_id),
{
    let rest = remove_all(register, ids);
    let keep = |entry: SegmentEntry| !ids.contains(entry.meta.segment_id);
    let i = choose|i: int| 0 <= i < rest.len() && rest[i].meta.segment_id == segment_id;
    assert(rest.contains(rest[i]));
    register.lemma_filter_contains_rev(keep, rest[i]);
}

proof fn lemma_contains_by_ids(register: Seq<SegmentEntry>, segment_id: SegmentId)
    ensures
        segment_ids(register).contains(segment_id) <==> contains_segment(register, segment_id),
{
    let ids = segment_ids(register);
    assert(forall|i: int|
        0 <= i < register.len() ==> ids[i] == (#[trigger] register[i]).meta.segment_id);
}

proof fn lemma_registered_is_known(
    register: Seq<SegmentEntry>,
    contents: Map<SegmentId, Multiset<Document>>,
    segment_id: SegmentId,
)
    requires
        contains_segment(register, segment_id),
        forall|i: int|
            0 <= i < register.len() ==> contents.contains_key(
                (#[trigger] register[i]).meta.segment_id,
            ),
    ensures
        contents.contains_key(segment_id),
{
}

/// A segment that is handed to the updater is not registered, and not deleted, as its id
/// is new.
proof fn lemma_segment_handed_over(s: System, next: System, segment_id: SegmentId)
    requires
        s.inv_segments(),
        s.inv_files(),
        s.in_hand is None,
        !s.contents.contains_key(segment_id),
        next.in_hand matches Some(SegmentUpdate::AddSegment(meta)) && meta.segment_id
            == segment_id,
        next.contents.dom() == s.contents.dom().insert(segment_id),
        next.index == s.index,
        next.removed == s.removed,
    ensures
        next.inv_files(),
{
    let registers = s.index.registers;
    if contains_segment(registers.committed, segment_id) {
        lemma_registered_is_known(registers.committed, s.contents, segment_id);
    }
    if contains_segment(registers.uncommitted, segment_id) {
        lemma_registered_is_known(registers.uncommitted, s.contents, segment_id);
    }
    assert(!s.is_deleted(segment_id));
    assert forall|id: SegmentId| #[trigger] next.is_deleted(id) implies {
        &&& next.contents.contains_key(id)
        &&& !contains_segment(registers.committed, id)
        &&& !contains_segment(registers.uncommitted, id)
    } by {
        assert(s.is_deleted(id));
    }
}

proof fn lemma_updater_keeps_files(s: System)
    requires
        s.inv_segments(),
        s.inv_files(),
        s.enabled(Step::UpdaterApplies),
    ensures
        s.next(Step::UpdaterApplies).inv_files(),
{
    let next = s.next(Step::UpdaterApplies);
    let update = s.in_hand->0;
    match update {
        SegmentUpdate::AddSegment(meta) => {
            let entry = SegmentEntry { meta, in_merge: false };
            let uncommitted = s.index.registers.uncommitted;
            assert forall|id: SegmentId|
                contains_segment(uncommitted.push(entry), id) <==> contains_segment(uncommitted, id)
                    || meta.segment_id == id by {
                lemma_contains_in_push(uncommitted, entry, id);
            }
            assert forall|id: SegmentId| #[trigger] next.is_deleted(id) implies s.is_deleted(id)
                || s.cancelled && id == meta.segment_id by {
                if next.index.deletions.contains(id) {
                    let i = choose|i: int|
                        0 <= i < next.index.deletions.len() && next.index.deletions[i] == id;
                    if i < s.index.deletions.len() {
                        assert(s.index.deletions[i] == id);
                    }
                }
            }
        },
        SegmentUpdate::StartMerge(_) => {
            law_empty_merge_changes_nothing(s.index, s.cancelled, update);
            assert(forall|id: SegmentId| #[trigger] next.is_deleted(id) ==> s.is_deleted(id));
        },
        _ => {
            assert(forall|id: SegmentId| #[trigger] next.is_deleted(id) ==> s.is_deleted(id));
        },
    }
}

proof fn lemma_closing_keeps_files(s: System, step: Step)
    requires
        s.inv_segments(),
        s.inv_files(),
        s.writer.operation is Closing,
        step is WriterHears,
        s.enabled(step),
    ensures
        s.next(step).inv_files(),
{
    let next = s.next(step);
    let registers = s.index.registers;
    let uncommitted = registers.uncommitted;
    match s.writer.operation {
        Operation::Closing { ending: Ending::Commit { .. } } => {
            assert forall|id: SegmentId|
                contains_segment(registers.committed + uncommitted, id) <==> contains_segment(
                    registers.committed,
                    id,
                ) || contains_segment(uncommitted, id) by {
                lemma_contains_in_concat(registers.committed, uncommitted, id);
            }
            assert(forall|id: SegmentId| #[trigger] next.is_deleted(id) ==> s.is_deleted(id));
        },
        _ => {
            assert forall|id: SegmentId| #[trigger] next.is_deleted(id) implies s.is_deleted(id)
                || contains_segment(uncommitted, id) by {
                if next.index.deletions.contains(id) {
                    let deletions = s.index.deletions;
                    let i = choose|i: int|
                        0 <= i < next.index.deletions.len() && next.index.deletions[i] == id;
                    if i < deletions.len() {
                        assert(deletions[i] == id);
                    } else {
                        assert(segment_ids(uncommitted)[i - deletions.len()] == id);
                        lemma_contains_by_ids(uncommitted, id);
                    }
                }
            }
            assert forall|id: SegmentId| contains_segment(uncommitted, id) implies {
                &&& s.contents.contains_key(id)
                &&& !contains_segment(registers.committed, id)
            } by {
                lemma_registered_is_known(uncommitted, s.contents, id);
            }
        },
    }
}

proof fn lemma_merge_keeps_files(s: System, step: Step)
    requires
        s.inv_segments(),
        s.inv_files(),
        s.writer.operation is WritingMerged,
        step matches Step::WriterHears { outcome: WriterEvent::MergeWritten(Ok(_)), .. },
        s.enabled(step),
    ensures
        s.next(step).inv_files(),
{
    let next = s.next(step);
    let registers = s.index.registers;
    let ids = s.writer.operation->WritingMerged_segment_ids@;
    let merged_id = s.writer.operation->WritingMerged_segment_id;
    let register = if contains_all(registers.uncommitted, ids) {
        registers.uncommitted
    } else {
        registers.committed
    };
    let rest = remove_all(register, ids);
    let entry = if contains_all(registers.uncommitted, ids) {
        next.index.registers.uncommitted.last()
    } else {
        next.index.registers.committed.last()
    };
    assert forall|id: SegmentId|
        contains_segment(registers.committed, id) || contains_segment(
            registers.uncommitted,
            id,
        ) implies id != merged_id by {
        if contains_segment(registers.committed, id) {
            lemma_registered_is_known(registers.committed, s.contents, id);
        } else {
            lemma_registered_is_known(registers.uncommitted, s.contents, id);
        }
    }
    assert(!s.is_deleted(merged_id));
    assert forall|id: SegmentId| #[trigger] contains_segment(rest.push(entry), id) implies
        contains_segment(register, id) || entry.meta.segment_id == id by {
        lemma_contains_in_push(rest, entry, id);
        if contains_segment(rest, id) {
            lemma_contains_in_rest(register, ids, id);
        }
    }
    assert(forall|id: SegmentId| #[trigger] next.is_deleted(id) ==> s.is_deleted(id));
}

/// Whatever step is taken, every segment stays in one place.
proof fn lemma_step_keeps_files(s: System, step: Step)
    requires
        s.inv_segments(),
        s.inv_files(),
        s.enabled(step),
    ensures
        s.next(step).inv_files(),
{
    let next = s.next(step);
    match step {
        Step::WorkerReports { former, worker } => {
            let meta = s.crew(former)[worker].outgoing->0->AddSegment_0;
            lemma_segment_handed_over(s, next, meta.segment_id);
        },
        Step::StrayReports { meta, .. } => lemma_segment_handed_over(s, next, meta.segment_id),
        Step::UpdaterApplies => lemma_updater_keeps_files(s),
        Step::WriterHears { outcome, .. } => {
            if s.writer.operation is Closing {
                lemma_closing_keeps_files(s, step);
            } else if s.writer.operation is WritingMerged && outcome->MergeWritten_0 is Ok {
                lemma_merge_keeps_files(s, step);
            } else {
                assert(next.index == s.index);
                assert(forall|id: SegmentId| #[trigger] next.is_deleted(id) ==> s.is_deleted(id));
            }
        },
        _ => {
            assert(forall|id: SegmentId| #[trigger] next.is_deleted(id) ==> s.is_deleted(id));
        },
    }
}

proof fn lemma_files_stay_in_order(s: System, steps: Seq<Step>)
    requires
        is_opened(s),
        s.index.deletions.len() == 0,
        s.removed == Set::<SegmentId>::empty(),
        can_take(s, steps),
    ensures
        after(s, steps).inv_files(),
    decreases steps.len(),
{
    if steps.len() > 0 {
        lemma_files_stay_in_order(s, steps.drop_last());
        law_system_stays_in_order(s, steps.drop_last());
        lemma_step_keeps_files(after(s, steps.drop_last()), steps.last());
    }
}

/// The files of a registered segment are never deleted: at any time, and in whatever
/// order the threads take their steps, no segment whose files have been removed, or are
/// to be, is committed or uncommitted. In particular, what a commit has published stays.
pub proof fn law_registered_files_are_kept(s: System, steps: Seq<Step>, segment_id: SegmentId)
    requires
        is_opened(s),
        s.index.deletions.len() == 0,
        s.removed == Set::<SegmentId>::empty(),
        can_take(s, steps),
        after(s, steps).is_deleted(segment_id),
    ensures
        !contains_segment(after(s, steps).index.registers.committed, segment_id),
        !contains_segment(after(s, steps).index.registers.uncommitted, segment_id),
{
    lemma_files_stay_in_order(s, steps);
}

/// No segment is committed and uncommitted at once.
pub proof fn law_registers_share_no_segment(s: System, steps: Seq<Step>, segment_id: SegmentId)
    requires
        is_opened(s),
        s.index.deletions.len() == 0,
        s.removed == Set::<SegmentId>::empty(),
        can_take(s, steps),
        contains_segment(after(s, steps).index.registers.committed, segment_id),
    ensures
        !contains_segment(after(s, steps).index.registers.uncommitted, segment_id),
{
    lemma_files_stay_in_order(s, steps);
}

/// Which files are deleted when: the files of a segment are deleted, or are to be, after a
/// step if and only if they were so before, or the segment updater has just dropped the
/// segment because its generation is being rolled back, or the writer has just closed a
/// generation for a rollback and the segment was uncommitted. So a rollback leaves no file
/// of an uncommitted segment behind, and no deletion is ever forgotten.
pub proof fn law_rolled_back_files_are_deleted(s: System, step: Step, segment_id: SegmentId)
    requires
        s.inv_segments(),
        s.enabled(step),
    ensures
        s.next(step).is_deleted(segment_id) <==> {
            ||| s.is_deleted(segment_id)
            ||| step is UpdaterApplies && s.cancelled && (
            s.in_hand matches Some(SegmentUpdate::AddSegment(meta)) && meta.segment_id
                == segment_id)
            ||| step is WriterHears && s.writer.operation == (Operation::Closing {
                ending: Ending::Rollback,
            }) && contains_segment(s.index.registers.uncommitted, segment_id)
        },
{
    let next = s.next(step);
    let before = s.index.deletions;
    let after = next.index.deletions;
    match step {
        Step::UpdaterApplies => {
            match s.in_hand->0 {
                SegmentUpdate::AddSegment(meta) => {
                    if s.cancelled {
                        assert(after == before.push(meta.segment_id));
                        assert(after[before.len() as int] == meta.segment_id);
                        assert(forall|i: int|
                            0 <= i < before.len() ==> after[i] == #[trigger] before[i]);
                    }
                },
                SegmentUpdate::StartMerge(_) => {
                    law_empty_merge_changes_nothing(s.index, s.cancelled, s.in_hand->0);
                },
                _ => {},
            }
        },
        Step::WriterHears { .. } => {
            if s.writer.operation == (Operation::Closing { ending: Ending::Rollback }) {
                let ids = segment_ids(s.index.registers.uncommitted);
                lemma_contains_by_ids(s.index.registers.uncommitted, segment_id);
                assert(after == before + ids);
                assert(forall|i: int| 0 <= i < before.len() ==> after[i] == #[trigger] before[i]);
                assert(forall|i: int|
                    0 <= i < ids.len() ==> after[before.len() + i] == #[trigger] ids[i]);
            }
        },
        Step::FilesRemoved => {
            assert(before.to_set().contains(segment_id) <==> before.contains(segment_id));
        },
        _ => {},
    }
}

} // verus!
