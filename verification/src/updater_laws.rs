//! What becomes of an index under any number of segment updates.

use crate::index::IndexView;
use crate::segment::{SegmentId, SegmentMeta};
use crate::segment_manager::{
    Registers, SegmentEntry, contains_all, contains_segment, mark_in_merge, new_entry,
    ready_segments, remove_all, segment_ids,
};
use crate::segment_update::SegmentUpdate;
use crate::segment_updater::{
    UpdaterAction, UpdaterEvent, UpdaterPhase, apply_generation, apply_update, changes_segments,
    updater_asks, updater_expects, updater_next,
};
use vstd::prelude::*;

verus! {

/// The index after a number of updates.
pub open spec fn apply_updates(
    index: IndexView,
    cancelled: bool,
    updates: Seq<SegmentUpdate>,
) -> IndexView
    decreases updates.len(),
{
    if updates.len() == 0 {
        index
    } else {
        apply_update(
            apply_updates(index, cancelled, updates.drop_last()),
            apply_generations(cancelled, updates.drop_last()),
            updates.last(),
        )
    }
}

/// Whether the current generation is being rolled back, after a number of updates.
pub open spec fn apply_generations(cancelled: bool, updates: Seq<SegmentUpdate>) -> bool
    decreases updates.len(),
{
    if updates.len() == 0 {
        cancelled
    } else {
        apply_generation(apply_generations(cancelled, updates.drop_last()), updates.last())
    }
}

/// Whether a merge of the given segments is one of committed segments.
pub open spec fn merges_committed(registers: Registers, segment_ids: Seq<SegmentId>) -> bool {
    &&& contains_all(registers.committed, segment_ids)
    &&& !contains_all(registers.uncommitted, segment_ids)
}

/// Whether none of the updates starts or ends a merge of committed segments.
pub open spec fn spares_committed(
    index: IndexView,
    cancelled: bool,
    updates: Seq<SegmentUpdate>,
) -> bool
    decreases updates.len(),
{
    updates.len() > 0 ==> {
        let registers = apply_updates(index, cancelled, updates.drop_last()).registers;
        &&& spares_committed(index, cancelled, updates.drop_last())
        &&& match updates.last() {
            SegmentUpdate::StartMerge(segment_ids) => !merges_committed(registers, segment_ids@),
            SegmentUpdate::EndMerge(segment_ids, _) => !merges_committed(registers, segment_ids@),
            _ => true,
        }
    }
}

/// Only a commit publishes anything: whatever updates come, the committed segments
/// stay what they are, a merge of committed segments aside, and so does the
/// docstamp of the last commit.
pub proof fn law_updates_keep_last_commit(
    index: IndexView,
    cancelled: bool,
    updates: Seq<SegmentUpdate>,
)
    requires
        spares_committed(index, cancelled, updates),
    ensures
        apply_updates(index, cancelled, updates).registers.committed == index.registers.committed,
        apply_updates(index, cancelled, updates).docstamp == index.docstamp,
    decreases updates.len(),
{
    if updates.len() > 0 {
        law_updates_keep_last_commit(index, cancelled, updates.drop_last());
    }
}

/// After a rollback, the index is in the same state as it was after the last
/// commit: whatever updates came since, a merge of committed segments aside, its
/// segments and its docstamp are those that the commit left.
pub proof fn law_rollback_restores_last_commit(
    before: IndexView,
    docstamp: u64,
    cancelled: bool,
    updates: Seq<SegmentUpdate>,
)
    requires
        spares_committed(before.commit(docstamp), cancelled, updates),
    ensures
        apply_updates(before.commit(docstamp), cancelled, updates).rollback().registers
            == before.commit(docstamp).registers,
        apply_updates(before.commit(docstamp), cancelled, updates).rollback().docstamp == docstamp,
{
    law_updates_keep_last_commit(before.commit(docstamp), cancelled, updates);
}

/// Whether all of the updates bring new segments.
pub open spec fn all_new_segments(updates: Seq<SegmentUpdate>) -> bool {
    forall|i: int| 0 <= i < updates.len() ==> (#[trigger] updates[i]) is AddSegment
}

/// The ids of the segments that the updates bring.
pub open spec fn new_segment_ids(updates: Seq<SegmentUpdate>) -> Seq<SegmentId> {
    updates.map_values(|update: SegmentUpdate| update->AddSegment_0.segment_id)
}

/// The entries of the segments that the updates bring.
pub open spec fn new_segment_entries(updates: Seq<SegmentUpdate>) -> Seq<SegmentEntry> {
    updates.map_values(|update: SegmentUpdate| new_entry(update->AddSegment_0))
}

/// Segments of a generation that is being rolled back never get into the index.
/// Their files are deleted instead, one by one.
pub proof fn law_cancelled_segments_are_deleted(index: IndexView, updates: Seq<SegmentUpdate>)
    requires
        all_new_segments(updates),
    ensures
        apply_updates(index, true, updates) == index.delete_segments(new_segment_ids(updates)),
        apply_generations(true, updates),
    decreases updates.len(),
{
    if updates.len() == 0 {
        assert(apply_updates(index, true, updates) =~= index.delete_segments(
            new_segment_ids(updates),
        ));
    } else {
        law_cancelled_segments_are_deleted(index, updates.drop_last());
        assert(updates.last() is AddSegment);
        assert(apply_updates(index, true, updates) =~= index.delete_segments(
            new_segment_ids(updates),
        ));
    }
}

/// Segments of a generation that is not being rolled back all get into the index,
/// in the order in which they come.
pub proof fn law_accepted_segments_are_registered(index: IndexView, updates: Seq<SegmentUpdate>)
    requires
        all_new_segments(updates),
    ensures
        apply_updates(index, false, updates) == (IndexView {
            registers: Registers {
                uncommitted: index.registers.uncommitted + new_segment_entries(updates),
                ..index.registers
            },
            ..index
        }),
        !apply_generations(false, updates),
    decreases updates.len(),
{
    let expected = IndexView {
        registers: Registers {
            uncommitted: index.registers.uncommitted + new_segment_entries(updates),
            ..index.registers
        },
        ..index
    };
    if updates.len() > 0 {
        law_accepted_segments_are_registered(index, updates.drop_last());
        assert(updates.last() is AddSegment);
    }
    assert(apply_updates(index, false, updates).registers.uncommitted
        =~= expected.registers.uncommitted);
    assert(apply_updates(index, false, updates) =~= expected);
}

/// A rollback leaves no files behind: the segments that were added since the last
/// commit, and those that came while the generation was being rolled back, are
/// deleted, each of them once, and no others.
pub proof fn law_rollback_deletes_files(
    index: IndexView,
    accepted: Seq<SegmentUpdate>,
    dropped: Seq<SegmentUpdate>,
)
    requires
        index.registers.uncommitted.len() == 0,
        all_new_segments(accepted),
        all_new_segments(dropped),
    ensures
        apply_updates(apply_updates(index, false, accepted), true, dropped).rollback()
            == index.delete_segments(new_segment_ids(dropped) + new_segment_ids(accepted)),
{
    law_accepted_segments_are_registered(index, accepted);
    let registered = apply_updates(index, false, accepted);
    law_cancelled_segments_are_deleted(registered, dropped);
    assert(segment_ids(registered.registers.uncommitted) =~= new_segment_ids(accepted));
    assert(apply_updates(registered, true, dropped).rollback() =~= index.delete_segments(
        new_segment_ids(dropped) + new_segment_ids(accepted),
    ));
}

/// The start of a merge of no segments changes nothing.
pub proof fn law_empty_merge_changes_nothing(
    index: IndexView,
    cancelled: bool,
    update: SegmentUpdate,
)
    requires
        update matches SegmentUpdate::StartMerge(segment_ids) && segment_ids@.len() == 0,
    ensures
        apply_update(index, cancelled, update) == index,
        apply_generation(cancelled, update) == cancelled,
{
    let ids = update->StartMerge_0@;
    assert(mark_in_merge(index.registers.uncommitted, ids) =~= index.registers.uncommitted);
}

/// The end of a merge is always said to change the segments. Any other update is said to
/// do so if and only if it changes the registers.
pub proof fn law_changes_are_reported(index: IndexView, cancelled: bool, update: SegmentUpdate)
    ensures
        apply_update(index, cancelled, update).registers != index.registers ==> changes_segments(
            index,
            cancelled,
            update,
        ),
        update is EndMerge ==> changes_segments(index, cancelled, update),
        changes_segments(index, cancelled, update) && !(update is EndMerge) ==> apply_update(
            index,
            cancelled,
            update,
        ).registers != index.registers,
{
    if let SegmentUpdate::AddSegment(segment_meta) = update {
        let uncommitted = index.registers.uncommitted;
        assert(uncommitted.push(new_entry(segment_meta)).len() != uncommitted.len());
    }
}

/// How many documents the segments of a register hold.
pub open spec fn total_docs(register: Seq<SegmentEntry>) -> nat
    decreases register.len(),
{
    if register.len() == 0 {
        0
    } else {
        total_docs(register.drop_last()) + register.last().meta.num_docs as nat
    }
}

/// The given segments of a register.
pub open spec fn keep_all(register: Seq<SegmentEntry>, segment_ids: Seq<SegmentId>) -> Seq<
    SegmentEntry,
> {
    register.filter(|entry: SegmentEntry| segment_ids.contains(entry.meta.segment_id))
}

proof fn lemma_total_docs_split(register: Seq<SegmentEntry>, segment_ids: Seq<SegmentId>)
    ensures
        total_docs(register) == total_docs(remove_all(register, segment_ids)) + total_docs(
            keep_all(register, segment_ids),
        ),
    decreases register.len(),
{
    reveal(Seq::filter);
    if register.len() > 0 {
        let rest = register.drop_last();
        lemma_total_docs_split(rest, segment_ids);
        let last = register.last();
        assert(remove_all(rest, segment_ids).push(last).drop_last() =~= remove_all(
            rest,
            segment_ids,
        ));
        assert(keep_all(rest, segment_ids).push(last).drop_last() =~= keep_all(rest, segment_ids));
    }
}

proof fn lemma_total_docs_push(register: Seq<SegmentEntry>, entry: SegmentEntry)
    ensures
        total_docs(register.push(entry)) == total_docs(register) + entry.meta.num_docs,
{
    assert(register.push(entry).drop_last() =~= register);
}

/// A merge keeps the number of documents, among the committed segments and among
/// the uncommitted ones, if the merged segment holds as many documents as those it
/// was merged from.
pub proof fn law_merge_keeps_number_of_documents(
    registers: Registers,
    segment_ids: Seq<SegmentId>,
    meta: SegmentMeta,
)
    requires
        contains_all(registers.uncommitted, segment_ids) ==> meta.num_docs == total_docs(
            keep_all(registers.uncommitted, segment_ids),
        ),
        merges_committed(registers, segment_ids) ==> meta.num_docs == total_docs(
            keep_all(registers.committed, segment_ids),
        ),
    ensures
        total_docs(registers.end_merge(segment_ids, meta).committed) == total_docs(
            registers.committed,
        ),
        total_docs(registers.end_merge(segment_ids, meta).uncommitted) == total_docs(
            registers.uncommitted,
        ),
{
    lemma_total_docs_split(registers.uncommitted, segment_ids);
    lemma_total_docs_split(registers.committed, segment_ids);
    lemma_total_docs_push(remove_all(registers.uncommitted, segment_ids), new_entry(meta));
    lemma_total_docs_push(remove_all(registers.committed, segment_ids), new_entry(meta));
}

/// Committed segments are never merged with uncommitted ones: where the segments to
/// be merged are not all committed and not all uncommitted, the registers stay what
/// they are.
pub proof fn law_kinds_are_never_mixed(
    registers: Registers,
    segment_ids: Seq<SegmentId>,
    meta: SegmentMeta,
    first: SegmentId,
    second: SegmentId,
)
    requires
        segment_ids.contains(first),
        segment_ids.contains(second),
        !contains_segment(registers.committed, first),
        !contains_segment(registers.uncommitted, second),
    ensures
        registers.start_merge(segment_ids) == registers,
        registers.end_merge(segment_ids, meta) == registers,
{
    let i = choose|i: int| 0 <= i < segment_ids.len() && segment_ids[i] == first;
    let j = choose|j: int| 0 <= j < segment_ids.len() && segment_ids[j] == second;
    assert(!contains_segment(registers.committed, segment_ids[i]));
    assert(!contains_segment(registers.uncommitted, segment_ids[j]));
}

/// After a merge of segments of one register, none of them is in that register any
/// more, and the merged one is, unless the merged one bears the id of one of them.
pub proof fn law_merged_segments_give_way(
    registers: Registers,
    segment_ids: Seq<SegmentId>,
    meta: SegmentMeta,
    segment_id: SegmentId,
)
    requires
        segment_ids.contains(segment_id),
        !segment_ids.contains(meta.segment_id),
        contains_all(registers.uncommitted, segment_ids) || contains_all(
            registers.committed,
            segment_ids,
        ),
    ensures
        contains_all(registers.uncommitted, segment_ids) ==> {
            let merged = registers.end_merge(segment_ids, meta).uncommitted;
            !contains_segment(merged, segment_id) && contains_segment(merged, meta.segment_id)
        },
        merges_committed(registers, segment_ids) ==> {
            let merged = registers.end_merge(segment_ids, meta).committed;
            !contains_segment(merged, segment_id) && contains_segment(merged, meta.segment_id)
        },
{
    let register = if contains_all(registers.uncommitted, segment_ids) {
        registers.uncommitted
    } else {
        registers.committed
    };
    let keep = |entry: SegmentEntry| !segment_ids.contains(entry.meta.segment_id);
    let rest = remove_all(register, segment_ids);
    let merged = rest.push(new_entry(meta));
    assert(merged[rest.len() as int].meta.segment_id == meta.segment_id);
    assert forall|i: int| 0 <= i < merged.len() implies (#[trigger] merged[i]).meta.segment_id
        != segment_id by {
        if i < rest.len() {
            register.lemma_filter_pred(keep, i);
        }
    }
}

/// Whether an event answers what the segment updater asked for.
pub open spec fn updater_answered(action: UpdaterAction, event: UpdaterEvent) -> bool {
    match event {
        UpdaterEvent::Received(_) => action is Receive || action is MergeOptions,
        UpdaterEvent::MetasSaved(_) => action is SaveMetas,
        UpdaterEvent::SearchersLoaded(_) => action is LoadSearchers,
        UpdaterEvent::CandidatesComputed { .. } => action is ComputeMergeCandidates,
    }
}

/// The segment updater waits for an answer to what it has asked for last, whatever the
/// answer, and for nothing else. At first it waits for an update.
pub proof fn law_updater_waits_for_answer(
    index: IndexView,
    cancelled: bool,
    event: UpdaterEvent,
    action: UpdaterAction,
    answer: UpdaterEvent,
)
    requires
        updater_asks(index, cancelled, event, action),
    ensures
        updater_expects(updater_next(index, cancelled, event), answer) <==> updater_answered(
            action,
            answer,
        ),
        updater_expects(UpdaterPhase::Receiving, answer) <==> answer is Received,
{
}

/// What the segment updater asks for, and on what grounds. When an update has changed the
/// registers, or ended a merge, it has the meta file saved; when that is done, the searchers
/// updated; when that is done, the merge policy asked, about all segments that are ready,
/// the committed and the uncommitted ones apart; and it passes on all that the policy
/// proposes. It stops when there are no more updates, and never because of a failure.
pub proof fn law_updater_asks_on_grounds(
    index: IndexView,
    cancelled: bool,
    event: UpdaterEvent,
    action: UpdaterAction,
)
    requires
        updater_asks(index, cancelled, event, action),
    ensures
        event matches UpdaterEvent::Received(Some(update)) ==> {
            let next = apply_update(index, cancelled, update);
            &&& next.registers != index.registers || update is EndMerge ==> action is SaveMetas
            &&& next.registers == index.registers && !(update is EndMerge) ==> action is Receive
        },
        action is LoadSearchers <==> (event matches UpdaterEvent::MetasSaved(Ok(_))),
        action is ComputeMergeCandidates <==> (event matches UpdaterEvent::SearchersLoaded(Ok(_))),
        action matches UpdaterAction::ComputeMergeCandidates { committed, uncommitted } ==> {
            &&& committed@ == ready_segments(index.registers.committed)
            &&& uncommitted@ == ready_segments(index.registers.uncommitted)
        },
        event matches UpdaterEvent::CandidatesComputed { committed, uncommitted } ==> {
            &&& action matches UpdaterAction::MergeOptions(options)
            &&& options@.len() == committed@.len() + uncommitted@.len()
            &&& forall|i: int| 0 <= i < committed@.len() ==> #[trigger] options@[i] == committed@[i]
            &&& forall|i: int|
                0 <= i < uncommitted@.len() ==> options@[committed@.len() + i]
                    == #[trigger] uncommitted@[i]
        },
        action is Exit <==> event == UpdaterEvent::Received(None),
        action is Exit ==> action == UpdaterAction::Exit(Ok(())),
        event matches UpdaterEvent::MetasSaved(Err(_)) ==> action is Receive,
        event matches UpdaterEvent::SearchersLoaded(Err(_)) ==> action is Receive,
{
    if let UpdaterEvent::Received(Some(update)) = event {
        law_changes_are_reported(index, cancelled, update);
    }
}

} // verus!
