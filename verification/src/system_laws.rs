//! What the index writer promises, however its threads take their turns.

use crate::document::Document;
use crate::index_writer::{
    Ending, Operation, PipelineView, WriterAction, WriterEvent, writer_next,
};
use crate::segment_update::SegmentUpdate;
use crate::system::{Step, System, documents_in};
use crate::system_steps::{law_steps_keep_order, lemma_documents_held_none, lemma_no_documents};
use crate::updater_laws::{law_empty_merge_changes_nothing, merges_committed};
use crate::worker_laws::WorkerRecord;
use vstd::multiset::Multiset;
use vstd::prelude::*;

verus! {

/// A system as it is when an index writer has been opened.
pub open spec fn is_opened(s: System) -> bool {
    let registers = s.index.registers;
    &&& s.writer.wf()
    &&& s.writer.operation is Idle
    &&& s.writer.workers == s.writer.num_threads
    &&& s.writer.docstamp == s.index.docstamp
    &&& forall|i: int|
        0 <= i < registers.committed.len() ==> s.contents.contains_key(
            (#[trigger] registers.committed[i]).meta.segment_id,
        )
    &&& registers.uncommitted.len() == 0
    &&& documents_in(registers.committed, s.contents) == s.committed
    &&& s.index_off || s.committed.len() == s.index.docstamp
    &&& s.pending.len() == 0
    &&& !s.cancelled
    &&& s.in_hand is None
    &&& !s.told
    &&& s.writer.pipeline.fresh()
    &&& s.queue.len() == 0
    &&& s.taken.len() == 0
    &&& s.former_queue.len() == 0
    &&& s.workers.len() == s.writer.num_threads
    &&& forall|i: int|
        0 <= i < s.workers.len() ==> #[trigger] s.workers[i] == WorkerRecord::start()
    &&& s.former.len() == 0
    &&& s.strays == 0
    &&& !s.impaired
}

/// The system after a number of steps.
pub open spec fn after(s: System, steps: Seq<Step>) -> System
    decreases steps.len(),
{
    if steps.len() == 0 {
        s
    } else {
        after(s, steps.drop_last()).next(steps.last())
    }
}

/// Whether the steps can be taken, one after the other.
pub open spec fn can_take(s: System, steps: Seq<Step>) -> bool
    decreases steps.len(),
{
    steps.len() > 0 ==> {
        &&& can_take(s, steps.drop_last())
        &&& after(s, steps.drop_last()).enabled(steps.last())
    }
}

/// In whatever order the threads take their steps, what holds of the system holds at
/// any time.
pub proof fn law_system_stays_in_order(s: System, steps: Seq<Step>)
    requires
        is_opened(s),
        can_take(s, steps),
    ensures
        after(s, steps).inv(),
    decreases steps.len(),
{
    if steps.len() == 0 {
        lemma_no_documents(s.queue);
        lemma_no_documents(s.former_queue);
        lemma_no_documents(s.pending);
        lemma_documents_held_none(s.workers);
        lemma_documents_held_none(s.former);
        assert(s.documents_under_way() =~= s.pending.to_multiset());
        assert(s.pending =~= s.writer.pipeline.document_sender.sent);
        assert(s.taken + s.queue =~= s.writer.pipeline.document_sender.sent);
    } else {
        law_system_stays_in_order(s, steps.drop_last());
        law_steps_keep_order(after(s, steps.drop_last()), steps.last());
    }
}

/// At any time, the committed segments hold exactly the documents that have been
/// committed: nothing else is published, and nothing is lost. (Of an impaired
/// generation, a commit takes those documents that have got into its segments.)
pub proof fn law_only_commits_publish(s: System, steps: Seq<Step>)
    requires
        is_opened(s),
        can_take(s, steps),
    ensures
        ({
            let t = after(s, steps);
            documents_in(t.index.registers.committed, t.contents) == t.committed
        }),
{
    law_system_stays_in_order(s, steps);
}

/// No document gets lost on its way into the pipeline: at any time, and in whatever order
/// the threads take their steps, what has been sent through the handle of the writer, since
/// the pipeline was made, is what has been taken out and then what still waits, in order. As
/// long as no operation is under way, it is also what has been added since the last commit
/// or rollback, document by document. (An impaired generation is left out there.)
pub proof fn law_pipeline_holds_what_was_added(s: System, steps: Seq<Step>)
    requires
        is_opened(s),
        can_take(s, steps),
    ensures
        ({
            let t = after(s, steps);
            let sent = t.writer.pipeline.document_sender.sent;
            &&& sent == t.taken + t.queue
            &&& t.queue.len() <= 10_000
            &&& t.writer.operation is Idle && !t.impaired ==> t.pending == sent
        }),
{
    law_system_stays_in_order(s, steps);
}

/// While no operation is under way, the docstamp is the number of documents that have
/// been added since the creation of the index, those aside that were rolled back. (It
/// is not so on an index that was opened under another docstamp, or of which an impaired
/// generation was committed, nor after a rollback that failed when all was done but
/// making it known, until the next one.)
pub proof fn law_docstamp_counts_documents(s: System, steps: Seq<Step>)
    requires
        is_opened(s),
        can_take(s, steps),
        !after(s, steps).index_off,
        !after(s, steps).writer_off,
        after(s, steps).writer.operation is Idle,
    ensures
        after(s, steps).writer.docstamp == after(s, steps).committed.len() + after(
            s,
            steps,
        ).pending.len(),
{
    law_system_stays_in_order(s, steps);
}

/// The draining of the former pipeline comes to an end: nothing is added to it any more,
/// and every document that is drained leaves it shorter.
pub proof fn law_former_pipeline_only_shrinks(s: System, step: Step)
    requires
        s.writer.operation is Draining,
        s.enabled(step),
    ensures
        s.next(step).former_queue.len() <= s.former_queue.len(),
        step matches Step::WriterHears { outcome: WriterEvent::Drained(Some(_)), .. } ==> s.next(
            step,
        ).former_queue.len() < s.former_queue.len(),
{
}

/// Whether an operation is a commit.
pub open spec fn is_commit(operation: Operation) -> bool {
    match operation {
        Operation::Joining { ending, .. } => ending is Commit,
        Operation::Respawning { ending, .. } => ending is Commit,
        Operation::Closing { ending } => ending is Commit,
        Operation::Saving { ending } => ending is Commit,
        Operation::Loading { ending } => ending is Commit,
        _ => false,
    }
}

/// Whether the commit goes on all through the steps.
pub open spec fn stays_in_commit(s: System, steps: Seq<Step>) -> bool
    decreases steps.len(),
{
    &&& is_commit(after(s, steps).writer.operation)
    &&& steps.len() > 0 ==> stays_in_commit(s, steps.drop_last())
}

/// Whether a commit has closed its generation.
pub open spec fn has_closed(operation: Operation) -> bool {
    operation is Saving || operation is Loading
}

proof fn lemma_commit_takes_step(s: System, step: Step)
    requires
        s.enabled(step),
        is_commit(s.writer.operation),
        is_commit(s.next(step).writer.operation),
        !s.impaired,
    ensures
        !s.next(step).impaired,
        s.next(step).writer.docstamp == s.writer.docstamp,
        has_closed(s.writer.operation) ==> {
            &&& has_closed(s.next(step).writer.operation)
            &&& s.next(step).committed == s.committed
        },
        !has_closed(s.writer.operation) && has_closed(s.next(step).writer.operation) ==> s.next(
            step,
        ).committed == s.committed.add(s.pending.to_multiset()),
        !has_closed(s.next(step).writer.operation) ==> {
            &&& s.next(step).committed == s.committed
            &&& s.next(step).pending == s.pending
        },
{
}

proof fn lemma_commit_goes_on(s: System, steps: Seq<Step>)
    requires
        s.inv(),
        !s.impaired,
        is_commit(s.writer.operation),
        !has_closed(s.writer.operation),
        can_take(s, steps),
        stays_in_commit(s, steps),
    ensures
        after(s, steps).inv(),
        !after(s, steps).impaired,
        after(s, steps).writer.docstamp == s.writer.docstamp,
        has_closed(after(s, steps).writer.operation) ==> after(s, steps).committed
            == s.committed.add(s.pending.to_multiset()),
        !has_closed(after(s, steps).writer.operation) ==> {
            &&& after(s, steps).committed == s.committed
            &&& after(s, steps).pending == s.pending
        },
    decreases steps.len(),
{
    if steps.len() > 0 {
        let t = after(s, steps.drop_last());
        assert(stays_in_commit(s, steps.drop_last()));
        lemma_commit_goes_on(s, steps.drop_last());
        law_steps_keep_order(t, steps.last());
        lemma_commit_takes_step(t, steps.last());
    }
}

proof fn lemma_commit_ends(s: System, pipeline: PipelineView)
    requires
        s.inv(),
        !s.impaired,
        s.writer.operation is Loading,
        is_commit(s.writer.operation),
        pipeline.fresh(),
    ensures
        ({
            let loaded = WriterEvent::SearchersLoaded(Ok(()));
            let done = s.next(Step::WriterHears { outcome: loaded, pipeline });
            &&& s.enabled(Step::WriterHears { outcome: loaded, pipeline })
            &&& writer_next(s.writer, s.index, loaded, pipeline).2 == WriterAction::Finished(
                Ok(s.writer.docstamp),
            )
            &&& documents_in(done.index.registers.committed, done.contents) == s.committed
            &&& done.index.docstamp == s.writer.docstamp
            &&& done.index.registers.uncommitted.len() == 0
            &&& done.writer.docstamp == s.writer.docstamp
            &&& done.writer.operation is Idle
            &&& done.pending.len() == 0
        }),
{
}

/// When a commit is through, all of the documents that were added since the last
/// commit are published: the committed segments hold the documents that they held
/// before, and those. The commit comes to the docstamp of the last document that was
/// added. (An impaired generation is left out, and so is a commit of documents that wait
/// while there is no worker.)
pub proof fn law_commit_publishes_all_documents(
    s: System,
    before: Seq<Step>,
    during: Seq<Step>,
    new_pipeline: PipelineView,
    pipeline: PipelineView,
)
    requires
        is_opened(s),
        can_take(s, before),
        after(s, before).enabled(Step::StartCommit { pipeline: new_pipeline }),
        ({
            let t = after(s, before).next(Step::StartCommit { pipeline: new_pipeline });
            &&& !t.impaired
            &&& can_take(t, during)
            &&& stays_in_commit(t, during)
            &&& after(t, during).writer.operation is Loading
        }),
        pipeline.fresh(),
    ensures
        ({
            let r = after(s, before);
            let t = after(r.next(Step::StartCommit { pipeline: new_pipeline }), during);
            let loaded = WriterEvent::SearchersLoaded(Ok(()));
            let done = t.next(Step::WriterHears { outcome: loaded, pipeline });
            &&& t.enabled(Step::WriterHears { outcome: loaded, pipeline })
            &&& writer_next(t.writer, t.index, loaded, pipeline).2 == WriterAction::Finished(
                Ok(r.writer.docstamp),
            )
            &&& documents_in(done.index.registers.committed, done.contents) == documents_in(
                r.index.registers.committed,
                r.contents,
            ).add(r.pending.to_multiset())
            &&& done.index.registers.uncommitted.len() == 0
            &&& done.index.docstamp == r.writer.docstamp
            &&& done.writer.docstamp == r.writer.docstamp
            &&& done.writer.operation is Idle
            &&& done.pending.len() == 0
        }),
{
    let r = after(s, before);
    law_system_stays_in_order(s, before);
    let started = r.next(Step::StartCommit { pipeline: new_pipeline });
    law_steps_keep_order(r, Step::StartCommit { pipeline: new_pipeline });
    lemma_commit_goes_on(started, during);
    lemma_commit_ends(after(started, during), pipeline);
}

/// Whether a step closes no generation for a commit.
pub open spec fn commits_nothing(s: System, step: Step) -> bool {
    step is WriterHears ==> match s.writer.operation {
        Operation::Closing { ending } => ending is Rollback,
        _ => true,
    }
}

/// Whether none of the steps closes a generation for a commit.
pub open spec fn commit_nothing(s: System, steps: Seq<Step>) -> bool
    decreases steps.len(),
{
    steps.len() > 0 ==> {
        &&& commit_nothing(s, steps.drop_last())
        &&& commits_nothing(after(s, steps.drop_last()), steps.last())
    }
}

proof fn lemma_nothing_committed_by_step(s: System, step: Step)
    requires
        s.inv_segments(),
        s.enabled(step),
        commits_nothing(s, step),
    ensures
        s.next(step).index.docstamp == s.index.docstamp,
        s.next(step).committed == s.committed,
{
}

proof fn lemma_nothing_committed(s: System, steps: Seq<Step>)
    requires
        s.inv(),
        can_take(s, steps),
        commit_nothing(s, steps),
    ensures
        after(s, steps).inv(),
        after(s, steps).index.docstamp == s.index.docstamp,
        after(s, steps).committed == s.committed,
    decreases steps.len(),
{
    if steps.len() > 0 {
        let t = after(s, steps.drop_last());
        lemma_nothing_committed(s, steps.drop_last());
        law_steps_keep_order(t, steps.last());
        lemma_nothing_committed_by_step(t, steps.last());
    }
}

/// Only a commit changes what is published: whatever else happens, rollbacks, failures
/// and merges included, the committed segments hold the same documents, and the docstamp
/// of the index is the same.
pub proof fn law_published_documents_stay(s: System, before: Seq<Step>, since: Seq<Step>)
    requires
        is_opened(s),
        can_take(s, before),
        can_take(after(s, before), since),
        commit_nothing(after(s, before), since),
    ensures
        ({
            let r = after(s, before);
            let t = after(r, since);
            &&& documents_in(t.index.registers.committed, t.contents) == documents_in(
                r.index.registers.committed,
                r.contents,
            )
            &&& t.index.docstamp == r.index.docstamp
        }),
{
    law_system_stays_in_order(s, before);
    lemma_nothing_committed(after(s, before), since);
}

proof fn lemma_rollback_ends(s: System, pipeline: PipelineView)
    requires
        s.inv(),
        !s.impaired,
        s.writer.operation == (Operation::Loading { ending: Ending::Rollback }),
        pipeline.fresh(),
    ensures
        ({
            let loaded = WriterEvent::SearchersLoaded(Ok(()));
            let done = s.next(Step::WriterHears { outcome: loaded, pipeline });
            &&& s.enabled(Step::WriterHears { outcome: loaded, pipeline })
            &&& writer_next(s.writer, s.index, loaded, pipeline).2 == WriterAction::Finished(
                Ok(s.index.docstamp),
            )
            &&& done.index == s.index
            &&& done.contents == s.contents
            &&& done.index.registers.uncommitted.len() == 0
            &&& done.writer.docstamp == s.index.docstamp
            &&& done.writer.operation is Idle
            &&& done.pending.len() == 0
            &&& done.documents_under_way() == Multiset::<Document>::empty()
        }),
{
    let step = Step::WriterHears { outcome: WriterEvent::SearchersLoaded(Ok(())), pipeline };
    law_steps_keep_order(s, step);
    lemma_no_documents(s.next(step).pending);
}

/// When a rollback is through, the documents and the docstamp of the last commit are what
/// the index has, whatever was added or merged since, and in whatever order the threads
/// took their steps. No document that was added since is in an uncommitted segment or
/// under way any more. The rollback comes to the docstamp of the last commit, and so does
/// the docstamp of the writer. (A rollback is left out that was preceded by a failed one
/// or by a failed commit, if one of the workers of that time is still astray.)
pub proof fn law_rollback_throws_away_all_else(
    s: System,
    before: Seq<Step>,
    since: Seq<Step>,
    pipeline: PipelineView,
)
    requires
        is_opened(s),
        can_take(s, before),
        can_take(after(s, before), since),
        commit_nothing(after(s, before), since),
        !after(after(s, before), since).impaired,
        after(after(s, before), since).writer.operation == (Operation::Loading {
            ending: Ending::Rollback,
        }),
        pipeline.fresh(),
    ensures
        ({
            let r = after(s, before);
            let t = after(r, since);
            let loaded = WriterEvent::SearchersLoaded(Ok(()));
            let done = t.next(Step::WriterHears { outcome: loaded, pipeline });
            &&& t.enabled(Step::WriterHears { outcome: loaded, pipeline })
            &&& writer_next(t.writer, t.index, loaded, pipeline).2 == WriterAction::Finished(
                Ok(r.index.docstamp),
            )
            &&& documents_in(done.index.registers.committed, done.contents) == documents_in(
                r.index.registers.committed,
                r.contents,
            )
            &&& done.index.registers.uncommitted.len() == 0
            &&& done.index.docstamp == r.index.docstamp
            &&& done.writer.docstamp == r.index.docstamp
            &&& done.writer.operation is Idle
            &&& done.pending.len() == 0
            &&& done.documents_under_way() == Multiset::<Document>::empty()
        }),
{
    let t = after(after(s, before), since);
    law_published_documents_stay(s, before, since);
    law_system_stays_in_order(s, before);
    lemma_nothing_committed(after(s, before), since);
    lemma_rollback_ends(t, pipeline);
}

/// Whether a step leaves the segments of the last commit alone: it neither closes a
/// generation for a new commit nor ends a merge of committed segments.
pub open spec fn leaves_commit_alone(s: System, step: Step) -> bool {
    &&& commits_nothing(s, step)
    &&& step is WriterHears ==> match s.writer.operation {
        Operation::WritingMerged { segment_ids, .. } => !merges_committed(
            s.index.registers,
            segment_ids@,
        ),
        _ => true,
    }
}

/// Whether all of the steps leave the segments of the last commit alone.
pub open spec fn leave_commit_alone(s: System, steps: Seq<Step>) -> bool
    decreases steps.len(),
{
    steps.len() > 0 ==> {
        &&& leave_commit_alone(s, steps.drop_last())
        &&& leaves_commit_alone(after(s, steps.drop_last()), steps.last())
    }
}

proof fn lemma_commit_left_alone_by_step(s: System, step: Step)
    requires
        s.inv_segments(),
        s.enabled(step),
        leaves_commit_alone(s, step),
    ensures
        s.next(step).index.registers.committed == s.index.registers.committed,
{
    if let Step::UpdaterApplies = step {
        if let Some(SegmentUpdate::StartMerge(_)) = s.in_hand {
            law_empty_merge_changes_nothing(s.index, s.cancelled, s.in_hand->0);
        }
    }
}

proof fn lemma_commit_left_alone(s: System, steps: Seq<Step>)
    requires
        s.inv(),
        can_take(s, steps),
        leave_commit_alone(s, steps),
    ensures
        after(s, steps).inv(),
        after(s, steps).index.registers.committed == s.index.registers.committed,
        commit_nothing(s, steps),
    decreases steps.len(),
{
    if steps.len() > 0 {
        let t = after(s, steps.drop_last());
        lemma_commit_left_alone(s, steps.drop_last());
        law_steps_keep_order(t, steps.last());
        lemma_commit_left_alone_by_step(t, steps.last());
    }
}

/// When a rollback is through, the index is in the same state as it was after the last
/// commit: it has the same segments and the same docstamp, whatever was added since, and
/// in whatever order the threads took their steps. (A merge of committed segments since
/// then is left out: it leaves the same documents in other segments. So is what
/// [`law_rollback_throws_away_all_else`] leaves out.)
pub proof fn law_rollback_returns_to_last_commit(
    s: System,
    before: Seq<Step>,
    since: Seq<Step>,
    pipeline: PipelineView,
)
    requires
        is_opened(s),
        can_take(s, before),
        after(s, before).index.registers.uncommitted.len() == 0,
        can_take(after(s, before), since),
        leave_commit_alone(after(s, before), since),
        !after(after(s, before), since).impaired,
        after(after(s, before), since).writer.operation == (Operation::Loading {
            ending: Ending::Rollback,
        }),
        pipeline.fresh(),
    ensures
        ({
            let r = after(s, before);
            let t = after(r, since);
            let loaded = WriterEvent::SearchersLoaded(Ok(()));
            let done = t.next(Step::WriterHears { outcome: loaded, pipeline });
            &&& t.enabled(Step::WriterHears { outcome: loaded, pipeline })
            &&& writer_next(t.writer, t.index, loaded, pipeline).2 == WriterAction::Finished(
                Ok(r.index.docstamp),
            )
            &&& done.index.registers == r.index.registers
            &&& done.index.docstamp == r.index.docstamp
            &&& done.writer.docstamp == r.index.docstamp
            &&& done.writer.operation is Idle
        }),
{
    let r = after(s, before);
    let t = after(r, since);
    law_system_stays_in_order(s, before);
    lemma_commit_left_alone(r, since);
    lemma_nothing_committed(r, since);
    lemma_rollback_ends(t, pipeline);
    assert(t.index.registers =~= r.index.registers);
}

} // verus!
