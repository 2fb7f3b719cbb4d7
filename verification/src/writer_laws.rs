//! How the operations of an index writer run.

use crate::document::Document;
use crate::error::Error;
use crate::index::IndexView;
use crate::index_writer::{
    Ending, HEAP_SIZE_LIMIT, MARGIN_IN_BYTES, Operation, PipelineView, WriterAction, WriterEvent,
    WriterView, close_generation, commit_started, document_added, idle, merge_started,
    rollback_started, worker_replaced, writer_expects, writer_next,
};
use crate::register_laws::{
    law_commit_keeps_descriptions, law_end_of_merge_replaces_segments,
    law_rollback_deletes_uncommitted_segments,
};
use crate::segment::{SegmentId, SegmentMeta};
use crate::segment_manager::{Registers, contains_all, new_entry, remove_all};
use crate::segment_update::SegmentUpdate;
use crate::updater_laws::{
    keep_all, law_merge_keeps_number_of_documents, merges_committed, total_docs,
};
use vstd::prelude::*;

verus! {

/// The failure that an event brings, if any.
pub open spec fn failure(event: WriterEvent) -> Option<Error> {
    match event {
        WriterEvent::WorkerJoined(Err(message)) => Some(Error::ErrorInThread(message)),
        WriterEvent::WorkerJoined(Ok(Err(error))) => Some(error),
        WriterEvent::MetasSaved(Err(error)) => Some(error),
        WriterEvent::SearchersLoaded(Err(error)) => Some(error),
        WriterEvent::MergerOpened(Err(error)) => Some(error),
        WriterEvent::SerializerOpened(Err(error)) => Some(error),
        WriterEvent::MergeWritten(Err(error)) => Some(error),
        _ => None,
    }
}

/// Whether an operation is a merge.
pub open spec fn is_merge(operation: Operation) -> bool {
    ||| operation is OpeningMerger
    ||| operation is CreatingMerged
    ||| operation is OpeningSerializer
    ||| operation is WritingMerged
    ||| operation is Reloading
}

/// A failure ends the operation then and there. It is what the operation comes to,
/// and the index is left as it is.
pub proof fn law_failure_ends_operation(
    writer: WriterView,
    index: IndexView,
    event: WriterEvent,
    pipeline: PipelineView,
)
    requires
        writer_expects(writer.operation, event),
        failure(event) is Some,
    ensures
        writer_next(writer, index, event, pipeline).0 == idle(writer),
        writer_next(writer, index, event, pipeline).1 == index,
        writer_next(writer, index, event, pipeline).2 == if is_merge(writer.operation) {
            WriterAction::Merged(Err(failure(event)->0))
        } else {
            WriterAction::Finished(Err(failure(event)->0))
        },
{
}

/// A commit or a rollback succeeds only when it has been persisted and published: first
/// the generation is closed in the index, then the meta file is saved, then the searchers
/// are updated, and then the writer says that it is done. In between the writer leaves
/// the index as it is.
pub proof fn law_success_is_persisted_and_published(
    writer: WriterView,
    index: IndexView,
    event: WriterEvent,
    pipeline: PipelineView,
)
    requires
        writer_expects(writer.operation, event),
    ensures
        ({
            let next = writer_next(writer, index, event, pipeline);
            &&& next.0.operation is Saving ==> {
                &&& writer.operation matches Operation::Closing { ending }
                &&& next.0.operation == (Operation::Saving { ending })
                &&& next.1 == close_generation(index, ending)
                &&& next.2 is SaveMetas
            }
            &&& next.0.operation is Loading ==> {
                &&& writer.operation matches Operation::Saving { ending }
                &&& next.0.operation == (Operation::Loading { ending })
                &&& event matches WriterEvent::MetasSaved(Ok(_))
                &&& next.1 == index
                &&& next.2 is LoadSearchers
            }
            &&& next.2 matches WriterAction::Finished(Ok(_)) ==> {
                &&& writer.operation is Loading
                &&& event matches WriterEvent::SearchersLoaded(Ok(_))
                &&& next.1 == index
            }
        }),
{
}

/// Without a failure, an operation keeps the number of workers: every worker that
/// stops is replaced.
pub proof fn law_workers_are_replaced(
    writer: WriterView,
    index: IndexView,
    event: WriterEvent,
    pipeline: PipelineView,
)
    requires
        writer.wf(),
        writer_expects(writer.operation, event),
        failure(event) is None,
    ensures
        writer_next(writer, index, event, pipeline).0.staff() == writer.staff(),
{
}

/// A new worker takes the place of the one that stopped.
pub proof fn law_respawn_keeps_number_of_workers(writer: WriterView)
    requires
        writer.wf(),
        writer.operation is Respawning,
    ensures
        worker_replaced(writer).0.staff() == writer.staff(),
{
}

/// How many steps an operation takes at most, the draining of the former pipeline
/// aside.
pub open spec fn steps_left(writer: WriterView) -> nat {
    match writer.operation {
        Operation::Idle => 0,
        Operation::Loading { .. } => 1,
        Operation::Saving { .. } => 2,
        Operation::Closing { .. } => 3,
        Operation::Joining { remaining, .. } => 3 + 2 * remaining as nat,
        Operation::Respawning { remaining, .. } => 4 + 2 * remaining as nat,
        Operation::Draining => 4 + 2 * writer.workers as nat,
        Operation::Cancelling => 5 + 2 * writer.workers as nat,
        Operation::Reloading => 1,
        Operation::WritingMerged { .. } => 2,
        Operation::OpeningSerializer { .. } => 3,
        Operation::CreatingMerged { .. } => 4,
        Operation::OpeningMerger { .. } => 5,
    }
}

/// Every operation comes to an end: each event brings it nearer, unless it is another
/// document out of the former pipeline, which changes nothing. When an operation is
/// through, and only then, the writer says what it came to.
pub proof fn law_operations_end(
    writer: WriterView,
    index: IndexView,
    event: WriterEvent,
    pipeline: PipelineView,
)
    requires
        writer.wf(),
        writer_expects(writer.operation, event),
    ensures
        ({
            let next = writer_next(writer, index, event, pipeline);
            &&& event matches WriterEvent::Drained(Some(_)) ==> next.0 == writer && next.1 == index
            &&& !(event matches WriterEvent::Drained(Some(_))) ==> steps_left(next.0) < steps_left(
                writer,
            )
            &&& next.0.operation is Idle <==> next.2 is Finished || next.2 is Merged
        }),
{
}

/// Replacing a worker brings the operation nearer to its end.
pub proof fn law_respawn_brings_end_nearer(writer: WriterView)
    requires
        writer.wf(),
        writer.operation is Respawning,
    ensures
        steps_left(worker_replaced(writer).0) < steps_left(writer),
{
}

/// A merge of committed segments puts one segment in their place, which is said to hold
/// as many documents as they did together, as long as the merger counts its documents.
/// Nothing else changes. The merge succeeds only after that, and when the searchers have
/// been updated.
pub proof fn law_merge_replaces_segments(
    writer: WriterView,
    index: IndexView,
    event: WriterEvent,
    pipeline: PipelineView,
)
    requires
        writer_expects(writer.operation, event),
    ensures
        ({
            let next = writer_next(writer, index, event, pipeline);
            &&& next.2 matches WriterAction::Merged(Ok(_)) ==> {
                &&& writer.operation is Reloading
                &&& event matches WriterEvent::SearchersLoaded(Ok(_))
                &&& next.1 == index
            }
            &&& next.0.operation is Reloading ==> {
                &&& writer.operation matches Operation::WritingMerged { segment_ids, segment_id }
                &&& event matches WriterEvent::MergeWritten(Ok(num_docs))
                &&& next.2 is LoadSearchers
                &&& merges_committed(index.registers, segment_ids@) ==> {
                    let meta = SegmentMeta { segment_id, num_docs };
                    let committed = index.registers.committed;
                    &&& next.1 == (IndexView {
                        registers: Registers {
                            committed: remove_all(committed, segment_ids@).push(new_entry(meta)),
                            ..index.registers
                        },
                        ..index
                    })
                    &&& num_docs == total_docs(keep_all(committed, segment_ids@)) ==> total_docs(
                        next.1.registers.committed,
                    ) == total_docs(committed)
                }
            }
        }),
{
    if let Operation::WritingMerged { segment_ids, segment_id } = writer.operation {
        if let WriterEvent::MergeWritten(Ok(num_docs)) = event {
            let meta = SegmentMeta { segment_id, num_docs };
            if merges_committed(index.registers, segment_ids@) && num_docs == total_docs(
                keep_all(index.registers.committed, segment_ids@),
            ) {
                law_merge_keeps_number_of_documents(index.registers, segment_ids@, meta);
            }
        }
    }
}

/// Whether two views of a writer agree in everything but the operation.
pub open spec fn same_but_for_operation(first: WriterView, second: WriterView) -> bool {
    &&& first.heap_size_in_bytes_per_thread == second.heap_size_in_bytes_per_thread
    &&& first.num_threads == second.num_threads
    &&& first.workers == second.workers
    &&& first.docstamp == second.docstamp
    &&& first.pipeline == second.pipeline
    &&& first.former_receiver == second.former_receiver
    &&& first.segment_update_sender == second.segment_update_sender
}

/// Whether an event answers what the writer asked for.
pub open spec fn writer_answered(action: WriterAction, event: WriterEvent) -> bool {
    match event {
        WriterEvent::UpdateSent => action is SendUpdate || action is AwaitUpdates,
        WriterEvent::Drained(_) => action is DrainDocument,
        WriterEvent::WorkerJoined(_) => action is JoinWorker,
        WriterEvent::MetasSaved(_) => action is SaveMetas,
        WriterEvent::SearchersLoaded(_) => action is LoadSearchers,
        WriterEvent::MergerOpened(_) => action is OpenMerger,
        WriterEvent::SegmentCreated(_) => action is CreateSegment,
        WriterEvent::SerializerOpened(_) => action is OpenSerializer,
        WriterEvent::MergeWritten(_) => action is WriteMerged,
    }
}

/// The writer waits for an answer to what it has asked for last, whatever the answer, and
/// for nothing else: within an operation, when one starts, and when a worker has been
/// replaced.
pub proof fn law_writer_waits_for_answer(
    writer: WriterView,
    index: IndexView,
    event: WriterEvent,
    pipeline: PipelineView,
    segment_ids: Vec<SegmentId>,
    answer: WriterEvent,
)
    ensures
        writer_expects(writer.operation, event) ==> {
            let next = writer_next(writer, index, event, pipeline);
            writer_expects(next.0.operation, answer) <==> writer_answered(next.2, answer)
        },
        ({
            let started = commit_started(writer, pipeline);
            writer_expects(started.0.operation, answer) <==> writer_answered(started.1, answer)
        }),
        writer_expects(rollback_started(writer).operation, answer) <==> answer is UpdateSent,
        writer_expects(merge_started(writer, segment_ids).operation, answer)
            <==> answer is MergerOpened,
        writer.operation is Respawning ==> {
            let replaced = worker_replaced(writer);
            writer_expects(replaced.0.operation, answer) <==> writer_answered(replaced.1, answer)
        },
{
}

/// Adding a document sends exactly that document, whatever is in it: what has been sent
/// through the handle of the pipeline is what had been sent before, and then the document.
/// The docstamp goes up by one. Nothing else changes.
pub proof fn law_added_document_is_sent(writer: WriterView, document: Document)
    requires
        writer.docstamp < u64::MAX,
    ensures
        ({
            let next = document_added(writer, document);
            let sent = next.pipeline.document_sender.sent;
            &&& sent.len() == writer.pipeline.document_sender.sent.len() + 1
            &&& sent.last() == document
            &&& sent.drop_last() == writer.pipeline.document_sender.sent
            &&& next.docstamp == writer.docstamp + 1
            &&& next.pipeline.document_sender.channel == writer.pipeline.document_sender.channel
            &&& next.pipeline.document_sender.capacity == writer.pipeline.document_sender.capacity
            &&& next.pipeline.document_sender.original == writer.pipeline.document_sender.original
            &&& next.pipeline.document_receiver == writer.pipeline.document_receiver
            &&& next.heap_size_in_bytes_per_thread == writer.heap_size_in_bytes_per_thread
            &&& next.num_threads == writer.num_threads
            &&& next.workers == writer.workers
            &&& next.former_receiver == writer.former_receiver
            &&& next.segment_update_sender == writer.segment_update_sender
            &&& next.operation == writer.operation
        }),
{
    assert(document_added(writer, document).pipeline.document_sender.sent.drop_last()
        =~= writer.pipeline.document_sender.sent);
}

/// A pipeline that is new has two ends of one channel that holds as many documents as a
/// pipeline may, and nothing has come through it. The limits are what they are.
pub proof fn law_new_pipeline_is_connected_and_empty(pipeline: PipelineView)
    ensures
        pipeline.fresh() <==> {
            &&& pipeline.document_sender.channel == pipeline.document_receiver.channel
            &&& pipeline.document_sender.capacity == 10_000
            &&& pipeline.document_receiver.capacity == 10_000
            &&& pipeline.document_sender.original
            &&& pipeline.document_receiver.original
            &&& pipeline.document_sender.sent.len() == 0
            &&& pipeline.document_receiver.received.len() == 0
            &&& !pipeline.document_receiver.exhausted
        },
        MARGIN_IN_BYTES == 10_000_000,
        HEAP_SIZE_LIMIT == 30_000_000,
{
    if pipeline.document_sender.sent.len() == 0 {
        assert(pipeline.document_sender.sent =~= Seq::empty());
    }
    if pipeline.document_receiver.received.len() == 0 {
        assert(pipeline.document_receiver.received =~= Seq::empty());
    }
}

/// A new worker takes documents out of the very pipeline into which the writer puts them,
/// hands its segments to the very updater to which the writer talks, and has all the memory
/// that a worker of this writer has. It has done nothing yet.
pub proof fn law_new_worker_serves_its_writer(writer: WriterView)
    requires
        writer.wf(),
    ensures
        ({
            let worker = writer.new_worker();
            &&& worker.document_receiver.channel == writer.pipeline.document_sender.channel
            &&& worker.document_receiver.capacity == writer.pipeline.document_sender.capacity
            &&& worker.document_receiver.received.len() == 0
            &&& !worker.document_receiver.exhausted
            &&& worker.segment_update_sender.channel == writer.segment_update_sender.channel
            &&& worker.segment_update_sender.capacity == writer.segment_update_sender.capacity
            &&& worker.segment_update_sender.sent.len() == 0
            &&& worker.heap_size_in_bytes == writer.heap_size_in_bytes_per_thread
            &&& worker.state is Creating
        }),
{
}

/// A commit is one of the docstamp that the writer has when it starts. All workers are
/// waited for, one after the other, and if there is none, the updates at once. The new
/// pipeline is in place.
pub proof fn law_commit_starts_with_all_workers(writer: WriterView, pipeline: PipelineView)
    ensures
        ({
            let (next, action) = commit_started(writer, pipeline);
            &&& next.pipeline == pipeline
            &&& next.workers == 0
            &&& same_but_for_operation(
                next,
                WriterView { pipeline, workers: 0, ..writer },
            )
            &&& writer.workers > 0 ==> {
                &&& action is JoinWorker
                &&& next.operation matches Operation::Joining { ending, remaining }
                &&& ending == (Ending::Commit { docstamp: writer.docstamp })
                &&& remaining == writer.workers
            }
            &&& writer.workers == 0 ==> {
                &&& action is AwaitUpdates
                &&& next.operation matches Operation::Closing { ending }
                &&& ending == (Ending::Commit { docstamp: writer.docstamp })
            }
        }),
{
}

/// A rollback starts by cancelling the generation, and a merge by opening exactly the given
/// segments. Neither changes anything else.
pub proof fn law_rollback_and_merge_start(writer: WriterView, segment_ids: Vec<SegmentId>)
    ensures
        same_but_for_operation(rollback_started(writer), writer),
        rollback_started(writer).operation is Cancelling,
        same_but_for_operation(merge_started(writer, segment_ids), writer),
        merge_started(writer, segment_ids).operation == (Operation::OpeningMerger { segment_ids }),
{
}

/// When a worker has been replaced, there is one more, and the next one is waited for, or,
/// if none remains, the updater is told what the operation calls for.
pub proof fn law_replacement_goes_on_with_the_rest(writer: WriterView)
    requires
        writer.wf(),
        writer.operation is Respawning,
    ensures
        ({
            let (next, action) = worker_replaced(writer);
            &&& next.workers == writer.workers + 1
            &&& same_but_for_operation(next, WriterView { workers: next.workers, ..writer })
            &&& writer.operation matches Operation::Respawning { ending, remaining }
            &&& remaining > 0 ==> {
                &&& action is JoinWorker
                &&& next.operation == (Operation::Joining { ending, remaining })
            }
            &&& remaining == 0 ==> {
                &&& next.operation == (Operation::Closing { ending })
                &&& ending is Commit ==> action is AwaitUpdates
                &&& ending is Rollback ==> action == WriterAction::SendUpdate(
                    SegmentUpdate::NewGeneration,
                )
            }
        }),
{
}

/// What a commit or a rollback does on each answer. Once the generation is cancelled, the
/// pipeline is replaced, and the former one is drained to its end; then all workers are
/// waited for. Each worker that ends well is replaced. When the updater has been told, the
/// generation is closed and the meta file saved, then the searchers are updated, and then
/// the operation is through: a commit comes to its docstamp, a rollback to that of the
/// index, to which it also resets that of the writer.
pub proof fn law_commit_and_rollback_proceed(
    writer: WriterView,
    index: IndexView,
    event: WriterEvent,
    pipeline: PipelineView,
)
    requires
        writer.wf(),
        writer_expects(writer.operation, event),
    ensures
        ({
            let (next, after, action) = writer_next(writer, index, event, pipeline);
            &&& writer.operation is Cancelling ==> {
                &&& action is DrainDocument
                &&& next.operation is Draining
                &&& next.former_receiver == Some(writer.pipeline.document_receiver)
                &&& same_but_for_operation(
                    next,
                    WriterView { pipeline, former_receiver: next.former_receiver, ..writer },
                )
                &&& after == index
            }
            &&& event matches WriterEvent::Drained(Some(_)) ==> {
                &&& action is DrainDocument
                &&& next == writer
                &&& after == index
            }
            &&& event matches WriterEvent::Drained(None) ==> {
                &&& same_but_for_operation(
                    next,
                    WriterView { former_receiver: None, workers: 0, ..writer },
                )
                &&& after == index
                &&& writer.workers > 0 ==> {
                    &&& action is JoinWorker
                    &&& next.operation == (Operation::Joining {
                        ending: Ending::Rollback,
                        remaining: writer.workers,
                    })
                }
                &&& writer.workers == 0 ==> {
                    &&& action == WriterAction::SendUpdate(SegmentUpdate::NewGeneration)
                    &&& next.operation == (Operation::Closing { ending: Ending::Rollback })
                }
            }
            &&& event matches WriterEvent::WorkerJoined(Ok(Ok(_))) ==> {
                &&& action is RespawnWorker
                &&& same_but_for_operation(next, writer)
                &&& after == index
                &&& writer.operation matches Operation::Joining { ending, remaining }
                &&& next.operation == (Operation::Respawning {
                    ending,
                    remaining: (remaining - 1) as usize,
                })
            }
            &&& writer.operation matches Operation::Closing { ending } ==> {
                &&& action is SaveMetas
                &&& same_but_for_operation(next, writer)
                &&& next.operation == (Operation::Saving { ending })
            }
            &&& event matches WriterEvent::MetasSaved(Ok(_)) ==> {
                &&& action is LoadSearchers
                &&& same_but_for_operation(next, writer)
                &&& after == index
                &&& writer.operation matches Operation::Saving { ending }
                &&& next.operation == (Operation::Loading { ending })
            }
            &&& (event matches WriterEvent::SearchersLoaded(Ok(_))) && writer.operation is Loading
                ==> {
                &&& after == index
                &&& next.operation is Idle
                &&& writer.operation matches Operation::Loading { ending }
                &&& ending matches Ending::Commit { docstamp } ==> {
                    &&& action == WriterAction::Finished(Ok(docstamp))
                    &&& same_but_for_operation(next, writer)
                }
                &&& ending is Rollback ==> {
                    &&& action == WriterAction::Finished(Ok(index.docstamp))
                    &&& same_but_for_operation(
                        next,
                        WriterView { docstamp: index.docstamp, ..writer },
                    )
                }
            }
        }),
{
}

/// What the closing of a generation does to the index. A commit publishes every segment as
/// it is described, under the docstamp of the commit, and deletes nothing. A rollback has
/// the files of every uncommitted segment deleted, forgets these segments, loses no deletion
/// that waits already, and leaves the committed segments and the docstamp as they are.
pub proof fn law_closing_publishes_or_deletes(
    writer: WriterView,
    index: IndexView,
    pipeline: PipelineView,
)
    requires
        writer.operation is Closing,
    ensures
        ({
            let after = writer_next(writer, index, WriterEvent::UpdateSent, pipeline).1;
            let before = index.registers;
            let committed = after.registers.committed;
            &&& after.registers.uncommitted.len() == 0
            &&& writer.operation matches Operation::Closing {
                ending: Ending::Commit { docstamp },
            } ==> {
                &&& committed.len() == before.committed.len() + before.uncommitted.len()
                &&& forall|i: int|
                    0 <= i < before.committed.len() ==> #[trigger] committed[i]
                        == before.committed[i]
                &&& forall|i: int|
                    0 <= i < before.uncommitted.len() ==> committed[before.committed.len() + i]
                        == #[trigger] before.uncommitted[i]
                &&& total_docs(committed) == total_docs(before.committed) + total_docs(
                    before.uncommitted,
                )
                &&& after.docstamp == docstamp
                &&& after.deletions == index.deletions
            }
            &&& writer.operation == (Operation::Closing { ending: Ending::Rollback }) ==> {
                &&& committed == before.committed
                &&& after.docstamp == index.docstamp
                &&& after.deletions.len() == index.deletions.len() + before.uncommitted.len()
                &&& forall|i: int|
                    0 <= i < index.deletions.len() ==> #[trigger] after.deletions[i]
                        == index.deletions[i]
                &&& forall|i: int|
                    0 <= i < before.uncommitted.len() ==> after.deletions[index.deletions.len()
                        + i] == (#[trigger] before.uncommitted[i]).meta.segment_id
            }
        }),
{
    if let Operation::Closing { ending: Ending::Commit { docstamp } } = writer.operation {
        law_commit_keeps_descriptions(index, docstamp);
    } else {
        law_rollback_deletes_uncommitted_segments(index);
    }
}

/// A failure that the writer is told of, of whatever kind, ends the operation with that very
/// failure. A panic of a worker is rendered by what it panicked with. Nothing else changes.
pub proof fn law_failures_are_passed_on(
    writer: WriterView,
    index: IndexView,
    event: WriterEvent,
    pipeline: PipelineView,
)
    requires
        writer_expects(writer.operation, event),
    ensures
        ({
            let (next, after, action) = writer_next(writer, index, event, pipeline);
            let stopped = next.operation is Idle && same_but_for_operation(next, writer) && after
                == index;
            &&& event matches WriterEvent::WorkerJoined(Err(message)) ==> stopped && action
                == WriterAction::Finished(Err(Error::ErrorInThread(message)))
            &&& event matches WriterEvent::WorkerJoined(Ok(Err(error))) ==> stopped && action
                == WriterAction::Finished(Err(error))
            &&& event matches WriterEvent::MetasSaved(Err(error)) ==> stopped && action
                == WriterAction::Finished(Err(error))
            &&& event matches WriterEvent::SearchersLoaded(Err(error)) ==> stopped && action == (
            if writer.operation is Reloading {
                WriterAction::Merged(Err(error))
            } else {
                WriterAction::Finished(Err(error))
            })
            &&& event matches WriterEvent::MergerOpened(Err(error)) ==> stopped && action
                == WriterAction::Merged(Err(error))
            &&& event matches WriterEvent::SerializerOpened(Err(error)) ==> stopped && action
                == WriterAction::Merged(Err(error))
            &&& event matches WriterEvent::MergeWritten(Err(error)) ==> stopped && action
                == WriterAction::Merged(Err(error))
        }),
{
}

/// A merge writes to the segment that was created for it, and registers that very segment.
/// From the moment that the segments to be merged are open: a segment is created; whatever
/// its id, files are asked for under that id; then the merged segment is written; and it is
/// registered under that id, with as many documents as were written, in place of the
/// segments that the merge was started with. Whatever becomes of the index in between stays.
pub proof fn law_merge_registers_the_segment_it_writes(
    writer: WriterView,
    first: IndexView,
    second: IndexView,
    third: IndexView,
    segment_id: SegmentId,
    num_docs: usize,
    pipeline: PipelineView,
)
    requires
        writer.operation is CreatingMerged,
    ensures
        ({
            let segment_ids = writer.operation->CreatingMerged_segment_ids;
            let created = writer_next(
                writer,
                first,
                WriterEvent::SegmentCreated(segment_id),
                pipeline,
            );
            let opened = writer_next(
                created.0,
                second,
                WriterEvent::SerializerOpened(Ok(())),
                pipeline,
            );
            let written = writer_next(
                opened.0,
                third,
                WriterEvent::MergeWritten(Ok(num_docs)),
                pipeline,
            );
            let meta = SegmentMeta { segment_id, num_docs };
            &&& created.1 == first
            &&& created.2 == WriterAction::OpenSerializer(segment_id)
            &&& opened.1 == second
            &&& opened.2 is WriteMerged
            &&& written.1.docstamp == third.docstamp
            &&& written.1.deletions == third.deletions
            &&& written.1.registers == third.registers.end_merge(segment_ids@, meta)
            &&& contains_all(third.registers.uncommitted, segment_ids@) ==> {
                &&& written.1.registers.uncommitted.len() > 0
                &&& written.1.registers.uncommitted.last().meta.segment_id == segment_id
                &&& written.1.registers.uncommitted.last().meta.num_docs == num_docs
            }
            &&& merges_committed(third.registers, segment_ids@) ==> {
                &&& written.1.registers.committed.len() > 0
                &&& written.1.registers.committed.last().meta.segment_id == segment_id
                &&& written.1.registers.committed.last().meta.num_docs == num_docs
            }
            &&& written.2 is LoadSearchers
        }),
{
    let ids = writer.operation->CreatingMerged_segment_ids@;
    law_end_of_merge_replaces_segments(third.registers, ids, SegmentMeta { segment_id, num_docs });
}

/// What a merge asks for, and on what grounds. Files are asked for under an id if and only
/// if a segment of that id has just been created, and the merge then goes on with that id.
/// The segments that it merges are those that it was started with, all the way. Only when
/// the merged segment has been written does the index change.
pub proof fn law_merge_proceeds(
    writer: WriterView,
    index: IndexView,
    event: WriterEvent,
    pipeline: PipelineView,
    segment_id: SegmentId,
)
    requires
        writer_expects(writer.operation, event),
    ensures
        ({
            let (next, after, action) = writer_next(writer, index, event, pipeline);
            &&& action == WriterAction::OpenSerializer(segment_id) <==> event
                == WriterEvent::SegmentCreated(segment_id)
            &&& is_merge(writer.operation) ==> same_but_for_operation(next, writer)
            &&& is_merge(writer.operation) && !(event is MergeWritten) ==> after == index
            &&& event matches WriterEvent::MergerOpened(Ok(_)) ==> {
                &&& action is CreateSegment
                &&& writer.operation matches Operation::OpeningMerger { segment_ids }
                &&& next.operation == (Operation::CreatingMerged { segment_ids })
            }
            &&& event matches WriterEvent::SegmentCreated(created) ==> {
                &&& writer.operation matches Operation::CreatingMerged { segment_ids }
                &&& next.operation == (Operation::OpeningSerializer {
                    segment_ids,
                    segment_id: created,
                })
            }
            &&& event matches WriterEvent::SerializerOpened(Ok(_)) ==> {
                &&& action is WriteMerged
                &&& writer.operation matches Operation::OpeningSerializer {
                    segment_ids,
                    segment_id: opened,
                }
                &&& next.operation == (Operation::WritingMerged {
                    segment_ids,
                    segment_id: opened,
                })
            }
            &&& event matches WriterEvent::MergeWritten(Ok(_)) ==> action is LoadSearchers
                && next.operation is Reloading
            &&& (event matches WriterEvent::SearchersLoaded(Ok(_))) && writer.operation is Reloading
                ==> action == WriterAction::Merged(Ok(())) && next.operation is Idle
        }),
{
    if let WriterEvent::SearchersLoaded(Ok(unit)) = event {
        assert(unit == ());
    }
}

} // verus!
