//! The index writer, its workers and its segment updater at work together.
//!
//! The threads take their steps in any order. What they share are the two channels
//! and the index. The pipeline of documents hands each document to one worker, the
//! oldest document first; once it is replaced by a new one, the workers that hang on
//! to the former one find it closed when it is empty. The channel of segment updates
//! has no buffer: whoever sends an update goes on when the updater has taken it, and
//! the updater takes an update only when it has applied the one before. Every new
//! segment bears an id that no segment had before. A worker's segment holds the
//! documents that were added to it, and a merged segment holds the documents of the
//! segments it was merged from, each of which is named once. The files of an index
//! survive, those aside that the library has deleted.
//!
//! When a commit or a rollback is given up because a worker has failed, nobody waits for
//! the remaining workers of the former pipeline any more. They may go on for a while, and
//! all that is known of them is how many there are: they may hand any segment to the
//! updater at any time, until they stop.

use crate::channel::PIPELINE_MAX_SIZE_IN_DOCS;
use crate::document::Document;
use crate::error::Error;
use crate::index::IndexView;
use crate::index_writer::{
    Ending, Operation, PipelineView, WriterAction, WriterEvent, WriterView, closing_action,
    commit_started, document_added, merge_started, rollback_started, worker_replaced,
    writer_expects, writer_next,
};
use crate::indexing_worker::{WorkerEvent, WorkerState, worker_expects};
use crate::segment::{SegmentId, SegmentMeta};
use crate::segment_manager::{Registers, SegmentEntry, contains_all, contains_segment};
use crate::segment_update::SegmentUpdate;
use crate::segment_updater::{apply_generation, apply_update};
use crate::updater_laws::keep_all;
use crate::worker_laws::WorkerRecord;
use vstd::multiset::Multiset;
use vstd::prelude::*;

verus! {

/// The documents in the segments of a register.
pub open spec fn documents_in(
    register: Seq<SegmentEntry>,
    contents: Map<SegmentId, Multiset<Document>>,
) -> Multiset<Document>
    decreases register.len(),
{
    if register.len() == 0 {
        Multiset::empty()
    } else {
        documents_in(register.drop_last(), contents).add(contents[register.last().meta.segment_id])
    }
}

/// The documents that some workers hold.
pub open spec fn documents_held(workers: Seq<WorkerRecord>) -> Multiset<Document>
    decreases workers.len(),
{
    if workers.len() == 0 {
        Multiset::empty()
    } else {
        documents_held(workers.drop_last()).add(workers.last().held.to_multiset())
    }
}

/// An index writer at work.
pub struct System {
    pub writer: WriterView,
    pub index: IndexView,
    /// Whether the segment updater drops new segments.
    pub cancelled: bool,
    /// The update that the segment updater has taken and not applied yet.
    pub in_hand: Option<SegmentUpdate>,
    /// Whether the segment updater has taken the update that the writer sends.
    pub told: bool,
    /// The documents in the pipeline.
    pub queue: Seq<Document>,
    /// The documents that have been taken out of the pipeline, in order.
    pub taken: Seq<Document>,
    /// The documents in the former pipeline.
    pub former_queue: Seq<Document>,
    /// The workers at the pipeline.
    pub workers: Seq<WorkerRecord>,
    /// The workers at the former pipeline, those aside that have been waited for.
    pub former: Seq<WorkerRecord>,
    /// The documents in each segment that has been handed to the segment updater.
    pub contents: Map<SegmentId, Multiset<Document>>,
    /// The segments whose files have been removed.
    pub removed: Set<SegmentId>,
    /// The documents that have been committed.
    pub committed: Multiset<Document>,
    /// The documents that have been added since the last commit, or since the
    /// rollback after it, in order.
    pub pending: Seq<Document>,
    /// How many workers may still be running that nobody waits for any more: those
    /// that had not been waited for when a commit or a rollback was given up.
    pub strays: nat,
    /// Whether documents of the current generation may be lost or astray. That is so
    /// when a commit or a rollback was given up because a worker had failed, or when a
    /// commit found documents in the pipeline and no worker. The next commit or
    /// rollback that goes through makes up for it, unless a worker is astray.
    pub impaired: bool,
    /// Whether the docstamp of the index may differ from the number of documents that
    /// have been committed.
    pub index_off: bool,
    /// Whether the docstamp of the writer may differ from that of the index by another
    /// number than that of the documents that have been added since: a rollback failed
    /// at its very end, before the docstamp was reset.
    pub writer_off: bool,
}

/// A step of one of the threads.
pub enum Step {
    /// The user adds a document.
    AddDocument { document: Document },
    /// The user starts a commit, for which a new pipeline is made.
    StartCommit { pipeline: PipelineView },
    /// The user starts a rollback.
    StartRollback,
    /// The user starts a merge of some segments, no two of them the same.
    StartMerge { segment_ids: Vec<SegmentId> },
    /// A worker takes a document.
    WorkerReceives { former: bool, worker: int },
    /// A worker finds the former pipeline closed and empty.
    WorkerFindsNone { worker: int },
    /// A worker is told of something else.
    WorkerHears { former: bool, worker: int, event: WorkerEvent },
    /// A worker hands a finished segment to the segment updater.
    WorkerReports { former: bool, worker: int },
    /// The thread of a worker panics.
    WorkerPanics { former: bool, worker: int, message: String },
    /// The segment updater applies the update that it has taken.
    UpdaterApplies,
    /// The files of deleted segments are removed.
    FilesRemoved,
    /// The segment updater takes an update that the writer sends.
    WriterTells { update: SegmentUpdate },
    /// The writer is told of something. A new pipeline is at hand.
    WriterHears { outcome: WriterEvent, pipeline: PipelineView },
    /// The writer makes a worker in place of one that stopped.
    Respawn,
    /// A worker that nobody waits for hands a segment to the segment updater.
    StrayReports { meta: SegmentMeta, documents: Multiset<Document> },
    /// A worker that nobody waits for stops.
    StrayStops,
}

/// The documents in the segment that an update brings.
pub open spec fn documents_brought(
    update: Option<SegmentUpdate>,
    contents: Map<SegmentId, Multiset<Document>>,
) -> Multiset<Document> {
    match update {
        Some(SegmentUpdate::AddSegment(meta)) => contents[meta.segment_id],
        _ => Multiset::empty(),
    }
}

/// The documents in the segments that a merge puts together.
pub open spec fn documents_merged(
    registers: Registers,
    segment_ids: Seq<SegmentId>,
    contents: Map<SegmentId, Multiset<Document>>,
) -> Multiset<Document> {
    if contains_all(registers.uncommitted, segment_ids) {
        documents_in(keep_all(registers.uncommitted, segment_ids), contents)
    } else {
        documents_in(keep_all(registers.committed, segment_ids), contents)
    }
}

/// Whether the writer sends the given update during the given operation.
pub open spec fn tells(operation: Operation, update: SegmentUpdate) -> bool {
    match operation {
        Operation::Cancelling => update is CancelGeneration,
        Operation::Closing { ending } => match closing_action(ending) {
            WriterAction::SendUpdate(closing_update) => update == closing_update,
            _ => update matches SegmentUpdate::StartMerge(segment_ids) && segment_ids@.len() == 0,
        },
        _ => false,
    }
}

/// Whether an operation is a rollback that has only to be made known.
pub open spec fn is_rolled_back(operation: Operation) -> bool {
    match operation {
        Operation::Saving { ending } => ending is Rollback,
        Operation::Loading { ending } => ending is Rollback,
        _ => false,
    }
}

impl System {
    /// The workers at one of the pipelines.
    pub open spec fn crew(self, former: bool) -> Seq<WorkerRecord> {
        if former {
            self.former
        } else {
            self.workers
        }
    }

    /// One of the pipelines.
    pub open spec fn source(self, former: bool) -> Seq<Document> {
        if former {
            self.former_queue
        } else {
            self.queue
        }
    }

    /// The system with one worker changed.
    pub open spec fn with_worker(self, former: bool, worker: int, record: WorkerRecord) -> System {
        if former {
            System { former: self.former.update(worker, record), ..self }
        } else {
            System { workers: self.workers.update(worker, record), ..self }
        }
    }

    /// The system with the first document of a pipeline taken out.
    pub open spec fn with_first_taken(self, former: bool) -> System {
        if former {
            System { former_queue: self.former_queue.drop_first(), ..self }
        } else {
            System {
                queue: self.queue.drop_first(),
                taken: self.taken.push(self.queue[0]),
                ..self
            }
        }
    }

    /// Whether the outside world can tell the writer of an event.
    pub open spec fn admits(self, event: WriterEvent) -> bool {
        match event {
            WriterEvent::UpdateSent => self.told,
            WriterEvent::Drained(Some(document)) => self.former_queue.len() > 0 && document
                == self.former_queue[0],
            WriterEvent::Drained(None) => self.former_queue.len() == 0,
            WriterEvent::WorkerJoined(exit) => self.former.len() > 0 && self.former[0].exit == Some(
                exit,
            ),
            WriterEvent::MergeWritten(Ok(_)) => match self.writer.operation {
                Operation::WritingMerged { segment_id, .. } => !self.contents.contains_key(
                    segment_id,
                ),
                _ => true,
            },
            _ => true,
        }
    }

    /// Whether a step can be taken.
    pub open spec fn enabled(self, step: Step) -> bool {
        match step {
            Step::AddDocument { .. } => {
                &&& self.writer.operation is Idle
                &&& self.writer.docstamp < u64::MAX
                &&& self.queue.len() < PIPELINE_MAX_SIZE_IN_DOCS
            },
            Step::StartCommit { pipeline } => self.writer.operation is Idle && pipeline.fresh(),
            Step::StartRollback => self.writer.operation is Idle,
            Step::StartMerge { segment_ids } => {
                &&& self.writer.operation is Idle
                &&& segment_ids@.no_duplicates()
            },
            Step::WorkerReceives { former, worker } => {
                &&& 0 <= worker < self.crew(former).len()
                &&& worker_expects(
                    self.crew(former)[worker].state,
                    WorkerEvent::Received(Some(self.source(former)[0])),
                )
                &&& self.source(former).len() > 0
            },
            Step::WorkerFindsNone { worker } => {
                &&& 0 <= worker < self.former.len()
                &&& worker_expects(self.former[worker].state, WorkerEvent::Received(None))
                &&& self.former_queue.len() == 0
            },
            Step::WorkerHears { former, worker, event } => {
                &&& 0 <= worker < self.crew(former).len()
                &&& worker_expects(self.crew(former)[worker].state, event)
                &&& !(event is Received)
                &&& !(event is UpdateSent)
            },
            Step::WorkerReports { former, worker } => {
                &&& 0 <= worker < self.crew(former).len()
                &&& self.crew(former)[worker].state is Reporting
                &&& self.crew(former)[worker].outgoing matches Some(SegmentUpdate::AddSegment(meta))
                &&& !self.contents.contains_key(meta.segment_id)
                &&& self.in_hand is None
            },
            Step::WorkerPanics { former, worker, .. } => {
                &&& 0 <= worker < self.crew(former).len()
                &&& !(self.crew(former)[worker].state is Stopped)
            },
            Step::UpdaterApplies => self.in_hand is Some,
            Step::FilesRemoved => true,
            Step::WriterTells { update } => {
                &&& tells(self.writer.operation, update)
                &&& !self.told
                &&& self.in_hand is None
            },
            Step::WriterHears { outcome, pipeline } => {
                &&& writer_expects(self.writer.operation, outcome)
                &&& self.admits(outcome)
                &&& pipeline.fresh()
            },
            Step::Respawn => self.writer.operation is Respawning,
            Step::StrayReports { meta, .. } => {
                &&& self.strays > 0
                &&& !self.contents.contains_key(meta.segment_id)
                &&& self.in_hand is None
            },
            Step::StrayStops => self.strays > 0,
        }
    }

    /// The system after the writer was told of something.
    pub open spec fn hear(self, event: WriterEvent, pipeline: PipelineView) -> System {
        let (writer, index, action) = writer_next(self.writer, self.index, event, pipeline);
        let next = System {
            writer,
            index,
            told: false,
            writer_off: if is_rolled_back(self.writer.operation) && action is Finished {
                action matches WriterAction::Finished(Err(_))
            } else {
                self.writer_off
            },
            ..self
        };
        match (self.writer.operation, event) {
            (Operation::Cancelling, WriterEvent::UpdateSent) => System {
                queue: Seq::empty(),
                taken: Seq::empty(),
                former_queue: self.queue,
                workers: Seq::empty(),
                former: self.workers,
                ..next
            },
            (Operation::Draining, WriterEvent::Drained(Some(_))) => System {
                former_queue: self.former_queue.drop_first(),
                ..next
            },
            (Operation::Joining { .. }, WriterEvent::WorkerJoined(Ok(Ok(_)))) => System {
                former: self.former.drop_first(),
                ..next
            },
            (Operation::Joining { .. }, WriterEvent::WorkerJoined(_)) => System {
                former: Seq::empty(),
                former_queue: Seq::empty(),
                strays: (self.strays + self.former.len() - 1) as nat,
                impaired: true,
                ..next
            },
            (Operation::Closing { ending: Ending::Commit { .. } }, WriterEvent::UpdateSent) => {
                System {
                    committed: if self.impaired {
                        documents_in(index.registers.committed, self.contents)
                    } else {
                        self.committed.add(self.pending.to_multiset())
                    },
                    pending: Seq::empty(),
                    impaired: self.impaired && !self.is_clear(),
                    index_off: self.index_off || self.writer_off || self.impaired,
                    writer_off: false,
                    ..next
                }
            },
            (Operation::Closing { ending: Ending::Rollback }, WriterEvent::UpdateSent) => System {
                pending: Seq::empty(),
                impaired: self.impaired && !self.is_clear(),
                ..next
            },
            (
                Operation::WritingMerged { segment_ids, segment_id },
                WriterEvent::MergeWritten(Ok(_)),
            ) => System {
                contents: self.contents.insert(
                    segment_id,
                    documents_merged(self.index.registers, segment_ids@, self.contents),
                ),
                ..next
            },
            _ => next,
        }
    }

    /// The system after a step.
    pub open spec fn next(self, step: Step) -> System {
        match step {
            Step::AddDocument { document } => System {
                writer: document_added(self.writer, document),
                queue: self.queue.push(document),
                pending: self.pending.push(document),
                ..self
            },
            Step::StartCommit { pipeline } => System {
                writer: commit_started(self.writer, pipeline).0,
                queue: Seq::empty(),
                taken: Seq::empty(),
                former_queue: if self.workers.len() > 0 {
                    self.queue
                } else {
                    Seq::empty()
                },
                workers: Seq::empty(),
                former: self.workers,
                impaired: self.impaired || self.workers.len() == 0 && self.queue.len() > 0,
                ..self
            },
            Step::StartRollback => System { writer: rollback_started(self.writer), ..self },
            Step::StartMerge { segment_ids } => System {
                writer: merge_started(self.writer, segment_ids),
                ..self
            },
            Step::WorkerReceives { former, worker } => self.with_first_taken(former).with_worker(
                former,
                worker,
                self.crew(former)[worker].next(
                    WorkerEvent::Received(Some(self.source(former)[0])),
                ),
            ),
            Step::WorkerFindsNone { worker } => self.with_worker(
                true,
                worker,
                self.former[worker].next(WorkerEvent::Received(None)),
            ),
            Step::WorkerHears { former, worker, event } => self.with_worker(
                former,
                worker,
                self.crew(former)[worker].next(event),
            ),
            Step::WorkerReports { former, worker } => {
                let record = self.crew(former)[worker];
                System {
                    in_hand: record.outgoing,
                    contents: self.contents.insert(
                        record.outgoing->0->AddSegment_0.segment_id,
                        record.written.to_multiset(),
                    ),
                    ..self.with_worker(former, worker, record.next(WorkerEvent::UpdateSent))
                }
            },
            Step::WorkerPanics { former, worker, message } => self.with_worker(
                former,
                worker,
                WorkerRecord {
                    state: WorkerState::Stopped,
                    outgoing: None,
                    exit: Some(Err(message)),
                    ..self.crew(former)[worker]
                },
            ),
            Step::UpdaterApplies => System {
                index: apply_update(self.index, self.cancelled, self.in_hand->0),
                cancelled: apply_generation(self.cancelled, self.in_hand->0),
                in_hand: None,
                ..self
            },
            Step::FilesRemoved => System {
                index: IndexView { deletions: Seq::empty(), ..self.index },
                removed: self.removed.union(self.index.deletions.to_set()),
                ..self
            },
            Step::WriterTells { update } => System { in_hand: Some(update), told: true, ..self },
            Step::WriterHears { outcome, pipeline } => self.hear(outcome, pipeline),
            Step::Respawn => System {
                writer: worker_replaced(self.writer).0,
                workers: self.workers.push(WorkerRecord::start()),
                ..self
            },
            Step::StrayReports { meta, documents } => System {
                in_hand: Some(SegmentUpdate::AddSegment(meta)),
                contents: self.contents.insert(meta.segment_id, documents),
                ..self
            },
            Step::StrayStops => System { strays: (self.strays - 1) as nat, ..self },
        }
    }

    /// Whether the generation will be cancelled once the update in hand is
    /// applied.
    pub open spec fn will_be_cancelled(self) -> bool {
        match self.in_hand {
            Some(update) => apply_generation(self.cancelled, update),
            None => self.cancelled,
        }
    }

    /// Whether nothing of the generation that is being closed can turn up in the next
    /// one, and the segments of the next one will be accepted.
    pub open spec fn is_clear(self) -> bool {
        &&& self.strays == 0
        &&& !(self.in_hand matches Some(SegmentUpdate::AddSegment(_)))
        &&& !self.will_be_cancelled()
    }

    /// Whether the documents of the current generation are being thrown away.
    pub open spec fn throws_away(self) -> bool {
        match self.writer.operation {
            Operation::Cancelling => self.told,
            Operation::Draining => true,
            Operation::Joining { ending, .. } => ending is Rollback,
            Operation::Respawning { ending, .. } => ending is Rollback,
            Operation::Closing { ending } => ending is Rollback,
            _ => false,
        }
    }

    /// Whether the writer is between one generation and the next.
    pub open spec fn is_between_generations(self) -> bool {
        ||| self.writer.operation is Draining
        ||| self.writer.operation is Joining
        ||| self.writer.operation is Respawning
        ||| self.writer.operation is Closing
        ||| self.writer.operation is Saving
        ||| self.writer.operation is Loading
    }

    /// All documents on their way from the user into the uncommitted segments.
    pub open spec fn documents_under_way(self) -> Multiset<Document> {
        self.queue.to_multiset().add(self.former_queue.to_multiset()).add(
            documents_held(self.workers),
        ).add(documents_held(self.former)).add(
            documents_brought(self.in_hand, self.contents),
        ).add(documents_in(self.index.registers.uncommitted, self.contents))
    }

    /// The writer knows how many workers there are.
    pub open spec fn inv_staff(self) -> bool {
        &&& self.writer.wf()
        &&& match self.writer.operation {
            Operation::Draining => {
                &&& self.workers.len() == 0
                &&& self.former.len() == self.writer.workers
            },
            Operation::Joining { remaining, .. } => {
                &&& self.workers.len() == self.writer.workers
                &&& self.former.len() == remaining
            },
            Operation::Respawning { remaining, .. } => {
                &&& self.workers.len() == self.writer.workers
                &&& self.former.len() == remaining
            },
            _ => {
                &&& self.workers.len() == self.writer.workers
                &&& self.former.len() == 0
            },
        }
        &&& self.told ==> self.writer.operation is Cancelling || self.writer.operation is Closing
        &&& self.strays > 0 ==> self.impaired
        &&& self.told && self.writer.operation == (Operation::Closing { ending: Ending::Rollback })
            ==> !self.will_be_cancelled()
    }

    /// No more documents wait than a pipeline holds.
    pub open spec fn inv_pipelines(self) -> bool {
        &&& self.queue.len() <= PIPELINE_MAX_SIZE_IN_DOCS
        &&& self.former_queue.len() <= PIPELINE_MAX_SIZE_IN_DOCS
    }

    /// What waits in the pipeline is what has been sent through the handle of the writer
    /// and has not been taken out yet, in order. What has been sent is what has been added
    /// since the last commit or rollback, unless the generation is being closed or is
    /// impaired.
    pub open spec fn inv_sent(self) -> bool {
        &&& self.writer.pipeline.document_sender.sent == self.taken + self.queue
        &&& self.is_between_generations() ==> self.writer.pipeline.document_sender.sent.len() == 0
        &&& !self.impaired && !(self.writer.operation is Draining) && !(
        self.writer.operation is Joining) && !(self.writer.operation is Respawning) && !(
        self.writer.operation is Closing) ==> self.pending
            == self.writer.pipeline.document_sender.sent
    }

    /// The workers are in order. Only at a former pipeline, and only when it is
    /// empty, does a worker end without a failure.
    pub open spec fn inv_workers(self) -> bool {
        &&& forall|i: int|
            #![trigger self.workers[i]]
            0 <= i < self.workers.len() ==> {
                &&& self.workers[i].inv()
                &&& self.workers[i].exit != Some(Ok::<Result<(), Error>, String>(Ok(())))
            }
        &&& forall|i: int|
            #![trigger self.former[i]]
            0 <= i < self.former.len() ==> {
                &&& self.former[i].inv()
                &&& self.former[i].exit == Some(Ok::<Result<(), Error>, String>(Ok(())))
                    ==> self.former_queue.len() == 0
            }
        &&& self.is_between_generations() ==> {
            &&& self.queue.len() == 0
            &&& forall|i: int|
                0 <= i < self.workers.len() ==> (#[trigger] self.workers[i]).is_resting()
                    || self.workers[i].state is Stopped && self.workers[i].held.len() == 0
        }
    }

    /// The former pipeline is empty, as soon as one of its workers has ended
    /// without a failure, or it has been drained.
    pub open spec fn inv_former_queue(self) -> bool {
        match self.writer.operation {
            Operation::Draining => true,
            Operation::Joining { ending, .. } => ending is Rollback || self.workers.len() > 0
                ==> self.former_queue.len() == 0,
            _ => self.former_queue.len() == 0,
        }
    }

    /// The contents of every segment are known. The segment updater has in hand
    /// only what workers and writer send.
    pub open spec fn inv_segments(self) -> bool {
        &&& forall|i: int|
            0 <= i < self.index.registers.committed.len() ==> self.contents.contains_key(
                (#[trigger] self.index.registers.committed[i]).meta.segment_id,
            )
        &&& forall|i: int|
            0 <= i < self.index.registers.uncommitted.len() ==> self.contents.contains_key(
                (#[trigger] self.index.registers.uncommitted[i]).meta.segment_id,
            )
        &&& match self.in_hand {
            Some(SegmentUpdate::AddSegment(meta)) => self.contents.contains_key(meta.segment_id),
            Some(SegmentUpdate::StartMerge(segment_ids)) => segment_ids@.len() == 0,
            Some(SegmentUpdate::EndMerge(_, _)) => false,
            _ => true,
        }
    }

    /// Whether the files of a segment have been removed or are to be.
    pub open spec fn is_deleted(self, segment_id: SegmentId) -> bool {
        self.index.deletions.contains(segment_id) || self.removed.contains(segment_id)
    }

    /// Every segment is in one place: committed, uncommitted, in the hands of the segment
    /// updater, or deleted. A deleted one has been handed over before, so that no new
    /// segment bears its id.
    pub open spec fn inv_files(self) -> bool {
        let registers = self.index.registers;
        &&& forall|segment_id: SegmentId|
            #![trigger contains_segment(registers.committed, segment_id)]
            #![trigger contains_segment(registers.uncommitted, segment_id)]
            !(contains_segment(registers.committed, segment_id) && contains_segment(
                registers.uncommitted,
                segment_id,
            ))
        &&& self.in_hand matches Some(SegmentUpdate::AddSegment(meta)) ==> {
            &&& !contains_segment(registers.committed, meta.segment_id)
            &&& !contains_segment(registers.uncommitted, meta.segment_id)
            &&& !self.is_deleted(meta.segment_id)
        }
        &&& forall|segment_id: SegmentId| #[trigger]
            self.is_deleted(segment_id) ==> {
                &&& self.contents.contains_key(segment_id)
                &&& !contains_segment(registers.committed, segment_id)
                &&& !contains_segment(registers.uncommitted, segment_id)
            }
    }

    /// The committed segments hold the committed documents. A commit goes by the
    /// docstamp of the writer.
    pub open spec fn inv_commit(self) -> bool {
        &&& documents_in(self.index.registers.committed, self.contents) == self.committed
        &&& match self.writer.operation {
            Operation::Joining { ending: Ending::Commit { docstamp }, .. } => docstamp
                == self.writer.docstamp,
            Operation::Respawning { ending: Ending::Commit { docstamp }, .. } => docstamp
                == self.writer.docstamp,
            Operation::Closing { ending: Ending::Commit { docstamp } } => docstamp
                == self.writer.docstamp,
            Operation::Saving { ending: Ending::Commit { docstamp } } => docstamp
                == self.writer.docstamp && docstamp == self.index.docstamp,
            Operation::Loading { ending: Ending::Commit { docstamp } } => docstamp
                == self.writer.docstamp && docstamp == self.index.docstamp,
            _ => true,
        }
    }

    /// Docstamps are numbers of documents.
    pub open spec fn inv_count(self) -> bool {
        &&& !self.index_off ==> self.committed.len() == self.index.docstamp
        &&& !self.writer_off && !is_rolled_back(self.writer.operation) ==> self.writer.docstamp
            == self.index.docstamp + self.pending.len()
        &&& self.writer.operation is Saving || self.writer.operation is Loading
            ==> self.pending.len() == 0
    }

    /// No document gets lost and none is counted twice, unless the generation is
    /// being rolled back or is impaired.
    pub open spec fn inv_documents(self) -> bool {
        !self.impaired ==> self.keeps_documents()
    }

    /// What holds of the documents while the generation is not impaired.
    pub open spec fn keeps_documents(self) -> bool {
        &&& !self.throws_away() ==> {
            &&& self.documents_under_way() == self.pending.to_multiset()
            &&& !self.will_be_cancelled()
        }
        &&& self.writer.operation is Closing && self.told ==> {
            &&& !(self.in_hand matches Some(SegmentUpdate::AddSegment(_)))
            &&& !self.will_be_cancelled()
        }
        &&& self.writer.operation is Saving || self.writer.operation is Loading ==> {
            &&& !(self.in_hand matches Some(SegmentUpdate::AddSegment(_)))
            &&& self.index.registers.uncommitted.len() == 0
        }
    }

    /// What holds of the system at any time.
    pub open spec fn inv(self) -> bool {
        &&& self.inv_staff()
        &&& self.inv_pipelines()
        &&& self.inv_sent()
        &&& self.inv_workers()
        &&& self.inv_former_queue()
        &&& self.inv_segments()
        &&& self.inv_commit()
        &&& self.inv_count()
        &&& self.inv_documents()
    }
}

} // verus!
