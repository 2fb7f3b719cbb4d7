//! The index writer, the user's entry point for adding documents to an index.
//!
//! Committing, rolling back and merging alternate between decisions, which are
//! taken here, and work on threads and files. The writer asks for a piece of work
//! by a [`WriterAction`], is told how it went by a [`WriterEvent`], and answers
//! with the next action, until the operation is finished.

use crate::channel::{
    PIPELINE_MAX_SIZE_IN_DOCS, ReceiverView, SenderView, clone_document_receiver,
    clone_update_sender, document_channel, document_receiver, document_sender, receive_document,
    send_document, send_update, update_channel, update_sender,
};
use crate::document::Document;
use crate::error::Error;
use crate::index::{Index, IndexView, commit};
use crate::indexing_worker::{IndexingWorker, WorkerState, WorkerView};
use crate::segment::{SegmentId, SegmentMeta};
use crate::segment_update::SegmentUpdate;
use crate::segment_updater::{SegmentUpdater, UpdaterPhase};
use vstd::prelude::*;

verus! {

/// Size of the margin for the heap. A segment is closed when the remaining memory
/// in the heap goes below it.
pub const MARGIN_IN_BYTES: u32 = 10_000_000u32;

/// The memory per indexing worker has to be at least 30 MB.
pub const HEAP_SIZE_LIMIT: u32 = MARGIN_IN_BYTES * 3u32;

/// What an operation that stops the workers is good for.
#[derive(Debug, Clone, Copy, PartialEq, Eq, Structural)]
pub enum Ending {
    /// The changes are published, up to the document of the given docstamp.
    Commit { docstamp: u64 },
    /// The changes since the last commit are thrown away.
    Rollback,
}

/// The operation that an index writer is busy with.
#[derive(Debug)]
pub enum Operation {
    /// None: documents can be added.
    Idle,
    /// The generation is being cancelled.
    Cancelling,
    /// The former pipeline is being drained: the workers need not index the
    /// documents that wait there.
    Draining,
    /// A worker is being waited for. `remaining` workers, this one included, have
    /// not stopped yet.
    Joining { ending: Ending, remaining: usize },
    /// A worker has stopped, and a new one takes its place. `remaining` workers
    /// have not stopped yet.
    Respawning { ending: Ending, remaining: usize },
    /// All workers of the generation have stopped. The segment updater is being
    /// told, and waited for.
    Closing { ending: Ending },
    /// The meta file is being saved.
    Saving { ending: Ending },
    /// The searchers are being updated.
    Loading { ending: Ending },
    /// The segments to be merged are being opened.
    OpeningMerger { segment_ids: Vec<SegmentId> },
    /// A segment to merge into is being created.
    CreatingMerged { segment_ids: Vec<SegmentId> },
    /// The files of the segment to merge into are being created.
    OpeningSerializer { segment_ids: Vec<SegmentId>, segment_id: SegmentId },
    /// The merged segment is being written.
    WritingMerged { segment_ids: Vec<SegmentId>, segment_id: SegmentId },
    /// The searchers are being updated after a merge.
    Reloading,
}

/// What an index writer is told.
#[derive(Debug)]
pub enum WriterEvent {
    /// The segment updater has the update.
    UpdateSent,
    /// What was found in the former pipeline.
    Drained(Option<Document>),
    /// A worker has stopped. The outer error renders what its thread panicked
    /// with.
    WorkerJoined(Result<Result<(), Error>, String>),
    MetasSaved(Result<(), Error>),
    SearchersLoaded(Result<(), Error>),
    MergerOpened(Result<(), Error>),
    SegmentCreated(SegmentId),
    SerializerOpened(Result<(), Error>),
    /// The merged segment has been written, with so many documents.
    MergeWritten(Result<usize, Error>),
}

/// What an index writer asks for.
#[derive(Debug)]
pub enum WriterAction {
    /// Hand the update to the segment updater.
    SendUpdate(SegmentUpdate),
    /// Wait until the segment updater has dealt with all updates so far.
    AwaitUpdates,
    /// Take a document out of the former pipeline.
    DrainDocument,
    /// Wait until the longest-standing worker stops.
    JoinWorker,
    /// Start a worker in place of the one that stopped.
    RespawnWorker,
    /// Save the meta file of the index.
    SaveMetas,
    /// Update the searchers of the index.
    LoadSearchers,
    /// Open the segments to be merged.
    OpenMerger,
    /// Create a segment to merge into.
    CreateSegment,
    /// Create the files of the given segment.
    OpenSerializer(SegmentId),
    /// Write the merged segment.
    WriteMerged,
    /// The commit or rollback is done.
    Finished(Result<u64, Error>),
    /// The merge is done.
    Merged(Result<(), Error>),
}

/// The two ends of the pipeline of documents.
pub struct PipelineView {
    pub document_sender: SenderView<Document>,
    pub document_receiver: ReceiverView<Document>,
}

impl PipelineView {
    /// Whether these are the two ends of one channel of the right size, which is
    /// open as far as its receiving end knows.
    pub open spec fn connected(self) -> bool {
        &&& self.document_sender.channel == self.document_receiver.channel
        &&& self.document_sender.capacity == PIPELINE_MAX_SIZE_IN_DOCS
        &&& self.document_receiver.capacity == PIPELINE_MAX_SIZE_IN_DOCS
        &&& self.document_sender.original
        &&& self.document_receiver.original
        &&& !self.document_receiver.exhausted
    }

    /// Whether this is a new channel, through which nothing has come yet.
    pub open spec fn fresh(self) -> bool {
        &&& self.connected()
        &&& self.document_sender.sent == Seq::<Document>::empty()
        &&& self.document_receiver.received == Seq::<Document>::empty()
    }
}

/// What is known of an index writer.
pub struct WriterView {
    pub heap_size_in_bytes_per_thread: usize,
    pub num_threads: usize,
    /// How many workers are running, those aside that are being waited for.
    pub workers: usize,
    /// The docstamp of the last document that was added.
    pub docstamp: u64,
    pub pipeline: PipelineView,
    /// The receiving end of the pipeline that is being drained.
    pub former_receiver: Option<ReceiverView<Document>>,
    pub segment_update_sender: SenderView<SegmentUpdate>,
    pub operation: Operation,
}

impl WriterView {
    /// How many workers there are, those included that have still to be waited
    /// for or to be replaced.
    pub open spec fn staff(self) -> int {
        match self.operation {
            Operation::Joining { remaining, .. } => self.workers + remaining,
            Operation::Respawning { remaining, .. } => self.workers + remaining + 1,
            _ => self.workers as int,
        }
    }

    /// What holds of every index writer.
    pub open spec fn wf(self) -> bool {
        &&& self.pipeline.connected()
        &&& self.former_receiver is Some <==> self.operation is Draining
        &&& self.operation matches Operation::Joining { remaining, .. } ==> remaining > 0
        &&& self.staff() <= self.num_threads
    }

    /// The worker that serves this index writer, as it starts: it takes documents
    /// from the pipeline and reports to the segment updater.
    pub open spec fn new_worker(self) -> WorkerView {
        WorkerView {
            heap_size_in_bytes: self.heap_size_in_bytes_per_thread,
            document_receiver: ReceiverView {
                original: false,
                received: Seq::empty(),
                ..self.pipeline.document_receiver
            },
            segment_update_sender: SenderView {
                original: false,
                sent: Seq::empty(),
                ..self.segment_update_sender
            },
            state: WorkerState::Creating,
        }
    }
}

/// The writer after a document was added.
pub open spec fn document_added(writer: WriterView, document: Document) -> WriterView {
    WriterView {
        docstamp: (writer.docstamp + 1) as u64,
        pipeline: PipelineView {
            document_sender: SenderView {
                sent: writer.pipeline.document_sender.sent.push(document),
                ..writer.pipeline.document_sender
            },
            ..writer.pipeline
        },
        ..writer
    }
}

/// What is asked for once all workers of a generation have stopped. A rollback
/// opens a new generation, so that segments are accepted again. A commit only
/// makes sure that the last segments have been registered.
pub open spec fn closing_action(ending: Ending) -> WriterAction {
    match ending {
        Ending::Commit { .. } => WriterAction::AwaitUpdates,
        Ending::Rollback => WriterAction::SendUpdate(SegmentUpdate::NewGeneration),
    }
}

/// The writer waits for the next of the workers that have not stopped yet, or, if
/// there is none left, closes the generation.
pub open spec fn join_next(writer: WriterView, ending: Ending, remaining: usize) -> (
    WriterView,
    WriterAction,
) {
    if remaining == 0 {
        (
            WriterView { operation: Operation::Closing { ending }, ..writer },
            closing_action(ending),
        )
    } else {
        (
            WriterView { operation: Operation::Joining { ending, remaining }, ..writer },
            WriterAction::JoinWorker,
        )
    }
}

/// The writer starts to wait for all its workers.
pub open spec fn join_all(writer: WriterView, ending: Ending) -> (WriterView, WriterAction) {
    join_next(WriterView { workers: 0, ..writer }, ending, writer.workers)
}

/// The writer starts a commit, and puts a new pipeline in place of the current one.
pub open spec fn commit_started(writer: WriterView, pipeline: PipelineView) -> (
    WriterView,
    WriterAction,
) {
    join_all(WriterView { pipeline, ..writer }, Ending::Commit { docstamp: writer.docstamp })
}

/// The writer starts a rollback.
pub open spec fn rollback_started(writer: WriterView) -> WriterView {
    WriterView { operation: Operation::Cancelling, ..writer }
}

/// The writer starts a merge.
pub open spec fn merge_started(writer: WriterView, segment_ids: Vec<SegmentId>) -> WriterView {
    WriterView { operation: Operation::OpeningMerger { segment_ids }, ..writer }
}

/// The writer has a new worker in place of the one that stopped, and goes on.
pub open spec fn worker_replaced(writer: WriterView) -> (WriterView, WriterAction)
    recommends
        writer.operation is Respawning,
{
    join_next(
        WriterView { workers: (writer.workers + 1) as usize, ..writer },
        writer.operation->Respawning_ending,
        writer.operation->Respawning_remaining,
    )
}

/// The writer is through with its operation.
pub open spec fn idle(writer: WriterView) -> WriterView {
    WriterView { operation: Operation::Idle, ..writer }
}

/// The index when a generation is closed.
pub open spec fn close_generation(index: IndexView, ending: Ending) -> IndexView {
    match ending {
        Ending::Commit { docstamp } => index.commit(docstamp),
        Ending::Rollback => index.rollback(),
    }
}

/// The docstamp at the end of an operation: that of the last document in the
/// commit, or that of the last commit.
pub open spec fn ending_docstamp(writer: WriterView, index: IndexView, ending: Ending) -> (
    WriterView,
    u64,
) {
    match ending {
        Ending::Commit { docstamp } => (writer, docstamp),
        Ending::Rollback => (WriterView { docstamp: index.docstamp, ..writer }, index.docstamp),
    }
}

/// Whether an event is one that the writer waits for.
pub open spec fn writer_expects(operation: Operation, event: WriterEvent) -> bool {
    match operation {
        Operation::Idle => false,
        Operation::Cancelling => event is UpdateSent,
        Operation::Draining => event is Drained,
        Operation::Joining { .. } => event is WorkerJoined,
        Operation::Respawning { .. } => false,
        Operation::Closing { .. } => event is UpdateSent,
        Operation::Saving { .. } => event is MetasSaved,
        Operation::Loading { .. } => event is SearchersLoaded,
        Operation::OpeningMerger { .. } => event is MergerOpened,
        Operation::CreatingMerged { .. } => event is SegmentCreated,
        Operation::OpeningSerializer { .. } => event is SerializerOpened,
        Operation::WritingMerged { .. } => event is MergeWritten,
        Operation::Reloading => event is SearchersLoaded,
    }
}

/// Where an event takes the writer and the index, and what the writer then asks
/// for. `pipeline` is the new pipeline, where one is made. A failure ends the
/// operation, and is what it comes to. An event that the writer does not expect
/// leaves everything as it is.
pub open spec fn writer_next(
    writer: WriterView,
    index: IndexView,
    event: WriterEvent,
    pipeline: PipelineView,
) -> (WriterView, IndexView, WriterAction) {
    match (writer.operation, event) {
        (Operation::Cancelling, WriterEvent::UpdateSent) => (
            WriterView {
                pipeline,
                former_receiver: Some(writer.pipeline.document_receiver),
                operation: Operation::Draining,
                ..writer
            },
            index,
            WriterAction::DrainDocument,
        ),
        (Operation::Draining, WriterEvent::Drained(Some(_))) => (
            writer,
            index,
            WriterAction::DrainDocument,
        ),
        (Operation::Draining, WriterEvent::Drained(None)) => {
            let next = join_all(WriterView { former_receiver: None, ..writer }, Ending::Rollback);
            (next.0, index, next.1)
        },
        (Operation::Joining { ending, remaining }, WriterEvent::WorkerJoined(Ok(Ok(_)))) => (
            WriterView {
                operation: Operation::Respawning { ending, remaining: (remaining - 1) as usize },
                ..writer
            },
            index,
            WriterAction::RespawnWorker,
        ),
        (Operation::Joining { .. }, WriterEvent::WorkerJoined(Ok(Err(error)))) => (
            idle(writer),
            index,
            WriterAction::Finished(Err(error)),
        ),
        (Operation::Joining { .. }, WriterEvent::WorkerJoined(Err(message))) => (
            idle(writer),
            index,
            WriterAction::Finished(Err(Error::ErrorInThread(message))),
        ),
        (Operation::Closing { ending }, WriterEvent::UpdateSent) => (
            WriterView { operation: Operation::Saving { ending }, ..writer },
            close_generation(index, ending),
            WriterAction::SaveMetas,
        ),
        (Operation::Saving { ending }, WriterEvent::MetasSaved(Ok(_))) => (
            WriterView { operation: Operation::Loading { ending }, ..writer },
            index,
            WriterAction::LoadSearchers,
        ),
        (Operation::Saving { .. }, WriterEvent::MetasSaved(Err(error))) => (
            idle(writer),
            index,
            WriterAction::Finished(Err(error)),
        ),
        (Operation::Loading { ending }, WriterEvent::SearchersLoaded(Ok(_))) => {
            let end = ending_docstamp(idle(writer), index, ending);
            (end.0, index, WriterAction::Finished(Ok(end.1)))
        },
        (Operation::Loading { .. }, WriterEvent::SearchersLoaded(Err(error))) => (
            idle(writer),
            index,
            WriterAction::Finished(Err(error)),
        ),
        (Operation::OpeningMerger { segment_ids }, WriterEvent::MergerOpened(Ok(_))) => (
            WriterView { operation: Operation::CreatingMerged { segment_ids }, ..writer },
            index,
            WriterAction::CreateSegment,
        ),
        (Operation::OpeningMerger { .. }, WriterEvent::MergerOpened(Err(error))) => (
            idle(writer),
            index,
            WriterAction::Merged(Err(error)),
        ),
        (
            Operation::CreatingMerged { segment_ids },
            WriterEvent::SegmentCreated(segment_id),
        ) => (
            WriterView {
                operation: Operation::OpeningSerializer { segment_ids, segment_id },
                ..writer
            },
            index,
            WriterAction::OpenSerializer(segment_id),
        ),
        (
            Operation::OpeningSerializer { segment_ids, segment_id },
            WriterEvent::SerializerOpened(Ok(_)),
        ) => (
            WriterView {
                operation: Operation::WritingMerged { segment_ids, segment_id },
                ..writer
            },
            index,
            WriterAction::WriteMerged,
        ),
        (Operation::OpeningSerializer { .. }, WriterEvent::SerializerOpened(Err(error))) => (
            idle(writer),
            index,
            WriterAction::Merged(Err(error)),
        ),
        (
            Operation::WritingMerged { segment_ids, segment_id },
            WriterEvent::MergeWritten(Ok(num_docs)),
        ) => (
            WriterView { operation: Operation::Reloading, ..writer },
            IndexView {
                registers: index.registers.end_merge(
                    segment_ids@,
                    SegmentMeta { segment_id, num_docs },
                ),
                ..index
            },
            WriterAction::LoadSearchers,
        ),
        (Operation::WritingMerged { .. }, WriterEvent::MergeWritten(Err(error))) => (
            idle(writer),
            index,
            WriterAction::Merged(Err(error)),
        ),
        (Operation::Reloading, WriterEvent::SearchersLoaded(result)) => (
            idle(writer),
            index,
            WriterAction::Merged(result),
        ),
        _ => (writer, index, WriterAction::SaveMetas),
    }
}

/// `IndexWriter` is the user entry-point to add documents to an index.
///
/// It manages a small number of indexing workers, as well as a shared indexing
/// queue. Each worker builds its own independent segments.
#[derive(Debug)]
pub struct IndexWriter {
    heap_size_in_bytes_per_thread: usize,
    num_threads: usize,
    workers: usize,
    docstamp: u64,
    document_sender: chan::Sender<Document>,
    document_receiver: chan::Receiver<Document>,
    former_receiver: Option<chan::Receiver<Document>>,
    segment_update_sender: chan::Sender<SegmentUpdate>,
    operation: Operation,
}

impl View for IndexWriter {
    type V = WriterView;

    closed spec fn view(&self) -> WriterView {
        WriterView {
            heap_size_in_bytes_per_thread: self.heap_size_in_bytes_per_thread,
            num_threads: self.num_threads,
            workers: self.workers,
            docstamp: self.docstamp,
            pipeline: PipelineView {
                document_sender: document_sender(self.document_sender),
                document_receiver: document_receiver(self.document_receiver),
            },
            former_receiver: match self.former_receiver {
                Some(former_receiver) => Some(document_receiver(former_receiver)),
                None => None,
            },
            segment_update_sender: update_sender(self.segment_update_sender),
            operation: self.operation,
        }
    }
}

impl IndexWriter {
    /// Opens an index writer, with its segment updater and its workers, each of
    /// which has to be run in a thread of its own.
    ///
    /// `num_threads` tells the number of indexing workers that should work at the
    /// same time.
    pub fn open(index: &Index, num_threads: usize, heap_size_in_bytes_per_thread: usize) -> (opened:
        (IndexWriter, SegmentUpdater, Vec<IndexingWorker>))
        requires
            heap_size_in_bytes_per_thread >= HEAP_SIZE_LIMIT,
        ensures
            opened.0@.wf(),
            opened.0@ == (WriterView {
                heap_size_in_bytes_per_thread,
                num_threads,
                workers: num_threads,
                docstamp: index@.docstamp,
                pipeline: opened.0@.pipeline,
                former_receiver: None,
                segment_update_sender: SenderView {
                    channel: opened.0@.segment_update_sender.channel,
                    capacity: 0,
                    original: true,
                    sent: Seq::empty(),
                },
                operation: Operation::Idle,
            }),
            opened.0@.pipeline.fresh(),
            opened.1@.segment_update_receiver == (ReceiverView {
                channel: opened.0@.segment_update_sender.channel,
                capacity: 0,
                original: true,
                received: Seq::<SegmentUpdate>::empty(),
                exhausted: false,
            }),
            !opened.1@.is_cancelled_generation,
            opened.1@.phase == UpdaterPhase::Receiving,
            opened.2@.len() == num_threads,
            forall|i: int|
                0 <= i < num_threads ==> (#[trigger] opened.2@[i])@ == opened.0@.new_worker(),
    {
        let (document_sender, document_receiver) = document_channel(PIPELINE_MAX_SIZE_IN_DOCS);
        let (segment_update_sender, segment_update_receiver) = update_channel(0);
        let updater = SegmentUpdater::new(segment_update_receiver);
        let mut index_writer = IndexWriter {
            heap_size_in_bytes_per_thread,
            num_threads,
            workers: 0,
            docstamp: index.docstamp(),
            document_sender,
            document_receiver,
            former_receiver: None,
            segment_update_sender,
            operation: Operation::Idle,
        };
        let workers = index_writer.start_workers();
        (index_writer, updater, workers)
    }

    /// The docstamp of the last document that was added.
    pub fn docstamp(&self) -> (docstamp: u64)
        ensures
            docstamp == self@.docstamp,
    {
        self.docstamp
    }

    /// Makes as many workers as there are threads, besides those that are there.
    fn start_workers(&mut self) -> (workers: Vec<IndexingWorker>)
        requires
            old(self)@.workers + old(self)@.num_threads <= usize::MAX,
        ensures
            final(self)@ == (WriterView {
                workers: (old(self)@.workers + old(self)@.num_threads) as usize,
                ..old(self)@
            }),
            workers@.len() == old(self)@.num_threads,
            forall|i: int|
                0 <= i < workers@.len() ==> (#[trigger] workers@[i])@ == old(self)@.new_worker(),
    {
        let mut workers: Vec<IndexingWorker> = Vec::new();
        let num_threads: usize = self.num_threads;
        for i in 0..num_threads
            invariant
                num_threads == old(self)@.num_threads,
                old(self)@.workers + num_threads <= usize::MAX,
                self@ == (WriterView { workers: (old(self)@.workers + i) as usize, ..old(self)@ }),
                workers@.len() == i,
                forall|j: int|
                    0 <= j < i ==> (#[trigger] workers@[j])@ == old(self)@.new_worker(),
        {
            workers.push(self.add_indexing_worker());
        }
        workers
    }

    /// Makes a new worker for indexing. The worker consumes documents from the
    /// pipeline.
    fn add_indexing_worker(&mut self) -> (worker: IndexingWorker)
        requires
            old(self)@.workers < usize::MAX,
        ensures
            final(self)@ == (WriterView { workers: (old(self)@.workers + 1) as usize, ..old(self)@
            }),
            worker@ == old(self)@.new_worker(),
    {
        let document_receiver_clone = clone_document_receiver(&self.document_receiver);
        let segment_update_sender = clone_update_sender(&self.segment_update_sender);
        self.workers = self.workers + 1;
        IndexingWorker::new(
            self.heap_size_in_bytes_per_thread,
            document_receiver_clone,
            segment_update_sender,
        )
    }

    /// Closes the current pipeline and replaces it by a new one.
    ///
    /// The current workers will keep on indexing the pending documents and stop
    /// when no documents are remaining.
    ///
    /// Returns the receiving end of the former pipeline.
    fn recreate_channel(&mut self) -> (former_receiver: chan::Receiver<Document>)
        ensures
            final(self)@ == (WriterView { pipeline: final(self)@.pipeline, ..old(self)@ }),
            final(self)@.pipeline.fresh(),
            document_receiver(former_receiver) == old(self)@.pipeline.document_receiver,
    {
        let (mut document_sender, mut document_receiver) = document_channel(
            PIPELINE_MAX_SIZE_IN_DOCS,
        );
        std::mem::swap(&mut self.document_sender, &mut document_sender);
        std::mem::swap(&mut self.document_receiver, &mut document_receiver);
        document_receiver
    }

    /// Adds a document.
    ///
    /// If the indexing pipeline is full, this call may block.
    ///
    /// The docstamp is an increasing `u64` that can be used by the client to align
    /// commits with its own document queue. It represents the number of documents
    /// that have been added since the creation of the index.
    pub fn add_document(&mut self, doc: Document) -> (docstamp: Result<u64, Error>)
        requires
            old(self)@.wf(),
            old(self)@.operation is Idle,
            old(self)@.docstamp < u64::MAX,
        ensures
            final(self)@.wf(),
            final(self)@ == document_added(old(self)@, doc),
            docstamp == Ok::<u64, Error>(final(self)@.docstamp),
    {
        send_document(&mut self.document_sender, doc);
        self.docstamp = self.docstamp + 1;
        Ok(self.docstamp)
    }

    /// Starts to commit all of the pending changes.
    ///
    /// When the commit is finished, all of the documents that were added since the
    /// last commit are published and persisted. It comes to the docstamp of the
    /// last document that made it in the commit.
    pub fn commit(&mut self) -> (action: WriterAction)
        requires
            old(self)@.wf(),
            old(self)@.operation is Idle,
        ensures
            final(self)@.wf(),
            final(self)@.pipeline.fresh(),
            (final(self)@, action) == commit_started(old(self)@, final(self)@.pipeline),
    {
        // This drops the current channel.
        self.recreate_channel();
        // Docstamp of the last document in this commit.
        let commit_docstamp: u64 = self.docstamp;
        self.join_all(Ending::Commit { docstamp: commit_docstamp })
    }

    /// Starts to roll back to the last commit.
    ///
    /// This cancels all of the updates that happened after the last commit. When
    /// the rollback is finished, the index is in the same state as it was after
    /// the last commit. It comes to the docstamp of the last commit.
    pub fn rollback(&mut self) -> (action: WriterAction)
        requires
            old(self)@.wf(),
            old(self)@.operation is Idle,
        ensures
            final(self)@.wf(),
            final(self)@ == rollback_started(old(self)@),
            action == WriterAction::SendUpdate(SegmentUpdate::CancelGeneration),
    {
        self.operation = Operation::Cancelling;
        WriterAction::SendUpdate(SegmentUpdate::CancelGeneration)
    }

    /// Starts to merge a given list of segments.
    pub fn merge(&mut self, segments: Vec<SegmentId>) -> (action: WriterAction)
        requires
            old(self)@.wf(),
            old(self)@.operation is Idle,
        ensures
            final(self)@.wf(),
            final(self)@ == merge_started(old(self)@, segments),
            action is OpenMerger,
    {
        self.operation = Operation::OpeningMerger { segment_ids: segments };
        WriterAction::OpenMerger
    }

    /// Waits for the next of the workers that have not stopped yet, or closes the
    /// generation.
    fn join_next(&mut self, ending: Ending, remaining: usize) -> (action: WriterAction)
        ensures
            (final(self)@, action) == join_next(old(self)@, ending, remaining),
    {
        if remaining == 0 {
            self.operation = Operation::Closing { ending };
            match ending {
                Ending::Commit { .. } => WriterAction::AwaitUpdates,
                Ending::Rollback => WriterAction::SendUpdate(SegmentUpdate::NewGeneration),
            }
        } else {
            self.operation = Operation::Joining { ending, remaining };
            WriterAction::JoinWorker
        }
    }

    /// Starts to wait for all workers.
    fn join_all(&mut self, ending: Ending) -> (action: WriterAction)
        ensures
            (final(self)@, action) == join_all(old(self)@, ending),
    {
        let former_workers: usize = self.workers;
        self.workers = 0;
        self.join_next(ending, former_workers)
    }

    /// Hands an update to the segment updater.
    pub fn send(&mut self, segment_update: SegmentUpdate) -> (event: WriterEvent)
        ensures
            event is UpdateSent,
            final(self)@ == (WriterView {
                segment_update_sender: SenderView {
                    sent: old(self)@.segment_update_sender.sent.push(segment_update),
                    ..old(self)@.segment_update_sender
                },
                ..old(self)@
            }),
    {
        send_update(&mut self.segment_update_sender, segment_update);
        WriterEvent::UpdateSent
    }

    /// Waits until the segment updater has dealt with all updates so far, by
    /// handing it one more that changes nothing. As the channel has no buffer, the
    /// updater only takes it when it is through with the others.
    pub fn await_updates(&mut self) -> (event: WriterEvent)
        ensures
            event is UpdateSent,
            final(self)@ == (WriterView {
                segment_update_sender: SenderView {
                    sent: final(self)@.segment_update_sender.sent,
                    ..old(self)@.segment_update_sender
                },
                ..old(self)@
            }),
            final(self)@.segment_update_sender.sent.len()
                == old(self)@.segment_update_sender.sent.len() + 1,
            final(self)@.segment_update_sender.sent.drop_last()
                == old(self)@.segment_update_sender.sent,
            final(self)@.segment_update_sender.sent.last() matches SegmentUpdate::StartMerge(
                segment_ids,
            ) && segment_ids@.len() == 0,
    {
        let event = self.send(SegmentUpdate::StartMerge(Vec::new()));
        assert(self@.segment_update_sender.sent.drop_last()
            =~= old(self)@.segment_update_sender.sent);
        event
    }

    /// Takes a document out of the former pipeline. There is none when it is
    /// drained, and from then on there is never one again.
    pub fn drain(&mut self) -> (event: WriterEvent)
        requires
            old(self)@.wf(),
            old(self)@.operation is Draining,
        ensures
            final(self)@.wf(),
            event matches WriterEvent::Drained(document) && final(self)@ == (WriterView {
                former_receiver: Some(
                    ReceiverView {
                        received: match document {
                            Some(document) => old(self)@.former_receiver->0.received.push(document),
                            None => old(self)@.former_receiver->0.received,
                        },
                        exhausted: document is None,
                        ..old(self)@.former_receiver->0
                    },
                ),
                ..old(self)@
            }),
            old(self)@.former_receiver->0.exhausted ==> event == WriterEvent::Drained(None),
    {
        let mut former_receiver: Option<chan::Receiver<Document>> = None;
        std::mem::swap(&mut former_receiver, &mut self.former_receiver);
        match former_receiver {
            Some(mut former_receiver) => {
                let document = receive_document(&mut former_receiver);
                self.former_receiver = Some(former_receiver);
                WriterEvent::Drained(document)
            },
            None => WriterEvent::Drained(None),
        }
    }

    /// Makes a worker in place of the one that stopped, to work on the next
    /// generation, and goes on.
    pub fn respawn(&mut self) -> (respawned: (IndexingWorker, WriterAction))
        requires
            old(self)@.wf(),
            old(self)@.operation is Respawning,
        ensures
            final(self)@.wf(),
            respawned.0@ == old(self)@.new_worker(),
            (final(self)@, respawned.1) == worker_replaced(old(self)@),
    {
        let mut operation = Operation::Idle;
        std::mem::swap(&mut operation, &mut self.operation);
        let worker = self.add_indexing_worker();
        match operation {
            Operation::Respawning { ending, remaining } => {
                let action = self.join_next(ending, remaining);
                (worker, action)
            },
            _ => (worker, WriterAction::RespawnWorker),
        }
    }

    /// Goes on with the current operation after an event, and decides what has to
    /// be done next.
    pub fn step(&mut self, index: &mut Index, event: WriterEvent) -> (action: WriterAction)
        requires
            old(self)@.wf(),
            writer_expects(old(self)@.operation, event),
        ensures
            final(self)@.wf(),
            (final(self)@, final(index)@, action) == writer_next(
                old(self)@,
                old(index)@,
                event,
                final(self)@.pipeline,
            ),
            old(self)@.operation is Cancelling ==> final(self)@.pipeline.fresh(),
    {
        let mut operation = Operation::Idle;
        std::mem::swap(&mut operation, &mut self.operation);
        match (operation, event) {
            (Operation::Cancelling, WriterEvent::UpdateSent) => {
                self.former_receiver = Some(self.recreate_channel());
                self.operation = Operation::Draining;
                WriterAction::DrainDocument
            },
            (Operation::Draining, WriterEvent::Drained(Some(_))) => {
                self.operation = Operation::Draining;
                WriterAction::DrainDocument
            },
            (Operation::Draining, WriterEvent::Drained(None)) => {
                self.former_receiver = None;
                self.join_all(Ending::Rollback)
            },
            (Operation::Joining { ending, remaining }, WriterEvent::WorkerJoined(joined)) => {
                match joined {
                    Ok(Ok(_)) => {
                        self.operation =
                        Operation::Respawning { ending, remaining: remaining - 1 };
                        WriterAction::RespawnWorker
                    },
                    Ok(Err(error)) => WriterAction::Finished(Err(error)),
                    Err(message) => WriterAction::Finished(Err(Error::ErrorInThread(message))),
                }
            },
            (Operation::Closing { ending }, WriterEvent::UpdateSent) => {
                match ending {
                    Ending::Commit { docstamp } => commit(index, docstamp),
                    Ending::Rollback => index.rollback(),
                }
                self.operation = Operation::Saving { ending };
                WriterAction::SaveMetas
            },
            (Operation::Saving { ending }, event) => self.on_change(index, ending, event),
            (Operation::Loading { ending }, event) => self.on_change(index, ending, event),
            (operation, event) => self.go_on_merging(index, operation, event),
        }
    }

    /// What follows a commit or a rollback: the meta file is saved, then the
    /// searchers are updated.
    fn on_change(&mut self, index: &Index, ending: Ending, event: WriterEvent) -> (action:
        WriterAction)
        requires
            old(self)@.operation is Idle,
            event is MetasSaved || event is SearchersLoaded,
        ensures
            (final(self)@, index@, action) == writer_next(
                WriterView {
                    operation: if event is MetasSaved {
                        Operation::Saving { ending }
                    } else {
                        Operation::Loading { ending }
                    },
                    ..old(self)@
                },
                index@,
                event,
                old(self)@.pipeline,
            ),
    {
        match event {
            WriterEvent::MetasSaved(Ok(_)) => {
                self.operation = Operation::Loading { ending };
                WriterAction::LoadSearchers
            },
            WriterEvent::SearchersLoaded(Ok(_)) => {
                match ending {
                    Ending::Commit { docstamp } => WriterAction::Finished(Ok(docstamp)),
                    Ending::Rollback => {
                        // Reset the docstamp to what it was before.
                        self.docstamp = index.docstamp();
                        WriterAction::Finished(Ok(self.docstamp))
                    },
                }
            },
            WriterEvent::MetasSaved(Err(error)) => WriterAction::Finished(Err(error)),
            WriterEvent::SearchersLoaded(Err(error)) => WriterAction::Finished(Err(error)),
            _ => WriterAction::SaveMetas,
        }
    }

    /// What follows when something of a merge is done.
    fn go_on_merging(
        &mut self,
        index: &mut Index,
        operation: Operation,
        event: WriterEvent,
    ) -> (action: WriterAction)
        requires
            old(self)@.operation is Idle,
            writer_expects(operation, event),
            operation is OpeningMerger || operation is CreatingMerged || operation
                is OpeningSerializer || operation is WritingMerged || operation is Reloading,
        ensures
            (final(self)@, final(index)@, action) == writer_next(
                WriterView { operation, ..old(self)@ },
                old(index)@,
                event,
                old(self)@.pipeline,
            ),
    {
        match (operation, event) {
            (Operation::OpeningMerger { segment_ids }, WriterEvent::MergerOpened(Ok(_))) => {
                self.operation = Operation::CreatingMerged { segment_ids };
                WriterAction::CreateSegment
            },
            (
                Operation::CreatingMerged { segment_ids },
                WriterEvent::SegmentCreated(segment_id),
            ) => {
                self.operation = Operation::OpeningSerializer { segment_ids, segment_id };
                WriterAction::OpenSerializer(segment_id)
            },
            (
                Operation::OpeningSerializer { segment_ids, segment_id },
                WriterEvent::SerializerOpened(Ok(_)),
            ) => {
                self.operation = Operation::WritingMerged { segment_ids, segment_id };
                WriterAction::WriteMerged
            },
            (
                Operation::WritingMerged { segment_ids, segment_id },
                WriterEvent::MergeWritten(Ok(num_docs)),
            ) => {
                let segment_meta = SegmentMeta { segment_id, num_docs };
                index.end_merge(segment_ids.as_slice(), &segment_meta);
                self.operation = Operation::Reloading;
                WriterAction::LoadSearchers
            },
            (Operation::Reloading, WriterEvent::SearchersLoaded(result)) => {
                WriterAction::Merged(result)
            },
            (_, WriterEvent::MergerOpened(Err(error))) => WriterAction::Merged(Err(error)),
            (_, WriterEvent::SerializerOpened(Err(error))) => WriterAction::Merged(Err(error)),
            (_, WriterEvent::MergeWritten(Err(error))) => WriterAction::Merged(Err(error)),
            _ => WriterAction::SaveMetas,
        }
    }
}

} // verus!
