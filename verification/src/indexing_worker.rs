//! The indexing workers. Each of them takes documents from the pipeline and packs
//! them into segments of its own.

use crate::channel::{
    ReceiverView, SenderView, document_receiver, receive_document, send_update, update_sender,
};
use crate::document::Document;
use crate::error::Error;
use crate::segment::{SegmentId, SegmentMeta};
use crate::segment_update::SegmentUpdate;
use vstd::prelude::*;

verus! {

/// What a segment writer says after it has taken a document.
#[derive(Debug, Clone, Copy, PartialEq, Eq, Structural)]
pub struct SegmentProgress {
    /// How many documents the segment holds.
    pub max_doc: u32,
    /// Whether the remaining memory is too little for another document.
    pub is_buffer_full: bool,
}

/// Where an indexing worker stands.
#[derive(Debug)]
pub enum WorkerState {
    /// A segment is being created.
    Creating,
    /// Waiting for a first document: as long as there is none, no files are
    /// created for the segment.
    Peeking { segment_id: SegmentId },
    /// The files of the segment are being created. The first document is at hand.
    Opening { segment_id: SegmentId, document: Document },
    /// A document is being added to the segment.
    Adding { segment_id: SegmentId },
    /// Waiting for the next document of the segment.
    Filling { segment_meta: SegmentMeta },
    /// The segment is being finalized.
    Finalizing { segment_meta: SegmentMeta },
    /// The segment is being handed to the segment updater.
    Reporting,
    /// The worker is done.
    Stopped,
}

/// What an indexing worker is told.
#[derive(Debug)]
pub enum WorkerEvent {
    SegmentCreated(SegmentId),
    Received(Option<Document>),
    SegmentOpened(Result<(), Error>),
    DocumentAdded(Result<SegmentProgress, Error>),
    SegmentFinalized(Result<(), Error>),
    UpdateSent,
}

/// What an indexing worker asks for.
#[derive(Debug)]
pub enum WorkerAction {
    /// Create a segment. This is the first thing a worker asks for.
    CreateSegment,
    /// Wait for the next document.
    Receive,
    /// Clear the heap and open a segment writer on it for the given segment.
    OpenSegment(SegmentId),
    /// Add the document to the segment.
    AddDocument(Document),
    /// Finalize the segment.
    FinalizeSegment,
    /// Hand the update to the segment updater.
    SendUpdate(SegmentUpdate),
    /// The worker is done.
    Exit(Result<(), Error>),
}

/// The description of a segment after its writer has taken another document.
pub open spec fn meta_after(segment_id: SegmentId, progress: SegmentProgress) -> SegmentMeta {
    SegmentMeta { segment_id, num_docs: progress.max_doc as usize }
}

/// Whether an event is one that the worker waits for.
pub open spec fn worker_expects(state: WorkerState, event: WorkerEvent) -> bool {
    match state {
        WorkerState::Creating => event is SegmentCreated,
        WorkerState::Peeking { .. } => event is Received,
        WorkerState::Opening { .. } => event is SegmentOpened,
        WorkerState::Adding { .. } => event is DocumentAdded,
        WorkerState::Filling { .. } => event is Received,
        WorkerState::Finalizing { .. } => event is SegmentFinalized,
        WorkerState::Reporting => event is UpdateSent,
        WorkerState::Stopped => false,
    }
}

/// Where an event takes the worker, and what the worker then asks for.
///
/// A worker stops when it finds no first document for a segment: that happens when
/// there is a commit, or when the index writer was dropped. It closes a segment
/// when the buffer is full or when there are no more documents. Any failure stops
/// it. An event that it does not expect leaves it where it is.
pub open spec fn worker_next(
    state: WorkerState,
    event: WorkerEvent,
) -> (WorkerState, WorkerAction) {
    match (state, event) {
        (WorkerState::Creating, WorkerEvent::SegmentCreated(segment_id)) => (
            WorkerState::Peeking { segment_id },
            WorkerAction::Receive,
        ),
        (WorkerState::Peeking { .. }, WorkerEvent::Received(None)) => (
            WorkerState::Stopped,
            WorkerAction::Exit(Ok(())),
        ),
        (WorkerState::Peeking { segment_id }, WorkerEvent::Received(Some(document))) => (
            WorkerState::Opening { segment_id, document },
            WorkerAction::OpenSegment(segment_id),
        ),
        (
            WorkerState::Opening { segment_id, document },
            WorkerEvent::SegmentOpened(Ok(_)),
        ) => (WorkerState::Adding { segment_id }, WorkerAction::AddDocument(document)),
        (WorkerState::Adding { segment_id }, WorkerEvent::DocumentAdded(Ok(progress))) => {
            let segment_meta = meta_after(segment_id, progress);
            if progress.is_buffer_full {
                (WorkerState::Finalizing { segment_meta }, WorkerAction::FinalizeSegment)
            } else {
                (WorkerState::Filling { segment_meta }, WorkerAction::Receive)
            }
        },
        (WorkerState::Filling { segment_meta }, WorkerEvent::Received(Some(document))) => (
            WorkerState::Adding { segment_id: segment_meta.segment_id },
            WorkerAction::AddDocument(document),
        ),
        (WorkerState::Filling { segment_meta }, WorkerEvent::Received(None)) => (
            WorkerState::Finalizing { segment_meta },
            WorkerAction::FinalizeSegment,
        ),
        (WorkerState::Finalizing { segment_meta }, WorkerEvent::SegmentFinalized(Ok(_))) => (
            WorkerState::Reporting,
            WorkerAction::SendUpdate(SegmentUpdate::AddSegment(segment_meta)),
        ),
        (WorkerState::Reporting, WorkerEvent::UpdateSent) => (
            WorkerState::Creating,
            WorkerAction::CreateSegment,
        ),
        (_, WorkerEvent::SegmentOpened(Err(error))) => (
            WorkerState::Stopped,
            WorkerAction::Exit(Err(error)),
        ),
        (_, WorkerEvent::DocumentAdded(Err(error))) => (
            WorkerState::Stopped,
            WorkerAction::Exit(Err(error)),
        ),
        (_, WorkerEvent::SegmentFinalized(Err(error))) => (
            WorkerState::Stopped,
            WorkerAction::Exit(Err(error)),
        ),
        _ => (state, WorkerAction::Receive),
    }
}

/// What is known of an indexing worker.
pub struct WorkerView {
    pub heap_size_in_bytes: usize,
    pub document_receiver: ReceiverView<Document>,
    pub segment_update_sender: SenderView<SegmentUpdate>,
    pub state: WorkerState,
}

/// A worker that indexes the documents of the pipeline.
#[derive(Debug)]
pub struct IndexingWorker {
    heap_size_in_bytes: usize,
    document_receiver: chan::Receiver<Document>,
    segment_update_sender: chan::Sender<SegmentUpdate>,
    state: WorkerState,
}

impl View for IndexingWorker {
    type V = WorkerView;

    closed spec fn view(&self) -> WorkerView {
        WorkerView {
            heap_size_in_bytes: self.heap_size_in_bytes,
            document_receiver: document_receiver(self.document_receiver),
            segment_update_sender: update_sender(self.segment_update_sender),
            state: self.state,
        }
    }
}

/// Goes on with a segment: takes its documents one by one, until the buffer is
/// full or there are no more of them, and then closes it.
fn index_documents(state: WorkerState, event: WorkerEvent) -> (next: (WorkerState, WorkerAction))
    requires
        worker_expects(state, event),
        !(state is Creating),
        !(state is Peeking),
    ensures
        next == worker_next(state, event),
{
    match (state, event) {
        (WorkerState::Opening { segment_id, document }, WorkerEvent::SegmentOpened(Ok(_))) => {
            (WorkerState::Adding { segment_id }, WorkerAction::AddDocument(document))
        },
        (WorkerState::Adding { segment_id }, WorkerEvent::DocumentAdded(Ok(progress))) => {
            let num_docs: usize = progress.max_doc as usize;
            let segment_meta = SegmentMeta { segment_id, num_docs };
            if progress.is_buffer_full {
                (WorkerState::Finalizing { segment_meta }, WorkerAction::FinalizeSegment)
            } else {
                (WorkerState::Filling { segment_meta }, WorkerAction::Receive)
            }
        },
        (WorkerState::Filling { segment_meta }, WorkerEvent::Received(Some(document))) => {
            (
                WorkerState::Adding { segment_id: segment_meta.segment_id },
                WorkerAction::AddDocument(document),
            )
        },
        (WorkerState::Filling { segment_meta }, WorkerEvent::Received(None)) => {
            (WorkerState::Finalizing { segment_meta }, WorkerAction::FinalizeSegment)
        },
        (WorkerState::Finalizing { segment_meta }, WorkerEvent::SegmentFinalized(Ok(_))) => {
            (
                WorkerState::Reporting,
                WorkerAction::SendUpdate(SegmentUpdate::AddSegment(segment_meta)),
            )
        },
        (WorkerState::Reporting, WorkerEvent::UpdateSent) => {
            (WorkerState::Creating, WorkerAction::CreateSegment)
        },
        (_, WorkerEvent::SegmentOpened(Err(error))) => {
            (WorkerState::Stopped, WorkerAction::Exit(Err(error)))
        },
        (_, WorkerEvent::DocumentAdded(Err(error))) => {
            (WorkerState::Stopped, WorkerAction::Exit(Err(error)))
        },
        (_, WorkerEvent::SegmentFinalized(Err(error))) => {
            (WorkerState::Stopped, WorkerAction::Exit(Err(error)))
        },
        (state, _) => (state, WorkerAction::Receive),
    }
}

impl IndexingWorker {
    /// A worker that is about to create its first segment.
    pub fn new(
        heap_size_in_bytes: usize,
        document_receiver: chan::Receiver<Document>,
        segment_update_sender: chan::Sender<SegmentUpdate>,
    ) -> (worker: IndexingWorker)
        ensures
            worker@ == (WorkerView {
                heap_size_in_bytes,
                document_receiver: crate::channel::document_receiver(document_receiver),
                segment_update_sender: update_sender(segment_update_sender),
                state: WorkerState::Creating,
            }),
    {
        IndexingWorker {
            heap_size_in_bytes,
            document_receiver,
            segment_update_sender,
            state: WorkerState::Creating,
        }
    }

    /// The size of the heap on which the worker builds its segments.
    pub fn heap_size_in_bytes(&self) -> (heap_size_in_bytes: usize)
        ensures
            heap_size_in_bytes == self@.heap_size_in_bytes,
    {
        self.heap_size_in_bytes
    }

    /// Waits for the next document. There is none when the pipeline was closed
    /// and is empty, and from then on there is never one again.
    pub fn receive(&mut self) -> (event: WorkerEvent)
        ensures
            event matches WorkerEvent::Received(document) && final(self)@ == (WorkerView {
                document_receiver: ReceiverView {
                    received: match document {
                        Some(document) => old(self)@.document_receiver.received.push(document),
                        None => old(self)@.document_receiver.received,
                    },
                    exhausted: document is None,
                    ..old(self)@.document_receiver
                },
                ..old(self)@
            }),
            old(self)@.document_receiver.exhausted ==> event == WorkerEvent::Received(None),
    {
        WorkerEvent::Received(receive_document(&mut self.document_receiver))
    }

    /// Hands an update to the segment updater.
    pub fn send(&mut self, segment_update: SegmentUpdate) -> (event: WorkerEvent)
        ensures
            event is UpdateSent,
            final(self)@ == (WorkerView {
                segment_update_sender: SenderView {
                    sent: old(self)@.segment_update_sender.sent.push(segment_update),
                    ..old(self)@.segment_update_sender
                },
                ..old(self)@
            }),
    {
        send_update(&mut self.segment_update_sender, segment_update);
        WorkerEvent::UpdateSent
    }

    /// Goes on after an event, and decides what has to be done next.
    pub fn step(&mut self, event: WorkerEvent) -> (action: WorkerAction)
        requires
            worker_expects(old(self)@.state, event),
        ensures
            final(self)@ == (WorkerView {
                state: worker_next(old(self)@.state, event).0,
                ..old(self)@
            }),
            action == worker_next(old(self)@.state, event).1,
    {
        let mut state = WorkerState::Stopped;
        std::mem::swap(&mut state, &mut self.state);
        let (next, action) = match (state, event) {
            (WorkerState::Creating, WorkerEvent::SegmentCreated(segment_id)) => {
                (WorkerState::Peeking { segment_id }, WorkerAction::Receive)
            },
            (WorkerState::Peeking { segment_id }, WorkerEvent::Received(Some(document))) => {
                (
                    WorkerState::Opening { segment_id, document },
                    WorkerAction::OpenSegment(segment_id),
                )
            },
            (WorkerState::Peeking { .. }, WorkerEvent::Received(None)) => {
                (WorkerState::Stopped, WorkerAction::Exit(Ok(())))
            },
            (state, event) => index_documents(state, event),
        };
        self.state = next;
        action
    }
}

} // verus!
