//! What an indexing worker does over its lifetime.

use crate::document::Document;
use crate::error::Error;
use crate::indexing_worker::{
    SegmentProgress, WorkerAction, WorkerEvent, WorkerState, worker_expects, worker_next,
};
use crate::segment::{SegmentId, SegmentMeta};
use crate::segment_update::SegmentUpdate;
use vstd::prelude::*;

verus! {

/// Where a worker stands, and what it has in hand.
pub struct WorkerRecord {
    pub state: WorkerState,
    /// The documents that were received and are in no finished segment yet.
    pub held: Seq<Document>,
    /// The documents that were added to the current segment.
    pub written: Seq<Document>,
    /// The update that is being handed to the segment updater.
    pub outgoing: Option<SegmentUpdate>,
    /// How the worker's thread ended: with a result, or with a panic.
    pub exit: Option<Result<Result<(), Error>, String>>,
}

/// A finished segment and the documents in it.
pub struct FinishedSegment {
    pub meta: SegmentMeta,
    pub documents: Seq<Document>,
}

impl WorkerRecord {
    /// A worker that has just started.
    pub open spec fn start() -> WorkerRecord {
        WorkerRecord {
            state: WorkerState::Creating,
            held: Seq::empty(),
            written: Seq::empty(),
            outgoing: None,
            exit: None,
        }
    }

    /// The worker after an event, when what it asks for is done.
    pub open spec fn next(self, event: WorkerEvent) -> WorkerRecord {
        let (state, action) = worker_next(self.state, event);
        WorkerRecord {
            state,
            held: match event {
                WorkerEvent::Received(Some(document)) => self.held.push(document),
                WorkerEvent::UpdateSent => Seq::empty(),
                _ => self.held,
            },
            written: match action {
                WorkerAction::AddDocument(document) => self.written.push(document),
                WorkerAction::CreateSegment => Seq::empty(),
                _ => self.written,
            },
            outgoing: match action {
                WorkerAction::SendUpdate(update) => Some(update),
                _ => None,
            },
            exit: match action {
                WorkerAction::Exit(result) => Some(Ok(result)),
                _ => self.exit,
            },
        }
    }

    /// Whether the worker holds no document, and is not done.
    pub open spec fn is_resting(self) -> bool {
        &&& self.state is Creating || self.state is Peeking
        &&& self.held.len() == 0
        &&& self.written.len() == 0
        &&& self.outgoing is None
    }

    /// What holds of a worker at any time.
    pub open spec fn inv(self) -> bool {
        &&& self.exit is Some <==> self.state is Stopped
        &&& self.outgoing is Some <==> self.state is Reporting
        &&& self.outgoing matches Some(update) ==> update is AddSegment
        &&& match self.state {
            WorkerState::Creating => self.held.len() == 0 && self.written.len() == 0,
            WorkerState::Peeking { .. } => self.held.len() == 0 && self.written.len() == 0,
            WorkerState::Opening { document, .. } => {
                &&& self.held == seq![document]
                &&& self.written.len() == 0
            },
            WorkerState::Stopped => self.exit->0 == Ok::<Result<(), Error>, String>(Ok(()))
                ==> self.held.len() == 0,
            _ => self.held == self.written && self.written.len() > 0,
        }
    }

    /// Whether the number of documents that the worker goes by is the number of
    /// documents in its segment.
    pub open spec fn counts(self) -> bool {
        match self.state {
            WorkerState::Filling { segment_meta } => segment_meta.num_docs == self.written.len(),
            WorkerState::Finalizing { segment_meta } => segment_meta.num_docs
                == self.written.len(),
            WorkerState::Reporting => self.outgoing matches Some(
                SegmentUpdate::AddSegment(segment_meta),
            ) && segment_meta.num_docs == self.written.len(),
            _ => true,
        }
    }

    /// Whether an event, if it comes from the segment writer, gives the number of
    /// documents that were added to the segment.
    pub open spec fn counted_by(self, event: WorkerEvent) -> bool {
        event matches WorkerEvent::DocumentAdded(Ok(progress)) ==> progress.max_doc
            == self.written.len()
    }
}

/// What holds of a worker keeps holding.
pub proof fn lemma_record_inv(record: WorkerRecord, event: WorkerEvent)
    requires
        record.inv(),
        worker_expects(record.state, event),
    ensures
        record.next(event).inv(),
        record.counts() && record.counted_by(event) ==> record.next(event).counts(),
{
    if let WorkerState::Opening { document, .. } = record.state {
        assert(record.written.push(document) =~= seq![document]);
    }
    if let WorkerEvent::Received(Some(document)) = event {
        assert(record.state is Peeking ==> record.held.push(document) =~= seq![document]);
    }
}

/// Whether a worker waited for each of the events when it came.
pub open spec fn worker_accepts(events: Seq<WorkerEvent>) -> bool
    decreases events.len(),
{
    events.len() > 0 ==> {
        &&& worker_accepts(events.drop_last())
        &&& worker_expects(worker_after(events.drop_last()).state, events.last())
    }
}

/// A worker after a number of events.
pub open spec fn worker_after(events: Seq<WorkerEvent>) -> WorkerRecord
    decreases events.len(),
{
    if events.len() == 0 {
        WorkerRecord::start()
    } else {
        worker_after(events.drop_last()).next(events.last())
    }
}

/// The documents that a worker has received.
pub open spec fn received_documents(events: Seq<WorkerEvent>) -> Seq<Document>
    decreases events.len(),
{
    if events.len() == 0 {
        Seq::empty()
    } else {
        match events.last() {
            WorkerEvent::Received(Some(document)) => received_documents(events.drop_last()).push(
                document,
            ),
            _ => received_documents(events.drop_last()),
        }
    }
}

/// The segments that a worker has handed to the segment updater, each with the
/// documents that were added to it.
pub open spec fn finished_segments(events: Seq<WorkerEvent>) -> Seq<FinishedSegment>
    decreases events.len(),
{
    if events.len() == 0 {
        Seq::empty()
    } else {
        let before = worker_after(events.drop_last());
        match (events.last(), before.outgoing) {
            (WorkerEvent::UpdateSent, Some(SegmentUpdate::AddSegment(meta))) => finished_segments(
                events.drop_last(),
            ).push(FinishedSegment { meta, documents: before.written }),
            _ => finished_segments(events.drop_last()),
        }
    }
}

/// The documents in a number of segments.
pub open spec fn documents_of(segments: Seq<FinishedSegment>) -> Seq<Document>
    decreases segments.len(),
{
    if segments.len() == 0 {
        Seq::empty()
    } else {
        documents_of(segments.drop_last()) + segments.last().documents
    }
}

/// Whether the segment writer always gave the number of documents that were added
/// to the segment.
pub open spec fn events_count(events: Seq<WorkerEvent>) -> bool
    decreases events.len(),
{
    events.len() > 0 ==> {
        &&& events_count(events.drop_last())
        &&& worker_after(events.drop_last()).counted_by(events.last())
    }
}

/// A worker puts every document that it receives into exactly one segment, in the
/// order in which it received them: what it has received is what is in its finished
/// segments, one after the other, and then what it still holds.
pub proof fn law_worker_packs_documents(events: Seq<WorkerEvent>)
    requires
        worker_accepts(events),
    ensures
        worker_after(events).inv(),
        received_documents(events) == documents_of(finished_segments(events)) + worker_after(
            events,
        ).held,
    decreases events.len(),
{
    if events.len() == 0 {
        assert(received_documents(events) =~= documents_of(finished_segments(events))
            + worker_after(events).held);
    } else {
        let before = events.drop_last();
        let event = events.last();
        law_worker_packs_documents(before);
        lemma_record_inv(worker_after(before), event);
        let segments = finished_segments(events);
        if event is UpdateSent {
            assert(segments.drop_last() =~= finished_segments(before));
            assert(received_documents(events) =~= documents_of(segments) + worker_after(
                events,
            ).held);
        } else {
            assert(received_documents(events) =~= documents_of(segments) + worker_after(
                events,
            ).held);
        }
    }
}

/// When a worker ends without a failure, all documents that it received are in
/// segments that it has handed to the segment updater.
pub proof fn law_worker_leaves_nothing_behind(events: Seq<WorkerEvent>)
    requires
        worker_accepts(events),
        worker_after(events).exit == Some(Ok::<Result<(), Error>, String>(Ok(()))),
    ensures
        received_documents(events) == documents_of(finished_segments(events)),
{
    law_worker_packs_documents(events);
    assert(received_documents(events) =~= documents_of(finished_segments(events)));
}

/// A worker creates no empty segments, and describes each segment by the number of
/// documents in it, as long as the segment writer counts its documents.
pub proof fn law_worker_counts_documents(events: Seq<WorkerEvent>)
    requires
        worker_accepts(events),
        events_count(events),
    ensures
        worker_after(events).counts(),
        forall|i: int|
            #![trigger finished_segments(events)[i]]
            0 <= i < finished_segments(events).len() ==> {
                &&& finished_segments(events)[i].meta.num_docs == finished_segments(
                    events,
                )[i].documents.len()
                &&& finished_segments(events)[i].documents.len() > 0
            },
    decreases events.len(),
{
    if events.len() > 0 {
        let before = events.drop_last();
        law_worker_counts_documents(before);
        law_worker_packs_documents(before);
        lemma_record_inv(worker_after(before), events.last());
        assert forall|i: int|
            #![trigger finished_segments(events)[i]]
            0 <= i < finished_segments(events).len() implies {
            &&& finished_segments(events)[i].meta.num_docs == finished_segments(
                events,
            )[i].documents.len()
            &&& finished_segments(events)[i].documents.len() > 0
        } by {
            if i < finished_segments(before).len() {
                assert(finished_segments(events)[i] == finished_segments(before)[i]);
            }
        }
    }
}

/// How many documents a number of segments hold, by their descriptions.
pub open spec fn described_docs(segments: Seq<FinishedSegment>) -> nat
    decreases segments.len(),
{
    if segments.len() == 0 {
        0
    } else {
        described_docs(segments.drop_last()) + segments.last().meta.num_docs as nat
    }
}

proof fn lemma_described_docs(segments: Seq<FinishedSegment>)
    requires
        forall|i: int|
            0 <= i < segments.len() ==> (#[trigger] segments[i]).meta.num_docs
                == segments[i].documents.len(),
    ensures
        described_docs(segments) == documents_of(segments).len(),
    decreases segments.len(),
{
    if segments.len() > 0 {
        let rest = segments.drop_last();
        assert forall|i: int| 0 <= i < rest.len() implies (#[trigger] rest[i]).meta.num_docs
            == rest[i].documents.len() by {
            assert(rest[i] == segments[i]);
        }
        lemma_described_docs(rest);
        assert(segments[segments.len() - 1].meta.num_docs == segments.last().documents.len());
    }
}

/// When a worker ends without a failure, the numbers of documents by which it described
/// its segments add up to the number of documents that it received, as long as the
/// segment writer counts its documents.
pub proof fn law_worker_accounts_for_all_documents(events: Seq<WorkerEvent>)
    requires
        worker_accepts(events),
        events_count(events),
        worker_after(events).exit == Some(Ok::<Result<(), Error>, String>(Ok(()))),
    ensures
        described_docs(finished_segments(events)) == received_documents(events).len(),
{
    law_worker_leaves_nothing_behind(events);
    law_worker_counts_documents(events);
    lemma_described_docs(finished_segments(events));
}

/// The segments that were created for a worker.
pub open spec fn created_segments(events: Seq<WorkerEvent>) -> Seq<SegmentId>
    decreases events.len(),
{
    if events.len() == 0 {
        Seq::empty()
    } else {
        match events.last() {
            WorkerEvent::SegmentCreated(segment_id) => created_segments(events.drop_last()).push(
                segment_id,
            ),
            _ => created_segments(events.drop_last()),
        }
    }
}

/// The segment that a worker is at.
pub open spec fn current_segment(record: WorkerRecord) -> Option<SegmentId> {
    match record.state {
        WorkerState::Peeking { segment_id } => Some(segment_id),
        WorkerState::Opening { segment_id, .. } => Some(segment_id),
        WorkerState::Adding { segment_id } => Some(segment_id),
        WorkerState::Filling { segment_meta } => Some(segment_meta.segment_id),
        WorkerState::Finalizing { segment_meta } => Some(segment_meta.segment_id),
        WorkerState::Reporting => match record.outgoing {
            Some(SegmentUpdate::AddSegment(segment_meta)) => Some(segment_meta.segment_id),
            _ => None,
        },
        _ => None,
    }
}

/// Every segment that a worker hands over is one that was created for it, and it hands
/// over none twice, if no two of those that were created bear the same id.
pub proof fn law_worker_names_its_own_segments(events: Seq<WorkerEvent>)
    requires
        worker_accepts(events),
    ensures
        forall|i: int|
            0 <= i < finished_segments(events).len() ==> created_segments(events).contains(
                (#[trigger] finished_segments(events)[i]).meta.segment_id,
            ),
        created_segments(events).no_duplicates() ==> forall|i: int, j: int|
            0 <= i < j < finished_segments(events).len() ==> (#[trigger] finished_segments(
                events,
            )[i]).meta.segment_id != (#[trigger] finished_segments(events)[j]).meta.segment_id,
        current_segment(worker_after(events)) matches Some(segment_id) ==> {
            &&& created_segments(events).len() > 0
            &&& created_segments(events).last() == segment_id
            &&& forall|i: int|
                0 <= i < finished_segments(events).len() ==> created_segments(
                    events,
                ).drop_last().contains((#[trigger] finished_segments(events)[i]).meta.segment_id)
        },
    decreases events.len(),
{
    if events.len() > 0 {
        let rest = events.drop_last();
        let record = worker_after(rest);
        let created = created_segments(rest);
        let finished = finished_segments(rest);
        law_worker_names_its_own_segments(rest);
        law_worker_packs_documents(rest);
        if let WorkerEvent::SegmentCreated(segment_id) = events.last() {
            let now = created.push(segment_id);
            assert(now.drop_last() =~= created);
            assert forall|i: int| 0 <= i < finished.len() implies now.contains(
                (#[trigger] finished[i]).meta.segment_id,
            ) by {
                let k = choose|k: int|
                    0 <= k < created.len() && created[k] == finished[i].meta.segment_id;
                assert(now[k] == finished[i].meta.segment_id);
            }
            if now.no_duplicates() {
                assert forall|i: int, j: int|
                    0 <= i < created.len() && 0 <= j < created.len() && i != j implies created[i]
                    != created[j] by {
                    assert(now[i] != now[j]);
                }
            }
        } else if let WorkerEvent::UpdateSent = events.last() {
            let segment_id = current_segment(record)->0;
            assert(created[created.len() - 1] == segment_id);
            if created.no_duplicates() {
                assert forall|i: int| 0 <= i < finished.len() implies (
                #[trigger] finished[i]).meta.segment_id != segment_id by {
                    let earlier = created.drop_last();
                    let k = choose|k: int|
                        0 <= k < earlier.len() && earlier[k] == finished[i].meta.segment_id;
                    assert(created[k] == finished[i].meta.segment_id);
                }
            }
        }
    }
}

/// Once a segment is handed over, a worker is as it was when it started: nothing of an
/// earlier segment bears on the next one.
pub proof fn law_segments_begin_afresh(record: WorkerRecord)
    requires
        record.inv(),
        record.state is Reporting,
    ensures
        record.next(WorkerEvent::UpdateSent) == WorkerRecord::start(),
{
    assert(record.exit is None);
}

/// Whether an event is a failure.
pub open spec fn fails(event: WorkerEvent) -> bool {
    match event {
        WorkerEvent::SegmentOpened(result) => result is Err,
        WorkerEvent::DocumentAdded(result) => result is Err,
        WorkerEvent::SegmentFinalized(result) => result is Err,
        _ => false,
    }
}

/// How many steps a worker takes at most until it ends, further documents aside.
pub open spec fn worker_steps_left(state: WorkerState) -> nat {
    match state {
        WorkerState::Stopped => 0,
        WorkerState::Peeking { .. } => 1,
        WorkerState::Creating => 2,
        WorkerState::Reporting => 3,
        WorkerState::Finalizing { .. } => 4,
        WorkerState::Filling { .. } => 5,
        WorkerState::Adding { .. } => 6,
        WorkerState::Opening { .. } => 7,
    }
}

/// Once there are no more documents, a worker comes to its end: each event brings it
/// nearer. It ends with a failure if it is told of one, and only then.
pub proof fn law_worker_ends(record: WorkerRecord, event: WorkerEvent)
    requires
        record.inv(),
        worker_expects(record.state, event),
    ensures
        !(event matches WorkerEvent::Received(Some(_))) ==> worker_steps_left(
            record.next(event).state,
        ) < worker_steps_left(record.state),
        fails(event) ==> record.next(event).exit matches Some(Ok(Err(_))),
        !fails(event) && record.next(event).exit is Some ==> record.next(event).exit == Some(
            Ok::<Result<(), Error>, String>(Ok(())),
        ),
{
}

/// Whether an event answers what a worker asked for.
pub open spec fn worker_answered(action: WorkerAction, event: WorkerEvent) -> bool {
    match event {
        WorkerEvent::SegmentCreated(_) => action is CreateSegment,
        WorkerEvent::Received(_) => action is Receive,
        WorkerEvent::SegmentOpened(_) => action is OpenSegment,
        WorkerEvent::DocumentAdded(_) => action is AddDocument,
        WorkerEvent::SegmentFinalized(_) => action is FinalizeSegment,
        WorkerEvent::UpdateSent => action is SendUpdate,
    }
}

/// A worker waits for an answer to what it has asked for last, whatever the answer, and for
/// nothing else. At first it waits for a segment to be created.
pub proof fn law_worker_waits_for_answer(
    state: WorkerState,
    event: WorkerEvent,
    answer: WorkerEvent,
)
    requires
        worker_expects(state, event),
    ensures
        worker_expects(worker_next(state, event).0, answer) <==> worker_answered(
            worker_next(state, event).1,
            answer,
        ),
        worker_expects(WorkerState::Creating, answer) <==> answer is SegmentCreated,
{
}

/// When the segment writer says that its buffer is full, the worker asks to finalize the
/// segment, however many documents are in it, and when it says that there is room, the
/// worker asks for the next document. A segment is finalized for one more reason only: the
/// worker has found no more documents for a segment that has some.
pub proof fn law_full_segments_are_closed(state: WorkerState, event: WorkerEvent)
    requires
        worker_expects(state, event),
    ensures
        event matches WorkerEvent::DocumentAdded(Ok(progress)) ==> {
            &&& progress.is_buffer_full ==> worker_next(state, event).1 is FinalizeSegment
            &&& !progress.is_buffer_full ==> worker_next(state, event).1 is Receive
        },
        worker_next(state, event).1 is FinalizeSegment ==> {
            ||| event matches WorkerEvent::DocumentAdded(Ok(progress)) && progress.is_buffer_full
            ||| state is Filling && event == WorkerEvent::Received(None)
        },
        state is Filling && event == WorkerEvent::Received(None) ==> worker_next(
            state,
            event,
        ).1 is FinalizeSegment,
{
}

/// After a full buffer no document is added to the segment: the worker asks to finalize it,
/// waits for that, hands it over, waits for that, and then asks for a new segment, unless
/// the segment cannot be finalized, which ends the worker. The segment that it hands over
/// is the one that it was at, with as many documents as the segment writer said at last.
pub proof fn law_full_segment_is_handed_over(
    state: WorkerState,
    progress: SegmentProgress,
    finalized: WorkerEvent,
    handed_over: WorkerEvent,
)
    requires
        worker_expects(state, WorkerEvent::DocumentAdded(Ok(progress))),
        progress.is_buffer_full,
        ({
            let full = worker_next(state, WorkerEvent::DocumentAdded(Ok(progress))).0;
            let closed = worker_next(full, finalized).0;
            &&& worker_expects(full, finalized)
            &&& finalized matches WorkerEvent::SegmentFinalized(Ok(_)) ==> worker_expects(
                closed,
                handed_over,
            )
        }),
    ensures
        ({
            let full = worker_next(state, WorkerEvent::DocumentAdded(Ok(progress))).0;
            let (closed, asked) = worker_next(full, finalized);
            &&& finalized is SegmentFinalized
            &&& finalized matches WorkerEvent::SegmentFinalized(Ok(_)) ==> {
                &&& asked matches WorkerAction::SendUpdate(SegmentUpdate::AddSegment(meta))
                &&& state matches WorkerState::Adding { segment_id }
                &&& meta.segment_id == segment_id
                &&& meta.num_docs == progress.max_doc
                &&& handed_over is UpdateSent
                &&& worker_next(closed, handed_over).1 is CreateSegment
            }
            &&& finalized matches WorkerEvent::SegmentFinalized(Err(error)) ==> asked
                == WorkerAction::Exit(Err(error))
        }),
{
}

/// What a worker asks for, and on what grounds. It opens the segment that was created, once
/// there is a document for it. It adds every document that it has received, and nothing
/// else, to the segment that it is at. It hands over the segment that was finalized. It
/// ends when it finds no first document, or with the failure that it is told of.
pub proof fn law_worker_asks_on_grounds(state: WorkerState, event: WorkerEvent)
    requires
        worker_expects(state, event),
    ensures
        ({
            let (next, action) = worker_next(state, event);
            &&& event matches WorkerEvent::SegmentCreated(created) ==> {
                &&& action is Receive
                &&& next == (WorkerState::Peeking { segment_id: created })
            }
            &&& event matches WorkerEvent::Received(Some(received)) ==> {
                ||| state matches WorkerState::Peeking { segment_id } && action
                    == WorkerAction::OpenSegment(segment_id) && next == (WorkerState::Opening {
                    segment_id,
                    document: received,
                })
                ||| state matches WorkerState::Filling { segment_meta } && action
                    == WorkerAction::AddDocument(received) && next == (WorkerState::Adding {
                    segment_id: segment_meta.segment_id,
                })
            }
            &&& event matches WorkerEvent::Received(None) ==> {
                ||| state is Peeking && action == WorkerAction::Exit(Ok(()))
                ||| state matches WorkerState::Filling { segment_meta } && next
                    == (WorkerState::Finalizing { segment_meta })
            }
            &&& event matches WorkerEvent::SegmentOpened(Ok(_)) ==> {
                &&& state matches WorkerState::Opening { segment_id, document }
                &&& action == WorkerAction::AddDocument(document)
                &&& next == (WorkerState::Adding { segment_id })
            }
            &&& event matches WorkerEvent::DocumentAdded(Ok(progress)) ==> {
                &&& state matches WorkerState::Adding { segment_id }
                &&& match next {
                    WorkerState::Filling { segment_meta } => segment_meta.segment_id == segment_id
                        && segment_meta.num_docs == progress.max_doc,
                    WorkerState::Finalizing { segment_meta } => segment_meta.segment_id
                        == segment_id && segment_meta.num_docs == progress.max_doc,
                    _ => false,
                }
            }
            &&& event matches WorkerEvent::SegmentFinalized(Ok(_)) ==> {
                &&& state matches WorkerState::Finalizing { segment_meta }
                &&& action == WorkerAction::SendUpdate(SegmentUpdate::AddSegment(segment_meta))
            }
            &&& event is UpdateSent ==> action is CreateSegment && next is Creating
            &&& event matches WorkerEvent::SegmentOpened(Err(error)) ==> action
                == WorkerAction::Exit(Err(error))
            &&& event matches WorkerEvent::DocumentAdded(Err(error)) ==> action
                == WorkerAction::Exit(Err(error))
            &&& event matches WorkerEvent::SegmentFinalized(Err(error)) ==> action
                == WorkerAction::Exit(Err(error))
            &&& action is Exit <==> next is Stopped
        }),
{
}

} // verus!
