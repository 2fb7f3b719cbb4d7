use index_writer::document::Document;
use index_writer::error::Error;
use index_writer::index::{get_segment_manager, Index};
use index_writer::index_writer::{IndexWriter, WriterAction, WriterEvent};
use index_writer::indexing_worker::{IndexingWorker, SegmentProgress, WorkerAction, WorkerEvent};
use index_writer::segment::{SegmentId, SegmentMeta};
use index_writer::segment_update::SegmentUpdate;

fn disk_full() -> Error {
    Error::IndexError("disk full".to_string())
}

fn is_disk_full(error: &Error) -> bool {
    match error {
        Error::IndexError(message) => message == "disk full",
        Error::ErrorInThread(_) => false,
    }
}

fn id(uuid: u128) -> SegmentId {
    SegmentId { uuid }
}

/// A worker that has received its first document.
fn worker_with_document() -> IndexingWorker {
    let (document_sender, document_receiver) = chan::sync(1);
    let (update_sender, _update_receiver) = chan::sync(1);
    let mut worker = IndexingWorker::new(30_000_000, document_receiver, update_sender);
    document_sender.send(Document::default());
    assert!(matches!(worker.step(WorkerEvent::SegmentCreated(id(9))), WorkerAction::Receive));
    let received = worker.receive();
    match worker.step(received) {
        WorkerAction::OpenSegment(segment_id) => assert_eq!(segment_id, id(9)),
        other => panic!("unexpected {:?}", other),
    }
    worker
}

fn added(max_doc: u32, is_buffer_full: bool) -> WorkerEvent {
    WorkerEvent::DocumentAdded(Ok(SegmentProgress { max_doc, is_buffer_full }))
}

fn stops_with_disk_full(action: WorkerAction) -> bool {
    match action {
        WorkerAction::Exit(Err(error)) => is_disk_full(&error),
        _ => false,
    }
}

#[test]
fn a_worker_stops_when_a_segment_cannot_be_opened() {
    let mut worker = worker_with_document();
    assert!(stops_with_disk_full(worker.step(WorkerEvent::SegmentOpened(Err(disk_full())))));
}

#[test]
fn a_worker_stops_when_a_document_cannot_be_added() {
    let mut worker = worker_with_document();
    let action = worker.step(WorkerEvent::SegmentOpened(Ok(())));
    assert!(matches!(action, WorkerAction::AddDocument(_)));
    assert!(stops_with_disk_full(worker.step(WorkerEvent::DocumentAdded(Err(disk_full())))));
}

#[test]
fn a_worker_stops_when_a_segment_cannot_be_finalized() {
    let mut worker = worker_with_document();
    worker.step(WorkerEvent::SegmentOpened(Ok(())));
    assert!(matches!(worker.step(added(1, true)), WorkerAction::FinalizeSegment));
    assert!(stops_with_disk_full(worker.step(WorkerEvent::SegmentFinalized(Err(disk_full())))));
}

#[test]
fn a_worker_goes_by_the_count_of_the_segment_writer() {
    let mut worker = worker_with_document();
    worker.step(WorkerEvent::SegmentOpened(Ok(())));
    assert!(matches!(worker.step(added(1, false)), WorkerAction::Receive));
    let action = worker.step(WorkerEvent::Received(Some(Document::default())));
    assert!(matches!(action, WorkerAction::AddDocument(_)));
    assert!(matches!(worker.step(added(2, false)), WorkerAction::Receive));
    let action = worker.step(WorkerEvent::Received(None));
    assert!(matches!(action, WorkerAction::FinalizeSegment));
    match worker.step(WorkerEvent::SegmentFinalized(Ok(()))) {
        WorkerAction::SendUpdate(SegmentUpdate::AddSegment(meta)) => {
            assert_eq!(meta, SegmentMeta { segment_id: id(9), num_docs: 2 });
        }
        other => panic!("unexpected {:?}", other),
    }
    assert!(matches!(worker.step(WorkerEvent::UpdateSent), WorkerAction::CreateSegment));
}

#[test]
fn a_merge_fails_when_its_segment_cannot_be_opened_or_written() {
    let metas = [
        SegmentMeta { segment_id: id(1), num_docs: 3 },
        SegmentMeta { segment_id: id(2), num_docs: 4 },
    ];
    let mut index = Index::open(&metas, 7);
    let (mut writer, _updater, _workers) = IndexWriter::open(&index, 1, 30_000_000);
    assert!(matches!(writer.merge(vec![id(1), id(2)]), WriterAction::OpenMerger));
    let action = writer.step(&mut index, WriterEvent::MergerOpened(Ok(())));
    assert!(matches!(action, WriterAction::CreateSegment));
    let action = writer.step(&mut index, WriterEvent::SegmentCreated(id(3)));
    assert!(matches!(action, WriterAction::OpenSerializer(segment_id) if segment_id == id(3)));
    match writer.step(&mut index, WriterEvent::SerializerOpened(Err(disk_full()))) {
        WriterAction::Merged(Err(error)) => assert!(is_disk_full(&error)),
        other => panic!("unexpected {:?}", other),
    }
    writer.merge(vec![id(1), id(2)]);
    writer.step(&mut index, WriterEvent::MergerOpened(Ok(())));
    writer.step(&mut index, WriterEvent::SegmentCreated(id(4)));
    let action = writer.step(&mut index, WriterEvent::SerializerOpened(Ok(())));
    assert!(matches!(action, WriterAction::WriteMerged));
    match writer.step(&mut index, WriterEvent::MergeWritten(Err(disk_full()))) {
        WriterAction::Merged(Err(error)) => assert!(is_disk_full(&error)),
        other => panic!("unexpected {:?}", other),
    }
    assert_eq!(get_segment_manager(&index).committed_segments(), metas.to_vec());
    writer.merge(vec![id(1), id(2)]);
    writer.step(&mut index, WriterEvent::MergerOpened(Ok(())));
    writer.step(&mut index, WriterEvent::SegmentCreated(id(5)));
    writer.step(&mut index, WriterEvent::SerializerOpened(Ok(())));
    writer.step(&mut index, WriterEvent::MergeWritten(Ok(7)));
    let merged = SegmentMeta { segment_id: id(5), num_docs: 7 };
    assert_eq!(get_segment_manager(&index).committed_segments(), vec![merged]);
}

#[test]
fn a_rollback_drains_the_former_pipeline() {
    let mut index = Index::open(&[], 0);
    let (mut writer, _updater, _workers) = IndexWriter::open(&index, 1, 30_000_000);
    writer.add_document(Document::default()).unwrap();
    writer.add_document(Document::default()).unwrap();
    let action = writer.rollback();
    assert!(matches!(action, WriterAction::SendUpdate(SegmentUpdate::CancelGeneration)));
    let mut action = writer.step(&mut index, WriterEvent::UpdateSent);
    let mut drained = 0;
    while let WriterAction::DrainDocument = action {
        let event = writer.drain();
        if let WriterEvent::Drained(Some(_)) = event {
            drained += 1;
        } else {
            assert!(matches!(writer.drain(), WriterEvent::Drained(None)));
        }
        action = writer.step(&mut index, event);
    }
    assert_eq!(drained, 2);
    assert!(matches!(action, WriterAction::JoinWorker));
    match writer.step(&mut index, WriterEvent::WorkerJoined(Err("Any".to_string()))) {
        WriterAction::Finished(Err(Error::ErrorInThread(message))) => assert_eq!(message, "Any"),
        other => panic!("unexpected {:?}", other),
    }
}
