use index_writer::document::{Document, Field};
use index_writer::index::{commit, get_segment_manager, Index};
use index_writer::indexing_worker::{IndexingWorker, WorkerEvent};
use index_writer::segment::{MergeCandidate, SegmentId, SegmentMeta};
use index_writer::segment_manager::get_segment_ready_for_commit;
use index_writer::segment_update::SegmentUpdate;
use index_writer::segment_updater::{
    consider_merge_options, process_segment_update, SegmentUpdater, UpdaterAction, UpdaterEvent,
};

fn id(uuid: u128) -> SegmentId {
    SegmentId { uuid }
}

fn meta(uuid: u128, num_docs: usize) -> SegmentMeta {
    SegmentMeta { segment_id: id(uuid), num_docs }
}

fn process(index: &mut Index, cancelled: &mut bool, update: SegmentUpdate) -> bool {
    process_segment_update(index, update, cancelled).unwrap()
}

fn committed(index: &Index) -> Vec<SegmentMeta> {
    get_segment_manager(index).committed_segments()
}

fn uncommitted(index: &Index) -> Vec<SegmentMeta> {
    get_segment_manager(index).uncommitted_segments()
}

#[test]
fn new_segments_are_uncommitted_until_a_commit() {
    let mut index = Index::open(&[meta(1, 10)], 10);
    let mut cancelled = false;
    assert!(process(&mut index, &mut cancelled, SegmentUpdate::AddSegment(meta(2, 3))));
    assert_eq!(committed(&index), vec![meta(1, 10)]);
    assert_eq!(uncommitted(&index), vec![meta(2, 3)]);
    assert_eq!(index.docstamp(), 10);
    commit(&mut index, 13);
    assert_eq!(committed(&index), vec![meta(1, 10), meta(2, 3)]);
    assert_eq!(uncommitted(&index), vec![]);
    assert_eq!(index.docstamp(), 13);
    assert_eq!(index.take_deletions(), vec![]);
}

#[test]
fn segments_of_a_cancelled_generation_are_deleted() {
    let mut index = Index::open(&[], 0);
    let mut cancelled = false;
    assert!(!process(&mut index, &mut cancelled, SegmentUpdate::CancelGeneration));
    assert!(cancelled);
    assert!(!process(&mut index, &mut cancelled, SegmentUpdate::AddSegment(meta(1, 1))));
    assert!(!process(&mut index, &mut cancelled, SegmentUpdate::NewGeneration));
    assert!(!cancelled);
    assert!(process(&mut index, &mut cancelled, SegmentUpdate::AddSegment(meta(2, 1))));
    assert_eq!(uncommitted(&index), vec![meta(2, 1)]);
    assert_eq!(index.take_deletions(), vec![id(1)]);
    assert_eq!(index.take_deletions(), vec![]);
}

#[test]
fn rollback_forgets_uncommitted_segments_and_deletes_them() {
    let mut index = Index::open(&[meta(1, 4)], 4);
    index.add_segment(meta(2, 1));
    index.add_segment(meta(3, 1));
    index.rollback();
    assert_eq!(committed(&index), vec![meta(1, 4)]);
    assert_eq!(uncommitted(&index), vec![]);
    assert_eq!(index.docstamp(), 4);
    assert_eq!(index.take_deletions(), vec![id(2), id(3)]);
}

#[test]
fn segments_in_a_merge_are_not_ready() {
    let mut index = Index::open(&[meta(1, 4), meta(2, 4)], 8);
    let mut cancelled = false;
    index.add_segment(meta(3, 1));
    assert!(process(&mut index, &mut cancelled, SegmentUpdate::StartMerge(vec![id(1)])));
    let (ready, fresh) = get_segment_ready_for_commit(get_segment_manager(&index));
    assert_eq!(ready, vec![meta(2, 4)]);
    assert_eq!(fresh, vec![meta(3, 1)]);
    assert!(process(&mut index, &mut cancelled, SegmentUpdate::StartMerge(vec![id(3)])));
    let (ready, fresh) = get_segment_ready_for_commit(get_segment_manager(&index));
    assert_eq!(ready, vec![meta(2, 4)]);
    assert_eq!(fresh, vec![]);
    // A merge that has started already, or of segments that do not belong together,
    // changes nothing.
    assert!(!process(&mut index, &mut cancelled, SegmentUpdate::StartMerge(vec![id(1)])));
    assert!(!process(&mut index, &mut cancelled, SegmentUpdate::StartMerge(vec![id(2), id(3)])));
    assert!(!process(&mut index, &mut cancelled, SegmentUpdate::StartMerge(vec![id(9)])));
}

#[test]
fn merges_do_not_start_in_a_cancelled_generation() {
    let mut index = Index::open(&[meta(1, 4)], 4);
    let mut cancelled = true;
    assert!(!process(&mut index, &mut cancelled, SegmentUpdate::StartMerge(vec![id(1)])));
    let (ready, _) = get_segment_ready_for_commit(get_segment_manager(&index));
    assert_eq!(ready, vec![meta(1, 4)]);
}

#[test]
fn the_start_of_an_empty_merge_changes_nothing() {
    let mut index = Index::open(&[meta(1, 4)], 4);
    let mut cancelled = false;
    index.add_segment(meta(2, 1));
    assert!(!process(&mut index, &mut cancelled, SegmentUpdate::StartMerge(vec![])));
    let (ready, fresh) = get_segment_ready_for_commit(get_segment_manager(&index));
    assert_eq!(ready, vec![meta(1, 4)]);
    assert_eq!(fresh, vec![meta(2, 1)]);
    assert_eq!(index.take_deletions(), vec![]);
}

#[test]
fn merged_segments_give_way() {
    let mut index = Index::open(&[meta(1, 4), meta(2, 4), meta(3, 1)], 9);
    let mut cancelled = false;
    let update = SegmentUpdate::EndMerge(vec![id(1), id(2)], meta(4, 8));
    assert!(process(&mut index, &mut cancelled, update));
    assert_eq!(committed(&index), vec![meta(3, 1), meta(4, 8)]);
    assert_eq!(index.take_deletions(), vec![id(1), id(2)]);
}

#[test]
fn uncommitted_segments_merge_into_an_uncommitted_one_even_when_cancelled() {
    let mut index = Index::open(&[meta(1, 4)], 4);
    let mut cancelled = true;
    index.add_segment(meta(2, 1));
    index.add_segment(meta(3, 2));
    let update = SegmentUpdate::EndMerge(vec![id(2), id(3)], meta(5, 3));
    assert!(process(&mut index, &mut cancelled, update));
    assert_eq!(committed(&index), vec![meta(1, 4)]);
    assert_eq!(uncommitted(&index), vec![meta(5, 3)]);
    assert_eq!(index.take_deletions(), vec![id(2), id(3)]);
}

#[test]
fn committed_and_uncommitted_segments_are_not_merged_with_each_other() {
    let mut index = Index::open(&[meta(1, 4)], 4);
    let mut cancelled = false;
    index.add_segment(meta(2, 1));
    let update = SegmentUpdate::EndMerge(vec![id(1), id(2)], meta(3, 5));
    assert!(process(&mut index, &mut cancelled, update));
    assert_eq!(committed(&index), vec![meta(1, 4)]);
    assert_eq!(uncommitted(&index), vec![meta(2, 1)]);
    assert_eq!(index.take_deletions(), vec![id(1), id(2)]);
}

#[test]
fn merge_options_come_in_order() {
    let option = |uuid: u128| MergeCandidate { segment_ids: vec![id(uuid)] };
    let options = consider_merge_options(vec![option(1), option(2)], vec![option(3)]);
    let ids: Vec<SegmentId> = options.iter().map(|option| option.segment_ids[0]).collect();
    assert_eq!(ids, vec![id(1), id(2), id(3)]);
}

#[test]
fn a_worker_sends_its_segments_to_the_updater() {
    let (_document_sender, document_receiver) = chan::sync(4);
    let (update_sender, update_receiver) = chan::sync(4);
    let mut worker = IndexingWorker::new(40_000_000, document_receiver, update_sender);
    let event = worker.send(SegmentUpdate::AddSegment(meta(7, 2)));
    assert!(matches!(event, WorkerEvent::UpdateSent));
    drop(worker);
    let mut index = Index::open(&[], 0);
    let mut updater = SegmentUpdater::new(update_receiver);
    let event = updater.receive();
    assert!(matches!(
        &event,
        UpdaterEvent::Received(Some(SegmentUpdate::AddSegment(received))) if *received == meta(7, 2)
    ));
    let action = updater.process_segment_updates(&mut index, event);
    assert!(matches!(action, UpdaterAction::SaveMetas));
    assert_eq!(uncommitted(&index), vec![meta(7, 2)]);
}

#[test]
fn the_updater_stops_when_its_channel_is_dropped() {
    let (update_sender, update_receiver) = chan::sync(1);
    update_sender.send(SegmentUpdate::CancelGeneration);
    drop(update_sender);
    let mut index = Index::open(&[], 0);
    let mut updater = SegmentUpdater::new(update_receiver);
    let event = updater.receive();
    let action = updater.process_segment_updates(&mut index, event);
    assert!(matches!(action, UpdaterAction::Receive));
    let event = updater.receive();
    assert!(matches!(event, UpdaterEvent::Received(None)));
    let action = updater.process_segment_updates(&mut index, event);
    assert!(matches!(action, UpdaterAction::Exit(Ok(()))));
    assert!(matches!(updater.receive(), UpdaterEvent::Received(None)));
}

#[test]
fn a_worker_receives_documents_in_order_until_the_pipeline_is_closed() {
    let (document_sender, document_receiver) = chan::sync(4);
    let (update_sender, _update_receiver) = chan::sync(4);
    let mut worker = IndexingWorker::new(40_000_000, document_receiver, update_sender);
    for text in ["first", "second"] {
        let mut document = Document::default();
        document.add_text(Field(3), text);
        document_sender.send(document);
    }
    drop(document_sender);
    for text in ["first", "second"] {
        match worker.receive() {
            WorkerEvent::Received(Some(document)) => {
                assert_eq!(document.field_values.len(), 1);
                assert_eq!(document.field_values[0].field, Field(3));
                assert_eq!(document.field_values[0].text, text);
            }
            other => panic!("unexpected {:?}", other),
        }
    }
    assert!(matches!(worker.receive(), WorkerEvent::Received(None)));
    assert!(matches!(worker.receive(), WorkerEvent::Received(None)));
}
