use index_writer::document::{Document, Field};
use index_writer::error::Error;
use index_writer::index::{get_segment_manager, Index};
use index_writer::index_writer::{IndexWriter, WriterAction, WriterEvent, HEAP_SIZE_LIMIT};
use index_writer::indexing_worker::{IndexingWorker, SegmentProgress, WorkerAction, WorkerEvent};
use index_writer::segment::{MergeCandidate, SegmentId, SegmentMeta};
use index_writer::segment_update::SegmentUpdate;
use index_writer::segment_updater::{SegmentUpdater, UpdaterAction, UpdaterEvent};
use std::collections::{BTreeMap, VecDeque};

const TEXT: Field = Field(0);

fn text_document(text: &str) -> Document {
    let mut doc = Document::default();
    doc.add_text(TEXT, text);
    doc
}

fn failure(message: &str) -> Error {
    Error::IndexError(message.to_string())
}

fn is_index_error(error: &Error, expected: &str) -> bool {
    match error {
        Error::IndexError(message) => message == expected,
        Error::ErrorInThread(_) => false,
    }
}

/// The files of an index, kept in memory.
struct Store {
    next_id: u128,
    segments: BTreeMap<u128, Vec<Document>>,
    deleted: Vec<u128>,
    searchable: Vec<SegmentId>,
    saves: usize,
    loads: usize,
    fail_save: bool,
    fail_load: bool,
}

impl Store {
    fn create_segment(&mut self) -> SegmentId {
        self.next_id += 1;
        SegmentId { uuid: self.next_id }
    }

    fn remove_files(&mut self, index: &mut Index) {
        for segment_id in index.take_deletions() {
            self.segments.remove(&segment_id.uuid);
            self.deleted.push(segment_id.uuid);
        }
    }

    fn save(&mut self) -> Result<(), Error> {
        if self.fail_save {
            return Err(failure("save"));
        }
        self.saves += 1;
        Ok(())
    }

    fn load(&mut self, index: &Index) -> Result<(), Error> {
        if self.fail_load {
            return Err(failure("load"));
        }
        self.loads += 1;
        self.searchable = get_segment_manager(index)
            .committed_segments()
            .iter()
            .map(|meta| meta.segment_id)
            .collect();
        Ok(())
    }
}

/// A worker with the segment that it is writing.
struct Indexer {
    worker: IndexingWorker,
    action: Option<WorkerAction>,
    segment_id: SegmentId,
    documents: Vec<Document>,
}

/// An index writer whose threads take turns.
struct Engine {
    index: Index,
    writer: IndexWriter,
    updater: SegmentUpdater,
    indexers: VecDeque<Indexer>,
    former: VecDeque<Indexer>,
    store: Store,
    docs_per_segment: usize,
    fail_add: bool,
    fail_finalize: bool,
    panic_message: Option<String>,
    questions: Vec<(Vec<SegmentMeta>, Vec<SegmentMeta>)>,
    options: Vec<MergeCandidate>,
}

fn indexer(worker: IndexingWorker) -> Indexer {
    Indexer {
        worker,
        action: Some(WorkerAction::CreateSegment),
        segment_id: SegmentId { uuid: 0 },
        documents: Vec::new(),
    }
}

impl Engine {
    fn with_index(index: Index, num_threads: usize, heap_size: usize) -> Engine {
        let (writer, updater, workers) = IndexWriter::open(&index, num_threads, heap_size);
        assert_eq!(workers.len(), num_threads);
        Engine {
            index,
            writer,
            updater,
            indexers: workers.into_iter().map(indexer).collect(),
            former: VecDeque::new(),
            store: Store {
                next_id: 0,
                segments: BTreeMap::new(),
                deleted: Vec::new(),
                searchable: Vec::new(),
                saves: 0,
                loads: 0,
                fail_save: false,
                fail_load: false,
            },
            docs_per_segment: 1000,
            fail_add: false,
            fail_finalize: false,
            panic_message: None,
            questions: Vec::new(),
            options: Vec::new(),
        }
    }

    fn new(num_threads: usize, heap_size: usize) -> Engine {
        Engine::with_index(Index::open(&[], 0), num_threads, heap_size)
    }

    fn add(&mut self, text: &str) -> u64 {
        self.writer.add_document(text_document(text)).unwrap()
    }

    fn apply(&mut self, update: SegmentUpdate) {
        let mut event = UpdaterEvent::Received(Some(update));
        loop {
            let action = self.updater.process_segment_updates(&mut self.index, event);
            self.store.remove_files(&mut self.index);
            event = match action {
                UpdaterAction::Receive => return,
                UpdaterAction::SaveMetas => UpdaterEvent::MetasSaved(self.store.save()),
                UpdaterAction::LoadSearchers => {
                    UpdaterEvent::SearchersLoaded(self.store.load(&self.index))
                }
                UpdaterAction::ComputeMergeCandidates { committed, uncommitted } => {
                    let candidates = |metas: &Vec<SegmentMeta>| {
                        if metas.len() > 1 {
                            let segment_ids = metas.iter().map(|meta| meta.segment_id).collect();
                            vec![MergeCandidate { segment_ids }]
                        } else {
                            Vec::new()
                        }
                    };
                    let answer = UpdaterEvent::CandidatesComputed {
                        committed: candidates(&committed),
                        uncommitted: candidates(&uncommitted),
                    };
                    self.questions.push((committed, uncommitted));
                    answer
                }
                UpdaterAction::MergeOptions(options) => {
                    self.options = options;
                    return;
                }
                UpdaterAction::Exit(_) => panic!("the updater has stopped"),
            };
        }
    }

    /// Lets a worker go on, until it ends or has taken as many documents as it may.
    fn run(&mut self, indexer: &mut Indexer, mut documents: usize) -> Option<Result<(), Error>> {
        loop {
            let event = match indexer.action.take().unwrap() {
                WorkerAction::CreateSegment => {
                    WorkerEvent::SegmentCreated(self.store.create_segment())
                }
                WorkerAction::Receive => {
                    if documents == 0 {
                        indexer.action = Some(WorkerAction::Receive);
                        return None;
                    }
                    documents -= 1;
                    indexer.worker.receive()
                }
                WorkerAction::OpenSegment(segment_id) => {
                    indexer.segment_id = segment_id;
                    self.store.segments.insert(segment_id.uuid, Vec::new());
                    WorkerEvent::SegmentOpened(Ok(()))
                }
                WorkerAction::AddDocument(document) => {
                    if self.fail_add {
                        WorkerEvent::DocumentAdded(Err(failure("add")))
                    } else {
                        indexer.documents.push(document);
                        let progress = SegmentProgress {
                            max_doc: indexer.documents.len() as u32,
                            is_buffer_full: indexer.documents.len() >= self.docs_per_segment,
                        };
                        WorkerEvent::DocumentAdded(Ok(progress))
                    }
                }
                WorkerAction::FinalizeSegment if self.fail_finalize => {
                    WorkerEvent::SegmentFinalized(Err(failure("finalize")))
                }
                WorkerAction::FinalizeSegment => {
                    let documents = std::mem::take(&mut indexer.documents);
                    self.store.segments.insert(indexer.segment_id.uuid, documents);
                    WorkerEvent::SegmentFinalized(Ok(()))
                }
                WorkerAction::SendUpdate(update) => {
                    self.apply(update);
                    WorkerEvent::UpdateSent
                }
                WorkerAction::Exit(result) => return Some(result),
            };
            indexer.action = Some(indexer.worker.step(event));
        }
    }

    /// Lets the first worker take some documents of the pipeline.
    fn take_documents(&mut self, documents: usize) {
        let mut first = self.indexers.pop_front().unwrap();
        assert!(self.run(&mut first, documents).is_none());
        self.indexers.push_front(first);
    }

    fn drive(&mut self, mut action: WriterAction) -> Result<u64, Error> {
        self.former = std::mem::take(&mut self.indexers);
        loop {
            let event = match action {
                WriterAction::SendUpdate(update) => {
                    self.apply(update);
                    WriterEvent::UpdateSent
                }
                WriterAction::AwaitUpdates => WriterEvent::UpdateSent,
                WriterAction::DrainDocument => self.writer.drain(),
                WriterAction::JoinWorker => {
                    let mut indexer = self.former.pop_front().unwrap();
                    let joined = match self.panic_message.take() {
                        Some(message) => Err(message),
                        None => Ok(self.run(&mut indexer, usize::MAX).unwrap()),
                    };
                    WriterEvent::WorkerJoined(joined)
                }
                WriterAction::RespawnWorker => {
                    let (worker, next) = self.writer.respawn();
                    self.indexers.push_back(indexer(worker));
                    action = next;
                    continue;
                }
                WriterAction::SaveMetas => WriterEvent::MetasSaved(self.store.save()),
                WriterAction::LoadSearchers => {
                    WriterEvent::SearchersLoaded(self.store.load(&self.index))
                }
                WriterAction::Finished(result) => return result,
                other => panic!("unexpected {:?}", other),
            };
            action = self.writer.step(&mut self.index, event);
            self.store.remove_files(&mut self.index);
        }
    }

    fn commit(&mut self) -> Result<u64, Error> {
        let action = self.writer.commit();
        self.drive(action)
    }

    fn rollback(&mut self) -> Result<u64, Error> {
        let action = self.writer.rollback();
        self.drive(action)
    }

    fn merge(&mut self, segments: &[SegmentId]) -> Result<(), Error> {
        let mut merged = SegmentId { uuid: 0 };
        let mut action = self.writer.merge(segments.to_vec());
        loop {
            let event = match action {
                WriterAction::OpenMerger => {
                    let all_there =
                        segments.iter().all(|id| self.store.segments.contains_key(&id.uuid));
                    WriterEvent::MergerOpened(if all_there {
                        Ok(())
                    } else {
                        Err(failure("open merger"))
                    })
                }
                WriterAction::CreateSegment => {
                    WriterEvent::SegmentCreated(self.store.create_segment())
                }
                WriterAction::OpenSerializer(segment_id) => {
                    merged = segment_id;
                    WriterEvent::SerializerOpened(Ok(()))
                }
                WriterAction::WriteMerged => {
                    let mut documents = Vec::new();
                    for segment_id in segments {
                        documents.append(self.store.segments.get_mut(&segment_id.uuid).unwrap());
                    }
                    let num_docs = documents.len();
                    self.store.segments.insert(merged.uuid, documents);
                    WriterEvent::MergeWritten(Ok(num_docs))
                }
                WriterAction::LoadSearchers => {
                    WriterEvent::SearchersLoaded(self.store.load(&self.index))
                }
                WriterAction::Merged(result) => return result,
                other => panic!("unexpected {:?}", other),
            };
            action = self.writer.step(&mut self.index, event);
        }
    }

    fn num_docs_containing(&self, text: &str) -> usize {
        self.store
            .searchable
            .iter()
            .flat_map(|segment_id| self.store.segments[&segment_id.uuid].iter())
            .filter(|doc| {
                doc.field_values.iter().any(|value| value.field == TEXT && value.text == text)
            })
            .count()
    }

    fn committed(&self) -> Vec<SegmentMeta> {
        get_segment_manager(&self.index).committed_segments()
    }

    fn uncommitted(&self) -> Vec<SegmentMeta> {
        get_segment_manager(&self.index).uncommitted_segments()
    }
}

#[test]
fn test_commit_and_rollback() {
    let mut engine = Engine::new(1, 40_000_000);
    {
        engine.add("a");
        engine.commit().expect("commit failed");
    }
    {
        engine.add("a");
        // here we have a partial segment.
    }
    {
        engine.add("a");
        // here we have a partial segment.
    }
    assert_eq!(engine.rollback().unwrap(), 1u64);
    assert_eq!(engine.num_docs_containing("a"), 1);
    {
        engine.add("b");
    }
    {
        engine.add("c");
    }
    assert_eq!(engine.commit().unwrap(), 3u64);
    assert_eq!(engine.num_docs_containing("a"), 1);
    assert_eq!(engine.num_docs_containing("b"), 1);
    assert_eq!(engine.num_docs_containing("c"), 1);
}

#[test]
fn add_document_counts_from_the_last_commit_of_the_index() {
    let index = Index::open(&[], 41);
    let mut engine = Engine::with_index(index, 1, 40_000_000);
    assert_eq!(engine.writer.docstamp(), 41);
    assert_eq!(engine.add("a"), 42);
    assert_eq!(engine.add("b"), 43);
    assert_eq!(engine.writer.docstamp(), 43);
}

#[test]
fn the_smallest_heap_is_thirty_megabytes() {
    assert_eq!(HEAP_SIZE_LIMIT, 30_000_000);
    let index = Index::open(&[], 0);
    let (_, _, workers) = IndexWriter::open(&index, 3, 30_000_000);
    assert_eq!(workers.len(), 3);
    assert!(workers.iter().all(|worker| worker.heap_size_in_bytes() == 30_000_000));
}

#[test]
fn commit_closes_segments_when_the_buffer_is_full() {
    let mut engine = Engine::new(1, 40_000_000);
    engine.docs_per_segment = 2;
    for text in ["a", "b", "c", "d", "e"] {
        engine.add(text);
    }
    assert_eq!(engine.commit().unwrap(), 5);
    let num_docs: Vec<usize> = engine.committed().iter().map(|meta| meta.num_docs).collect();
    assert_eq!(num_docs, vec![2, 2, 1]);
    assert_eq!(engine.uncommitted().len(), 0);
    assert_eq!(engine.index.docstamp(), 5);
}

#[test]
fn a_worker_keeps_the_documents_in_order() {
    let mut engine = Engine::new(1, 40_000_000);
    engine.docs_per_segment = 2;
    for text in ["a", "b", "c", "d", "e"] {
        engine.add(text);
    }
    engine.commit().unwrap();
    let texts: Vec<&str> = engine
        .committed()
        .iter()
        .flat_map(|meta| engine.store.segments[&meta.segment_id.uuid].iter())
        .map(|document| document.field_values[0].text.as_str())
        .collect();
    assert_eq!(texts, vec!["a", "b", "c", "d", "e"]);
}

#[test]
fn a_rollback_that_cannot_be_saved_leaves_the_docstamp() {
    let mut engine = Engine::new(1, 40_000_000);
    engine.add("a");
    engine.add("b");
    engine.take_documents(2);
    engine.store.fail_save = true;
    assert!(is_index_error(&engine.rollback().unwrap_err(), "save"));
    assert_eq!(engine.writer.docstamp(), 2);
    assert_eq!(engine.index.docstamp(), 0);
    assert_eq!(engine.uncommitted().len(), 0);
    engine.store.fail_save = false;
    assert_eq!(engine.rollback().unwrap(), 0);
    assert_eq!(engine.writer.docstamp(), 0);
}

#[test]
fn an_empty_commit_creates_no_segment() {
    let mut engine = Engine::new(2, 40_000_000);
    assert_eq!(engine.commit().unwrap(), 0);
    assert_eq!(engine.committed().len(), 0);
    assert_eq!(engine.store.segments.len(), 0);
    assert_eq!(engine.store.saves, 1);
    assert_eq!(engine.store.loads, 1);
}

#[test]
fn workers_share_the_pipeline() {
    let mut engine = Engine::new(2, 40_000_000);
    engine.add("a");
    engine.add("b");
    engine.add("c");
    // The first worker takes one document, and the other one the rest.
    engine.take_documents(1);
    engine.indexers.rotate_left(1);
    engine.take_documents(2);
    assert_eq!(engine.commit().unwrap(), 3);
    let num_docs: Vec<usize> = engine.committed().iter().map(|meta| meta.num_docs).collect();
    assert_eq!(num_docs, vec![2, 1]);
    assert_eq!(engine.indexers.len(), 2);
    for text in ["a", "b", "c"] {
        assert_eq!(engine.num_docs_containing(text), 1);
    }
}

#[test]
fn rollback_throws_away_finished_and_unfinished_segments() {
    let mut engine = Engine::new(1, 40_000_000);
    engine.docs_per_segment = 2;
    engine.add("kept");
    assert_eq!(engine.commit().unwrap(), 1);
    let committed = engine.committed();
    for text in ["a", "b", "c", "d", "e"] {
        engine.add(text);
    }
    // One segment is finished, another one holds a single document, and two
    // documents are still in the pipeline.
    engine.take_documents(3);
    assert_eq!(engine.uncommitted().len(), 1);
    assert_eq!(engine.rollback().unwrap(), 1);
    assert_eq!(engine.writer.docstamp(), 1);
    assert_eq!(engine.index.docstamp(), 1);
    assert_eq!(engine.committed(), committed);
    assert_eq!(engine.uncommitted().len(), 0);
    // The unfinished segment was dropped when it arrived, the finished one at the
    // end.
    assert_eq!(engine.store.deleted.len(), 2);
    assert_eq!(engine.store.segments.len(), 1);
    assert_eq!(engine.num_docs_containing("kept"), 1);
    assert_eq!(engine.num_docs_containing("a"), 0);
    // Segments are accepted again.
    engine.add("f");
    assert_eq!(engine.commit().unwrap(), 2);
    assert_eq!(engine.num_docs_containing("f"), 1);
}

#[test]
fn rollback_without_a_commit_returns_to_the_empty_index() {
    let mut engine = Engine::new(1, 40_000_000);
    engine.add("a");
    assert_eq!(engine.rollback().unwrap(), 0);
    assert_eq!(engine.add("b"), 1);
}

#[test]
fn commit_and_rollback_work_without_workers() {
    let mut engine = Engine::new(0, 40_000_000);
    assert_eq!(engine.commit().unwrap(), 0);
    engine.add("a");
    assert_eq!(engine.rollback().unwrap(), 0);
    assert_eq!(engine.writer.docstamp(), 0);
    // Nothing is left of the document.
    assert_eq!(engine.commit().unwrap(), 0);
    assert_eq!(engine.committed().len(), 0);
}

#[test]
fn a_rollback_makes_up_for_a_failed_commit() {
    let mut engine = Engine::new(2, 40_000_000);
    engine.add("kept");
    assert_eq!(engine.commit().unwrap(), 1);
    engine.add("a");
    // The second worker has the document when its segment cannot be finalized.
    engine.indexers.rotate_left(1);
    engine.take_documents(1);
    engine.indexers.rotate_left(1);
    engine.fail_finalize = true;
    assert!(is_index_error(&engine.commit().unwrap_err(), "finalize"));
    assert_eq!(engine.indexers.len(), 1);
    engine.fail_finalize = false;
    assert_eq!(engine.rollback().unwrap(), 1);
    assert_eq!(engine.writer.docstamp(), 1);
    engine.add("b");
    assert_eq!(engine.commit().unwrap(), 2);
    assert_eq!(engine.num_docs_containing("kept"), 1);
    assert_eq!(engine.num_docs_containing("a"), 0);
    assert_eq!(engine.num_docs_containing("b"), 1);
}

#[test]
fn a_commit_counts_from_any_docstamp() {
    let mut engine = Engine::with_index(Index::open(&[], 41), 1, 40_000_000);
    engine.add("a");
    engine.add("b");
    assert_eq!(engine.commit().unwrap(), 43);
    assert_eq!(engine.index.docstamp(), 43);
    assert_eq!(engine.num_docs_containing("a"), 1);
    assert_eq!(engine.num_docs_containing("b"), 1);
    engine.add("c");
    assert_eq!(engine.rollback().unwrap(), 43);
    assert_eq!(engine.num_docs_containing("c"), 0);
}

#[test]
fn a_rollback_after_a_merge_keeps_the_documents() {
    let mut engine = Engine::new(1, 40_000_000);
    engine.add("a");
    engine.commit().unwrap();
    engine.add("b");
    engine.commit().unwrap();
    let ids: Vec<SegmentId> = engine.committed().iter().map(|meta| meta.segment_id).collect();
    engine.merge(&ids).unwrap();
    engine.add("c");
    assert_eq!(engine.rollback().unwrap(), 2);
    assert_eq!(engine.committed().len(), 1);
    assert_eq!(engine.num_docs_containing("a"), 1);
    assert_eq!(engine.num_docs_containing("b"), 1);
    assert_eq!(engine.num_docs_containing("c"), 0);
}

fn keeps_registered_files(engine: &Engine) -> bool {
    let committed: Vec<u128> =
        engine.committed().iter().map(|meta| meta.segment_id.uuid).collect();
    engine.uncommitted().iter().map(|meta| meta.segment_id.uuid).chain(committed.clone()).all(
        |uuid| engine.store.segments.contains_key(&uuid) && !engine.store.deleted.contains(&uuid),
    ) && engine.uncommitted().iter().all(|meta| !committed.contains(&meta.segment_id.uuid))
}

#[test]
fn files_of_registered_segments_are_kept() {
    let mut engine = Engine::new(1, 40_000_000);
    engine.docs_per_segment = 1;
    engine.add("a");
    engine.add("b");
    engine.take_documents(1);
    assert!(keeps_registered_files(&engine));
    engine.commit().unwrap();
    assert!(keeps_registered_files(&engine));
    engine.add("c");
    engine.add("d");
    engine.take_documents(2);
    assert!(keeps_registered_files(&engine));
    engine.rollback().unwrap();
    assert_eq!(engine.store.deleted.len(), 2);
    assert!(keeps_registered_files(&engine));
    let ids: Vec<SegmentId> = engine.committed().iter().map(|meta| meta.segment_id).collect();
    assert_eq!(ids.len(), 2);
    engine.merge(&ids).unwrap();
    assert!(keeps_registered_files(&engine));
    engine.add("e");
    engine.commit().unwrap();
    assert!(keeps_registered_files(&engine));
    assert_eq!(engine.committed().len(), 2);
}

#[test]
fn only_changes_of_the_segments_are_saved() {
    let mut engine = Engine::new(1, 40_000_000);
    let meta = |uuid: u128| SegmentMeta { segment_id: SegmentId { uuid }, num_docs: 1 };
    engine.apply(SegmentUpdate::AddSegment(meta(5)));
    assert_eq!(engine.store.saves, 1);
    engine.apply(SegmentUpdate::StartMerge(vec![SegmentId { uuid: 5 }]));
    assert_eq!(engine.store.saves, 2);
    engine.apply(SegmentUpdate::StartMerge(vec![]));
    engine.apply(SegmentUpdate::CancelGeneration);
    engine.apply(SegmentUpdate::AddSegment(meta(6)));
    engine.apply(SegmentUpdate::NewGeneration);
    assert_eq!(engine.store.saves, 2);
    assert_eq!(engine.store.deleted, vec![6]);
}

#[test]
fn a_failing_worker_fails_the_commit() {
    let mut engine = Engine::new(2, 40_000_000);
    engine.add("a");
    engine.fail_add = true;
    let error = engine.commit().unwrap_err();
    assert!(is_index_error(&error, "add"));
    assert_eq!(engine.committed().len(), 0);
    assert_eq!(engine.index.docstamp(), 0);
    // None of the workers was replaced.
    assert_eq!(engine.indexers.len(), 0);
}

#[test]
fn a_panicking_worker_fails_the_rollback() {
    let mut engine = Engine::new(1, 40_000_000);
    engine.panic_message = Some("Any".to_string());
    match engine.rollback().unwrap_err() {
        Error::ErrorInThread(message) => assert_eq!(message, "Any"),
        other => panic!("unexpected {:?}", other),
    }
}

#[test]
fn a_failure_to_save_or_load_fails_the_commit() {
    let mut engine = Engine::new(1, 40_000_000);
    engine.store.fail_save = true;
    assert!(is_index_error(&engine.commit().unwrap_err(), "save"));
    engine.store.fail_save = false;
    engine.store.fail_load = true;
    assert!(is_index_error(&engine.commit().unwrap_err(), "load"));
    engine.store.fail_load = false;
    assert_eq!(engine.commit().unwrap(), 0);
}

#[test]
fn merge_replaces_committed_segments() {
    let mut engine = Engine::new(1, 40_000_000);
    engine.add("a");
    engine.commit().unwrap();
    engine.add("b");
    engine.add("c");
    engine.commit().unwrap();
    let ids: Vec<SegmentId> = engine.committed().iter().map(|meta| meta.segment_id).collect();
    assert_eq!(ids.len(), 2);
    engine.merge(&ids).unwrap();
    let merged = engine.committed();
    assert_eq!(merged.len(), 1);
    assert_eq!(merged[0].num_docs, 3);
    assert!(!ids.contains(&merged[0].segment_id));
    assert_eq!(engine.index.docstamp(), 3);
    for text in ["a", "b", "c"] {
        assert_eq!(engine.num_docs_containing(text), 1);
    }
}

#[test]
fn merge_of_missing_segments_fails() {
    let mut engine = Engine::new(1, 40_000_000);
    let error = engine.merge(&[SegmentId { uuid: 77 }]).unwrap_err();
    assert!(is_index_error(&error, "open merger"));
    assert_eq!(engine.commit().unwrap(), 0);
}

#[test]
fn a_merge_reports_that_the_searchers_could_not_be_loaded() {
    let mut engine = Engine::new(1, 40_000_000);
    engine.add("a");
    engine.commit().unwrap();
    let ids: Vec<SegmentId> = engine.committed().iter().map(|meta| meta.segment_id).collect();
    engine.store.fail_load = true;
    let error = engine.merge(&ids).unwrap_err();
    assert!(is_index_error(&error, "load"));
    assert_eq!(engine.committed().len(), 1);
}

#[test]
fn merge_options_keep_committed_and_uncommitted_segments_apart() {
    let mut engine = Engine::new(1, 40_000_000);
    engine.docs_per_segment = 1;
    engine.add("a");
    engine.add("b");
    engine.commit().unwrap();
    engine.add("c");
    engine.add("d");
    engine.take_documents(2);
    let (committed, uncommitted) = engine.questions.last().unwrap();
    assert_eq!(committed.len(), 2);
    assert_eq!(uncommitted.len(), 2);
    assert_eq!(engine.options.len(), 2);
    let first: Vec<SegmentId> = committed.iter().map(|meta| meta.segment_id).collect();
    let second: Vec<SegmentId> = uncommitted.iter().map(|meta| meta.segment_id).collect();
    assert_eq!(engine.options[0].segment_ids, first);
    assert_eq!(engine.options[1].segment_ids, second);
}

#[test]
fn a_failure_to_save_does_not_stop_the_updater() {
    let mut engine = Engine::new(1, 40_000_000);
    engine.store.fail_save = true;
    let meta = SegmentMeta { segment_id: SegmentId { uuid: 5 }, num_docs: 1 };
    engine.apply(SegmentUpdate::AddSegment(meta));
    assert_eq!(engine.uncommitted(), vec![meta]);
    assert_eq!(engine.questions.len(), 0);
    engine.store.fail_save = false;
    engine.store.fail_load = true;
    engine.apply(SegmentUpdate::AddSegment(meta));
    assert_eq!(engine.store.saves, 1);
    assert_eq!(engine.questions.len(), 0);
    engine.store.fail_load = false;
    engine.apply(SegmentUpdate::AddSegment(meta));
    assert_eq!(engine.questions.len(), 1);
}
