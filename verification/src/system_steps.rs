//! What holds of the index writer at work keeps holding at every step.

use crate::document::Document;
use crate::error::Error;
use crate::index_writer::{Ending, Operation, PipelineView, WriterEvent};
use crate::indexing_worker::{WorkerEvent, WorkerState};
use crate::segment::{SegmentId, SegmentMeta};
use crate::segment_manager::{SegmentEntry, contains_all, new_entry, remove_all};
use crate::segment_update::SegmentUpdate;
use crate::system::{Step, System, documents_held, documents_in, documents_merged};
use crate::updater_laws::{keep_all, law_empty_merge_changes_nothing};
use crate::worker_laws::{WorkerRecord, lemma_record_inv};
use vstd::multiset::Multiset;
use vstd::prelude::*;

verus! {

broadcast use vstd::seq_lib::group_to_multiset_ensures;

proof fn lemma_documents_in_push(
    register: Seq<SegmentEntry>,
    entry: SegmentEntry,
    contents: Map<SegmentId, Multiset<Document>>,
)
    ensures
        documents_in(register.push(entry), contents) == documents_in(register, contents).add(
            contents[entry.meta.segment_id],
        ),
{
    assert(register.push(entry).drop_last() =~= register);
}

proof fn lemma_documents_in_concat(
    first: Seq<SegmentEntry>,
    second: Seq<SegmentEntry>,
    contents: Map<SegmentId, Multiset<Document>>,
)
    ensures
        documents_in(first + second, contents) == documents_in(first, contents).add(
            documents_in(second, contents),
        ),
    decreases second.len(),
{
    if second.len() == 0 {
        assert(first + second =~= first);
        assert(documents_in(first, contents).add(Multiset::empty()) =~= documents_in(
            first,
            contents,
        ));
    } else {
        lemma_documents_in_concat(first, second.drop_last(), contents);
        assert((first + second).drop_last() =~= first + second.drop_last());
        assert(documents_in(first + second, contents) =~= documents_in(first, contents).add(
            documents_in(second, contents),
        ));
    }
}

/// A new segment leaves the contents of the registered ones alone.
proof fn lemma_documents_in_insert(
    register: Seq<SegmentEntry>,
    contents: Map<SegmentId, Multiset<Document>>,
    segment_id: SegmentId,
    documents: Multiset<Document>,
)
    requires
        !contents.contains_key(segment_id),
        forall|i: int|
            0 <= i < register.len() ==> contents.contains_key(
                (#[trigger] register[i]).meta.segment_id,
            ),
    ensures
        documents_in(register, contents.insert(segment_id, documents)) == documents_in(
            register,
            contents,
        ),
    decreases register.len(),
{
    if register.len() > 0 {
        assert(contents.contains_key(register[register.len() - 1].meta.segment_id));
        assert forall|i: int| 0 <= i < register.drop_last().len() implies contents.contains_key(
            (#[trigger] register.drop_last()[i]).meta.segment_id,
        ) by {
            assert(contents.contains_key(register[i].meta.segment_id));
        }
        lemma_documents_in_insert(register.drop_last(), contents, segment_id, documents);
    }
}

proof fn lemma_documents_in_split(
    register: Seq<SegmentEntry>,
    segment_ids: Seq<SegmentId>,
    contents: Map<SegmentId, Multiset<Document>>,
)
    ensures
        documents_in(register, contents) == documents_in(
            remove_all(register, segment_ids),
            contents,
        ).add(documents_in(keep_all(register, segment_ids), contents)),
    decreases register.len(),
{
    reveal(Seq::filter);
    if register.len() == 0 {
        assert(documents_in(register, contents) =~= documents_in(register, contents).add(
            documents_in(register, contents),
        ));
    } else {
        let rest = register.drop_last();
        let last = register.last();
        lemma_documents_in_split(rest, segment_ids, contents);
        lemma_documents_in_push(remove_all(rest, segment_ids), last, contents);
        lemma_documents_in_push(keep_all(rest, segment_ids), last, contents);
        assert(documents_in(register, contents) =~= documents_in(
            remove_all(register, segment_ids),
            contents,
        ).add(documents_in(keep_all(register, segment_ids), contents)));
    }
}

/// The contents of the segments that remain in a register are known.
proof fn lemma_rest_known(
    register: Seq<SegmentEntry>,
    segment_ids: Seq<SegmentId>,
    contents: Map<SegmentId, Multiset<Document>>,
)
    requires
        forall|i: int|
            0 <= i < register.len() ==> contents.contains_key(
                (#[trigger] register[i]).meta.segment_id,
            ),
    ensures
        forall|i: int|
            0 <= i < remove_all(register, segment_ids).len() ==> contents.contains_key(
                (#[trigger] remove_all(register, segment_ids)[i]).meta.segment_id,
            ),
{
    let rest = remove_all(register, segment_ids);
    let keep = |entry: SegmentEntry| !segment_ids.contains(entry.meta.segment_id);
    assert forall|i: int| 0 <= i < rest.len() implies contents.contains_key(
        (#[trigger] rest[i]).meta.segment_id,
    ) by {
        assert(rest.contains(rest[i]));
        register.lemma_filter_contains_rev(keep, rest[i]);
        let j = choose|j: int| 0 <= j < register.len() && register[j] == rest[i];
        assert(contents.contains_key(register[j].meta.segment_id));
    }
}

proof fn lemma_documents_held_update(workers: Seq<WorkerRecord>, worker: int, record: WorkerRecord)
    requires
        0 <= worker < workers.len(),
    ensures
        documents_held(workers.update(worker, record)).add(workers[worker].held.to_multiset())
            == documents_held(workers).add(record.held.to_multiset()),
    decreases workers.len(),
{
    let updated = workers.update(worker, record);
    if worker == workers.len() - 1 {
        assert(updated.drop_last() =~= workers.drop_last());
    } else {
        lemma_documents_held_update(workers.drop_last(), worker, record);
        assert(updated.drop_last() =~= workers.drop_last().update(worker, record));
        assert(updated.last() == workers.last());
        assert(workers.drop_last()[worker] == workers[worker]);
        let last = workers.last().held.to_multiset();
        let before = documents_held(workers.drop_last());
        let after = documents_held(updated.drop_last());
        assert(documents_held(updated) == after.add(last));
        assert(documents_held(workers) == before.add(last));
        assert(after.add(last).add(workers[worker].held.to_multiset()) =~= after.add(
            workers[worker].held.to_multiset(),
        ).add(last));
        assert(before.add(last).add(record.held.to_multiset()) =~= before.add(
            record.held.to_multiset(),
        ).add(last));
    }
    assert(documents_held(updated).add(workers[worker].held.to_multiset()) =~= documents_held(
        workers,
    ).add(record.held.to_multiset()));
}

proof fn lemma_documents_held_first(workers: Seq<WorkerRecord>)
    requires
        workers.len() > 0,
    ensures
        documents_held(workers) == documents_held(workers.drop_first()).add(
            workers[0].held.to_multiset(),
        ),
    decreases workers.len(),
{
    if workers.len() == 1 {
        assert(workers.drop_last() =~= workers.drop_first());
    } else {
        lemma_documents_held_first(workers.drop_last());
        assert(workers.drop_first().drop_last() =~= workers.drop_last().drop_first());
        assert(documents_held(workers) =~= documents_held(workers.drop_first()).add(
            workers[0].held.to_multiset(),
        ));
    }
}

pub proof fn lemma_documents_held_none(workers: Seq<WorkerRecord>)
    requires
        forall|i: int| 0 <= i < workers.len() ==> (#[trigger] workers[i]).held.len() == 0,
    ensures
        documents_held(workers) == Multiset::<Document>::empty(),
    decreases workers.len(),
{
    if workers.len() > 0 {
        assert forall|i: int| 0 <= i < workers.drop_last().len() implies (
        #[trigger] workers.drop_last()[i]).held.len() == 0 by {
            assert(workers[i].held.len() == 0);
        }
        lemma_documents_held_none(workers.drop_last());
        assert(workers[workers.len() - 1].held.len() == 0);
        assert(workers.last().held =~= Seq::empty());
        assert(documents_held(workers) =~= Multiset::empty());
    }
}

pub proof fn lemma_no_documents(documents: Seq<Document>)
    requires
        documents.len() == 0,
    ensures
        documents.to_multiset() == Multiset::<Document>::empty(),
{
    assert(documents.to_multiset().len() == 0);
    assert(documents.to_multiset() =~= Multiset::empty());
}

proof fn lemma_first_document(documents: Seq<Document>)
    requires
        documents.len() > 0,
    ensures
        documents.to_multiset() == documents.drop_first().to_multiset().insert(documents[0]),
{
    assert(documents.drop_first() =~= documents.remove(0));
    assert(documents.contains(documents[0]));
    assert(documents.to_multiset() =~= documents.remove(0).to_multiset().insert(documents[0]));
}

/// A change of one worker that keeps the documents it holds.
proof fn lemma_worker_goes_on(s: System, former: bool, worker: int, record: WorkerRecord)
    requires
        s.inv(),
        0 <= worker < s.crew(former).len(),
        record.inv(),
        record.held == s.crew(former)[worker].held,
        record.exit == Some(Ok::<Result<(), Error>, String>(Ok(()))) ==> former
            && s.former_queue.len() == 0,
        s.crew(former)[worker].is_resting() ==> record.is_resting() || record.state is Stopped
            && record.held.len() == 0,
        s.crew(former)[worker].state is Stopped ==> record == s.crew(former)[worker],
    ensures
        s.with_worker(former, worker, record).inv(),
{
    let next = s.with_worker(former, worker, record);
    lemma_documents_held_update(s.crew(former), worker, record);
    assert(documents_held(next.crew(former)) =~= documents_held(s.crew(former))) by {
        let held = record.held.to_multiset();
        assert(documents_held(next.crew(former)) =~= documents_held(next.crew(former)).add(
            held,
        ).sub(held));
        assert(documents_held(s.crew(former)) =~= documents_held(s.crew(former)).add(held).sub(
            held,
        ));
    }
    assert(next.documents_under_way() == s.documents_under_way());
    if former {
        assert(forall|i: int|
            0 <= i < s.former.len() && i != worker ==> next.former[i] == #[trigger] s.former[i]);
    } else {
        assert(forall|i: int|
            0 <= i < s.workers.len() && i != worker ==> next.workers[i] == #[trigger] s.workers[i]);
    }
}

proof fn lemma_worker_hears(s: System, former: bool, worker: int, event: WorkerEvent)
    requires
        s.inv(),
        s.enabled(Step::WorkerHears { former, worker, event }),
    ensures
        s.next(Step::WorkerHears { former, worker, event }).inv(),
{
    let record = s.crew(former)[worker];
    assert(record.inv());
    lemma_record_inv(record, event);
    lemma_worker_goes_on(s, former, worker, record.next(event));
}

proof fn lemma_worker_panics(s: System, former: bool, worker: int, message: String)
    requires
        s.inv(),
        s.enabled(Step::WorkerPanics { former, worker, message }),
    ensures
        s.next(Step::WorkerPanics { former, worker, message }).inv(),
{
    let record = s.crew(former)[worker];
    assert(record.inv());
    let next = WorkerRecord {
        state: WorkerState::Stopped,
        outgoing: None,
        exit: Some(Err(message)),
        ..record
    };
    lemma_worker_goes_on(s, former, worker, next);
}

proof fn lemma_worker_finds_none(s: System, worker: int)
    requires
        s.inv(),
        s.enabled(Step::WorkerFindsNone { worker }),
    ensures
        s.next(Step::WorkerFindsNone { worker }).inv(),
{
    let record = s.former[worker];
    assert(record.inv());
    lemma_record_inv(record, WorkerEvent::Received(None));
    let next = record.next(WorkerEvent::Received(None));
    assert(record.is_resting() ==> next.state is Stopped);
    lemma_worker_goes_on(s, true, worker, next);
}

proof fn lemma_worker_receives(s: System, former: bool, worker: int)
    requires
        s.inv(),
        s.enabled(Step::WorkerReceives { former, worker }),
    ensures
        s.next(Step::WorkerReceives { former, worker }).inv(),
{
    let next = s.next(Step::WorkerReceives { former, worker });
    let record = s.crew(former)[worker];
    let document = s.source(former)[0];
    let event = WorkerEvent::Received(Some(document));
    assert(record.inv());
    lemma_record_inv(record, event);
    lemma_documents_held_update(s.crew(former), worker, record.next(event));
    lemma_first_document(s.source(former));
    let held = record.held.to_multiset();
    assert(record.next(event).held.to_multiset() == held.insert(document));
    assert(documents_held(next.crew(former)) =~= documents_held(s.crew(former)).insert(document))
        by {
        assert(documents_held(next.crew(former)) =~= documents_held(next.crew(former)).add(
            held,
        ).sub(held));
        assert(documents_held(s.crew(former)).insert(document) =~= documents_held(
            s.crew(former),
        ).add(held.insert(document)).sub(held));
    }
    assert(next.documents_under_way() =~= s.documents_under_way());
    assert(next.taken + next.queue =~= s.taken + s.queue);
    if former {
        assert(forall|i: int|
            0 <= i < s.former.len() && i != worker ==> next.former[i] == #[trigger] s.former[i]);
    } else {
        assert(forall|i: int|
            0 <= i < s.workers.len() && i != worker ==> next.workers[i] == #[trigger] s.workers[i]);
    }
}

proof fn lemma_worker_reports(s: System, former: bool, worker: int)
    requires
        s.inv(),
        s.enabled(Step::WorkerReports { former, worker }),
    ensures
        s.next(Step::WorkerReports { former, worker }).inv(),
{
    let next = s.next(Step::WorkerReports { former, worker });
    let record = s.crew(former)[worker];
    let event = WorkerEvent::UpdateSent;
    let segment_id = record.outgoing->0->AddSegment_0.segment_id;
    let documents = record.written.to_multiset();
    assert(record.inv());
    lemma_record_inv(record, event);
    lemma_documents_in_insert(s.index.registers.committed, s.contents, segment_id, documents);
    lemma_documents_in_insert(s.index.registers.uncommitted, s.contents, segment_id, documents);
    lemma_documents_held_update(s.crew(former), worker, record.next(event));
    lemma_no_documents(record.next(event).held);
    assert(documents_held(next.crew(former)).add(documents) =~= documents_held(s.crew(former)));
    assert(next.documents_under_way() =~= s.documents_under_way());
    assert(!record.is_resting());
    if former {
        assert(forall|i: int|
            0 <= i < s.former.len() && i != worker ==> next.former[i] == #[trigger] s.former[i]);
    } else {
        assert(forall|i: int|
            0 <= i < s.workers.len() && i != worker ==> next.workers[i]
                == #[trigger] s.workers[i]);
        assert(s.workers[worker] == record);
    }
}

proof fn lemma_updater_applies(s: System)
    requires
        s.inv(),
        s.enabled(Step::UpdaterApplies),
    ensures
        s.next(Step::UpdaterApplies).inv(),
{
    let next = s.next(Step::UpdaterApplies);
    let update = s.in_hand->0;
    match update {
        SegmentUpdate::AddSegment(meta) => {
            if !s.cancelled {
                lemma_documents_in_push(s.index.registers.uncommitted, new_entry(meta), s.contents);
                assert(next.index.registers.uncommitted == s.index.registers.uncommitted.push(
                    new_entry(meta),
                ));
                assert(next.documents_under_way() =~= s.documents_under_way());
            }
        },
        SegmentUpdate::StartMerge(_) => {
            law_empty_merge_changes_nothing(s.index, s.cancelled, update);
        },
        _ => {},
    }
}

proof fn lemma_add_document(s: System, document: Document)
    requires
        s.inv(),
        s.enabled(Step::AddDocument { document }),
    ensures
        s.next(Step::AddDocument { document }).inv(),
{
    let next = s.next(Step::AddDocument { document });
    assert(next.queue.to_multiset() == s.queue.to_multiset().insert(document));
    assert(next.pending.to_multiset() == s.pending.to_multiset().insert(document));
    assert(next.documents_under_way() =~= s.documents_under_way().insert(document));
}

proof fn lemma_start_commit(s: System, pipeline: PipelineView)
    requires
        s.inv(),
        s.enabled(Step::StartCommit { pipeline }),
    ensures
        s.next(Step::StartCommit { pipeline }).inv(),
{
    let next = s.next(Step::StartCommit { pipeline });
    lemma_no_documents(next.queue);
    lemma_no_documents(s.former_queue);
    lemma_documents_held_none(next.workers);
    lemma_documents_held_none(s.former);
    if s.workers.len() == 0 && s.queue.len() == 0 {
        lemma_no_documents(s.queue);
        lemma_no_documents(next.former_queue);
    }
    assert(!next.impaired ==> next.documents_under_way() =~= s.documents_under_way());
    assert(forall|i: int| 0 <= i < next.former.len() ==> #[trigger] next.former[i] == s.workers[i]);
}

proof fn lemma_respawn(s: System)
    requires
        s.inv(),
        s.enabled(Step::Respawn),
    ensures
        s.next(Step::Respawn).inv(),
{
    let next = s.next(Step::Respawn);
    let record = WorkerRecord::start();
    assert(next.workers.drop_last() =~= s.workers);
    lemma_no_documents(record.held);
    assert(documents_held(next.workers) =~= documents_held(s.workers));
    assert(forall|i: int|
        0 <= i < s.workers.len() ==> next.workers[i] == #[trigger] s.workers[i]);
}

/// The generation is closed: all documents of it are in uncommitted segments, or
/// have been thrown away.
proof fn lemma_generation_closed(s: System, pipeline: PipelineView)
    requires
        s.inv(),
        s.writer.operation is Closing,
        s.enabled(Step::WriterHears { outcome: WriterEvent::UpdateSent, pipeline }),
    ensures
        s.next(Step::WriterHears { outcome: WriterEvent::UpdateSent, pipeline }).inv(),
{
    let next = s.next(Step::WriterHears { outcome: WriterEvent::UpdateSent, pipeline });
    lemma_no_documents(s.queue);
    lemma_no_documents(s.former_queue);
    lemma_documents_held_none(s.former);
    assert forall|i: int| 0 <= i < s.workers.len() implies (#[trigger] s.workers[i]).held.len()
        == 0 by {
        assert(s.workers[i].is_resting() || s.workers[i].state is Stopped
            && s.workers[i].held.len() == 0);
    }
    lemma_documents_held_none(s.workers);
    lemma_no_documents(next.pending);
    assert(next.pending =~= next.writer.pipeline.document_sender.sent);
    assert(next.is_clear() ==> next.documents_under_way() =~= Multiset::empty());
    let registers = s.index.registers;
    match s.writer.operation {
        Operation::Closing { ending: Ending::Commit { docstamp } } => {
            assert(!s.impaired ==> s.documents_under_way() =~= documents_in(
                registers.uncommitted,
                s.contents,
            ));
            lemma_documents_in_concat(registers.committed, registers.uncommitted, s.contents);
            assert forall|i: int|
                0 <= i < next.index.registers.committed.len() implies next.contents.contains_key(
                (#[trigger] next.index.registers.committed[i]).meta.segment_id,
            ) by {
                if i < registers.committed.len() {
                    assert(next.index.registers.committed[i] == registers.committed[i]);
                } else {
                    assert(next.index.registers.committed[i] == registers.uncommitted[i
                        - registers.committed.len()]);
                }
            }
        },
        _ => {},
    }
}

/// A merge changes no document: the committed segments, and the uncommitted ones, hold
/// the same documents after it as before.
pub proof fn law_merge_keeps_documents(s: System, num_docs: usize, pipeline: PipelineView)
    requires
        s.inv(),
        s.enabled(
            Step::WriterHears { outcome: WriterEvent::MergeWritten(Ok(num_docs)), pipeline },
        ),
    ensures
        ({
            let next = s.next(
                Step::WriterHears { outcome: WriterEvent::MergeWritten(Ok(num_docs)), pipeline },
            );
            &&& next.inv_segments()
            &&& documents_in(next.index.registers.committed, next.contents) == documents_in(
                s.index.registers.committed,
                s.contents,
            )
            &&& documents_in(next.index.registers.uncommitted, next.contents) == documents_in(
                s.index.registers.uncommitted,
                s.contents,
            )
        }),
{
    let next = s.next(
        Step::WriterHears { outcome: WriterEvent::MergeWritten(Ok(num_docs)), pipeline },
    );
    match s.writer.operation {
        Operation::WritingMerged { segment_ids, segment_id } => {
            let ids = segment_ids@;
            let registers = s.index.registers;
            let documents = documents_merged(registers, ids, s.contents);
            let entry = new_entry(SegmentMeta { segment_id, num_docs });
            lemma_documents_in_insert(registers.committed, s.contents, segment_id, documents);
            lemma_documents_in_insert(registers.uncommitted, s.contents, segment_id, documents);
            let register = if contains_all(registers.uncommitted, ids) {
                registers.uncommitted
            } else {
                registers.committed
            };
            let rest = remove_all(register, ids);
            let merged = rest.push(entry);
            lemma_rest_known(register, ids, s.contents);
            lemma_documents_in_split(register, ids, s.contents);
            lemma_documents_in_insert(rest, s.contents, segment_id, documents);
            lemma_documents_in_push(rest, entry, next.contents);
            assert(documents_in(merged, next.contents) =~= documents_in(register, s.contents)) by {
                assert(next.contents[segment_id] == documents);
            }
            assert forall|i: int| 0 <= i < merged.len() implies next.contents.contains_key(
                (#[trigger] merged[i]).meta.segment_id,
            ) by {
                if i < rest.len() {
                    assert(merged[i] == rest[i]);
                }
            }
        },
        _ => {},
    }
}

proof fn lemma_merge_written(s: System, num_docs: usize, pipeline: PipelineView)
    requires
        s.inv(),
        s.enabled(
            Step::WriterHears { outcome: WriterEvent::MergeWritten(Ok(num_docs)), pipeline },
        ),
    ensures
        s.next(
            Step::WriterHears { outcome: WriterEvent::MergeWritten(Ok(num_docs)), pipeline },
        ).inv(),
{
    let next = s.next(
        Step::WriterHears { outcome: WriterEvent::MergeWritten(Ok(num_docs)), pipeline },
    );
    law_merge_keeps_documents(s, num_docs, pipeline);
    assert(next.documents_under_way() =~= s.documents_under_way());
}

proof fn lemma_worker_joined(
    s: System,
    exit: Result<Result<(), Error>, String>,
    pipeline: PipelineView,
)
    requires
        s.inv(),
        s.enabled(Step::WriterHears { outcome: WriterEvent::WorkerJoined(exit), pipeline }),
    ensures
        s.next(Step::WriterHears { outcome: WriterEvent::WorkerJoined(exit), pipeline }).inv(),
{
    let next = s.next(Step::WriterHears { outcome: WriterEvent::WorkerJoined(exit), pipeline });
    if exit matches Ok(Ok(_)) {
        let first = s.former[0];
        assert(first.inv());
        assert(exit == Ok::<Result<(), Error>, String>(Ok(()))) by {
            assert(exit->Ok_0->Ok_0 == ());
        }
        lemma_documents_held_first(s.former);
        lemma_no_documents(first.held);
        assert(documents_held(next.former) =~= documents_held(s.former));
        assert(next.documents_under_way() =~= s.documents_under_way());
        assert(forall|i: int|
            0 <= i < next.former.len() ==> #[trigger] next.former[i] == s.former[i + 1]);
    }
}

proof fn lemma_writer_hears(s: System, outcome: WriterEvent, pipeline: PipelineView)
    requires
        s.inv(),
        s.enabled(Step::WriterHears { outcome, pipeline }),
    ensures
        s.next(Step::WriterHears { outcome, pipeline }).inv(),
{
    let next = s.next(Step::WriterHears { outcome, pipeline });
    match s.writer.operation {
        Operation::Cancelling => {
            assert(forall|i: int|
                0 <= i < next.former.len() ==> #[trigger] next.former[i] == s.workers[i]);
        },
        Operation::Joining { .. } => {
            lemma_worker_joined(s, outcome->WorkerJoined_0, pipeline);
        },
        Operation::Closing { .. } => {
            lemma_generation_closed(s, pipeline);
        },
        Operation::WritingMerged { .. } => {
            if let WriterEvent::MergeWritten(Ok(num_docs)) = outcome {
                lemma_merge_written(s, num_docs, pipeline);
            }
        },
        _ => {},
    }
}

proof fn lemma_stray_reports(s: System, meta: SegmentMeta, documents: Multiset<Document>)
    requires
        s.inv(),
        s.enabled(Step::StrayReports { meta, documents }),
    ensures
        s.next(Step::StrayReports { meta, documents }).inv(),
{
    lemma_documents_in_insert(
        s.index.registers.committed,
        s.contents,
        meta.segment_id,
        documents,
    );
}

/// Whatever step is taken, what holds of the system keeps holding.
pub proof fn law_steps_keep_order(s: System, step: Step)
    requires
        s.inv(),
        s.enabled(step),
    ensures
        s.next(step).inv(),
{
    match step {
        Step::AddDocument { document } => lemma_add_document(s, document),
        Step::StartCommit { pipeline } => lemma_start_commit(s, pipeline),
        Step::StartRollback => {},
        Step::StartMerge { .. } => {},
        Step::WorkerReceives { former, worker } => lemma_worker_receives(s, former, worker),
        Step::WorkerFindsNone { worker } => lemma_worker_finds_none(s, worker),
        Step::WorkerHears { former, worker, event } => lemma_worker_hears(
            s,
            former,
            worker,
            event,
        ),
        Step::WorkerReports { former, worker } => lemma_worker_reports(s, former, worker),
        Step::WorkerPanics { former, worker, message } => lemma_worker_panics(
            s,
            former,
            worker,
            message,
        ),
        Step::UpdaterApplies => lemma_updater_applies(s),
        Step::FilesRemoved => {},
        Step::WriterTells { .. } => {},
        Step::WriterHears { outcome, pipeline } => lemma_writer_hears(s, outcome, pipeline),
        Step::Respawn => lemma_respawn(s),
        Step::StrayReports { meta, documents } => lemma_stray_reports(s, meta, documents),
        Step::StrayStops => {},
    }
}

/// A rollback that goes through makes up for earlier failures: what was lost or stuck
/// belongs to the generation that is thrown away, and the next one starts in order,
/// unless a worker is still astray or a segment of one is about to be registered. So does
/// a commit, unless segments are not accepted because a rollback was given up.
pub proof fn law_closing_makes_up_for_failures(s: System, pipeline: PipelineView)
    requires
        s.inv(),
        s.enabled(Step::WriterHears { outcome: WriterEvent::UpdateSent, pipeline }),
        s.strays == 0,
        !(s.in_hand matches Some(SegmentUpdate::AddSegment(_))),
        s.writer.operation matches Operation::Closing { ending } && (ending is Rollback
            || !s.will_be_cancelled()),
    ensures
        ({
            let next = s.next(Step::WriterHears { outcome: WriterEvent::UpdateSent, pipeline });
            &&& next.inv()
            &&& !next.impaired
        }),
{
    law_steps_keep_order(s, Step::WriterHears { outcome: WriterEvent::UpdateSent, pipeline });
}

} // verus!
