//! By what numbers the index writer describes its segments, however its threads take their
//! turns.

use crate::document::Document;
use crate::index_writer::{Ending, Operation, WriterEvent};
use crate::indexing_worker::{WorkerEvent, worker_expects};
use crate::segment::{SegmentId, SegmentMeta};
use crate::segment_manager::{SegmentEntry, contains_all, new_entry, remove_all};
use crate::segment_update::SegmentUpdate;
use crate::system::{Step, System, documents_in, documents_merged};
use crate::system_laws::{after, can_take, is_opened, law_system_stays_in_order};
use crate::updater_laws::{law_empty_merge_changes_nothing, total_docs};
use crate::worker_laws::lemma_record_inv;
use vstd::multiset::Multiset;
use vstd::prelude::*;

verus! {

broadcast use vstd::seq_lib::group_to_multiset_ensures;

/// Whether the description of a segment says how many documents are in it.
pub open spec fn is_true(
    meta: SegmentMeta,
    contents: Map<SegmentId, Multiset<Document>>,
) -> bool {
    meta.num_docs == contents[meta.segment_id].len()
}

/// Whether all descriptions in a register are true, of segments that are known.
pub open spec fn are_true(
    register: Seq<SegmentEntry>,
    contents: Map<SegmentId, Multiset<Document>>,
) -> bool {
    forall|i: int|
        0 <= i < register.len() ==> {
            &&& is_true((#[trigger] register[i]).meta, contents)
            &&& contents.contains_key(register[i].meta.segment_id)
        }
}

/// Whether all that the system says of numbers of documents is true.
pub open spec fn describes_truly(s: System) -> bool {
    &&& are_true(s.index.registers.committed, s.contents)
    &&& are_true(s.index.registers.uncommitted, s.contents)
    &&& s.in_hand matches Some(SegmentUpdate::AddSegment(meta)) ==> is_true(meta, s.contents)
    &&& forall|i: int| 0 <= i < s.workers.len() ==> (#[trigger] s.workers[i]).counts()
    &&& forall|i: int| 0 <= i < s.former.len() ==> (#[trigger] s.former[i]).counts()
}

/// Whether a step is one in which the outside world counts right: a segment writer says how
/// many documents it has been given, a merger how many it has written, and a worker that
/// nobody waits for describes its segment truly.
pub open spec fn counts_right(s: System, step: Step) -> bool {
    match step {
        Step::WorkerHears { former, worker, event } => s.crew(former)[worker].counted_by(event),
        Step::WriterHears { outcome, .. } => match (s.writer.operation, outcome) {
            (
                Operation::WritingMerged { segment_ids, .. },
                WriterEvent::MergeWritten(Ok(num_docs)),
            ) => num_docs == documents_merged(s.index.registers, segment_ids@, s.contents).len(),
            _ => true,
        },
        Step::StrayReports { meta, documents } => meta.num_docs == documents.len(),
        _ => true,
    }
}

/// Whether the outside world counts right in all of the steps.
pub open spec fn count_right(s: System, steps: Seq<Step>) -> bool
    decreases steps.len(),
{
    steps.len() > 0 ==> {
        &&& count_right(s, steps.drop_last())
        &&& counts_right(after(s, steps.drop_last()), steps.last())
    }
}

proof fn lemma_new_contents(
    register: Seq<SegmentEntry>,
    contents: Map<SegmentId, Multiset<Document>>,
    segment_id: SegmentId,
    documents: Multiset<Document>,
)
    requires
        are_true(register, contents),
        !contents.contains_key(segment_id),
    ensures
        are_true(register, contents.insert(segment_id, documents)),
{
    let more = contents.insert(segment_id, documents);
    assert forall|i: int| 0 <= i < register.len() implies {
        &&& is_true((#[trigger] register[i]).meta, more)
        &&& more.contains_key(register[i].meta.segment_id)
    } by {
        assert(contents.contains_key(register[i].meta.segment_id));
    }
}

proof fn lemma_rest_is_true(
    register: Seq<SegmentEntry>,
    contents: Map<SegmentId, Multiset<Document>>,
    ids: Seq<SegmentId>,
)
    requires
        are_true(register, contents),
    ensures
        are_true(remove_all(register, ids), contents),
{
    let rest = remove_all(register, ids);
    let keep = |entry: SegmentEntry| !ids.contains(entry.meta.segment_id);
    assert forall|i: int| 0 <= i < rest.len() implies {
        &&& is_true((#[trigger] rest[i]).meta, contents)
        &&& contents.contains_key(rest[i].meta.segment_id)
    } by {
        assert(rest.contains(rest[i]));
        register.lemma_filter_contains_rev(keep, rest[i]);
        let j = choose|j: int| 0 <= j < register.len() && register[j] == rest[i];
        assert(is_true(register[j].meta, contents));
    }
}

proof fn lemma_worker_stays_true(s: System, former: bool, worker: int, event: WorkerEvent)
    requires
        describes_truly(s),
        0 <= worker < s.crew(former).len(),
        s.crew(former)[worker].inv(),
        s.crew(former)[worker].counted_by(event),
        worker_expects(s.crew(former)[worker].state, event),
    ensures
        s.crew(former)[worker].next(event).counts(),
        describes_truly(s.with_worker(former, worker, s.crew(former)[worker].next(event))),
{
    lemma_record_inv(s.crew(former)[worker], event);
}

proof fn lemma_report_is_true(s: System, former: bool, worker: int)
    requires
        s.inv(),
        describes_truly(s),
        s.enabled(Step::WorkerReports { former, worker }),
    ensures
        describes_truly(s.next(Step::WorkerReports { former, worker })),
{
    let record = s.crew(former)[worker];
    assert(record.inv());
    assert(record.counts());
    let meta = record.outgoing->0->AddSegment_0;
    let documents = record.written.to_multiset();
    lemma_new_contents(s.index.registers.committed, s.contents, meta.segment_id, documents);
    lemma_new_contents(s.index.registers.uncommitted, s.contents, meta.segment_id, documents);
    lemma_worker_stays_true(s, former, worker, WorkerEvent::UpdateSent);
    assert(documents.len() == record.written.len());
}

proof fn lemma_update_stays_true(s: System)
    requires
        s.inv(),
        describes_truly(s),
        s.enabled(Step::UpdaterApplies),
    ensures
        describes_truly(s.next(Step::UpdaterApplies)),
{
    let next = s.next(Step::UpdaterApplies);
    match s.in_hand->0 {
        SegmentUpdate::AddSegment(meta) => {
            if !s.cancelled {
                let uncommitted = s.index.registers.uncommitted;
                assert(next.index.registers.uncommitted == uncommitted.push(new_entry(meta)));
                assert forall|i: int| 0 <= i < next.index.registers.uncommitted.len() implies {
                    &&& is_true((#[trigger] next.index.registers.uncommitted[i]).meta, s.contents)
                    &&& s.contents.contains_key(
                        next.index.registers.uncommitted[i].meta.segment_id,
                    )
                } by {
                    if i < uncommitted.len() {
                        assert(is_true(uncommitted[i].meta, s.contents));
                    }
                }
            }
        },
        SegmentUpdate::StartMerge(_) => {
            law_empty_merge_changes_nothing(s.index, s.cancelled, s.in_hand->0);
        },
        _ => {},
    }
}

proof fn lemma_hearing_stays_true(s: System, step: Step)
    requires
        s.inv(),
        describes_truly(s),
        step is WriterHears,
        s.enabled(step),
        counts_right(s, step),
    ensures
        describes_truly(s.next(step)),
{
    let next = s.next(step);
    let registers = s.index.registers;
    match s.writer.operation {
        Operation::Closing { ending: Ending::Commit { .. } } => {
            let committed = next.index.registers.committed;
            assert forall|i: int| 0 <= i < committed.len() implies {
                &&& is_true((#[trigger] committed[i]).meta, s.contents)
                &&& s.contents.contains_key(committed[i].meta.segment_id)
            } by {
                if i < registers.committed.len() {
                    assert(committed[i] == registers.committed[i]);
                } else {
                    assert(committed[i] == registers.uncommitted[i - registers.committed.len()]);
                }
            }
        },
        Operation::WritingMerged { segment_ids, segment_id } => {
            if let WriterEvent::MergeWritten(Ok(num_docs)) = step->outcome {
                let ids = segment_ids@;
                let documents = documents_merged(registers, ids, s.contents);
                let meta = SegmentMeta { segment_id, num_docs };
                lemma_new_contents(registers.committed, s.contents, segment_id, documents);
                lemma_new_contents(registers.uncommitted, s.contents, segment_id, documents);
                let register = if contains_all(registers.uncommitted, ids) {
                    registers.uncommitted
                } else {
                    registers.committed
                };
                let rest = remove_all(register, ids);
                let merged = rest.push(new_entry(meta));
                lemma_rest_is_true(register, next.contents, ids);
                assert(next.contents[segment_id] == documents);
                assert forall|i: int| 0 <= i < merged.len() implies {
                    &&& is_true((#[trigger] merged[i]).meta, next.contents)
                    &&& next.contents.contains_key(merged[i].meta.segment_id)
                } by {
                    if i < rest.len() {
                        assert(is_true(rest[i].meta, next.contents));
                    }
                }
                assert(s.in_hand matches Some(SegmentUpdate::AddSegment(meta)) ==> meta.segment_id
                    != segment_id);
            }
        },
        Operation::Joining { .. } => {
            assert(forall|i: int|
                0 <= i < next.former.len() ==> #[trigger] next.former[i] == s.former[i + 1]);
        },
        _ => {},
    }
}

proof fn lemma_step_stays_true(s: System, step: Step)
    requires
        s.inv(),
        describes_truly(s),
        s.enabled(step),
        counts_right(s, step),
    ensures
        describes_truly(s.next(step)),
{
    match step {
        Step::WorkerReceives { former, worker } => {
            let event = WorkerEvent::Received(Some(s.source(former)[0]));
            assert(s.crew(former)[worker].inv());
            lemma_worker_stays_true(s, former, worker, event);
        },
        Step::WorkerFindsNone { worker } => {
            assert(s.former[worker].inv());
            lemma_worker_stays_true(s, true, worker, WorkerEvent::Received(None));
        },
        Step::WorkerHears { former, worker, event } => {
            assert(s.crew(former)[worker].inv());
            lemma_worker_stays_true(s, former, worker, event);
        },
        Step::WorkerReports { former, worker } => lemma_report_is_true(s, former, worker),
        Step::StrayReports { meta, documents } => {
            let registers = s.index.registers;
            lemma_new_contents(registers.committed, s.contents, meta.segment_id, documents);
            lemma_new_contents(registers.uncommitted, s.contents, meta.segment_id, documents);
        },
        Step::UpdaterApplies => lemma_update_stays_true(s),
        Step::WriterHears { .. } => lemma_hearing_stays_true(s, step),
        _ => {},
    }
}

proof fn lemma_stays_true(s: System, steps: Seq<Step>)
    requires
        is_opened(s),
        describes_truly(s),
        can_take(s, steps),
        count_right(s, steps),
    ensures
        describes_truly(after(s, steps)),
    decreases steps.len(),
{
    if steps.len() > 0 {
        lemma_stays_true(s, steps.drop_last());
        law_system_stays_in_order(s, steps.drop_last());
        lemma_step_stays_true(after(s, steps.drop_last()), steps.last());
    }
}

proof fn lemma_true_register_adds_up(
    register: Seq<SegmentEntry>,
    contents: Map<SegmentId, Multiset<Document>>,
)
    requires
        are_true(register, contents),
    ensures
        total_docs(register) == documents_in(register, contents).len(),
    decreases register.len(),
{
    if register.len() > 0 {
        let rest = register.drop_last();
        assert forall|i: int| 0 <= i < rest.len() implies {
            &&& is_true((#[trigger] rest[i]).meta, contents)
            &&& contents.contains_key(rest[i].meta.segment_id)
        } by {
            assert(is_true(register[i].meta, contents));
        }
        lemma_true_register_adds_up(rest, contents);
        assert(is_true(register[register.len() - 1].meta, contents));
    }
}

/// Every segment is described by the number of documents in it, at any time, committed or
/// not, and in whatever order the threads take their steps, as long as it is so at first and
/// the segment writers and the mergers count their documents. So the numbers of documents of
/// the committed segments add up to the number of documents that have been committed.
pub proof fn law_descriptions_are_true(s: System, steps: Seq<Step>)
    requires
        is_opened(s),
        describes_truly(s),
        can_take(s, steps),
        count_right(s, steps),
    ensures
        ({
            let t = after(s, steps);
            let registers = t.index.registers;
            &&& forall|i: int|
                0 <= i < registers.committed.len() ==> (
                #[trigger] registers.committed[i]).meta.num_docs
                    == t.contents[registers.committed[i].meta.segment_id].len()
            &&& forall|i: int|
                0 <= i < registers.uncommitted.len() ==> (
                #[trigger] registers.uncommitted[i]).meta.num_docs
                    == t.contents[registers.uncommitted[i].meta.segment_id].len()
            &&& total_docs(registers.committed) == t.committed.len()
        }),
{
    lemma_stays_true(s, steps);
    law_system_stays_in_order(s, steps);
    let t = after(s, steps);
    lemma_true_register_adds_up(t.index.registers.committed, t.contents);
    assert(forall|i: int|
        0 <= i < t.index.registers.committed.len() ==> is_true(
            (#[trigger] t.index.registers.committed[i]).meta,
            t.contents,
        ));
    assert(forall|i: int|
        0 <= i < t.index.registers.uncommitted.len() ==> is_true(
            (#[trigger] t.index.registers.uncommitted[i]).meta,
            t.contents,
        ));
}

} // verus!
