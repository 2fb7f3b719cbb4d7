//! The register of the segments of an index.

use crate::segment::{SegmentId, SegmentMeta};
use vstd::prelude::*;

verus! {

/// A segment in a register.
#[derive(Debug, Clone, Copy, PartialEq, Eq, Structural)]
pub struct SegmentEntry {
    pub meta: SegmentMeta,
    /// Whether a merge of the segment has started.
    pub in_merge: bool,
}

/// The entry of a segment that has just been registered.
pub open spec fn new_entry(meta: SegmentMeta) -> SegmentEntry {
    SegmentEntry { meta, in_merge: false }
}

/// Whether a register holds a segment of the given id.
pub open spec fn contains_segment(register: Seq<SegmentEntry>, segment_id: SegmentId) -> bool {
    exists|i: int| 0 <= i < register.len() && (#[trigger] register[i]).meta.segment_id == segment_id
}

/// Whether a register holds all of the given segments.
pub open spec fn contains_all(register: Seq<SegmentEntry>, segment_ids: Seq<SegmentId>) -> bool {
    forall|i: int|
        0 <= i < segment_ids.len() ==> contains_segment(register, #[trigger] segment_ids[i])
}

/// An entry, marked as being merged if it is one of the given segments.
pub open spec fn marked_entry(entry: SegmentEntry, segment_ids: Seq<SegmentId>) -> SegmentEntry {
    if segment_ids.contains(entry.meta.segment_id) {
        SegmentEntry { in_merge: true, ..entry }
    } else {
        entry
    }
}

/// A register in which the given segments are marked as being merged.
pub open spec fn mark_in_merge(
    register: Seq<SegmentEntry>,
    segment_ids: Seq<SegmentId>,
) -> Seq<SegmentEntry> {
    register.map_values(|entry: SegmentEntry| marked_entry(entry, segment_ids))
}

/// A register without the given segments.
pub open spec fn remove_all(
    register: Seq<SegmentEntry>,
    segment_ids: Seq<SegmentId>,
) -> Seq<SegmentEntry> {
    register.filter(|entry: SegmentEntry| !segment_ids.contains(entry.meta.segment_id))
}

/// The ids of the segments of a register.
pub open spec fn segment_ids(register: Seq<SegmentEntry>) -> Seq<SegmentId> {
    register.map_values(|entry: SegmentEntry| entry.meta.segment_id)
}

/// The segments of a register that no merge has laid hands on.
pub open spec fn ready_segments(register: Seq<SegmentEntry>) -> Seq<SegmentMeta> {
    register.filter(|entry: SegmentEntry| !entry.in_merge).map_values(
        |entry: SegmentEntry| entry.meta,
    )
}

/// The segments of an index: those that the last commit published, and those
/// that have been finished since. Each register is in the order in which its
/// segments came.
#[verifier::ext_equal]
pub struct Registers {
    pub committed: Seq<SegmentEntry>,
    pub uncommitted: Seq<SegmentEntry>,
}

impl Registers {
    /// A new segment, which is not committed yet.
    pub open spec fn add_segment(self, meta: SegmentMeta) -> Registers {
        Registers { uncommitted: self.uncommitted.push(new_entry(meta)), ..self }
    }

    /// The segments are being merged. They are all uncommitted or all committed:
    /// segments of the two kinds are never merged with each other.
    pub open spec fn start_merge(self, segment_ids: Seq<SegmentId>) -> Registers {
        if contains_all(self.uncommitted, segment_ids) {
            Registers { uncommitted: mark_in_merge(self.uncommitted, segment_ids), ..self }
        } else if contains_all(self.committed, segment_ids) {
            Registers { committed: mark_in_merge(self.committed, segment_ids), ..self }
        } else {
            self
        }
    }

    /// The merged segments give way to the one they were merged into. Where they
    /// are not all in one register, nothing happens.
    pub open spec fn end_merge(self, segment_ids: Seq<SegmentId>, meta: SegmentMeta) -> Registers {
        if contains_all(self.uncommitted, segment_ids) {
            Registers {
                uncommitted: remove_all(self.uncommitted, segment_ids).push(new_entry(meta)),
                ..self
            }
        } else if contains_all(self.committed, segment_ids) {
            Registers {
                committed: remove_all(self.committed, segment_ids).push(new_entry(meta)),
                ..self
            }
        } else {
            self
        }
    }

    /// All segments are committed.
    pub open spec fn commit(self) -> Registers {
        Registers { committed: self.committed + self.uncommitted, uncommitted: Seq::empty() }
    }

    /// The uncommitted segments are forgotten.
    pub open spec fn rollback(self) -> Registers {
        Registers { committed: self.committed, uncommitted: Seq::empty() }
    }
}

/// Keeps track of the segments of an index.
#[derive(Debug)]
pub struct SegmentManager {
    committed: Vec<SegmentEntry>,
    uncommitted: Vec<SegmentEntry>,
}

impl View for SegmentManager {
    type V = Registers;

    closed spec fn view(&self) -> Registers {
        Registers { committed: self.committed@, uncommitted: self.uncommitted@ }
    }
}

fn contains_id(segment_ids: &[SegmentId], segment_id: SegmentId) -> (found: bool)
    ensures
        found == segment_ids@.contains(segment_id),
{
    for i in 0..segment_ids.len()
        invariant
            forall|j: int| 0 <= j < i ==> segment_ids@[j] != segment_id,
    {
        if segment_ids[i] == segment_id {
            return true;
        }
    }
    false
}

fn register_contains(register: &Vec<SegmentEntry>, segment_id: SegmentId) -> (found: bool)
    ensures
        found == contains_segment(register@, segment_id),
{
    for i in 0..register.len()
        invariant
            forall|j: int|
                0 <= j < i ==> (#[trigger] register@[j]).meta.segment_id != segment_id,
    {
        if register[i].meta.segment_id == segment_id {
            return true;
        }
    }
    false
}

fn register_contains_all(register: &Vec<SegmentEntry>, segment_ids: &[SegmentId]) -> (found: bool)
    ensures
        found == contains_all(register@, segment_ids@),
{
    for i in 0..segment_ids.len()
        invariant
            forall|j: int|
                0 <= j < i ==> contains_segment(register@, #[trigger] segment_ids@[j]),
    {
        if !register_contains(register, segment_ids[i]) {
            return false;
        }
    }
    true
}

fn mark_register(register: &mut Vec<SegmentEntry>, segment_ids: &[SegmentId]) -> (has_changed: bool)
    ensures
        final(register)@ == mark_in_merge(old(register)@, segment_ids@),
        has_changed == (final(register)@ != old(register)@),
{
    let ghost before = register@;
    let len: usize = register.len();
    let mut has_changed: bool = false;
    let ghost mut changed: int = 0;
    for i in 0..len
        invariant
            len == before.len(),
            register@.len() == before.len(),
            forall|j: int|
                0 <= j < i ==> #[trigger] register@[j] == marked_entry(before[j], segment_ids@),
            forall|j: int| i <= j < len ==> #[trigger] register@[j] == before[j],
            has_changed ==> 0 <= changed < i && register@[changed] != before[changed],
            !has_changed ==> forall|j: int| 0 <= j < i ==> #[trigger] register@[j] == before[j],
    {
        let entry = register[i];
        if contains_id(segment_ids, entry.meta.segment_id) {
            register.set(i, SegmentEntry { meta: entry.meta, in_merge: true });
            if !entry.in_merge {
                has_changed = true;
                proof {
                    changed = i as int;
                }
            }
        }
    }
    assert(register@ =~= mark_in_merge(before, segment_ids@));
    assert(!has_changed ==> register@ =~= before);
    has_changed
}

fn register_without(register: &Vec<SegmentEntry>, segment_ids: &[SegmentId]) -> (rest: Vec<
    SegmentEntry,
>)
    ensures
        rest@ == remove_all(register@, segment_ids@),
{
    let ghost keep = |entry: SegmentEntry| !segment_ids@.contains(entry.meta.segment_id);
    let mut rest: Vec<SegmentEntry> = Vec::new();
    proof {
        reveal(Seq::filter);
    }
    for i in 0..register.len()
        invariant
            keep == (|entry: SegmentEntry| !segment_ids@.contains(entry.meta.segment_id)),
            rest@ == register@.take(i as int).filter(keep),
    {
        let entry = register[i];
        proof {
            reveal(Seq::filter);
            assert(register@.take(i + 1).drop_last() =~= register@.take(i as int));
            assert(register@.take(i + 1).last() == entry);
        }
        if !contains_id(segment_ids, entry.meta.segment_id) {
            rest.push(entry);
        }
    }
    assert(register@.take(register@.len() as int) =~= register@);
    rest
}

fn register_ready(register: &Vec<SegmentEntry>) -> (metas: Vec<SegmentMeta>)
    ensures
        metas@ == ready_segments(register@),
{
    let ghost ready = |entry: SegmentEntry| !entry.in_merge;
    let ghost meta_of = |entry: SegmentEntry| entry.meta;
    let mut metas: Vec<SegmentMeta> = Vec::new();
    proof {
        reveal(Seq::filter);
        assert(register@.take(0).filter(ready).map_values(meta_of) =~= Seq::empty());
    }
    for i in 0..register.len()
        invariant
            ready == (|entry: SegmentEntry| !entry.in_merge),
            meta_of == (|entry: SegmentEntry| entry.meta),
            metas@ == register@.take(i as int).filter(ready).map_values(meta_of),
    {
        let entry = register[i];
        let ghost before = register@.take(i as int).filter(ready);
        proof {
            reveal(Seq::filter);
            assert(register@.take(i + 1).drop_last() =~= register@.take(i as int));
            assert(register@.take(i + 1).last() == entry);
        }
        if !entry.in_merge {
            metas.push(entry.meta);
            assert(before.push(entry).map_values(meta_of) =~= before.map_values(meta_of).push(
                entry.meta,
            ));
        }
    }
    assert(register@.take(register@.len() as int) =~= register@);
    metas
}

fn register_metas(register: &Vec<SegmentEntry>) -> (metas: Vec<SegmentMeta>)
    ensures
        metas@ == register@.map_values(|entry: SegmentEntry| entry.meta),
{
    let mut metas: Vec<SegmentMeta> = Vec::new();
    for i in 0..register.len()
        invariant
            metas@ == register@.take(i as int).map_values(|entry: SegmentEntry| entry.meta),
    {
        metas.push(register[i].meta);
        assert(metas@ =~= register@.take(i + 1).map_values(|entry: SegmentEntry| entry.meta));
    }
    assert(register@.take(register@.len() as int) =~= register@);
    metas
}

/// The segments on which a merge may be considered: the committed ones and the
/// uncommitted ones, without those that are being merged already.
pub fn get_segment_ready_for_commit(segment_manager: &SegmentManager) -> (ready: (
    Vec<SegmentMeta>,
    Vec<SegmentMeta>,
))
    ensures
        ready.0@ == ready_segments(segment_manager@.committed),
        ready.1@ == ready_segments(segment_manager@.uncommitted),
{
    (register_ready(&segment_manager.committed), register_ready(&segment_manager.uncommitted))
}

impl SegmentManager {
    /// The register of an index that was opened with the given committed
    /// segments.
    pub fn from_segments(segment_metas: &[SegmentMeta]) -> (segment_manager: SegmentManager)
        ensures
            segment_manager@ == (Registers {
                committed: segment_metas@.map_values(|meta: SegmentMeta| new_entry(meta)),
                uncommitted: Seq::empty(),
            }),
    {
        let mut committed: Vec<SegmentEntry> = Vec::new();
        for i in 0..segment_metas.len()
            invariant
                committed@ == segment_metas@.take(i as int).map_values(
                    |meta: SegmentMeta| new_entry(meta),
                ),
        {
            committed.push(SegmentEntry { meta: segment_metas[i], in_merge: false });
            assert(committed@ =~= segment_metas@.take(i + 1).map_values(
                |meta: SegmentMeta| new_entry(meta),
            ));
        }
        assert(segment_metas@.take(segment_metas@.len() as int) =~= segment_metas@);
        let segment_manager = SegmentManager { committed, uncommitted: Vec::new() };
        assert(segment_manager@.uncommitted =~= Seq::empty());
        segment_manager
    }

    /// The committed segments.
    pub fn committed_segments(&self) -> (metas: Vec<SegmentMeta>)
        ensures
            metas@ == self@.committed.map_values(|entry: SegmentEntry| entry.meta),
    {
        register_metas(&self.committed)
    }

    /// The segments that have been finished since the last commit.
    pub fn uncommitted_segments(&self) -> (metas: Vec<SegmentMeta>)
        ensures
            metas@ == self@.uncommitted.map_values(|entry: SegmentEntry| entry.meta),
    {
        register_metas(&self.uncommitted)
    }

    /// Registers a new segment, as uncommitted.
    pub fn add_segment(&mut self, segment_meta: SegmentMeta)
        ensures
            final(self)@ == old(self)@.add_segment(segment_meta),
    {
        self.uncommitted.push(SegmentEntry { meta: segment_meta, in_merge: false });
    }

    /// Marks segments as being merged. Returns whether that changed anything.
    pub fn start_merge(&mut self, segment_ids: &[SegmentId]) -> (has_changed: bool)
        ensures
            final(self)@ == old(self)@.start_merge(segment_ids@),
            has_changed == (final(self)@ != old(self)@),
    {
        if register_contains_all(&self.uncommitted, segment_ids) {
            mark_register(&mut self.uncommitted, segment_ids)
        } else if register_contains_all(&self.committed, segment_ids) {
            mark_register(&mut self.committed, segment_ids)
        } else {
            false
        }
    }

    /// Replaces merged segments by the segment they were merged into.
    pub fn end_merge(&mut self, segment_ids: &[SegmentId], segment_meta: &SegmentMeta)
        ensures
            final(self)@ == old(self)@.end_merge(segment_ids@, *segment_meta),
    {
        let entry = SegmentEntry { meta: *segment_meta, in_merge: false };
        if register_contains_all(&self.uncommitted, segment_ids) {
            self.uncommitted = register_without(&self.uncommitted, segment_ids);
            self.uncommitted.push(entry);
        } else if register_contains_all(&self.committed, segment_ids) {
            self.committed = register_without(&self.committed, segment_ids);
            self.committed.push(entry);
        }
    }

    /// Moves the uncommitted segments over to the committed ones.
    pub fn commit(&mut self)
        ensures
            final(self)@ == old(self)@.commit(),
    {
        self.committed.append(&mut self.uncommitted);
        assert(self.uncommitted@ =~= Seq::empty());
    }

    /// Forgets the uncommitted segments, and returns their ids.
    pub fn rollback(&mut self) -> (rollbacked: Vec<SegmentId>)
        ensures
            final(self)@ == old(self)@.rollback(),
            rollbacked@ == segment_ids(old(self)@.uncommitted),
    {
        let mut rollbacked: Vec<SegmentId> = Vec::new();
        for i in 0..self.uncommitted.len()
            invariant
                self@ == old(self)@,
                rollbacked@ == segment_ids(self.uncommitted@.take(i as int)),
        {
            rollbacked.push(self.uncommitted[i].meta.segment_id);
            assert(rollbacked@ =~= segment_ids(self.uncommitted@.take(i + 1)));
        }
        assert(self.uncommitted@.take(self.uncommitted@.len() as int) =~= self.uncommitted@);
        self.uncommitted.clear();
        assert(self.uncommitted@ =~= Seq::empty());
        rollbacked
    }
}

} // verus!
