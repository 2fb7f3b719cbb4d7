//! The segment updater: the one place where segment updates are applied.
//!
//! The updates come through a channel to a single thread, so that they happen one
//! after the other. The channel has no buffer: a thread that has handed over an
//! update knows that all earlier ones have been dealt with.

use crate::channel::{ReceiverView, receive_update, update_receiver};
use crate::error::Error;
use crate::index::{Index, IndexView, get_segment_manager};
use crate::segment::{MergeCandidate, SegmentMeta};
use crate::segment_manager::{get_segment_ready_for_commit, ready_segments};
use crate::segment_update::SegmentUpdate;
use vstd::prelude::*;

verus! {

/// The index after one segment update. `cancelled` says whether the current
/// generation is being rolled back.
pub open spec fn apply_update(
    index: IndexView,
    cancelled: bool,
    update: SegmentUpdate,
) -> IndexView {
    match update {
        SegmentUpdate::AddSegment(segment_meta) => if cancelled {
            index.delete_segment(segment_meta.segment_id)
        } else {
            IndexView { registers: index.registers.add_segment(segment_meta), ..index }
        },
        SegmentUpdate::StartMerge(segment_ids) => if cancelled {
            index
        } else {
            IndexView { registers: index.registers.start_merge(segment_ids@), ..index }
        },
        SegmentUpdate::EndMerge(segment_ids, segment_meta) => IndexView {
            registers: index.registers.end_merge(segment_ids@, segment_meta),
            ..index.delete_segments(segment_ids@)
        },
        SegmentUpdate::CancelGeneration => index,
        SegmentUpdate::NewGeneration => index,
    }
}

/// Whether the current generation is being rolled back, after one update.
pub open spec fn apply_generation(cancelled: bool, update: SegmentUpdate) -> bool {
    match update {
        SegmentUpdate::CancelGeneration => true,
        SegmentUpdate::NewGeneration => false,
        _ => cancelled,
    }
}

/// Whether an update changes the segments of an index, so that they have to be saved
/// and searched anew. The end of a merge always does: the files of the merged segments
/// go away, whatever the registers say.
pub open spec fn changes_segments(
    index: IndexView,
    cancelled: bool,
    update: SegmentUpdate,
) -> bool {
    match update {
        SegmentUpdate::AddSegment(_) => !cancelled,
        SegmentUpdate::StartMerge(segment_ids) => !cancelled && index.registers.start_merge(
            segment_ids@,
        ) != index.registers,
        SegmentUpdate::EndMerge(_, _) => true,
        SegmentUpdate::CancelGeneration => false,
        SegmentUpdate::NewGeneration => false,
    }
}

/// Processes a single segment update. Returns whether the segments have changed
/// as a result.
pub fn process_segment_update(
    index: &mut Index,
    segment_update: SegmentUpdate,
    is_cancelled_generation: &mut bool,
) -> (has_changed: Result<bool, Error>)
    ensures
        has_changed == Ok::<bool, Error>(
            changes_segments(old(index)@, *old(is_cancelled_generation), segment_update),
        ),
        final(index)@ == apply_update(old(index)@, *old(is_cancelled_generation), segment_update),
        *final(is_cancelled_generation) == apply_generation(
            *old(is_cancelled_generation),
            segment_update,
        ),
{
    match segment_update {
        SegmentUpdate::AddSegment(segment_meta) => {
            if !*is_cancelled_generation {
                index.add_segment(segment_meta);
                Ok(true)
            } else {
                index.delete_segment(segment_meta.segment_id);
                Ok(false)
            }
        },
        SegmentUpdate::StartMerge(segment_ids) => {
            if !*is_cancelled_generation {
                Ok(index.start_merge(segment_ids.as_slice()))
            } else {
                Ok(false)
            }
        },
        SegmentUpdate::EndMerge(segment_ids, segment_meta) => {
            index.end_merge(segment_ids.as_slice(), &segment_meta);
            let ghost merged = index@;
            for i in 0..segment_ids.len()
                invariant
                    index@ == merged.delete_segments(segment_ids@.take(i as int)),
            {
                index.delete_segment(segment_ids[i]);
                assert(index@ =~= merged.delete_segments(segment_ids@.take(i + 1)));
            }
            assert(segment_ids@.take(segment_ids@.len() as int) =~= segment_ids@);
            Ok(true)
        },
        SegmentUpdate::CancelGeneration => {
            *is_cancelled_generation = true;
            Ok(false)
        },
        SegmentUpdate::NewGeneration => {
            *is_cancelled_generation = false;
            Ok(false)
        },
    }
}

/// Gathers what a merge policy proposes for the committed segments and for the
/// uncommitted ones. The policy is asked about the two apart: committed segments
/// cannot be merged with uncommitted ones.
pub fn consider_merge_options(
    committed_candidates: Vec<MergeCandidate>,
    uncommitted_candidates: Vec<MergeCandidate>,
) -> (merge_candidates: Vec<MergeCandidate>)
    ensures
        merge_candidates@ == committed_candidates@ + uncommitted_candidates@,
{
    let mut merge_candidates = committed_candidates;
    let mut uncommitted_candidates = uncommitted_candidates;
    merge_candidates.append(&mut uncommitted_candidates);
    merge_candidates
}

/// Where the segment updater stands.
#[derive(Debug, Clone, Copy, PartialEq, Eq, Structural)]
pub enum UpdaterPhase {
    /// At its channel.
    Receiving,
    /// The segments have changed: the meta file is being saved.
    Saving,
    /// The searchers are being updated, so that they eventually use the new
    /// segments.
    Loading,
    /// The merge policy is being asked.
    Considering,
    /// The channel was dropped.
    Stopped,
}

/// What the segment updater is told.
#[derive(Debug)]
pub enum UpdaterEvent {
    Received(Option<SegmentUpdate>),
    MetasSaved(Result<(), Error>),
    SearchersLoaded(Result<(), Error>),
    CandidatesComputed { committed: Vec<MergeCandidate>, uncommitted: Vec<MergeCandidate> },
}

/// What the segment updater asks for.
#[derive(Debug)]
pub enum UpdaterAction {
    /// Wait for the next segment update.
    Receive,
    /// Save the meta file of the index.
    SaveMetas,
    /// Update the searchers of the index.
    LoadSearchers,
    /// Ask the merge policy about the committed and about the uncommitted
    /// segments.
    ComputeMergeCandidates { committed: Vec<SegmentMeta>, uncommitted: Vec<SegmentMeta> },
    /// These segments could be merged. Then wait for the next segment update.
    MergeOptions(Vec<MergeCandidate>),
    /// The updater is done.
    Exit(Result<(), Error>),
}

/// Whether an event is one that the updater waits for.
pub open spec fn updater_expects(phase: UpdaterPhase, event: UpdaterEvent) -> bool {
    match phase {
        UpdaterPhase::Receiving => event is Received,
        UpdaterPhase::Saving => event is MetasSaved,
        UpdaterPhase::Loading => event is SearchersLoaded,
        UpdaterPhase::Considering => event is CandidatesComputed,
        UpdaterPhase::Stopped => false,
    }
}

/// Where an event takes the updater, `index` being the index before the event. A
/// failure to save the meta file or to update the searchers ends what follows a change,
/// but not the updater.
pub open spec fn updater_next(
    index: IndexView,
    cancelled: bool,
    event: UpdaterEvent,
) -> UpdaterPhase {
    match event {
        UpdaterEvent::Received(None) => UpdaterPhase::Stopped,
        UpdaterEvent::Received(Some(update)) => if changes_segments(index, cancelled, update) {
            UpdaterPhase::Saving
        } else {
            UpdaterPhase::Receiving
        },
        UpdaterEvent::MetasSaved(Ok(_)) => UpdaterPhase::Loading,
        UpdaterEvent::SearchersLoaded(Ok(_)) => UpdaterPhase::Considering,
        UpdaterEvent::MetasSaved(Err(_)) => UpdaterPhase::Receiving,
        UpdaterEvent::SearchersLoaded(Err(_)) => UpdaterPhase::Receiving,
        UpdaterEvent::CandidatesComputed { .. } => UpdaterPhase::Receiving,
    }
}

/// Whether an action is the one that an event calls for, `index` being the index
/// before the event.
pub open spec fn updater_asks(
    index: IndexView,
    cancelled: bool,
    event: UpdaterEvent,
    action: UpdaterAction,
) -> bool {
    match event {
        UpdaterEvent::Received(None) => action == UpdaterAction::Exit(Ok(())),
        UpdaterEvent::Received(Some(update)) => if changes_segments(index, cancelled, update) {
            action is SaveMetas
        } else {
            action is Receive
        },
        UpdaterEvent::MetasSaved(Ok(_)) => action is LoadSearchers,
        UpdaterEvent::SearchersLoaded(Ok(_)) => {
            &&& action matches UpdaterAction::ComputeMergeCandidates { committed, uncommitted }
            &&& committed@ == ready_segments(index.registers.committed)
            &&& uncommitted@ == ready_segments(index.registers.uncommitted)
        },
        UpdaterEvent::MetasSaved(Err(_)) => action is Receive,
        UpdaterEvent::SearchersLoaded(Err(_)) => action is Receive,
        UpdaterEvent::CandidatesComputed { committed, uncommitted } => {
            &&& action matches UpdaterAction::MergeOptions(merge_candidates)
            &&& merge_candidates@ == committed@ + uncommitted@
        },
    }
}

/// What is known of a segment updater.
pub struct UpdaterView {
    pub segment_update_receiver: ReceiverView<SegmentUpdate>,
    pub is_cancelled_generation: bool,
    pub phase: UpdaterPhase,
}

/// Consumes the channel of segment updates and applies them to the index.
#[derive(Debug)]
pub struct SegmentUpdater {
    segment_update_receiver: chan::Receiver<SegmentUpdate>,
    is_cancelled_generation: bool,
    phase: UpdaterPhase,
}

impl View for SegmentUpdater {
    type V = UpdaterView;

    closed spec fn view(&self) -> UpdaterView {
        UpdaterView {
            segment_update_receiver: update_receiver(self.segment_update_receiver),
            is_cancelled_generation: self.is_cancelled_generation,
            phase: self.phase,
        }
    }
}

impl SegmentUpdater {
    /// An updater at the start of its channel.
    pub fn new(segment_update_receiver: chan::Receiver<SegmentUpdate>) -> (updater: SegmentUpdater)
        ensures
            updater@ == (UpdaterView {
                segment_update_receiver: update_receiver(segment_update_receiver),
                is_cancelled_generation: false,
                phase: UpdaterPhase::Receiving,
            }),
    {
        SegmentUpdater {
            segment_update_receiver,
            is_cancelled_generation: false,
            phase: UpdaterPhase::Receiving,
        }
    }

    /// Waits for the next segment update. There is none when the channel was
    /// dropped, and from then on there is never one again.
    pub fn receive(&mut self) -> (event: UpdaterEvent)
        ensures
            event matches UpdaterEvent::Received(update) && final(self)@ == (UpdaterView {
                segment_update_receiver: ReceiverView {
                    received: match update {
                        Some(update) => old(self)@.segment_update_receiver.received.push(update),
                        None => old(self)@.segment_update_receiver.received,
                    },
                    exhausted: update is None,
                    ..old(self)@.segment_update_receiver
                },
                ..old(self)@
            }),
            old(self)@.segment_update_receiver.exhausted ==> event == UpdaterEvent::Received(None),
    {
        UpdaterEvent::Received(receive_update(&mut self.segment_update_receiver))
    }

    /// Goes on after an event: applies an update to the index, and decides what
    /// has to be done next.
    pub fn process_segment_updates(&mut self, index: &mut Index, event: UpdaterEvent) -> (action:
        UpdaterAction)
        requires
            updater_expects(old(self)@.phase, event),
        ensures
            final(self)@ == (UpdaterView {
                is_cancelled_generation: match event {
                    UpdaterEvent::Received(Some(update)) => apply_generation(
                        old(self)@.is_cancelled_generation,
                        update,
                    ),
                    _ => old(self)@.is_cancelled_generation,
                },
                phase: updater_next(old(index)@, old(self)@.is_cancelled_generation, event),
                ..old(self)@
            }),
            final(index)@ == match event {
                UpdaterEvent::Received(Some(update)) => apply_update(
                    old(index)@,
                    old(self)@.is_cancelled_generation,
                    update,
                ),
                _ => old(index)@,
            },
            updater_asks(old(index)@, old(self)@.is_cancelled_generation, event, action),
    {
        match event {
            UpdaterEvent::Received(Some(segment_update)) => {
                let has_changed = process_segment_update(
                    index,
                    segment_update,
                    &mut self.is_cancelled_generation,
                );
                match has_changed {
                    Ok(true) => {
                        self.phase = UpdaterPhase::Saving;
                        UpdaterAction::SaveMetas
                    },
                    Ok(false) => {
                        self.phase = UpdaterPhase::Receiving;
                        UpdaterAction::Receive
                    },
                    Err(error) => {
                        self.phase = UpdaterPhase::Stopped;
                        UpdaterAction::Exit(Err(error))
                    },
                }
            },
            UpdaterEvent::Received(None) => {
                self.phase = UpdaterPhase::Stopped;
                UpdaterAction::Exit(Ok(()))
            },
            event => self.on_segment_change(index, event),
        }
    }

    /// What follows a change of the segments: the meta file is saved, then the
    /// searchers are updated, then merges are considered.
    fn on_segment_change(&mut self, index: &Index, event: UpdaterEvent) -> (action: UpdaterAction)
        requires
            updater_expects(old(self)@.phase, event),
            !(event is Received),
        ensures
            final(self)@ == (UpdaterView {
                phase: updater_next(index@, old(self)@.is_cancelled_generation, event),
                ..old(self)@
            }),
            updater_asks(index@, old(self)@.is_cancelled_generation, event, action),
    {
        match event {
            UpdaterEvent::MetasSaved(Ok(_)) => {
                self.phase = UpdaterPhase::Loading;
                UpdaterAction::LoadSearchers
            },
            UpdaterEvent::SearchersLoaded(Ok(_)) => {
                let (committed, uncommitted) = get_segment_ready_for_commit(
                    get_segment_manager(index),
                );
                self.phase = UpdaterPhase::Considering;
                UpdaterAction::ComputeMergeCandidates { committed, uncommitted }
            },
            UpdaterEvent::CandidatesComputed { committed, uncommitted } => {
                self.phase = UpdaterPhase::Receiving;
                UpdaterAction::MergeOptions(consider_merge_options(committed, uncommitted))
            },
            _ => {
                self.phase = UpdaterPhase::Receiving;
                UpdaterAction::Receive
            },
        }
    }
}

} // verus!
