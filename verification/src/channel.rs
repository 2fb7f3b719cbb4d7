//! The two channels between the index writer, its indexing workers and the
//! segment updater: one carries documents, the other carries segment updates.
//!
//! The channels come from the `chan` crate. What a handle has sent or received
//! is recorded in its view, and every call into `chan` is made here.

use crate::document::Document;
use crate::segment_update::SegmentUpdate;
use vstd::prelude::*;

verus! {

/// The sending half of a channel of the `chan` crate.
#[verifier::external_type_specification]
#[verifier::external_body]
#[verifier::reject_recursive_types(T)]
pub struct ExSender<T>(chan::Sender<T>);

/// The receiving half of a channel of the `chan` crate.
#[verifier::external_type_specification]
#[verifier::external_body]
#[verifier::reject_recursive_types(T)]
pub struct ExReceiver<T>(chan::Receiver<T>);

/// Adding a document blocks while this many documents wait in the pipeline to be
/// indexed. No channel is made with a larger buffer.
pub const PIPELINE_MAX_SIZE_IN_DOCS: usize = 10_000;

/// What is known of a sending handle.
pub struct SenderView<T> {
    /// Which channel the handle belongs to.
    pub channel: int,
    /// How many values the channel holds before a send blocks.
    pub capacity: nat,
    /// Whether the handle was made along with its channel, and not cloned.
    pub original: bool,
    /// What has been sent through this handle, in order.
    pub sent: Seq<T>,
}

/// What is known of a receiving handle.
pub struct ReceiverView<T> {
    /// Which channel the handle belongs to.
    pub channel: int,
    /// How many values the channel holds before a send blocks.
    pub capacity: nat,
    /// Whether the handle was made along with its channel, and not cloned.
    pub original: bool,
    /// What has been received through this handle, in order.
    pub received: Seq<T>,
    /// Whether the channel is known to be closed and empty, because a receive has
    /// found nothing: one through this handle or, before this one was cloned, one
    /// through the handle it was cloned from. Nothing is received any more.
    pub exhausted: bool,
}

/// What is known of a handle that sends documents.
pub uninterp spec fn document_sender(sender: chan::Sender<Document>) -> SenderView<Document>;

/// What is known of a handle that receives documents.
pub uninterp spec fn document_receiver(
    receiver: chan::Receiver<Document>,
) -> ReceiverView<Document>;

/// Makes a channel for documents, by `chan::sync`: one sending and one receiving
/// handle of a channel of their own, that holds `size` documents before a send
/// blocks. Nothing has been sent or received yet. The call allocates room for
/// `size` documents at once, hence the bound.
#[verifier::external_body]
pub(crate) fn document_channel(size: usize) -> (ends: (
    chan::Sender<Document>,
    chan::Receiver<Document>,
))
    requires
        size <= PIPELINE_MAX_SIZE_IN_DOCS,
    ensures
        document_sender(ends.0) == (SenderView {
            channel: document_sender(ends.0).channel,
            capacity: size as nat,
            original: true,
            sent: Seq::<Document>::empty(),
        }),
        document_receiver(ends.1) == (ReceiverView {
            channel: document_sender(ends.0).channel,
            capacity: size as nat,
            original: true,
            received: Seq::<Document>::empty(),
            exhausted: false,
        }),
{
    chan::sync(size)
}

/// Sends a document, by `chan::Sender::send`. The call returns once the channel has
/// taken the value: with a buffer, once there was room for it; without one, once
/// a receiver has it. Which receiver gets it, and when, and so whether the call
/// returns at all, is up to the threads that receive.
#[verifier::external_body]
pub(crate) fn send_document(sender: &mut chan::Sender<Document>, value: Document)
    ensures
        document_sender(*final(sender)) == (SenderView {
            sent: document_sender(*old(sender)).sent.push(value),
            ..document_sender(*old(sender))
        }),
{
    sender.send(value)
}

/// Receives a document, by `chan::Receiver::recv`, and waits for one if need be.
/// There is none exactly when the channel is closed and empty, and it stays so: every
/// later receive finds none either. What arrives until then is up to the threads that
/// send, and so is whether the call returns at all.
#[verifier::external_body]
pub(crate) fn receive_document(receiver: &mut chan::Receiver<Document>) -> (value: Option<
    Document,
>)
    ensures
        document_receiver(*final(receiver)) == (ReceiverView {
            received: match value {
                Some(value) => document_receiver(*old(receiver)).received.push(value),
                None => document_receiver(*old(receiver)).received,
            },
            exhausted: value is None,
            ..document_receiver(*old(receiver))
        }),
        document_receiver(*old(receiver)).exhausted ==> value is None,
{
    receiver.recv()
}

/// What is known of a handle that sends segment updates.
pub uninterp spec fn update_sender(
    sender: chan::Sender<SegmentUpdate>,
) -> SenderView<SegmentUpdate>;

/// What is known of a handle that receives segment updates.
pub uninterp spec fn update_receiver(
    receiver: chan::Receiver<SegmentUpdate>,
) -> ReceiverView<SegmentUpdate>;

/// Makes a channel for segment updates, by `chan::sync`: one sending and one
/// receiving handle of a channel of their own, that holds `size` segment updates
/// before a send blocks. Nothing has been sent or received yet. The call allocates
/// room for `size` segment updates at once, hence the bound.
#[verifier::external_body]
pub(crate) fn update_channel(size: usize) -> (ends: (
    chan::Sender<SegmentUpdate>,
    chan::Receiver<SegmentUpdate>,
))
    requires
        size <= PIPELINE_MAX_SIZE_IN_DOCS,
    ensures
        update_sender(ends.0) == (SenderView {
            channel: update_sender(ends.0).channel,
            capacity: size as nat,
            original: true,
            sent: Seq::<SegmentUpdate>::empty(),
        }),
        update_receiver(ends.1) == (ReceiverView {
            channel: update_sender(ends.0).channel,
            capacity: size as nat,
            original: true,
            received: Seq::<SegmentUpdate>::empty(),
            exhausted: false,
        }),
{
    chan::sync(size)
}

/// Sends a segment update, by `chan::Sender::send`. The call returns once the
/// channel has taken the value: with a buffer, once there was room for it; without
/// one, once a receiver has it. Which receiver gets it, and when, and so whether the call
/// returns at all, is up to the threads that receive.
#[verifier::external_body]
pub(crate) fn send_update(sender: &mut chan::Sender<SegmentUpdate>, value: SegmentUpdate)
    ensures
        update_sender(*final(sender)) == (SenderView {
            sent: update_sender(*old(sender)).sent.push(value),
            ..update_sender(*old(sender))
        }),
{
    sender.send(value)
}

/// Receives a segment update, by `chan::Receiver::recv`, and waits for one if need be.
/// There is none exactly when the channel is closed and empty, and it stays so: every
/// later receive finds none either. What arrives until then is up to the threads that
/// send, and so is whether the call returns at all.
#[verifier::external_body]
pub(crate) fn receive_update(receiver: &mut chan::Receiver<SegmentUpdate>) -> (value: Option<
    SegmentUpdate,
>)
    ensures
        update_receiver(*final(receiver)) == (ReceiverView {
            received: match value {
                Some(value) => update_receiver(*old(receiver)).received.push(value),
                None => update_receiver(*old(receiver)).received,
            },
            exhausted: value is None,
            ..update_receiver(*old(receiver))
        }),
        update_receiver(*old(receiver)).exhausted ==> value is None,
{
    receiver.recv()
}

/// Makes another receiving handle of the same channel, by `clone` on
/// `chan::Receiver`. Nothing has been received through it yet. If the channel is
/// closed and empty, it is so for the new handle too.
#[verifier::external_body]
pub(crate) fn clone_document_receiver(receiver: &chan::Receiver<Document>) -> (clone: chan::Receiver<
    Document,
>)
    ensures
        document_receiver(clone) == (ReceiverView {
            original: false,
            received: Seq::<Document>::empty(),
            ..document_receiver(*receiver)
        }),
{
    receiver.clone()
}

/// Makes another sending handle of the same channel, by `clone` on
/// `chan::Sender`. Nothing has been sent through it yet.
#[verifier::external_body]
pub(crate) fn clone_update_sender(sender: &chan::Sender<SegmentUpdate>) -> (clone: chan::Sender<
    SegmentUpdate,
>)
    ensures
        update_sender(clone) == (SenderView {
            original: false,
            sent: Seq::<SegmentUpdate>::empty(),
            ..update_sender(*sender)
        }),
{
    sender.clone()
}

} // verus!
