//! The way out: the next pending message, framed for the wire.

use vstd::prelude::*;
use crate::channel::{ChannelView, Dequeue, DequeueView, RelayChannel};
use crate::frame::{encode, spec_encode, CodecError, Frame, Profile};

verus! {

/// How long a loop that found nothing to do lets pass before it looks
/// again, in milliseconds.
pub const IDLE_INTERVAL_MS: u64 = 100;

/// What the consumer of a channel is to do next.
#[derive(Debug, PartialEq, Eq)]
pub enum Outbound {
    /// Write this frame.
    Frame(Frame),
    /// A message was pending that no frame can hold. It is dropped.
    Skip(CodecError),
    /// Nothing is pending: let one idle interval pass, then look again.
    Idle,
    /// Nothing is pending and the channel is closed: stop.
    Stop,
}

/// An `Outbound`, with the frame as a sequence of bytes.
pub enum OutboundView {
    Frame(Seq<u8>),
    Skip(CodecError),
    Idle,
    Stop,
}

impl View for Outbound {
    type V = OutboundView;

    open spec fn view(&self) -> OutboundView {
        match self {
            Outbound::Frame(frame) => OutboundView::Frame(frame@),
            Outbound::Skip(error) => OutboundView::Skip(*error),
            Outbound::Idle => OutboundView::Idle,
            Outbound::Stop => OutboundView::Stop,
        }
    }
}

/// What the consumer of a channel in state `channel` is to do next under
/// `profile`.
pub open spec fn spec_next_outbound(profile: Profile, channel: ChannelView) -> OutboundView {
    match channel.dequeue_result() {
        DequeueView::Message(text) => match spec_encode(profile, text) {
            Ok(frame) => OutboundView::Frame(frame),
            Err(error) => OutboundView::Skip(error),
        },
        DequeueView::Empty => OutboundView::Idle,
        DequeueView::Closed => OutboundView::Stop,
    }
}

/// Takes the oldest pending message out of `channel` and frames it.
///
/// A message that is too long for a frame is taken out all the same, and
/// dropped: it holds up nothing behind it.
pub fn next_outbound(profile: Profile, channel: &mut RelayChannel) -> (next: Outbound)
    ensures
        final(channel)@ == old(channel)@.dequeue(),
        next@ == spec_next_outbound(profile, old(channel)@),
        next matches Outbound::Frame(frame) ==> frame.profile() == profile,
{
    match channel.try_dequeue() {
        Dequeue::Message(text) => match encode(profile, text.as_str()) {
            Ok(frame) => Outbound::Frame(frame),
            Err(error) => Outbound::Skip(error),
        },
        Dequeue::Empty => Outbound::Idle,
        Dequeue::Closed => Outbound::Stop,
    }
}

} // verus!
