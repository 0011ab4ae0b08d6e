//! The reader task: what one connection's reader does with each read.
//!
//! The caller owns the socket. It reads, reports the outcome, carries out
//! the action it is handed back, and reads again while the reader is active.
//!
//! A frame that is not UTF-8 costs that one message and nothing else: the
//! reader discards it, stays active and reads on.

use vstd::prelude::*;
use crate::channel::{ChannelView, RelayChannel};
use crate::frame::{decode, spec_decode, CodecError, Frame};
use crate::message::{labelled, spec_labelled};

verus! {

/// What one attempt to read a frame from a connection came to.
#[derive(Debug, PartialEq, Eq)]
pub enum ReadOutcome {
    /// A whole frame has arrived.
    Frame(Frame),
    /// Not enough bytes are there yet. This is no failure.
    WouldBlock,
    /// The connection has failed or was closed by the peer.
    Closed,
}

/// A `ReadOutcome`, with the frame as a sequence of bytes.
pub enum ReadEvent {
    Frame(Seq<u8>),
    WouldBlock,
    Closed,
}

impl View for ReadOutcome {
    type V = ReadEvent;

    open spec fn view(&self) -> ReadEvent {
        match self {
            ReadOutcome::Frame(frame) => ReadEvent::Frame(frame@),
            ReadOutcome::WouldBlock => ReadEvent::WouldBlock,
            ReadOutcome::Closed => ReadEvent::Closed,
        }
    }
}

/// Whether a reader still reads.
#[derive(Clone, Copy, Debug, PartialEq, Eq, Structural)]
pub enum ReaderState {
    /// The reader goes on reading.
    Active,
    /// The reader has stopped for good.
    Terminated,
}

/// What the caller is to do after a read.
#[derive(Debug, PartialEq, Eq)]
pub enum ReaderAction {
    /// A message has arrived: pass it on, then read again.
    Forward(String),
    /// Nothing has arrived: let one idle interval pass, then read again.
    Retry,
    /// A frame has arrived that holds no text: drop it, then read again.
    Discard(CodecError),
    /// The connection is gone, or nobody takes messages any more: report it
    /// and stop reading.
    Halt,
}

/// A `ReaderAction`, with the message as a sequence of characters.
pub enum ActionView {
    Forward(Seq<char>),
    Retry,
    Discard(CodecError),
    Halt,
}

impl View for ReaderAction {
    type V = ActionView;

    open spec fn view(&self) -> ActionView {
        match self {
            ReaderAction::Forward(text) => ActionView::Forward(text@),
            ReaderAction::Retry => ActionView::Retry,
            ReaderAction::Discard(error) => ActionView::Discard(*error),
            ReaderAction::Halt => ActionView::Halt,
        }
    }
}

/// The state of a reader task: the label it puts in front of what it
/// forwards, if any, and whether it still reads.
pub struct ReaderView {
    pub label: Option<Seq<char>>,
    pub state: ReaderState,
}

impl ReaderView {
    /// `text` as this reader forwards it: behind the label, where the reader
    /// has one.
    pub open spec fn relayed(self, text: Seq<char>) -> Seq<char> {
        match self.label {
            Some(label) => spec_labelled(label, text),
            None => text,
        }
    }

    /// The action that answers `event`.
    pub open spec fn action(self, event: ReadEvent) -> ActionView {
        match (self.state, event) {
            (ReaderState::Terminated, _) => ActionView::Halt,
            (ReaderState::Active, ReadEvent::Closed) => ActionView::Halt,
            (ReaderState::Active, ReadEvent::WouldBlock) => ActionView::Retry,
            (ReaderState::Active, ReadEvent::Frame(bytes)) => match spec_decode(bytes) {
                Ok(text) => ActionView::Forward(self.relayed(text)),
                Err(error) => ActionView::Discard(error),
            },
        }
    }

    /// The reader after `event`: terminated once the connection is closed,
    /// otherwise as before.
    pub open spec fn step(self, event: ReadEvent) -> ReaderView {
        match (self.state, event) {
            (ReaderState::Active, ReadEvent::Closed) => self.halted(),
            _ => self,
        }
    }

    /// This reader, terminated.
    pub open spec fn halted(self) -> ReaderView {
        ReaderView { label: self.label, state: ReaderState::Terminated }
    }

    /// Whether `event` makes the reader put a message onto a channel in
    /// state `channel`, and finds it closed.
    pub open spec fn finds_closed(self, event: ReadEvent, channel: ChannelView) -> bool {
        self.action(event) is Forward && channel.closed
    }

    /// The action that answers `event` where the reader feeds a channel in
    /// state `channel`.
    pub open spec fn relay_action(self, event: ReadEvent, channel: ChannelView) -> ActionView {
        if self.finds_closed(event, channel) {
            ActionView::Halt
        } else {
            self.action(event)
        }
    }

    /// The reader after `event` where it feeds a channel in state `channel`.
    pub open spec fn relay_step(self, event: ReadEvent, channel: ChannelView) -> ReaderView {
        if self.finds_closed(event, channel) {
            self.halted()
        } else {
            self.step(event)
        }
    }

    /// The channel after the reader has answered `event`: longer by the
    /// forwarded message, where there is one and the channel is open.
    pub open spec fn relay_channel(self, event: ReadEvent, channel: ChannelView) -> ChannelView {
        match self.action(event) {
            ActionView::Forward(text) => channel.enqueue(text),
            _ => channel,
        }
    }
}

/// Isolation: a frame that does not decode puts nothing onto the channel
/// and leaves the channel and its reader as they were, so the next frame
/// from any active reader is forwarded as if the bad one had never come.
pub proof fn lemma_bad_frame_harms_nobody(
    a: ReaderView,
    bad: Seq<u8>,
    b: ReaderView,
    good: Seq<u8>,
    channel: ChannelView,
)
    requires
        spec_decode(bad) is Err,
        spec_decode(good) is Ok,
        b.state == ReaderState::Active,
        !channel.closed,
    ensures
        a.relay_channel(ReadEvent::Frame(bad), channel) == channel,
        a.relay_step(ReadEvent::Frame(bad), channel) == a,
        !(a.relay_action(ReadEvent::Frame(bad), channel) is Forward),
        b.relay_action(ReadEvent::Frame(good), a.relay_channel(ReadEvent::Frame(bad), channel))
            == ActionView::Forward(b.relayed(spec_decode(good)->Ok_0)),
        b.relay_channel(ReadEvent::Frame(good), a.relay_channel(ReadEvent::Frame(bad), channel))
            == channel.enqueue(b.relayed(spec_decode(good)->Ok_0)),
        b.relay_step(ReadEvent::Frame(good), a.relay_channel(ReadEvent::Frame(bad), channel))
            == b,
{
}

/// A reader that has terminated stays terminated and forwards nothing,
/// whatever is reported to it.
pub proof fn lemma_terminated_is_final(reader: ReaderView, event: ReadEvent, channel: ChannelView)
    requires
        reader.state == ReaderState::Terminated,
    ensures
        reader.step(event) == reader,
        reader.action(event) == ActionView::Halt,
        reader.relay_step(event, channel) == reader,
        reader.relay_channel(event, channel) == channel,
{
}

/// The reader of one connection.
#[derive(Debug, PartialEq, Eq)]
pub struct ReaderTask {
    label: Option<String>,
    state: ReaderState,
}

impl View for ReaderTask {
    type V = ReaderView;

    closed spec fn view(&self) -> ReaderView {
        ReaderView {
            label: match self.label {
                Some(label) => Some(label@),
                None => None,
            },
            state: self.state,
        }
    }
}

impl ReaderTask {
    /// An active reader. With a `label`, the peer's address on a server,
    /// it forwards every message behind that label, a colon and a space;
    /// without one it forwards the message as it came.
    pub fn new(label: Option<String>) -> (reader: ReaderTask)
        ensures
            reader@.state == ReaderState::Active,
            reader@.label == match label {
                Some(text) => Some(text@),
                None => None,
            },
    {
        ReaderTask { label, state: ReaderState::Active }
    }

    /// Whether the reader still reads.
    pub fn state(&self) -> (state: ReaderState)
        ensures
            state == self@.state,
    {
        self.state
    }

    /// Answers one read.
    ///
    /// While active: a frame that decodes is forwarded, behind the label
    /// where there is one; a frame that does not is discarded; `WouldBlock`
    /// asks for a retry; `Closed` terminates the reader. A terminated reader
    /// answers everything with `Halt`.
    pub fn step(&mut self, outcome: ReadOutcome) -> (action: ReaderAction)
        ensures
            final(self)@ == old(self)@.step(outcome@),
            action@ == old(self)@.action(outcome@),
    {
        match self.state {
            ReaderState::Terminated => ReaderAction::Halt,
            ReaderState::Active => match outcome {
                ReadOutcome::Closed => {
                    self.state = ReaderState::Terminated;
                    ReaderAction::Halt
                },
                ReadOutcome::WouldBlock => ReaderAction::Retry,
                ReadOutcome::Frame(frame) => match decode(&frame) {
                    Ok(text) => match &self.label {
                        Some(label) => ReaderAction::Forward(
                            labelled(label.as_str(), text.as_str()),
                        ),
                        None => ReaderAction::Forward(text),
                    },
                    Err(error) => ReaderAction::Discard(error),
                },
            },
        }
    }

    /// Answers one read and puts what is to be forwarded onto `channel`.
    ///
    /// Does what `step` does. A forwarded message is also appended to the
    /// channel. Where the channel turns it down as closed, the reader
    /// terminates and the answer is `Halt`.
    pub fn relay(&mut self, outcome: ReadOutcome, channel: &mut RelayChannel) -> (action:
        ReaderAction)
        ensures
            final(self)@ == old(self)@.relay_step(outcome@, old(channel)@),
            final(channel)@ == old(self)@.relay_channel(outcome@, old(channel)@),
            action@ == old(self)@.relay_action(outcome@, old(channel)@),
    {
        let action = self.step(outcome);
        match action {
            ReaderAction::Forward(text) => match channel.enqueue(text.clone()) {
                Ok(_) => ReaderAction::Forward(text),
                Err(_) => {
                    self.state = ReaderState::Terminated;
                    ReaderAction::Halt
                },
            },
            other => other,
        }
    }
}

} // verus!
