//! The relay channel: the queue between the readers and the hub.
//!
//! Every reader appends what it has decoded; the hub alone takes messages
//! out, oldest first. The channel itself is plain data. Whoever shares it
//! between threads puts it behind a lock.

use std::collections::VecDeque;
use vstd::prelude::*;

verus! {

/// Why a message was not taken into the channel.
#[derive(Clone, Copy, Debug, PartialEq, Eq, Structural)]
pub enum ChannelError {
    /// The channel has been closed: the consumer has shut down.
    ChannelClosed,
}

/// What the consumer finds when it looks into the channel.
#[derive(Debug, PartialEq, Eq)]
pub enum Dequeue {
    /// The oldest pending message, now taken out.
    Message(String),
    /// Nothing is pending at the moment.
    Empty,
    /// Nothing is pending and nothing will come: the channel is closed.
    Closed,
}

/// What a `Dequeue` says, with the message as a sequence of characters.
pub enum DequeueView {
    Message(Seq<char>),
    Empty,
    Closed,
}

impl View for Dequeue {
    type V = DequeueView;

    open spec fn view(&self) -> DequeueView {
        match self {
            Dequeue::Message(text) => DequeueView::Message(text@),
            Dequeue::Empty => DequeueView::Empty,
            Dequeue::Closed => DequeueView::Closed,
        }
    }
}

/// The state of a channel: what is pending, oldest first, and whether the
/// channel still takes messages.
pub struct ChannelView {
    pub pending: Seq<Seq<char>>,
    pub closed: bool,
}

impl ChannelView {
    /// An open channel with nothing pending.
    pub open spec fn empty() -> ChannelView {
        ChannelView { pending: Seq::empty(), closed: false }
    }

    /// The channel after an attempt to append `message`: unchanged where it
    /// is closed, longer by that message at the back where it is open.
    pub open spec fn enqueue(self, message: Seq<char>) -> ChannelView {
        if self.closed {
            self
        } else {
            ChannelView { pending: self.pending.push(message), closed: false }
        }
    }

    /// What an attempt to append answers.
    pub open spec fn enqueue_result(self) -> Result<(), ChannelError> {
        if self.closed {
            Err(ChannelError::ChannelClosed)
        } else {
            Ok(())
        }
    }

    /// The channel after the consumer has looked into it: without its
    /// oldest message, where it had one.
    pub open spec fn dequeue(self) -> ChannelView {
        if self.pending.len() > 0 {
            ChannelView { pending: self.pending.drop_first(), closed: self.closed }
        } else {
            self
        }
    }

    /// What the consumer finds: the oldest message; or, with nothing
    /// pending, whether more may come.
    pub open spec fn dequeue_result(self) -> DequeueView {
        if self.pending.len() > 0 {
            DequeueView::Message(self.pending[0])
        } else if self.closed {
            DequeueView::Closed
        } else {
            DequeueView::Empty
        }
    }

    /// The channel after it has been closed: what is pending stays.
    pub open spec fn close(self) -> ChannelView {
        ChannelView { pending: self.pending, closed: true }
    }

    /// The channel after the consumer has looked into it `n` times.
    pub open spec fn after_dequeues(self, n: nat) -> ChannelView
        decreases n,
    {
        if n == 0 {
            self
        } else {
            self.dequeue().after_dequeues((n - 1) as nat)
        }
    }
}

/// Appending disturbs nothing that is pending: while older messages are
/// there, the consumer finds what it would have found without the new one,
/// and the new one stays behind them.
pub proof fn lemma_enqueue_behind(channel: ChannelView, message: Seq<char>)
    requires
        !channel.closed,
        channel.pending.len() > 0,
    ensures
        channel.enqueue(message).dequeue_result() == channel.dequeue_result(),
        channel.enqueue(message).dequeue() == channel.dequeue().enqueue(message),
{
    assert(channel.pending.push(message).drop_first() =~= channel.pending.drop_first().push(
        message,
    ));
}

/// First in, first out: a message that an open channel takes in comes out
/// when everything that was pending before it has come out, and not
/// earlier.
pub proof fn lemma_first_in_first_out(channel: ChannelView, message: Seq<char>)
    requires
        !channel.closed,
    ensures
        channel.enqueue(message).after_dequeues(channel.pending.len()).dequeue_result()
            == DequeueView::Message(message),
        channel.enqueue(message).after_dequeues(channel.pending.len()).dequeue()
            == ChannelView::empty(),
        forall|n: nat|
            n < channel.pending.len() ==> #[trigger] channel.enqueue(message).after_dequeues(
                n,
            ).dequeue_result() == channel.after_dequeues(n).dequeue_result(),
    decreases channel.pending.len(),
{
    let queued = channel.enqueue(message);
    if channel.pending.len() == 0 {
        assert(queued.pending.drop_first() =~= Seq::<Seq<char>>::empty());
    } else {
        lemma_enqueue_behind(channel, message);
        lemma_first_in_first_out(channel.dequeue(), message);
        assert forall|n: nat| n < channel.pending.len() implies #[trigger] queued.after_dequeues(
            n,
        ).dequeue_result() == channel.after_dequeues(n).dequeue_result() by {
            if n > 0 {
                let m = (n - 1) as nat;
                assert(channel.dequeue().enqueue(message).after_dequeues(m).dequeue_result()
                    == channel.dequeue().after_dequeues(m).dequeue_result());
            }
        }
    }
}

/// An unbounded first-in, first-out queue of messages with many producers
/// and one consumer.
pub struct RelayChannel {
    queue: VecDeque<String>,
    closed: bool,
}

impl View for RelayChannel {
    type V = ChannelView;

    closed spec fn view(&self) -> ChannelView {
        ChannelView { pending: self.queue.deep_view(), closed: self.closed }
    }
}

impl RelayChannel {
    /// An open channel with nothing pending.
    pub fn new() -> (channel: RelayChannel)
        ensures
            channel@ == ChannelView::empty(),
    {
        let channel = RelayChannel { queue: VecDeque::new(), closed: false };
        assert(channel.queue.deep_view() =~= Seq::<Seq<char>>::empty());
        channel
    }

    /// Appends `message` behind everything that is pending.
    ///
    /// Never waits. Fails with `ChannelClosed` exactly when the channel has
    /// been closed, and then changes nothing.
    pub fn enqueue(&mut self, message: String) -> (r: Result<(), ChannelError>)
        ensures
            final(self)@ == old(self)@.enqueue(message@),
            r == old(self)@.enqueue_result(),
    {
        if self.closed {
            return Err(ChannelError::ChannelClosed);
        }
        let ghost before = self.queue@;
        self.queue.push_back(message);
        assert(self.queue.deep_view() =~= before.map_values(|s: String| s@).push(message@));
        assert(before.map_values(|s: String| s@) =~= old(self).queue.deep_view());
        Ok(())
    }

    /// Takes the oldest pending message out, if there is one.
    ///
    /// Never waits. With nothing pending it answers `Closed` where the
    /// channel has been closed and `Empty` where it has not; messages that
    /// were pending when the channel was closed are still handed out first.
    pub fn try_dequeue(&mut self) -> (found: Dequeue)
        ensures
            final(self)@ == old(self)@.dequeue(),
            found@ == old(self)@.dequeue_result(),
    {
        let ghost before = self.queue@;
        match self.queue.pop_front() {
            Some(message) => {
                assert(self.queue.deep_view() =~= old(self).queue.deep_view().drop_first());
                assert(old(self).queue.deep_view()[0] == before[0]@);
                Dequeue::Message(message)
            },
            None => {
                assert(old(self).queue.deep_view().len() == 0);
                if self.closed {
                    Dequeue::Closed
                } else {
                    Dequeue::Empty
                }
            },
        }
    }

    /// Closes the channel: from now on it takes no message. What is pending
    /// can still be taken out.
    pub fn close(&mut self)
        ensures
            final(self)@ == old(self)@.close(),
    {
        self.closed = true;
    }

    /// Whether the channel has been closed.
    pub fn is_closed(&self) -> (closed: bool)
        ensures
            closed == self@.closed,
    {
        self.closed
    }

    /// How many messages are pending.
    pub fn len(&self) -> (n: usize)
        ensures
            n == self@.pending.len(),
    {
        self.queue.len()
    }
}

} // verus!
