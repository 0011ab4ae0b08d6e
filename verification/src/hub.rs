//! The hub: the acceptor's and the consumer's decisions on a relay server.
//!
//! The hub owns the client registry. The caller owns the listening socket
//! and the clients' sockets: it reports each attempt to accept, asks the hub
//! what to send, writes the frame to every target in turn and reports how
//! each write went.

use vstd::prelude::*;
use vstd::utf8::encode_utf8;
use crate::channel::{ChannelView, RelayChannel};
use crate::frame::{
    lemma_decode_encode, lemma_decoded_is_message, spec_decode, CodecError, Frame, Profile,
};
use crate::message::{is_message, lemma_labelled_is_message};
use crate::outbound::{next_outbound, spec_next_outbound, Outbound, OutboundView};
use crate::reader::{ReadEvent, ReaderState, ReaderTask, ReaderView};
use crate::registry::{
    casualties, failed_at, lemma_all_delivered, lemma_failed_retires, ClientId, ClientRegistry,
    RegistryView, WriteOutcome,
};

verus! {

/// What one attempt to accept a connection came to.
#[derive(Debug, PartialEq, Eq)]
pub enum AcceptOutcome {
    /// A client has connected. The text is its address.
    Connected(String),
    /// Nobody is waiting to connect.
    Pending,
}

/// An `AcceptOutcome`, with the address as a sequence of characters.
pub enum AcceptEvent {
    Connected(Seq<char>),
    Pending,
}

impl View for AcceptOutcome {
    type V = AcceptEvent;

    open spec fn view(&self) -> AcceptEvent {
        match self {
            AcceptOutcome::Connected(peer) => AcceptEvent::Connected(peer@),
            AcceptOutcome::Pending => AcceptEvent::Pending,
        }
    }
}

/// What the acceptor is to do after an attempt to accept.
#[derive(Debug, PartialEq, Eq)]
pub enum AcceptAction {
    /// The client stands in the registry under `id`: keep its socket under
    /// that number and start `reader` on it.
    Spawn { id: ClientId, reader: ReaderTask },
    /// Nobody came: let one idle interval pass, then try again.
    Retry,
    /// The registry has no number left for the client: close its socket.
    Refuse,
}

/// An `AcceptAction`, with the reader as its state.
pub enum AcceptActionView {
    Spawn { id: ClientId, reader: ReaderView },
    Retry,
    Refuse,
}

impl View for AcceptAction {
    type V = AcceptActionView;

    open spec fn view(&self) -> AcceptActionView {
        match self {
            AcceptAction::Spawn { id, reader } => AcceptActionView::Spawn {
                id: *id,
                reader: reader@,
            },
            AcceptAction::Retry => AcceptActionView::Retry,
            AcceptAction::Refuse => AcceptActionView::Refuse,
        }
    }
}

/// What the consumer is to do next.
#[derive(Debug, PartialEq, Eq)]
pub enum HubAction {
    /// Write `frame` to every client in `targets`, in that order, and
    /// report the outcomes in the same order.
    Broadcast { frame: Frame, targets: Vec<ClientId> },
    /// A message was pending that no frame can hold. It is dropped.
    Skip(CodecError),
    /// Nothing is pending: let one idle interval pass, then look again.
    Idle,
    /// Nothing is pending and the channel is closed: stop.
    Stop,
}

/// A `HubAction`, with the frame as a sequence of bytes.
pub enum HubActionView {
    Broadcast { frame: Seq<u8>, targets: Seq<ClientId> },
    Skip(CodecError),
    Idle,
    Stop,
}

impl View for HubAction {
    type V = HubActionView;

    open spec fn view(&self) -> HubActionView {
        match self {
            HubAction::Broadcast { frame, targets } => HubActionView::Broadcast {
                frame: frame@,
                targets: targets@,
            },
            HubAction::Skip(error) => HubActionView::Skip(*error),
            HubAction::Idle => HubActionView::Idle,
            HubAction::Stop => HubActionView::Stop,
        }
    }
}

/// The state of a hub: its profile, whether its readers label what they
/// forward with the sender's address, and its registry.
pub struct HubView {
    pub profile: Profile,
    pub label_peers: bool,
    pub registry: RegistryView,
}

impl HubView {
    /// The reader that a client with the address `peer` gets.
    pub open spec fn reader_for(self, peer: Seq<char>) -> ReaderView {
        ReaderView {
            label: if self.label_peers {
                Some(peer)
            } else {
                None
            },
            state: ReaderState::Active,
        }
    }

    /// The action that answers an attempt to accept.
    pub open spec fn accept_action(self, event: AcceptEvent) -> AcceptActionView {
        match event {
            AcceptEvent::Pending => AcceptActionView::Retry,
            AcceptEvent::Connected(peer) => match self.registry.fresh_id() {
                Some(id) => AcceptActionView::Spawn { id, reader: self.reader_for(peer) },
                None => AcceptActionView::Refuse,
            },
        }
    }

    /// The hub after an attempt to accept: with one more client at the end
    /// of its registry, where one came and a number was left for it.
    pub open spec fn accept(self, event: AcceptEvent) -> HubView {
        match event {
            AcceptEvent::Pending => self,
            AcceptEvent::Connected(_) => HubView {
                profile: self.profile,
                label_peers: self.label_peers,
                registry: self.registry.register(),
            },
        }
    }

    /// What the consumer is to do next with a channel in state `channel`:
    /// send the oldest pending message, framed, to every client in the
    /// registry.
    pub open spec fn poll_action(self, channel: ChannelView) -> HubActionView {
        match spec_next_outbound(self.profile, channel) {
            OutboundView::Frame(frame) => HubActionView::Broadcast {
                frame,
                targets: self.registry.clients,
            },
            OutboundView::Skip(error) => HubActionView::Skip(error),
            OutboundView::Idle => HubActionView::Idle,
            OutboundView::Stop => HubActionView::Stop,
        }
    }

    /// The hub after a fan-out with these outcomes: without the clients
    /// whose write failed.
    pub open spec fn complete(self, outcomes: Seq<WriteOutcome>) -> HubView {
        HubView {
            profile: self.profile,
            label_peers: self.label_peers,
            registry: self.registry.prune(outcomes),
        }
    }
}

/// Fan-out completeness: the message at the head of the channel goes, as
/// one frame that decodes to it, to every client in the registry and to
/// each of them once; and where all writes succeed, they all stay.
pub proof fn lemma_fan_out_reaches_everyone(
    hub: HubView,
    channel: ChannelView,
    outcomes: Seq<WriteOutcome>,
)
    requires
        hub.registry.wf(),
        channel.pending.len() > 0,
        is_message(channel.pending[0]),
        encode_utf8(channel.pending[0]).len() <= hub.profile.spec_frame_size(),
        forall|i: int| 0 <= i < hub.registry.clients.len() ==> !failed_at(outcomes, i),
    ensures
        hub.poll_action(channel) is Broadcast,
        hub.poll_action(channel)->targets == hub.registry.clients,
        forall|i: int, j: int|
            0 <= i < j < hub.registry.clients.len() ==> hub.poll_action(channel)->targets[i]
                != hub.poll_action(channel)->targets[j],
        spec_decode(hub.poll_action(channel)->frame) == Ok::<Seq<char>, CodecError>(
            channel.pending[0],
        ),
        hub.complete(outcomes) == hub,
{
    lemma_decode_encode(hub.profile, channel.pending[0]);
    lemma_all_delivered(hub.registry.clients, outcomes);
}

/// A message that one client sends reaches all: where a reader forwards
/// what an active connection has sent into an open, empty channel, the next
/// look into the channel sends it, as it was forwarded, to every client in
/// the registry, provided that it fits into a frame with its label.
pub proof fn lemma_sent_is_relayed(
    hub: HubView,
    reader: ReaderView,
    incoming: Seq<u8>,
    channel: ChannelView,
)
    requires
        hub.registry.wf(),
        reader.state == ReaderState::Active,
        reader.label matches Some(label) ==> is_message(label),
        spec_decode(incoming) is Ok,
        encode_utf8(reader.relayed(spec_decode(incoming)->Ok_0)).len()
            <= hub.profile.spec_frame_size(),
        channel == ChannelView::empty(),
    ensures
        hub.poll_action(reader.relay_channel(ReadEvent::Frame(incoming), channel)) is Broadcast,
        hub.poll_action(reader.relay_channel(ReadEvent::Frame(incoming), channel))->targets
            == hub.registry.clients,
        spec_decode(
            hub.poll_action(reader.relay_channel(ReadEvent::Frame(incoming), channel))->frame,
        ) == Ok::<Seq<char>, CodecError>(reader.relayed(spec_decode(incoming)->Ok_0)),
        reader.relay_channel(ReadEvent::Frame(incoming), channel).dequeue() == channel,
{
    let text = reader.relayed(spec_decode(incoming)->Ok_0);
    let queued = reader.relay_channel(ReadEvent::Frame(incoming), channel);
    assert(queued.pending[0] == text);
    assert(queued.pending.drop_first() =~= channel.pending);
    lemma_decoded_is_message(incoming);
    if reader.label is Some {
        lemma_labelled_is_message(reader.label->Some_0, spec_decode(incoming)->Ok_0);
    }
    lemma_decode_encode(hub.profile, text);
}

/// Pruning: a client whose write failed is out of the registry when the
/// fan-out is completed, and no later fan-out has it among its targets.
pub proof fn lemma_failed_gets_nothing_more(
    hub: HubView,
    outcomes: Seq<WriteOutcome>,
    i: int,
    channel: ChannelView,
)
    requires
        hub.registry.wf(),
        0 <= i < hub.registry.clients.len(),
        failed_at(outcomes, i),
    ensures
        !hub.complete(outcomes).registry.clients.contains(hub.registry.clients[i]),
        hub.complete(outcomes).registry.has_retired(hub.registry.clients[i]),
        hub.complete(outcomes).poll_action(channel) is Broadcast ==> !hub.complete(
            outcomes,
        ).poll_action(channel)->targets.contains(hub.registry.clients[i]),
{
    lemma_failed_retires(hub.registry, outcomes, i);
}

/// The acceptor and the consumer of a relay server.
pub struct Hub {
    profile: Profile,
    label_peers: bool,
    registry: ClientRegistry,
}

impl View for Hub {
    type V = HubView;

    closed spec fn view(&self) -> HubView {
        HubView {
            profile: self.profile,
            label_peers: self.label_peers,
            registry: self.registry@,
        }
    }
}

impl Hub {
    /// A hub without clients. With `label_peers`, every reader that it
    /// starts puts the sender's address in front of what it forwards.
    pub fn new(profile: Profile, label_peers: bool) -> (hub: Hub)
        ensures
            hub@ == (HubView { profile, label_peers, registry: RegistryView::empty() }),
            hub@.registry.wf(),
    {
        Hub { profile, label_peers, registry: ClientRegistry::new() }
    }

    /// Answers one attempt to accept a connection.
    ///
    /// A client that has connected is put at the end of the registry and
    /// gets a reader of its own; it is refused only where the registry has
    /// no number left. With nobody there, the acceptor is to retry.
    pub fn accept(&mut self, outcome: AcceptOutcome) -> (action: AcceptAction)
        ensures
            final(self)@ == old(self)@.accept(outcome@),
            action@ == old(self)@.accept_action(outcome@),
            final(self)@.registry.wf(),
    {
        match outcome {
            AcceptOutcome::Pending => {
                let _ = self.registry.len();
                AcceptAction::Retry
            },
            AcceptOutcome::Connected(peer) => match self.registry.register() {
                Some(id) => {
                    let label = if self.label_peers {
                        Some(peer)
                    } else {
                        None
                    };
                    AcceptAction::Spawn { id, reader: ReaderTask::new(label) }
                },
                None => AcceptAction::Refuse,
            },
        }
    }

    /// Looks into `channel` once and says what to send to whom.
    ///
    /// The oldest pending message is taken out. Where it fits into a frame,
    /// it goes to every client in the registry, oldest first; where it does
    /// not, it is dropped.
    pub fn poll(&self, channel: &mut RelayChannel) -> (action: HubAction)
        ensures
            final(channel)@ == old(channel)@.dequeue(),
            action@ == self@.poll_action(old(channel)@),
            action matches HubAction::Broadcast { frame, .. } ==> frame.profile()
                == self@.profile,
    {
        match next_outbound(self.profile, channel) {
            Outbound::Frame(frame) => HubAction::Broadcast {
                frame,
                targets: self.registry.snapshot(),
            },
            Outbound::Skip(error) => HubAction::Skip(error),
            Outbound::Idle => HubAction::Idle,
            Outbound::Stop => HubAction::Stop,
        }
    }

    /// Takes in how the writes of one fan-out went, and answers the numbers
    /// of the clients that are no longer connected.
    ///
    /// `outcomes` holds the outcome for each target, in the order of the
    /// targets. A client whose write failed leaves the registry; all others
    /// stay, in their order.
    pub fn complete(&mut self, outcomes: &Vec<WriteOutcome>) -> (removed: Vec<ClientId>)
        ensures
            final(self)@ == old(self)@.complete(outcomes@),
            removed@ == casualties(old(self)@.registry.clients, outcomes@),
            final(self)@.registry.wf(),
    {
        self.registry.prune(outcomes)
    }

    /// The clients that are connected, oldest first.
    pub fn clients(&self) -> (clients: Vec<ClientId>)
        ensures
            clients@ == self@.registry.clients,
            self@.registry.wf(),
    {
        self.registry.snapshot()
    }
}

} // verus!
