use chat_relay::channel::RelayChannel;
use chat_relay::client::{submit, Control};
use chat_relay::frame::{decode, encode, CodecError, Frame, Profile};
use chat_relay::hub::{AcceptAction, AcceptOutcome, Hub, HubAction};
use chat_relay::outbound::{next_outbound, Outbound};
use chat_relay::reader::{ReadOutcome, ReaderAction, ReaderState, ReaderTask};
use chat_relay::registry::WriteOutcome;

/// What the sockets of a server's clients would hold: the frames written to
/// each client, and whether the client has hung up.
struct Wire {
    inbox: Vec<(u64, Vec<Vec<u8>>)>,
    hung_up: Vec<u64>,
}

impl Wire {
    fn new() -> Wire {
        Wire { inbox: Vec::new(), hung_up: Vec::new() }
    }

    fn plug(&mut self, id: u64) {
        self.inbox.push((id, Vec::new()));
    }

    fn write(&mut self, id: u64, frame: &Frame) -> WriteOutcome {
        if self.hung_up.contains(&id) {
            return WriteOutcome::Closed;
        }
        for (client, frames) in self.inbox.iter_mut() {
            if *client == id {
                frames.push(frame.as_bytes().to_vec());
            }
        }
        WriteOutcome::Delivered
    }

    fn received(&self, id: u64, profile: Profile) -> Vec<String> {
        let mut texts = Vec::new();
        for (client, frames) in self.inbox.iter() {
            if *client == id {
                for bytes in frames {
                    let frame = Frame::from_bytes(profile, bytes.clone()).unwrap();
                    texts.push(decode(&frame).unwrap());
                }
            }
        }
        texts
    }
}

fn connect(hub: &mut Hub, wire: &mut Wire, peer: &str) -> (u64, ReaderTask) {
    match hub.accept(AcceptOutcome::Connected(peer.to_string())) {
        AcceptAction::Spawn { id, reader } => {
            wire.plug(id);
            (id, reader)
        }
        other => panic!("no reader for {}: {:?}", peer, other),
    }
}

/// One turn of the consumer: look into the channel, write to every target,
/// report the outcomes. Answers whether anything was pending.
fn cycle(hub: &mut Hub, channel: &mut RelayChannel, wire: &mut Wire) -> bool {
    match hub.poll(channel) {
        HubAction::Broadcast { frame, targets } => {
            let mut outcomes = Vec::new();
            for id in targets.iter() {
                outcomes.push(wire.write(*id, &frame));
            }
            hub.complete(&outcomes);
            true
        }
        HubAction::Skip(_) => true,
        HubAction::Idle | HubAction::Stop => false,
    }
}

fn sent(profile: Profile, text: &str) -> ReadOutcome {
    ReadOutcome::Frame(encode(profile, text).unwrap())
}

fn garbage(profile: Profile) -> ReadOutcome {
    let mut bytes = vec![0u8; profile.frame_size()];
    bytes[0] = 0xc3;
    bytes[1] = 0x28;
    ReadOutcome::Frame(Frame::from_bytes(profile, bytes).unwrap())
}

#[test]
fn hello_reaches_the_other_client_with_the_senders_address() {
    let mut hub = Hub::new(Profile::Bare, true);
    let mut wire = Wire::new();
    let mut channel = RelayChannel::new();
    let (a, mut reader_a) = connect(&mut hub, &mut wire, "127.0.0.1:50001");
    let (b, _reader_b) = connect(&mut hub, &mut wire, "127.0.0.1:50002");

    reader_a.relay(sent(Profile::Bare, "hello"), &mut channel);
    assert!(cycle(&mut hub, &mut channel, &mut wire));

    assert_eq!(wire.received(b, Profile::Bare), vec!["127.0.0.1:50001: hello".to_string()]);
    assert_eq!(wire.received(a, Profile::Bare), vec!["127.0.0.1:50001: hello".to_string()]);
    assert!(!cycle(&mut hub, &mut channel, &mut wire));
}

#[test]
fn hello_reaches_the_other_client_bare() {
    let mut hub = Hub::new(Profile::Bare, false);
    let mut wire = Wire::new();
    let mut channel = RelayChannel::new();
    let (_a, mut reader_a) = connect(&mut hub, &mut wire, "127.0.0.1:50001");
    let (b, _reader_b) = connect(&mut hub, &mut wire, "127.0.0.1:50002");

    reader_a.relay(sent(Profile::Bare, "hello"), &mut channel);
    assert!(cycle(&mut hub, &mut channel, &mut wire));

    assert_eq!(wire.received(b, Profile::Bare), vec!["hello".to_string()]);
}

#[test]
fn alice_types_hi() {
    let mut outgoing = RelayChannel::new();
    assert_eq!(submit("alice", "hi\n", &mut outgoing), Control::Continue);
    match next_outbound(Profile::Interactive, &mut outgoing) {
        Outbound::Frame(frame) => {
            assert_eq!(frame.as_bytes().len(), 512);
            assert_eq!(&frame.as_bytes()[..9], b"alice: hi");
            assert!(frame.as_bytes()[9..].iter().all(|b| *b == 0));
            assert_eq!(decode(&frame), Ok("alice: hi".to_string()));
        }
        other => panic!("{:?}", other),
    }
}

#[test]
fn quit_sends_no_frame_and_the_server_removes_the_handle() {
    // the client
    let mut outgoing = RelayChannel::new();
    assert_eq!(submit("alice", ":quit\n", &mut outgoing), Control::Exit);
    assert_eq!(next_outbound(Profile::Interactive, &mut outgoing), Outbound::Idle);
    outgoing.close();
    assert_eq!(next_outbound(Profile::Interactive, &mut outgoing), Outbound::Stop);

    // the server
    let mut hub = Hub::new(Profile::Bare, true);
    let mut wire = Wire::new();
    let mut channel = RelayChannel::new();
    let (alice, mut reader_alice) = connect(&mut hub, &mut wire, "127.0.0.1:50001");
    let (bob, mut reader_bob) = connect(&mut hub, &mut wire, "127.0.0.1:50002");
    wire.hung_up.push(alice);

    assert_eq!(reader_alice.relay(ReadOutcome::Closed, &mut channel), ReaderAction::Halt);
    assert_eq!(reader_alice.state(), ReaderState::Terminated);
    assert_eq!(channel.len(), 0);

    reader_bob.relay(sent(Profile::Bare, "anyone?"), &mut channel);
    assert!(cycle(&mut hub, &mut channel, &mut wire));
    assert_eq!(hub.clients(), vec![bob]);
    assert_eq!(wire.received(alice, Profile::Bare), Vec::<String>::new());
    assert_eq!(wire.received(bob, Profile::Bare), vec!["127.0.0.1:50002: anyone?".to_string()]);
}

#[test]
fn two_clients_send_within_one_interval() {
    let mut hub = Hub::new(Profile::Bare, true);
    let mut wire = Wire::new();
    let mut channel = RelayChannel::new();
    let (a, mut reader_a) = connect(&mut hub, &mut wire, "10.0.0.1:1");
    let (b, mut reader_b) = connect(&mut hub, &mut wire, "10.0.0.2:2");
    let (c, _reader_c) = connect(&mut hub, &mut wire, "10.0.0.3:3");

    reader_b.relay(sent(Profile::Bare, "from b"), &mut channel);
    reader_a.relay(sent(Profile::Bare, "from a"), &mut channel);
    assert_eq!(channel.len(), 2);

    assert!(cycle(&mut hub, &mut channel, &mut wire));
    assert!(cycle(&mut hub, &mut channel, &mut wire));
    assert!(!cycle(&mut hub, &mut channel, &mut wire));

    let expected = vec!["10.0.0.2:2: from b".to_string(), "10.0.0.1:1: from a".to_string()];
    for id in [a, b, c] {
        assert_eq!(wire.received(id, Profile::Bare), expected);
    }
    assert_eq!(hub.clients(), vec![a, b, c]);
}

#[test]
fn fan_out_gives_every_client_exactly_one_frame() {
    let mut hub = Hub::new(Profile::Interactive, false);
    let mut wire = Wire::new();
    let mut channel = RelayChannel::new();
    let mut readers = Vec::new();
    for n in 0..7 {
        readers.push(connect(&mut hub, &mut wire, &format!("10.0.0.{}:7", n)));
    }
    let message = "alice: one for all";
    readers[3].1.relay(sent(Profile::Interactive, message), &mut channel);
    assert!(cycle(&mut hub, &mut channel, &mut wire));
    assert!(!cycle(&mut hub, &mut channel, &mut wire));
    for (id, _) in readers.iter() {
        assert_eq!(wire.received(*id, Profile::Interactive), vec![message.to_string()]);
    }
    assert_eq!(hub.clients().len(), 7);
}

#[test]
fn pruned_client_receives_no_further_messages() {
    let mut hub = Hub::new(Profile::Bare, false);
    let mut wire = Wire::new();
    let mut channel = RelayChannel::new();
    let (a, mut reader_a) = connect(&mut hub, &mut wire, "a");
    let (b, _reader_b) = connect(&mut hub, &mut wire, "b");
    let (c, _reader_c) = connect(&mut hub, &mut wire, "c");

    reader_a.relay(sent(Profile::Bare, "first"), &mut channel);
    assert!(cycle(&mut hub, &mut channel, &mut wire));
    assert_eq!(hub.clients(), vec![a, b, c]);

    wire.hung_up.push(b);
    reader_a.relay(sent(Profile::Bare, "second"), &mut channel);
    assert!(cycle(&mut hub, &mut channel, &mut wire));
    assert_eq!(hub.clients(), vec![a, c]);

    wire.hung_up.clear();
    reader_a.relay(sent(Profile::Bare, "third"), &mut channel);
    assert!(cycle(&mut hub, &mut channel, &mut wire));

    assert_eq!(wire.received(b, Profile::Bare), vec!["first".to_string()]);
    assert_eq!(
        wire.received(c, Profile::Bare),
        vec!["first".to_string(), "second".to_string(), "third".to_string()]
    );

    let (d, _reader_d) = connect(&mut hub, &mut wire, "d");
    assert_ne!(d, b);
    assert_eq!(hub.clients(), vec![a, c, d]);
}

#[test]
fn malformed_frame_from_one_client_does_not_stop_another() {
    let mut hub = Hub::new(Profile::Bare, true);
    let mut wire = Wire::new();
    let mut channel = RelayChannel::new();
    let (a, mut reader_a) = connect(&mut hub, &mut wire, "10.0.0.1:1");
    let (b, mut reader_b) = connect(&mut hub, &mut wire, "10.0.0.2:2");

    assert_eq!(
        reader_a.relay(garbage(Profile::Bare), &mut channel),
        ReaderAction::Discard(CodecError::InvalidEncoding)
    );
    assert_eq!(channel.len(), 0);
    assert_eq!(
        reader_b.relay(sent(Profile::Bare, "still here"), &mut channel),
        ReaderAction::Forward("10.0.0.2:2: still here".to_string())
    );
    assert!(cycle(&mut hub, &mut channel, &mut wire));
    for id in [a, b] {
        assert_eq!(wire.received(id, Profile::Bare), vec!["10.0.0.2:2: still here".to_string()]);
    }

    // the sender of the malformed frame is still in, and still heard
    assert_eq!(hub.clients(), vec![a, b]);
    assert_eq!(reader_a.state(), ReaderState::Active);
    reader_a.relay(sent(Profile::Bare, "sorry"), &mut channel);
    assert!(cycle(&mut hub, &mut channel, &mut wire));
    assert_eq!(wire.received(b, Profile::Bare).last().unwrap(), "10.0.0.1:1: sorry");
}

#[test]
fn relayed_message_that_outgrows_the_frame_is_dropped() {
    let mut hub = Hub::new(Profile::Bare, true);
    let mut wire = Wire::new();
    let mut channel = RelayChannel::new();
    let (a, mut reader_a) = connect(&mut hub, &mut wire, "127.0.0.1:50001");
    // 17 bytes of label and 16 of text are one more than a frame holds
    reader_a.relay(sent(Profile::Bare, "0123456789abcdef"), &mut channel);
    assert_eq!(hub.poll(&mut channel), HubAction::Skip(CodecError::MessageTooLong));
    reader_a.relay(sent(Profile::Bare, "0123456789abcde"), &mut channel);
    assert!(cycle(&mut hub, &mut channel, &mut wire));
    assert_eq!(
        wire.received(a, Profile::Bare),
        vec!["127.0.0.1:50001: 0123456789abcde".to_string()]
    );
}
