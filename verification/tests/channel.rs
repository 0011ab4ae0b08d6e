use chat_relay::channel::{ChannelError, Dequeue, RelayChannel};

#[test]
fn new_channel_is_open_and_empty() {
    let mut channel = RelayChannel::new();
    assert_eq!(channel.len(), 0);
    assert!(!channel.is_closed());
    assert_eq!(channel.try_dequeue(), Dequeue::Empty);
    assert_eq!(channel.len(), 0);
}

#[test]
fn messages_come_out_in_the_order_they_went_in() {
    let mut channel = RelayChannel::new();
    assert_eq!(channel.enqueue("one".to_string()), Ok(()));
    assert_eq!(channel.enqueue("two".to_string()), Ok(()));
    assert_eq!(channel.len(), 2);
    assert_eq!(channel.try_dequeue(), Dequeue::Message("one".to_string()));
    assert_eq!(channel.enqueue("three".to_string()), Ok(()));
    assert_eq!(channel.try_dequeue(), Dequeue::Message("two".to_string()));
    assert_eq!(channel.try_dequeue(), Dequeue::Message("three".to_string()));
    assert_eq!(channel.try_dequeue(), Dequeue::Empty);
}

#[test]
fn closed_channel_takes_nothing() {
    let mut channel = RelayChannel::new();
    channel.close();
    assert!(channel.is_closed());
    assert_eq!(channel.enqueue("late".to_string()), Err(ChannelError::ChannelClosed));
    assert_eq!(channel.len(), 0);
    assert_eq!(channel.try_dequeue(), Dequeue::Closed);
}

#[test]
fn closed_channel_still_hands_out_what_was_pending() {
    let mut channel = RelayChannel::new();
    assert_eq!(channel.enqueue("a".to_string()), Ok(()));
    assert_eq!(channel.enqueue("b".to_string()), Ok(()));
    channel.close();
    assert_eq!(channel.enqueue("c".to_string()), Err(ChannelError::ChannelClosed));
    assert_eq!(channel.len(), 2);
    assert_eq!(channel.try_dequeue(), Dequeue::Message("a".to_string()));
    assert_eq!(channel.try_dequeue(), Dequeue::Message("b".to_string()));
    assert_eq!(channel.try_dequeue(), Dequeue::Closed);
    assert_eq!(channel.try_dequeue(), Dequeue::Closed);
}

#[test]
fn closing_twice_is_closing_once() {
    let mut channel = RelayChannel::new();
    channel.close();
    channel.close();
    assert!(channel.is_closed());
    assert_eq!(channel.try_dequeue(), Dequeue::Closed);
}

#[test]
fn channel_is_unbounded() {
    let mut channel = RelayChannel::new();
    for i in 0..10_000 {
        assert_eq!(channel.enqueue(format!("m{}", i)), Ok(()));
    }
    assert_eq!(channel.len(), 10_000);
    for i in 0..10_000 {
        assert_eq!(channel.try_dequeue(), Dequeue::Message(format!("m{}", i)));
    }
    assert_eq!(channel.try_dequeue(), Dequeue::Empty);
}
