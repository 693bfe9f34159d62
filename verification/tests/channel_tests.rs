use wsrelay::channel::{OutboundChannel, Refusal, Refused};
use wsrelay::message::OutboundMessage;

fn text(s: &str) -> OutboundMessage {
    OutboundMessage::Text(s.to_string())
}

#[test]
fn new_channel_is_open_and_empty() {
    let channel = OutboundChannel::new(3);
    assert_eq!(channel.len(), 0);
    assert!(channel.is_empty());
    assert_eq!(channel.capacity(), 3);
    assert!(!channel.is_closed());
    assert!(channel.has_room());
}

#[test]
fn messages_leave_in_the_order_in_which_they_came() {
    let mut channel = OutboundChannel::new(3);
    assert_eq!(channel.try_send(text("a")), Ok(()));
    assert_eq!(channel.try_send(OutboundMessage::Ping(None)), Ok(()));
    assert_eq!(channel.try_send(text("c")), Ok(()));
    assert_eq!(channel.len(), 3);
    assert_eq!(channel.recv(), Some(text("a")));
    assert_eq!(channel.recv(), Some(OutboundMessage::Ping(None)));
    assert_eq!(channel.try_send(text("d")), Ok(()));
    assert_eq!(channel.recv(), Some(text("c")));
    assert_eq!(channel.recv(), Some(text("d")));
    assert_eq!(channel.recv(), None);
    assert!(channel.is_empty());
}

#[test]
fn full_channel_hands_the_message_back() {
    let mut channel = OutboundChannel::new(2);
    assert_eq!(channel.try_send(text("a")), Ok(()));
    assert!(channel.has_room());
    assert_eq!(channel.try_send(text("b")), Ok(()));
    assert!(!channel.has_room());
    assert_eq!(
        channel.try_send(text("c")),
        Err(Refused { reason: Refusal::Full, message: text("c") })
    );
    assert_eq!(channel.len(), 2);
    assert_eq!(channel.recv(), Some(text("a")));
    assert!(channel.has_room());
    assert_eq!(channel.try_send(text("c")), Ok(()));
    assert_eq!(channel.recv(), Some(text("b")));
    assert_eq!(channel.recv(), Some(text("c")));
}

#[test]
fn channel_without_capacity_takes_nothing() {
    let mut channel = OutboundChannel::new(0);
    assert!(!channel.has_room());
    assert_eq!(
        channel.try_send(text("a")),
        Err(Refused { reason: Refusal::Full, message: text("a") })
    );
    assert_eq!(channel.recv(), None);
}

#[test]
fn closing_drops_what_waits() {
    let mut channel = OutboundChannel::new(4);
    assert_eq!(channel.try_send(text("a")), Ok(()));
    assert_eq!(channel.try_send(text("b")), Ok(()));
    channel.close();
    assert!(channel.is_closed());
    assert!(channel.is_empty());
    assert_eq!(channel.capacity(), 4);
    assert!(!channel.has_room());
    assert_eq!(channel.recv(), None);
}

#[test]
fn closed_channel_takes_nothing() {
    let mut channel = OutboundChannel::new(4);
    channel.close();
    assert_eq!(
        channel.try_send(text("a")),
        Err(Refused { reason: Refusal::Closed, message: text("a") })
    );
    assert_eq!(channel.len(), 0);
    channel.close();
    assert!(channel.is_closed());
}
