use thread_pool::{DispatchChannel, Message, Received};

#[test]
fn new_channel_is_open_and_empty() {
    let channel: DispatchChannel<u32> = DispatchChannel::new();
    assert!(channel.is_open());
    assert_eq!(channel.len(), 0);
}

#[test]
fn channel_hands_out_messages_in_the_order_sent() {
    let mut channel: DispatchChannel<u32> = DispatchChannel::new();
    assert_eq!(channel.send(Message::NewJob(10)), Ok(()));
    assert_eq!(channel.send(Message::Terminate), Ok(()));
    assert_eq!(channel.send(Message::NewJob(30)), Ok(()));
    assert_eq!(channel.len(), 3);
    assert_eq!(channel.receive(), Received::Message(Message::NewJob(10)));
    assert_eq!(channel.receive(), Received::Message(Message::Terminate));
    assert_eq!(channel.receive(), Received::Message(Message::NewJob(30)));
    assert_eq!(channel.len(), 0);
}

#[test]
fn receive_removes_exactly_one_message() {
    let mut channel: DispatchChannel<u32> = DispatchChannel::new();
    assert_eq!(channel.send(Message::NewJob(1)), Ok(()));
    assert_eq!(channel.send(Message::NewJob(2)), Ok(()));
    assert_eq!(channel.receive(), Received::Message(Message::NewJob(1)));
    assert_eq!(channel.len(), 1);
}

#[test]
fn empty_open_channel_makes_the_receiver_wait() {
    let mut channel: DispatchChannel<u32> = DispatchChannel::new();
    assert_eq!(channel.receive(), Received::Empty);
    assert_eq!(channel.receive(), Received::Empty);
    assert!(channel.is_open());
    assert_eq!(channel.len(), 0);
}

#[test]
fn empty_closed_channel_reports_closed() {
    let mut channel: DispatchChannel<u32> = DispatchChannel::new();
    channel.close();
    assert!(!channel.is_open());
    assert_eq!(channel.receive(), Received::Closed);
    assert_eq!(channel.receive(), Received::Closed);
}

#[test]
fn close_keeps_what_was_queued() {
    let mut channel: DispatchChannel<u32> = DispatchChannel::new();
    assert_eq!(channel.send(Message::NewJob(5)), Ok(()));
    assert_eq!(channel.send(Message::NewJob(6)), Ok(()));
    channel.close();
    assert_eq!(channel.len(), 2);
    assert_eq!(channel.receive(), Received::Message(Message::NewJob(5)));
    assert_eq!(channel.receive(), Received::Message(Message::NewJob(6)));
    assert_eq!(channel.receive(), Received::Closed);
}

#[test]
fn send_on_closed_channel_hands_the_message_back() {
    let mut channel: DispatchChannel<u32> = DispatchChannel::new();
    assert_eq!(channel.send(Message::NewJob(1)), Ok(()));
    channel.close();
    assert_eq!(channel.send(Message::NewJob(2)), Err(Message::NewJob(2)));
    assert_eq!(channel.send(Message::Terminate), Err(Message::Terminate));
    assert_eq!(channel.len(), 1);
    assert_eq!(channel.receive(), Received::Message(Message::NewJob(1)));
    assert_eq!(channel.receive(), Received::Closed);
}

#[test]
fn close_twice_is_close_once() {
    let mut channel: DispatchChannel<u32> = DispatchChannel::new();
    assert_eq!(channel.send(Message::NewJob(9)), Ok(()));
    channel.close();
    channel.close();
    assert!(!channel.is_open());
    assert_eq!(channel.len(), 1);
}
