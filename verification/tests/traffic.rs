use vnc::client::decoding::SendOutcome;
use vnc::client::traffic::{Traffic, TrafficAction, TrafficEvent, READ_SIZE};
use vnc::error::VncError;
use vnc::types::{ClientMsg, Rect};

type Event = TrafficEvent<VncError>;
type Action = TrafficAction<VncError>;

fn expect_offer(action: Action) -> Vec<u8> {
    match action {
        TrafficAction::Offer(bytes) => bytes,
        other => panic!("Expected an offer, got {:?}", other),
    }
}

fn request() -> ClientMsg {
    ClientMsg::FramebufferUpdateRequest(Rect { x: 0, y: 0, width: 1, height: 1 }, 1)
}

#[test]
fn bytes_go_to_the_decoding_task() {
    let (state, action) = Traffic::start::<VncError>();
    assert!(matches!(action, TrafficAction::Select { reading: true }));
    let (state, action) = state.step(Event::Read(vec![1, 2, 3]));
    assert_eq!(expect_offer(action), vec![1, 2, 3]);
    let (state, action) = state.step(Event::Offered(SendOutcome::Sent));
    assert!(matches!(action, TrafficAction::Select { reading: true }));
    let (_, action) = state.step(Event::Read(vec![4]));
    assert_eq!(expect_offer(action), vec![4]);
}

#[test]
fn nothing_is_read_while_bytes_are_pending() {
    let (state, _) = Traffic::start::<VncError>();
    let (state, _) = state.step(Event::Read(vec![1, 2, 3]));
    let (state, action) = state.step(Event::Offered(SendOutcome::Full));
    assert_eq!(expect_offer(action), vec![1, 2, 3]);
    let (state, action) = state.step(Event::Offered(SendOutcome::Full));
    assert!(matches!(action, TrafficAction::Select { reading: false }));
    let (state, action) = state.step(Event::Input(request()));
    assert!(matches!(action, TrafficAction::Write(ClientMsg::FramebufferUpdateRequest(_, 1))));
    let (state, action) = state.step(Event::Written);
    assert_eq!(expect_offer(action), vec![1, 2, 3]);
    let (_, action) = state.step(Event::Offered(SendOutcome::Sent));
    assert!(matches!(action, TrafficAction::Select { reading: true }));
}

#[test]
fn messages_are_written() {
    let (state, _) = Traffic::start::<VncError>();
    let (state, action) = state.step(Event::Input(ClientMsg::KeyEvent(7, false)));
    assert!(matches!(action, TrafficAction::Write(ClientMsg::KeyEvent(7, false))));
    let (_, action) = state.step(Event::Written);
    assert!(matches!(action, TrafficAction::Select { reading: true }));
}

#[test]
fn a_failed_write_ends_the_task_at_once() {
    let (state, _) = Traffic::start::<VncError>();
    let (state, _) = state.step(Event::Input(request()));
    let (_, action) = state.step(Event::WriteFailed(VncError::WrongPassword));
    assert!(matches!(action, TrafficAction::Fail(VncError::WrongPassword)));
}

#[test]
fn the_decoding_task_is_told_of_every_other_end() {
    let ends = [Event::Stopped, Event::Read(vec![]), Event::ReadFailed];
    for end in ends {
        let (state, _) = Traffic::start::<VncError>();
        let (state, action) = state.step(end);
        assert!(matches!(action, TrafficAction::NotifyEof));
        let (_, action) = state.step(Event::Notified);
        assert!(matches!(action, TrafficAction::Finish));
    }
}

#[test]
fn a_decoding_task_that_is_gone_ends_the_task() {
    let (state, _) = Traffic::start::<VncError>();
    let (state, _) = state.step(Event::Read(vec![1]));
    let (state, action) = state.step(Event::Offered(SendOutcome::Closed));
    assert!(matches!(action, TrafficAction::NotifyEof));
    let (_, action) = state.step(Event::Notified);
    assert!(matches!(action, TrafficAction::Finish));

    let (state, _) = Traffic::start::<VncError>();
    let (state, _) = state.step(Event::Read(vec![1]));
    let (state, _) = state.step(Event::Offered(SendOutcome::Full));
    let (_, action) = state.step(Event::Offered(SendOutcome::Closed));
    assert!(matches!(action, TrafficAction::NotifyEof));
}

#[test]
fn a_stop_signal_ends_traffic_with_bytes_pending() {
    let (state, _) = Traffic::start::<VncError>();
    let (state, _) = state.step(Event::Read(vec![1]));
    let (state, _) = state.step(Event::Offered(SendOutcome::Full));
    let (state, _) = state.step(Event::Offered(SendOutcome::Full));
    let (_, action) = state.step(Event::Stopped);
    assert!(matches!(action, TrafficAction::NotifyEof));
}

#[test]
fn chunks_are_as_large_as_what_was_read() {
    assert_eq!(READ_SIZE, 65535);
    for len in [1, READ_SIZE] {
        let (state, _) = Traffic::start::<VncError>();
        let (state, action) = state.step(Event::Read(vec![7; len]));
        assert_eq!(expect_offer(action).len(), len);
        let (_, action) = state.step(Event::Offered(SendOutcome::Full));
        assert_eq!(expect_offer(action).len(), len);
    }
}
