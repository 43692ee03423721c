use vnc::client::decoding::{
    Codec, ImageRect, ReadAction, ReadEvent, ReadLoop, SendOutcome, StopSignal,
};
use vnc::error::VncError;
use vnc::types::{ClientMsg, Rect, Screen, ServerMsg, VncEncoding, VncEvent};

type Event = ReadEvent<VncError>;
type Action = ReadAction<VncError>;

/// The head of a rectangle at (1, 2) of the size 0x100 by 0x201.
fn header(encoding: u32) -> [u8; 12] {
    let e = encoding.to_be_bytes();
    [0, 1, 0, 2, 1, 0, 2, 1, e[0], e[1], e[2], e[3]]
}

const RECT: Rect = Rect { x: 1, y: 2, width: 0x100, height: 0x201 };
const RESIZED: Screen = Screen { width: 0x100, height: 0x201 };
const RESIZED_WHOLE: Rect = Rect { x: 0, y: 0, width: 0x100, height: 0x201 };

/// A task that has got an update of `n` rectangles.
fn update(n: u16) -> (ReadLoop, Action) {
    let (state, action) = ReadLoop::start::<VncError>();
    assert!(matches!(action, ReadAction::PollStop));
    let (state, action) = state.step(Event::Stop(StopSignal::Empty));
    assert!(matches!(action, ReadAction::ReadMessage));
    state.step(Event::Message(ServerMsg::FramebufferUpdate(n)))
}

#[test]
fn heads_of_rectangles() {
    let head = ImageRect::from(header(16));
    assert_eq!(head.rect, RECT);
    assert_eq!(head.encoding, VncEncoding::Zrle);
}

#[test]
fn numbers_of_encodings() {
    let numbers = [
        (0u32, VncEncoding::Raw),
        (1, VncEncoding::CopyRect),
        (7, VncEncoding::Tight),
        (15, VncEncoding::Trle),
        (16, VncEncoding::Zrle),
        (-239i32 as u32, VncEncoding::CursorPseudo),
        (-223i32 as u32, VncEncoding::DesktopSizePseudo),
        (-224i32 as u32, VncEncoding::LastRectPseudo),
        (5, VncEncoding::Other(5)),
    ];
    for (number, encoding) in numbers {
        assert_eq!(VncEncoding::from(number), encoding);
    }
}

#[test]
fn pixels_go_to_their_decoder() {
    let codecs = [
        (0u32, Codec::Raw),
        (7, Codec::Tight),
        (15, Codec::Trle),
        (16, Codec::Zrle),
        (-239i32 as u32, Codec::Cursor),
    ];
    for (number, expected) in codecs {
        let (state, action) = update(2);
        assert!(matches!(action, ReadAction::ReadHeader));
        let (state, action) = state.step(Event::Header(header(number)));
        match action {
            ReadAction::Decode(codec, rect) => {
                assert_eq!(codec, expected);
                assert_eq!(rect, RECT);
            }
            other => panic!("Expected a decoder, got {:?}", other),
        }
        let (state, action) = state.step(Event::Done);
        assert!(matches!(action, ReadAction::ReadHeader));
        assert_eq!(state, ReadLoop::Header { left: 1 });
    }
}

#[test]
fn copies_name_their_source() {
    let (state, _) = update(1);
    let (state, action) = state.step(Event::Header(header(1)));
    assert!(matches!(action, ReadAction::ReadSource));
    let (state, action) = state.step(Event::Source([3, 4, 5, 6]));
    match action {
        ReadAction::Emit(VncEvent::Copy(target, source)) => {
            assert_eq!(target, RECT);
            assert_eq!(source, Rect { x: 0x304, y: 0x506, width: 0x100, height: 0x201 });
        }
        other => panic!("Expected a copy, got {:?}", other),
    }
    let (_, action) = state.step(Event::Done);
    assert!(matches!(action, ReadAction::PollStop));
}

#[test]
fn a_resize_is_stored_requested_and_told() {
    for outcome in [SendOutcome::Sent, SendOutcome::Full, SendOutcome::Closed] {
        let (state, _) = update(1);
        let (state, action) = state.step(Event::Header(header(-223i32 as u32)));
        match action {
            ReadAction::StoreScreen(screen) => assert_eq!(screen, RESIZED),
            other => panic!("Expected a new size, got {:?}", other),
        }
        let (state, action) = state.step(Event::Done);
        assert!(matches!(
            action,
            ReadAction::Offer(ClientMsg::FramebufferUpdateRequest(RESIZED_WHOLE, 0))
        ));
        let (state, action) = state.step(Event::Offered(outcome));
        match action {
            ReadAction::Emit(VncEvent::SetResolution(screen)) => assert_eq!(screen, RESIZED),
            other => panic!("Expected an event, got {:?}", other),
        }
        let (state, action) = state.step(Event::Done);
        assert!(matches!(action, ReadAction::PollStop));
        assert_eq!(state, ReadLoop::Poll);
    }
}

#[test]
fn the_last_rectangle_ends_an_update() {
    let (state, _) = update(65535);
    let (state, _) = state.step(Event::Header(header(0)));
    let (state, _) = state.step(Event::Done);
    let (state, action) = state.step(Event::Header(header(-224i32 as u32)));
    assert!(matches!(action, ReadAction::PollStop));
    assert_eq!(state, ReadLoop::Poll);
}

#[test]
fn an_update_without_rectangles() {
    let (state, action) = update(0);
    assert!(matches!(action, ReadAction::PollStop));
    assert_eq!(state, ReadLoop::Poll);
}

#[test]
fn an_unknown_encoding_ends_the_task() {
    let (state, _) = update(1);
    let (state, action) = state.step(Event::Header(header(5)));
    assert!(matches!(action, ReadAction::Unsupported(5)));
    assert_eq!(state, ReadLoop::Finished);
}

#[test]
fn bell_and_text_are_told() {
    let (state, action) = ReadLoop::Message.step(Event::Message(ServerMsg::Bell));
    assert!(matches!(action, ReadAction::Emit(VncEvent::Bell)));
    let (state, action) = state.step(Event::Done);
    assert!(matches!(action, ReadAction::PollStop));
    assert_eq!(state, ReadLoop::Poll);
    let text = ServerMsg::ServerCutText("cut".to_string());
    let (_, action) = ReadLoop::Message.step(Event::Message(text));
    match action {
        ReadAction::Emit(VncEvent::Text(text)) => assert_eq!(text, "cut"),
        other => panic!("Expected a text, got {:?}", other),
    }
}

#[test]
fn a_stop_signal_ends_decoding() {
    for signal in [StopSignal::Received, StopSignal::Closed] {
        let (state, _) = ReadLoop::start::<VncError>();
        let (state, action) = state.step(Event::Stop(signal));
        assert!(matches!(action, ReadAction::Finish));
        assert_eq!(state, ReadLoop::Finished);
    }
}

#[test]
fn a_failure_ends_decoding_with_its_error() {
    let fail = || Event::Failed(VncError::General("broken".to_string()));
    let expect = |state: ReadLoop| {
        let (state, action) = state.step(fail());
        assert_eq!(state, ReadLoop::Finished);
        match action {
            ReadAction::Fail(VncError::General(text)) => assert_eq!(text, "broken"),
            other => panic!("Expected a failure, got {:?}", other),
        }
    };
    // a message, the head of a rectangle, its pixels, and the source of a copy
    expect(ReadLoop::Message);
    let (head, _) = update(3);
    expect(head);
    let (decoding, _) = head.step(Event::Header(header(7)));
    expect(decoding);
    let (source, _) = head.step(Event::Header(header(1)));
    expect(source);
    // an event that the user does not take
    let (copied, _) = source.step(Event::Source([0; 4]));
    expect(copied);
    let (bell, _) = ReadLoop::Message.step(Event::Message(ServerMsg::Bell));
    expect(bell);
}
