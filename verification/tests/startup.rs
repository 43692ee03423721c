use vnc::client::startup::{
    client_init, Connected, ServerInit, Startup, StartupAction, StartupEvent,
};
use vnc::error::VncError;
use vnc::types::{ClientMsg, PixelFormat, Rect, Screen, VncEncoding, VncEvent};

type Event = StartupEvent<VncError>;
type Action = StartupAction<VncError>;

const SERVERS: PixelFormat = PixelFormat { bytes: [1; 16] };
const OURS: PixelFormat = PixelFormat { bytes: [2; 16] };
const SCREEN: Screen = Screen { width: 0x0320, height: 0x0258 };
const WHOLE: Rect = Rect { x: 0, y: 0, width: 0x0320, height: 0x0258 };

/// A startup that has read the size and the pixel format of the server.
fn until_format(ours: Option<PixelFormat>) -> (Startup, Action) {
    let encodings = vec![VncEncoding::Tight, VncEncoding::Raw];
    let (state, action) = Startup::start::<VncError>(true, ours, encodings);
    assert!(matches!(action, StartupAction::WriteByte(1)));
    let (state, action) = state.step(Event::Done);
    assert!(matches!(action, StartupAction::ReadSize));
    let (state, action) = state.step(Event::Size([3, 0x20, 2, 0x58]));
    assert!(matches!(action, StartupAction::Emit(VncEvent::SetResolution(SCREEN))));
    let (state, action) = state.step(Event::Done);
    assert!(matches!(action, StartupAction::ReadFormat));
    state.step(Event::Format(SERVERS))
}

/// The rest of a startup from the encodings on.
fn from_encodings(state: Startup, action: Action) -> Connected {
    match action {
        StartupAction::Write(ClientMsg::SetEncodings(encodings)) => {
            assert_eq!(encodings, vec![VncEncoding::Tight, VncEncoding::Raw]);
        }
        other => panic!("Expected the encodings, got {:?}", other),
    }
    let (state, action) = state.step(Event::Done);
    assert!(matches!(
        action,
        StartupAction::Queue(ClientMsg::FramebufferUpdateRequest(WHOLE, 0))
    ));
    let (state, action) = state.step(Event::Done);
    assert!(matches!(action, StartupAction::Complete));
    match state {
        Startup::Started(connected) => connected,
        other => panic!("Expected the end, got {:?}", other),
    }
}

#[test]
fn startup_in_the_format_of_the_server() {
    let (state, action) = until_format(None);
    assert!(matches!(action, StartupAction::Emit(VncEvent::SetPixelFormat(SERVERS))));
    let (state, action) = state.step(Event::Done);
    assert!(matches!(action, StartupAction::ReadNameLength));
    let (state, action) = state.step(Event::NameLength([0, 0, 0, 4]));
    assert!(matches!(action, StartupAction::ReadName(4)));
    let (state, action) = state.step(Event::Name(b"desk".to_vec()));
    let connected = from_encodings(state, action);
    assert_eq!(connected.format, SERVERS);
    assert_eq!(connected.screen, SCREEN);
    assert_eq!(connected.client().desktop_name(), "desk");
}

#[test]
fn startup_in_the_format_of_the_user() {
    let (state, action) = until_format(Some(OURS));
    assert!(matches!(action, StartupAction::ReadNameLength));
    let (state, action) = state.step(Event::NameLength([0, 0, 0, 0]));
    assert!(matches!(action, StartupAction::ReadName(0)));
    let (state, action) = state.step(Event::Name(vec![]));
    assert!(matches!(action, StartupAction::Write(ClientMsg::SetPixelFormat(OURS))));
    let (state, action) = state.step(Event::Done);
    let connected = from_encodings(state, action);
    assert_eq!(connected.format, OURS);
    assert_eq!(connected.client().desktop_name(), "");
}

#[test]
fn the_first_message_of_the_server_alone() {
    let (state, action) = ServerInit::start::<VncError>(Some(OURS));
    assert!(matches!(action, StartupAction::ReadSize));
    let (state, _) = state.step(Event::Size([3, 0x20, 2, 0x58]));
    let (state, _) = state.step(Event::Done);
    let (state, _) = state.step(Event::Format(SERVERS));
    let (state, action) = state.step(Event::NameLength([0, 1, 2, 3]));
    assert!(matches!(action, StartupAction::ReadName(0x0001_0203)));
    let name = vec![b'x'; 0x0001_0203];
    let (state, _) = state.step(Event::Name(name));
    let (state, action) = state.step(Event::Done);
    assert!(matches!(action, StartupAction::Complete));
    assert!(matches!(state, ServerInit::Complete { format: OURS, screen: SCREEN, .. }));
}

#[test]
fn the_shared_flag() {
    assert_eq!(client_init(true), 1);
    assert_eq!(client_init(false), 0);
    let (_, action) = Startup::start::<VncError>(false, None, vec![]);
    assert!(matches!(action, StartupAction::WriteByte(0)));
}

#[test]
fn names_that_are_not_text_are_mended() {
    let name = vec![b'a', 0xff, b'b'];
    let connected = Connected { format: SERVERS, screen: SCREEN, name };
    assert_eq!(connected.client().desktop_name(), "a\u{fffd}b");
    let name = "b\u{fc}ro".as_bytes().to_vec();
    let connected = Connected { format: SERVERS, screen: SCREEN, name };
    assert_eq!(connected.client().desktop_name(), "b\u{fc}ro");
}

#[test]
fn a_failure_ends_the_start_with_its_error() {
    let (state, _) = until_format(None);
    let (state, action) = state.step(Event::Failed(VncError::WrongPassword));
    assert!(matches!(state, Startup::Failed));
    assert!(matches!(action, StartupAction::Fail(VncError::WrongPassword)));
    let (state, _) = Startup::start::<VncError>(true, None, vec![]);
    let (state, action) = state.step(Event::Failed(VncError::ClientNotRunning));
    assert!(matches!(state, Startup::Failed));
    assert!(matches!(action, StartupAction::Fail(VncError::ClientNotRunning)));
    let (state, _) = ServerInit::start::<VncError>(None);
    let (state, action) = state.step(Event::Failed(VncError::ClientNotRunning));
    assert!(matches!(state, ServerInit::Failed));
    assert!(matches!(action, StartupAction::Fail(VncError::ClientNotRunning)));
}
