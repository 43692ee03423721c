use vnc::client::connection::{decoding_report, Polled, StopSignals, VncClient, VncInner};
use vnc::error::{IoErrorKind, VncError};
use vnc::types::{
    ClientKeyEvent, ClientMouseEvent, ClientMsg, Rect, Screen, VncEvent, X11Event,
};

const SCREEN: Screen = Screen { width: 800, height: 600 };
const WHOLE: Rect = Rect { x: 0, y: 0, width: 800, height: 600 };

fn client() -> VncClient {
    VncClient::new(VncInner::new("desk".to_string()))
}

#[test]
fn events_become_messages() {
    let client = client();
    assert_eq!(client.desktop_name(), "desk");
    assert!(matches!(
        client.input(X11Event::Refresh, SCREEN),
        Ok(ClientMsg::FramebufferUpdateRequest(WHOLE, 1))
    ));
    assert!(matches!(
        client.input(X11Event::FullRefresh, SCREEN),
        Ok(ClientMsg::FramebufferUpdateRequest(WHOLE, 0))
    ));
    assert!(matches!(
        client.input(X11Event::KeyEvent(ClientKeyEvent { keycode: 0xff0d, down: true }), SCREEN),
        Ok(ClientMsg::KeyEvent(0xff0d, true))
    ));
    let mouse = ClientMouseEvent { position_x: 3, position_y: 4, bottons: 5 };
    assert!(matches!(
        client.input(X11Event::PointerEvent(mouse), SCREEN),
        Ok(ClientMsg::PointerEvent(3, 4, 5))
    ));
    match client.input(X11Event::CopyText("text".to_string()), SCREEN) {
        Ok(ClientMsg::ClientCutText(text)) => assert_eq!(text, "text"),
        other => panic!("Expected a text, got {:?}", other),
    }
}

#[test]
fn requests_follow_the_size_of_the_screen() {
    let client = client();
    let larger = Screen { width: 1024, height: 768 };
    match client.input(X11Event::FullRefresh, larger) {
        Ok(ClientMsg::FramebufferUpdateRequest(rect, 0)) => assert_eq!(rect, larger.whole()),
        other => panic!("Expected a request, got {:?}", other),
    }
    assert_eq!(larger.whole(), Rect { x: 0, y: 0, width: 1024, height: 768 });
}

#[test]
fn a_client_is_closed_once() {
    let mut client = client();
    assert_eq!(client.close(), StopSignals { net_conn: true, decoding: true });
    assert_eq!(client.close(), StopSignals { net_conn: false, decoding: false });
    assert_eq!(client.desktop_name(), "desk");
}

#[test]
fn a_closed_client_takes_no_input() {
    let mut client = client();
    client.close();
    for event in [X11Event::Refresh, X11Event::FullRefresh, X11Event::CopyText(String::new())] {
        assert!(matches!(client.input(event, SCREEN), Err(VncError::ClientNotRunning)));
    }
    let mut inner = VncInner::new(String::new());
    assert_eq!(inner.close(), StopSignals { net_conn: true, decoding: true });
    assert!(matches!(inner.input(X11Event::Refresh, SCREEN), Err(VncError::ClientNotRunning)));
}

#[test]
fn events_are_received() {
    assert!(matches!(VncClient::recv_event(Some(VncEvent::Bell)), Ok(VncEvent::Bell)));
    assert!(matches!(
        VncClient::recv_event(None::<VncEvent>),
        Err(VncError::ClientNotRunning)
    ));
}

#[test]
fn events_are_polled() {
    assert!(matches!(
        VncClient::poll_event(Polled::Event(VncEvent::Bell)),
        Ok(Some(VncEvent::Bell))
    ));
    assert!(matches!(VncClient::poll_event(Polled::<VncEvent>::Empty), Ok(None)));
    assert!(matches!(
        VncClient::poll_event(Polled::<VncEvent>::Disconnected),
        Err(VncError::ClientNotRunning)
    ));
}

#[test]
fn the_end_of_the_transport_is_not_reported() {
    let eof = VncError::IoError(IoErrorKind::UnexpectedEof);
    assert!(decoding_report(&eof, "eof".to_string()).is_none());
    for error in [VncError::IoError(IoErrorKind::Other), VncError::WrongPassword] {
        match decoding_report(&error, "broken".to_string()) {
            Some(VncEvent::Error(text)) => assert_eq!(text, "broken"),
            other => panic!("Expected a report, got {:?}", other),
        }
    }
}
