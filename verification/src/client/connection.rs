//! The client as its user sees it: input, events, and its end.

use crate::error::{IoErrorKind, VncError};
use crate::types::{
    ClientKeyEvent, ClientMouseEvent, ClientMsg, Screen, VncEvent, X11Event,
};
use vstd::prelude::*;

verus! {

/// How many items each queue between the tasks of the engine and its user holds.
pub const CHANNEL_SIZE: usize = 4096;

/// The request for the whole framebuffer, regardless of what has changed.
pub open spec fn full_request(screen: Screen) -> ClientMsg {
    ClientMsg::FramebufferUpdateRequest(screen.whole(), 0)
}

/// The message that an event of the user becomes while the framebuffer has the size `screen`.
pub open spec fn input_message(event: X11Event, screen: Screen) -> ClientMsg {
    match event {
        X11Event::Refresh => ClientMsg::FramebufferUpdateRequest(screen.whole(), 1),
        X11Event::FullRefresh => full_request(screen),
        X11Event::KeyEvent(key) => ClientMsg::KeyEvent(key.keycode, key.down),
        X11Event::PointerEvent(mouse) => ClientMsg::PointerEvent(
            mouse.position_x,
            mouse.position_y,
            mouse.bottons,
        ),
        X11Event::CopyText(text) => ClientMsg::ClientCutText(text),
    }
}

/// Which of the two tasks of the engine are to be told to stop.
#[derive(Debug, Clone, Copy, PartialEq, Eq, Structural)]
pub struct StopSignals {
    pub net_conn: bool,
    pub decoding: bool,
}

impl StopSignals {
    /// Nothing is to be told.
    pub open spec fn is_none(self) -> bool {
        !self.net_conn && !self.decoding
    }
}

/// The state of a connected client. Each task of the engine can be told to stop once.
#[derive(Debug)]
pub struct VncInner {
    name: String,
    net_conn_stop: bool,
    decoding_stop: bool,
    closed: bool,
}

/// Whether closing the client takes it from `before` to `after` and names `signals`.
pub open spec fn closes(before: VncInner, after: VncInner, signals: StopSignals) -> bool {
    &&& signals == before.running()
    &&& after.running().is_none()
    &&& after.closed()
    &&& after.name() == before.name()
}

impl VncInner {
    /// The name of the desktop.
    pub closed spec fn name(self) -> Seq<char> {
        self.name@
    }

    /// The tasks that have not been told to stop.
    pub closed spec fn running(self) -> StopSignals {
        StopSignals { net_conn: self.net_conn_stop, decoding: self.decoding_stop }
    }

    /// Whether the client is closed.
    pub closed spec fn closed(self) -> bool {
        self.closed
    }

    /// What becomes of an event of the user while the framebuffer has the size `screen`.
    pub open spec fn input_result(self, event: X11Event, screen: Screen) -> Result<
        ClientMsg,
        VncError,
    > {
        if self.closed() {
            Err(VncError::ClientNotRunning)
        } else {
            Ok(input_message(event, screen))
        }
    }

    /// A client whose two tasks are started.
    pub fn new(name: String) -> (inner: VncInner)
        ensures
            inner.name() == name@,
            inner.running() == (StopSignals { net_conn: true, decoding: true }),
            !inner.closed(),
    {
        VncInner { name, net_conn_stop: true, decoding_stop: true, closed: false }
    }

    /// The name of the desktop.
    pub fn desktop_name(&self) -> (name: &str)
        ensures
            name@ == self.name(),
    {
        self.name.as_str()
    }

    /// The message to send for an event of the user. `screen` is the size of the framebuffer by
    /// now.
    pub fn input(&self, event: X11Event, screen: Screen) -> (r: Result<ClientMsg, VncError>)
        ensures
            r == self.input_result(event, screen),
            self.closed() ==> r == Err::<ClientMsg, VncError>(VncError::ClientNotRunning),
            !self.closed() ==> (r matches Ok(msg) && match event {
                X11Event::Refresh => msg matches ClientMsg::FramebufferUpdateRequest(rect, 1)
                    && rect.x == 0 && rect.y == 0 && rect.width == screen.width && rect.height
                    == screen.height,
                X11Event::FullRefresh => msg matches ClientMsg::FramebufferUpdateRequest(rect, 0)
                    && rect.x == 0 && rect.y == 0 && rect.width == screen.width && rect.height
                    == screen.height,
                X11Event::KeyEvent(key) => msg matches ClientMsg::KeyEvent(keycode, down)
                    && keycode == key.keycode && down == key.down,
                X11Event::PointerEvent(mouse) => msg matches ClientMsg::PointerEvent(x, y, buttons)
                    && x == mouse.position_x && y == mouse.position_y && buttons == mouse.bottons,
                X11Event::CopyText(text) => msg matches ClientMsg::ClientCutText(sent) && sent
                    == text,
            }),
    {
        if self.closed {
            Err(VncError::ClientNotRunning)
        } else {
            let msg = match event {
                X11Event::Refresh => ClientMsg::FramebufferUpdateRequest(screen.whole(), 1),
                X11Event::FullRefresh => ClientMsg::FramebufferUpdateRequest(screen.whole(), 0),
                X11Event::KeyEvent(key) => ClientMsg::KeyEvent(key.keycode, key.down),
                X11Event::PointerEvent(mouse) => {
                    ClientMsg::PointerEvent(mouse.position_x, mouse.position_y, mouse.bottons)
                },
                X11Event::CopyText(text) => ClientMsg::ClientCutText(text),
            };
            Ok(msg)
        }
    }

    /// Closes the client, and names the tasks that are to be told so.
    pub fn close(&mut self) -> (signals: StopSignals)
        ensures
            closes(*old(self), *final(self), signals),
            signals == old(self).running(),
            !final(self).running().net_conn && !final(self).running().decoding,
            final(self).closed(),
            final(self).name() == old(self).name(),
    {
        let signals = StopSignals { net_conn: self.net_conn_stop, decoding: self.decoding_stop };
        self.net_conn_stop = false;
        self.decoding_stop = false;
        self.closed = true;
        signals
    }
}

/// What the queue of events gives where it is not waited for.
#[derive(Debug)]
pub enum Polled<E> {
    Event(E),
    /// No event is there by now.
    Empty,
    /// No event will come.
    Disconnected,
}

/// A connected client.
#[derive(Debug)]
pub struct VncClient {
    inner: VncInner,
}

impl VncClient {
    /// The state of the client.
    pub closed spec fn inner(self) -> VncInner {
        self.inner
    }

    /// Wraps the state of a connected client.
    pub fn new(inner: VncInner) -> (client: VncClient)
        ensures
            client.inner() == inner,
    {
        VncClient { inner }
    }

    /// The name of the desktop.
    pub fn desktop_name(&self) -> (name: &str)
        ensures
            name@ == self.inner().name(),
    {
        self.inner.desktop_name()
    }

    /// The message to send for an event of the user. `screen` is the size of the framebuffer by
    /// now.
    pub fn input(&self, event: X11Event, screen: Screen) -> (r: Result<ClientMsg, VncError>)
        ensures
            r == self.inner().input_result(event, screen),
            self.inner().closed() ==> r == Err::<ClientMsg, VncError>(VncError::ClientNotRunning),
            !self.inner().closed() ==> (r matches Ok(msg) && match event {
                X11Event::Refresh => msg matches ClientMsg::FramebufferUpdateRequest(rect, 1)
                    && rect.x == 0 && rect.y == 0 && rect.width == screen.width && rect.height
                    == screen.height,
                X11Event::FullRefresh => msg matches ClientMsg::FramebufferUpdateRequest(rect, 0)
                    && rect.x == 0 && rect.y == 0 && rect.width == screen.width && rect.height
                    == screen.height,
                X11Event::KeyEvent(key) => msg matches ClientMsg::KeyEvent(keycode, down)
                    && keycode == key.keycode && down == key.down,
                X11Event::PointerEvent(mouse) => msg matches ClientMsg::PointerEvent(x, y, buttons)
                    && x == mouse.position_x && y == mouse.position_y && buttons == mouse.bottons,
                X11Event::CopyText(text) => msg matches ClientMsg::ClientCutText(sent) && sent
                    == text,
            }),
    {
        self.inner.input(event, screen)
    }

    /// The outcome of waiting for an event, given what came out of the queue of events.
    pub fn recv_event<E>(received: Option<E>) -> (r: Result<E, VncError>)
        ensures
            r == (match received {
                Some(e) => Ok(e),
                None => Err(VncError::ClientNotRunning),
            }),
    {
        match received {
            Some(e) => Ok(e),
            None => Err(VncError::ClientNotRunning),
        }
    }

    /// The outcome of looking for an event, given what the queue of events shows.
    pub fn poll_event<E>(polled: Polled<E>) -> (r: Result<Option<E>, VncError>)
        ensures
            r == (match polled {
                Polled::Event(e) => Ok(Some(e)),
                Polled::Empty => Ok(None),
                Polled::Disconnected => Err(VncError::ClientNotRunning),
            }),
    {
        match polled {
            Polled::Event(e) => Ok(Some(e)),
            Polled::Empty => Ok(None),
            Polled::Disconnected => Err(VncError::ClientNotRunning),
        }
    }

    /// Closes the client, and names the tasks that are to be told so.
    pub fn close(&mut self) -> (signals: StopSignals)
        ensures
            closes(old(self).inner(), final(self).inner(), signals),
            signals == old(self).inner().running(),
            !final(self).inner().running().net_conn && !final(self).inner().running().decoding,
            final(self).inner().closed(),
            final(self).inner().name() == old(self).inner().name(),
    {
        self.inner.close()
    }
}

/// What the user is told where decoding ends with `error`, which `text` puts into words: nothing
/// where the transport has ended, which is how a connection normally goes.
pub open spec fn decoding_reported(error: VncError, text: String) -> Option<VncEvent> {
    if error == VncError::IoError(IoErrorKind::UnexpectedEof) {
        None
    } else {
        Some(VncEvent::Error(text))
    }
}

/// Tells what the user is told where decoding ends with `error`, which `text` puts into words.
pub fn decoding_report(error: &VncError, text: String) -> (report: Option<VncEvent>)
    ensures
        report == decoding_reported(*error, text),
        report is None <==> *error == VncError::IoError(IoErrorKind::UnexpectedEof),
        report matches Some(event) ==> event == VncEvent::Error(text),
{
    match error {
        VncError::IoError(IoErrorKind::UnexpectedEof) => None,
        _ => Some(VncEvent::Error(text)),
    }
}

/// Every error but the end of the transport is reported, in its own words; two errors that are put
/// into different words give different reports.
pub proof fn every_error_is_reported(error: VncError, text: String, other: VncError, words: String)
    ensures
        decoding_reported(error, text) is None <==> (error matches VncError::IoError(kind) && kind
            is UnexpectedEof),
        decoding_reported(error, text) matches Some(event) ==> (event matches VncEvent::Error(told)
            && told == text),
        decoding_reported(error, text) is Some && decoding_reported(error, text)
            == decoding_reported(other, words) ==> text == words,
{
}

/// The request for everything is for the rectangle from the corner to the full width and height,
/// and not only for what has changed.
pub proof fn full_request_is_for_everything(screen: Screen)
    ensures
        full_request(screen) matches ClientMsg::FramebufferUpdateRequest(rect, incremental)
            && incremental == 0 && rect.x == 0 && rect.y == 0 && rect.width == screen.width
            && rect.height == screen.height,
{
}

/// What the user does reaches the server as it was done: a key with its code and whether it goes
/// down or up, the pointer with its place and buttons, a text as it is, and a refresh for the
/// whole screen of the moment.
pub proof fn input_arrives_as_it_was_made(
    client: VncInner,
    screen: Screen,
    key: ClientKeyEvent,
    mouse: ClientMouseEvent,
    text: String,
)
    requires
        !client.closed(),
    ensures
        client.input_result(X11Event::KeyEvent(key), screen) matches Ok(
            ClientMsg::KeyEvent(keycode, down),
        ) && keycode == key.keycode && down == key.down,
        client.input_result(X11Event::PointerEvent(mouse), screen) matches Ok(
            ClientMsg::PointerEvent(x, y, buttons),
        ) && x == mouse.position_x && y == mouse.position_y && buttons == mouse.bottons,
        client.input_result(X11Event::CopyText(text), screen) matches Ok(
            ClientMsg::ClientCutText(sent),
        ) && sent == text,
        client.input_result(X11Event::Refresh, screen) matches Ok(
            ClientMsg::FramebufferUpdateRequest(rect, incremental),
        ) && incremental == 1 && rect.x == 0 && rect.y == 0 && rect.width == screen.width
            && rect.height == screen.height,
        client.input_result(X11Event::FullRefresh, screen) matches Ok(
            ClientMsg::FramebufferUpdateRequest(rect, incremental),
        ) && incremental == 0 && rect.x == 0 && rect.y == 0 && rect.width == screen.width
            && rect.height == screen.height,
{
}

/// Different events of the user become different messages.
pub proof fn different_inputs_become_different_messages(
    client: VncInner,
    a: X11Event,
    b: X11Event,
    screen: Screen,
)
    requires
        !client.closed(),
        client.input_result(a, screen) == client.input_result(b, screen),
    ensures
        a == b,
{
}

/// Only a closed client refuses input, and the size of the screen has a part in refreshes alone.
pub proof fn only_a_closed_client_refuses_input(
    client: VncInner,
    event: X11Event,
    screen: Screen,
    other: Screen,
)
    ensures
        client.input_result(event, screen) is Ok <==> !client.closed(),
        event !is Refresh && event !is FullRefresh ==> client.input_result(event, screen)
            == client.input_result(event, other),
        !client.closed() && (event is Refresh || event is FullRefresh) && client.input_result(
            event,
            screen,
        ) == client.input_result(event, other) ==> screen == other,
{
}

/// Closing a client again tells no task anything.
pub proof fn closing_twice_signals_once(
    client: VncInner,
    closed: VncInner,
    closed_again: VncInner,
    first: StopSignals,
    second: StopSignals,
)
    requires
        closes(client, closed, first),
        closes(closed, closed_again, second),
    ensures
        second.is_none(),
{
}

/// A closed client takes no input.
pub proof fn closed_client_takes_no_input(
    client: VncInner,
    closed: VncInner,
    signals: StopSignals,
    event: X11Event,
    screen: Screen,
)
    requires
        closes(client, closed, signals),
    ensures
        closed.input_result(event, screen) == Err::<ClientMsg, VncError>(
            VncError::ClientNotRunning,
        ),
{
}

} // verus!
