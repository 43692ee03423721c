//! The start of a connection, after the server has let the client in.

use crate::client::connection::{full_request, StopSignals, VncInner};
use crate::types::{ClientMsg, PixelFormat, Screen, VncEncoding, VncEvent};
use crate::wire::{be_u16, be_u32, read_u16, read_u32};
use vstd::prelude::*;
use vstd::utf8::{decode_utf8, decode_utf8_encode_utf8, encode_utf8, valid_utf8};

verus! {

use crate::wire::u16_round_trip;

/// The text that `bytes` hold, with replacement characters where they are not UTF-8.
pub uninterp spec fn utf8_lossy(bytes: Seq<u8>) -> Seq<char>;

/// `String::from_utf8_lossy`.
///
/// Claimed of it: the text depends on the bytes alone, and where they are UTF-8 it is what they
/// encode.
#[verifier::external_body]
fn text_from_bytes(bytes: &[u8]) -> (text: String)
    ensures
        text@ == utf8_lossy(bytes@),
        valid_utf8(bytes@) ==> text@ == decode_utf8(bytes@),
{
    String::from_utf8_lossy(bytes).into_owned()
}

/// What is to be done at the start of a connection. `E` is the error of what can fail.
#[derive(Debug)]
pub enum StartupAction<E> {
    /// Write this byte.
    WriteByte(u8),
    /// Read the four bytes of the size of the framebuffer.
    ReadSize,
    /// Read the sixteen bytes of a pixel format.
    ReadFormat,
    /// Read the four bytes of the length of the name.
    ReadNameLength,
    /// Read so many bytes of the name.
    ReadName(u32),
    /// Hand this event to the user.
    Emit(VncEvent),
    /// Write this message.
    Write(ClientMsg),
    /// Put this message into the queue of messages to the server.
    Queue(ClientMsg),
    /// Nothing more: this part is complete.
    Complete,
    /// Fail with this error.
    Fail(E),
}

/// What has come of it.
#[derive(Debug)]
pub enum StartupEvent<E> {
    Size([u8; 4]),
    Format(PixelFormat),
    NameLength([u8; 4]),
    Name(Vec<u8>),
    /// The byte or message is written, the event handed over, or the message queued.
    Done,
    /// What was to be done has failed.
    Failed(E),
}

/// Where the client stands in the first message of the server: the size of the framebuffer, its
/// pixel format and the name of the desktop.
#[derive(Debug)]
pub enum ServerInit {
    /// The size is due. `ours` is the pixel format that the user wants, if any.
    Size { ours: Option<PixelFormat> },
    /// The user is being told the size.
    Resolution { ours: Option<PixelFormat>, screen: Screen },
    /// The pixel format is due.
    Format { ours: Option<PixelFormat>, screen: Screen },
    /// The user is being told the pixel format of the server.
    Announced { format: PixelFormat, screen: Screen },
    /// The length of the name is due. `custom` tells whether the pixel format is the user's.
    NameLength { format: PixelFormat, custom: bool, screen: Screen },
    /// The name is due.
    Name { format: PixelFormat, custom: bool, screen: Screen, len: u32 },
    /// The server is being told the pixel format of the user.
    Custom { format: PixelFormat, screen: Screen, name: Vec<u8> },
    /// All is read.
    Complete { format: PixelFormat, screen: Screen, name: Vec<u8> },
    /// Something has failed.
    Failed,
}

/// The size of the framebuffer in four bytes.
pub open spec fn screen_of(size: Seq<u8>) -> Screen {
    Screen { width: be_u16(size[0], size[1]), height: be_u16(size[2], size[3]) }
}

/// Whether `event` can come of what the client was told to do last.
pub open spec fn server_init_expects<E>(state: ServerInit, event: StartupEvent<E>) -> bool {
    match state {
        ServerInit::Size { .. } => event is Size || event is Failed,
        ServerInit::Resolution { .. } => event is Done || event is Failed,
        ServerInit::Format { .. } => event is Format || event is Failed,
        ServerInit::Announced { .. } => event is Done || event is Failed,
        ServerInit::NameLength { .. } => event is NameLength || event is Failed,
        ServerInit::Name { format, custom, screen, len } => {
            ||| event matches StartupEvent::Name(name) && name@.len() == len
            ||| event is Failed
        },
        ServerInit::Custom { .. } => event is Done || event is Failed,
        ServerInit::Complete { .. } => false,
        ServerInit::Failed => false,
    }
}

/// How the client goes on when `event` has come. A pixel format that the user wants is not
/// announced but sent to the server, once the name is read. A failure ends it with its error.
pub open spec fn server_init_step<E>(state: ServerInit, event: StartupEvent<E>) -> (
    ServerInit,
    StartupAction<E>,
) {
    match (state, event) {
        (_, StartupEvent::Failed(error)) => (ServerInit::Failed, StartupAction::Fail(error)),
        (ServerInit::Size { ours }, StartupEvent::Size(buf)) => {
            let screen = screen_of(buf@);
            (
                ServerInit::Resolution { ours, screen },
                StartupAction::Emit(VncEvent::SetResolution(screen)),
            )
        },
        (ServerInit::Resolution { ours, screen }, _) => (
            ServerInit::Format { ours, screen },
            StartupAction::ReadFormat,
        ),
        (ServerInit::Format { ours: None, screen }, StartupEvent::Format(format)) => (
            ServerInit::Announced { format, screen },
            StartupAction::Emit(VncEvent::SetPixelFormat(format)),
        ),
        (ServerInit::Format { ours: Some(format), screen }, _) => (
            ServerInit::NameLength { format, custom: true, screen },
            StartupAction::ReadNameLength,
        ),
        (ServerInit::Announced { format, screen }, _) => (
            ServerInit::NameLength { format, custom: false, screen },
            StartupAction::ReadNameLength,
        ),
        (ServerInit::NameLength { format, custom, screen }, StartupEvent::NameLength(buf)) => {
            let len = be_u32(buf@[0], buf@[1], buf@[2], buf@[3]);
            (ServerInit::Name { format, custom, screen, len }, StartupAction::ReadName(len))
        },
        (ServerInit::Name { format, custom, screen, len }, StartupEvent::Name(name)) => {
            if custom {
                (
                    ServerInit::Custom { format, screen, name },
                    StartupAction::Write(ClientMsg::SetPixelFormat(format)),
                )
            } else {
                (ServerInit::Complete { format, screen, name }, StartupAction::Complete)
            }
        },
        (ServerInit::Custom { format, screen, name }, _) => (
            ServerInit::Complete { format, screen, name },
            StartupAction::Complete,
        ),
        _ => (state, StartupAction::Complete),
    }
}

impl ServerInit {
    /// Starts to read the message. `ours` is the pixel format that the user wants, if any.
    pub fn start<E>(ours: Option<PixelFormat>) -> (step: (ServerInit, StartupAction<E>))
        ensures
            step == (ServerInit::Size { ours }, StartupAction::<E>::ReadSize),
    {
        (ServerInit::Size { ours }, StartupAction::ReadSize)
    }

    /// Takes the client one step further.
    pub fn step<E>(self, event: StartupEvent<E>) -> (step: (ServerInit, StartupAction<E>))
        requires
            server_init_expects(self, event),
        ensures
            step == server_init_step(self, event),
    {
        match (self, event) {
            (_, StartupEvent::Failed(error)) => (ServerInit::Failed, StartupAction::Fail(error)),
            (ServerInit::Size { ours }, StartupEvent::Size(buf)) => {
                let screen = Screen {
                    width: read_u16(buf[0], buf[1]),
                    height: read_u16(buf[2], buf[3]),
                };
                (
                    ServerInit::Resolution { ours, screen },
                    StartupAction::Emit(VncEvent::SetResolution(screen)),
                )
            },
            (ServerInit::Resolution { ours, screen }, _) => {
                (ServerInit::Format { ours, screen }, StartupAction::ReadFormat)
            },
            (ServerInit::Format { ours: None, screen }, StartupEvent::Format(format)) => {
                (
                    ServerInit::Announced { format, screen },
                    StartupAction::Emit(VncEvent::SetPixelFormat(format)),
                )
            },
            (ServerInit::Format { ours: Some(format), screen }, _) => {
                (
                    ServerInit::NameLength { format, custom: true, screen },
                    StartupAction::ReadNameLength,
                )
            },
            (ServerInit::Announced { format, screen }, _) => {
                (
                    ServerInit::NameLength { format, custom: false, screen },
                    StartupAction::ReadNameLength,
                )
            },
            (ServerInit::NameLength { format, custom, screen }, StartupEvent::NameLength(buf)) => {
                let len: u32 = read_u32(buf[0], buf[1], buf[2], buf[3]);
                (ServerInit::Name { format, custom, screen, len }, StartupAction::ReadName(len))
            },
            (ServerInit::Name { format, custom, screen, len: _ }, StartupEvent::Name(name)) => {
                if custom {
                    (
                        ServerInit::Custom { format, screen, name },
                        StartupAction::Write(ClientMsg::SetPixelFormat(format)),
                    )
                } else {
                    (ServerInit::Complete { format, screen, name }, StartupAction::Complete)
                }
            },
            (ServerInit::Custom { format, screen, name }, _) => {
                (ServerInit::Complete { format, screen, name }, StartupAction::Complete)
            },
            (state, _) => (state, StartupAction::Complete),
        }
    }
}

/// The byte by which the client says whether it shares the desktop with others.
pub fn client_init(shared: bool) -> (flag: u8)
    ensures
        flag == (if shared {
            1u8
        } else {
            0u8
        }),
{
    if shared {
        1
    } else {
        0
    }
}

/// What a server tells at the start of a connection.
#[derive(Debug)]
pub struct Connected {
    /// The pixel format of the connection.
    pub format: PixelFormat,
    /// The size of the framebuffer.
    pub screen: Screen,
    /// The name of the desktop.
    pub name: Vec<u8>,
}

/// Where the start of a connection stands.
#[derive(Debug)]
pub enum Startup {
    /// The shared flag is being written.
    ClientInit { ours: Option<PixelFormat>, encodings: Vec<VncEncoding> },
    /// The first message of the server is being read.
    ServerInit { init: ServerInit, encodings: Vec<VncEncoding> },
    /// The encodings that the client takes are being written.
    Encodings(Connected),
    /// The request for the first frame is being queued.
    Request(Connected),
    /// The tasks of the engine are to be started.
    Started(Connected),
    /// Something has failed.
    Failed,
}

/// Whether `event` can come of what the client was told to do last.
pub open spec fn startup_expects<E>(state: Startup, event: StartupEvent<E>) -> bool {
    match state {
        Startup::ServerInit { init, encodings } => server_init_expects(init, event),
        Startup::Started(_) => false,
        Startup::Failed => false,
        _ => event is Done || event is Failed,
    }
}

/// How the client goes on when `event` has come. A failure ends the start with its error.
pub open spec fn startup_step<E>(state: Startup, event: StartupEvent<E>) -> (
    Startup,
    StartupAction<E>,
) {
    match (state, event) {
        (_, StartupEvent::Failed(error)) => (Startup::Failed, StartupAction::Fail(error)),
        (Startup::ClientInit { ours, encodings }, _) => (
            Startup::ServerInit { init: ServerInit::Size { ours }, encodings },
            StartupAction::ReadSize,
        ),
        (Startup::ServerInit { init, encodings }, _) => {
            let (next, action) = server_init_step(init, event);
            match next {
                ServerInit::Complete { format, screen, name } => (
                    Startup::Encodings(Connected { format, screen, name }),
                    StartupAction::Write(ClientMsg::SetEncodings(encodings)),
                ),
                _ => (Startup::ServerInit { init: next, encodings }, action),
            }
        },
        (Startup::Encodings(connected), _) => (
            Startup::Request(connected),
            StartupAction::Queue(full_request(connected.screen)),
        ),
        (Startup::Request(connected), _) => (
            Startup::Started(connected),
            StartupAction::Complete,
        ),
        _ => (state, StartupAction::Complete),
    }
}

impl Startup {
    /// Starts a connection. `shared` tells whether others may use the desktop too, `ours` is the
    /// pixel format that the user wants, if any, and `encodings` are those that the client takes.
    pub fn start<E>(
        shared: bool,
        ours: Option<PixelFormat>,
        encodings: Vec<VncEncoding>,
    ) -> (step: (Startup, StartupAction<E>))
        ensures
            step == (
                Startup::ClientInit { ours, encodings },
                StartupAction::<E>::WriteByte(
                    if shared {
                        1u8
                    } else {
                        0u8
                    },
                ),
            ),
    {
        (Startup::ClientInit { ours, encodings }, StartupAction::WriteByte(client_init(shared)))
    }

    /// Takes the client one step further.
    pub fn step<E>(self, event: StartupEvent<E>) -> (step: (Startup, StartupAction<E>))
        requires
            startup_expects(self, event),
        ensures
            step == startup_step(self, event),
    {
        match (self, event) {
            (_, StartupEvent::Failed(error)) => (Startup::Failed, StartupAction::Fail(error)),
            (Startup::ClientInit { ours, encodings }, _) => {
                let (init, action) = ServerInit::start(ours);
                (Startup::ServerInit { init, encodings }, action)
            },
            (Startup::ServerInit { init, encodings }, event) => {
                let (next, action) = init.step(event);
                match next {
                    ServerInit::Complete { format, screen, name } => {
                        (
                            Startup::Encodings(Connected { format, screen, name }),
                            StartupAction::Write(ClientMsg::SetEncodings(encodings)),
                        )
                    },
                    init => (Startup::ServerInit { init, encodings }, action),
                }
            },
            (Startup::Encodings(connected), _) => {
                let request = ClientMsg::FramebufferUpdateRequest(connected.screen.whole(), 0);
                (Startup::Request(connected), StartupAction::Queue(request))
            },
            (Startup::Request(connected), _) => {
                (Startup::Started(connected), StartupAction::Complete)
            },
            (state, _) => (state, StartupAction::Complete),
        }
    }
}

impl Connected {
    /// The connected client, whose two tasks are started.
    pub fn client(&self) -> (client: VncInner)
        ensures
            client.name() == utf8_lossy(self.name@),
            valid_utf8(self.name@) ==> client.name() == decode_utf8(self.name@),
            valid_utf8(self.name@) ==> encode_utf8(client.name()) == self.name@,
            client.running() == (StopSignals { net_conn: true, decoding: true }),
            !client.closed(),
    {
        proof {
            if valid_utf8(self.name@) {
                decode_utf8_encode_utf8(self.name@);
            }
        }
        VncInner::new(text_from_bytes(&self.name))
    }
}

/// Whether `event` tells what has come of `action`.
pub open spec fn startup_answers<E>(action: StartupAction<E>, event: StartupEvent<E>) -> bool {
    match action {
        StartupAction::ReadSize => event is Size || event is Failed,
        StartupAction::ReadFormat => event is Format || event is Failed,
        StartupAction::ReadNameLength => event is NameLength || event is Failed,
        StartupAction::ReadName(len) => {
            ||| event matches StartupEvent::Name(name) && name@.len() == len
            ||| event is Failed
        },
        StartupAction::Complete => false,
        StartupAction::Fail(_) => false,
        _ => event is Done || event is Failed,
    }
}

/// Whoever does what the client says can take it one step further with what has come of it, until
/// the connection is started or something has failed.
pub proof fn startup_can_go_on<E>(state: Startup, event: StartupEvent<E>, answer: StartupEvent<E>)
    requires
        startup_expects(state, event),
    ensures
        startup_answers(startup_step(state, event).1, answer) ==> startup_expects(
            startup_step(state, event).0,
            answer,
        ),
        startup_step(state, event).0 is Started <==> startup_step(state, event).1 is Complete,
        startup_step(state, event).0 is Failed <==> startup_step(state, event).1 is Fail,
{
}

/// Where a run over `events` ends, and all that the client is told to do on the way.
pub open spec fn startup_run<E>(state: Startup, events: Seq<StartupEvent<E>>) -> (
    Startup,
    Seq<StartupAction<E>>,
)
    decreases events.len(),
{
    if events.len() == 0 {
        (state, Seq::empty())
    } else {
        let (next, action) = startup_step(state, events[0]);
        let (last, actions) = startup_run(next, events.drop_first());
        (last, seq![action] + actions)
    }
}

/// The size of the framebuffer is the numbers in its bytes, and any size is read back from its
/// bytes.
pub proof fn sizes_are_read_back(size: Seq<u8>, screen: Screen)
    ensures
        screen_of(size).width == 256 * size[0] + size[1],
        screen_of(size).height == 256 * size[2] + size[3],
        screen_of(
            seq![
                (screen.width / 256) as u8,
                (screen.width % 256) as u8,
                (screen.height / 256) as u8,
                (screen.height % 256) as u8,
            ],
        ) == screen,
{
    u16_round_trip(screen.width);
    u16_round_trip(screen.height);
}

/// Whether each of `events` can come of what the client was told to do before it.
pub open spec fn startup_accepts<E>(state: Startup, events: Seq<StartupEvent<E>>) -> bool
    decreases events.len(),
{
    events.len() > 0 ==> {
        &&& startup_expects(state, events[0])
        &&& startup_accepts(startup_step(state, events[0]).0, events.drop_first())
    }
}

/// The first failure ends the start of a connection at once: nothing comes after it in a run, and
/// the last thing that the client is told is to fail with its error. All before it goes as it
/// would have gone without it.
pub proof fn first_failure_ends_startup<E>(state: Startup, events: Seq<StartupEvent<E>>, i: int)
    requires
        startup_accepts(state, events),
        0 <= i < events.len(),
        events[i] is Failed,
    ensures
        i == events.len() - 1,
        startup_run(state, events).0 is Failed,
        startup_run(state, events).1 == startup_run(state, events.drop_last()).1.push(
            StartupAction::Fail(events[i]->Failed_0),
        ),
    decreases events.len(),
{
    let (next, action) = startup_step(state, events[0]);
    let tail = events.drop_first();
    reveal_with_fuel(startup_run, 2);
    reveal_with_fuel(startup_accepts, 2);
    if i == 0 {
        assert(tail.len() == 0);
        assert(events.drop_last().len() == 0);
    } else {
        assert(tail[i - 1] == events[i]);
        first_failure_ends_startup(next, tail, i - 1);
        assert(events.drop_last().drop_first() =~= tail.drop_last());
        assert(events.drop_last()[0] == events[0]);
    }
    assert(startup_run(state, events).1 =~= startup_run(state, events.drop_last()).1.push(
        StartupAction::Fail(events[i]->Failed_0),
    ));
}

/// Where the user leaves the pixel format to the server, the client announces size and format to
/// the user, then sends its encodings and asks for the first frame.
pub proof fn startup_with_the_servers_format<E>(
    encodings: Vec<VncEncoding>,
    size: [u8; 4],
    format: PixelFormat,
    length: [u8; 4],
    name: Vec<u8>,
)
    ensures
        startup_run(
            Startup::ClientInit { ours: None, encodings },
            seq![
                StartupEvent::<E>::Done,
                StartupEvent::Size(size),
                StartupEvent::Done,
                StartupEvent::Format(format),
                StartupEvent::Done,
                StartupEvent::NameLength(length),
                StartupEvent::Name(name),
                StartupEvent::Done,
                StartupEvent::Done,
            ],
        ) == (
            Startup::Started(Connected { format, screen: screen_of(size@), name }),
            seq![
                StartupAction::<E>::ReadSize,
                StartupAction::Emit(VncEvent::SetResolution(screen_of(size@))),
                StartupAction::ReadFormat,
                StartupAction::Emit(VncEvent::SetPixelFormat(format)),
                StartupAction::ReadNameLength,
                StartupAction::ReadName(be_u32(length@[0], length@[1], length@[2], length@[3])),
                StartupAction::Write(ClientMsg::SetEncodings(encodings)),
                StartupAction::Queue(full_request(screen_of(size@))),
                StartupAction::Complete,
            ],
        ),
{
    reveal_with_fuel(startup_run, 10);
    let events = seq![
        StartupEvent::<E>::Done,
        StartupEvent::Size(size),
        StartupEvent::Done,
        StartupEvent::Format(format),
        StartupEvent::Done,
        StartupEvent::NameLength(length),
        StartupEvent::Name(name),
        StartupEvent::Done,
        StartupEvent::Done,
    ];
    let run = startup_run(Startup::ClientInit { ours: None, encodings }, events);
    assert(run.1 =~= seq![
        StartupAction::<E>::ReadSize,
        StartupAction::Emit(VncEvent::SetResolution(screen_of(size@))),
        StartupAction::ReadFormat,
        StartupAction::Emit(VncEvent::SetPixelFormat(format)),
        StartupAction::ReadNameLength,
        StartupAction::ReadName(be_u32(length@[0], length@[1], length@[2], length@[3])),
        StartupAction::Write(ClientMsg::SetEncodings(encodings)),
        StartupAction::Queue(full_request(screen_of(size@))),
        StartupAction::Complete,
    ]);
}

/// Where the user wants a pixel format of their own, the client announces only the size to the
/// user, and sends that format to the server before its encodings; the format of the server does
/// not count.
pub proof fn startup_with_the_users_format<E>(
    ours: PixelFormat,
    encodings: Vec<VncEncoding>,
    size: [u8; 4],
    format: PixelFormat,
    length: [u8; 4],
    name: Vec<u8>,
)
    ensures
        startup_run(
            Startup::ClientInit { ours: Some(ours), encodings },
            seq![
                StartupEvent::<E>::Done,
                StartupEvent::Size(size),
                StartupEvent::Done,
                StartupEvent::Format(format),
                StartupEvent::NameLength(length),
                StartupEvent::Name(name),
                StartupEvent::Done,
                StartupEvent::Done,
                StartupEvent::Done,
            ],
        ) == (
            Startup::Started(Connected { format: ours, screen: screen_of(size@), name }),
            seq![
                StartupAction::<E>::ReadSize,
                StartupAction::Emit(VncEvent::SetResolution(screen_of(size@))),
                StartupAction::ReadFormat,
                StartupAction::ReadNameLength,
                StartupAction::ReadName(be_u32(length@[0], length@[1], length@[2], length@[3])),
                StartupAction::Write(ClientMsg::SetPixelFormat(ours)),
                StartupAction::Write(ClientMsg::SetEncodings(encodings)),
                StartupAction::Queue(full_request(screen_of(size@))),
                StartupAction::Complete,
            ],
        ),
{
    reveal_with_fuel(startup_run, 10);
    let events = seq![
        StartupEvent::<E>::Done,
        StartupEvent::Size(size),
        StartupEvent::Done,
        StartupEvent::Format(format),
        StartupEvent::NameLength(length),
        StartupEvent::Name(name),
        StartupEvent::Done,
        StartupEvent::Done,
        StartupEvent::Done,
    ];
    let run = startup_run(Startup::ClientInit { ours: Some(ours), encodings }, events);
    assert(run.1 =~= seq![
        StartupAction::<E>::ReadSize,
        StartupAction::Emit(VncEvent::SetResolution(screen_of(size@))),
        StartupAction::ReadFormat,
        StartupAction::ReadNameLength,
        StartupAction::ReadName(be_u32(length@[0], length@[1], length@[2], length@[3])),
        StartupAction::Write(ClientMsg::SetPixelFormat(ours)),
        StartupAction::Write(ClientMsg::SetEncodings(encodings)),
        StartupAction::Queue(full_request(screen_of(size@))),
        StartupAction::Complete,
    ]);
}

} // verus!
