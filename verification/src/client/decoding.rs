//! The decoding task: what to do with each message of the server.

use crate::client::connection::{full_request, input_message};
use crate::types::{ClientMsg, Rect, Screen, ServerMsg, VncEncoding, VncEvent, X11Event};
use crate::wire::{be_u16, be_u32, read_u16, read_u32};
use vstd::prelude::*;
use vstd::std_specs::convert::FromSpecImpl;

verus! {

use crate::types::encoding_of;
use crate::wire::{u16_round_trip, u32_round_trip};

/// The head of a rectangle: its place, and how it is encoded.
#[derive(Debug, Clone, Copy, PartialEq, Eq, Structural)]
pub struct ImageRect {
    pub rect: Rect,
    pub encoding: VncEncoding,
}

/// The head of a rectangle in twelve bytes.
pub open spec fn image_rect(buf: Seq<u8>) -> ImageRect {
    ImageRect {
        rect: Rect {
            x: be_u16(buf[0], buf[1]),
            y: be_u16(buf[2], buf[3]),
            width: be_u16(buf[4], buf[5]),
            height: be_u16(buf[6], buf[7]),
        },
        encoding: encoding_of(be_u32(buf[8], buf[9], buf[10], buf[11])),
    }
}

impl FromSpecImpl<[u8; 12]> for ImageRect {
    open spec fn obeys_from_spec() -> bool {
        true
    }

    open spec fn from_spec(buf: [u8; 12]) -> ImageRect {
        image_rect(buf@)
    }
}

impl From<[u8; 12]> for ImageRect {
    fn from(buf: [u8; 12]) -> (r: ImageRect)
        ensures
            r.rect.x == 256 * buf@[0] + buf@[1],
            r.rect.y == 256 * buf@[2] + buf@[3],
            r.rect.width == 256 * buf@[4] + buf@[5],
            r.rect.height == 256 * buf@[6] + buf@[7],
            r.encoding == encoding_of(
                (256 * (256 * (256 * buf@[8] + buf@[9]) + buf@[10]) + buf@[11]) as u32,
            ),
    {
        ImageRect {
            rect: Rect {
                x: read_u16(buf[0], buf[1]),
                y: read_u16(buf[2], buf[3]),
                width: read_u16(buf[4], buf[5]),
                height: read_u16(buf[6], buf[7]),
            },
            encoding: read_u32(buf[8], buf[9], buf[10], buf[11]).into(),
        }
    }
}

/// The place and size in the head of a rectangle are the numbers in its bytes, and so is the number
/// of its encoding.
pub proof fn heads_hold_the_numbers_of_their_bytes(buf: Seq<u8>, num: u32)
    requires
        num == 256 * (256 * (256 * buf[8] + buf[9]) + buf[10]) + buf[11],
    ensures
        image_rect(buf).rect.x == 256 * buf[0] + buf[1],
        image_rect(buf).rect.y == 256 * buf[2] + buf[3],
        image_rect(buf).rect.width == 256 * buf[4] + buf[5],
        image_rect(buf).rect.height == 256 * buf[6] + buf[7],
        image_rect(buf).encoding == encoding_of(num),
{
}

/// Any rectangle and any encoding are read back from the twelve bytes that a server sends for them.
pub proof fn heads_are_read_back(rect: Rect, num: u32)
    ensures
        ({
            let head = image_rect(
                seq![
                    (rect.x / 256) as u8,
                    (rect.x % 256) as u8,
                    (rect.y / 256) as u8,
                    (rect.y % 256) as u8,
                    (rect.width / 256) as u8,
                    (rect.width % 256) as u8,
                    (rect.height / 256) as u8,
                    (rect.height % 256) as u8,
                    (num / 0x100_0000) as u8,
                    (num / 0x1_0000 % 256) as u8,
                    (num / 256 % 256) as u8,
                    (num % 256) as u8,
                ],
            );
            head.rect == rect && head.encoding == encoding_of(num)
        }),
{
    u16_round_trip(rect.x);
    u16_round_trip(rect.y);
    u16_round_trip(rect.width);
    u16_round_trip(rect.height);
    u32_round_trip(num);
}

/// What the stop signal of a task shows.
#[derive(Debug, Clone, Copy, PartialEq, Eq, Structural)]
pub enum StopSignal {
    /// There is none yet.
    Empty,
    Received,
    /// There will be none: its sender is gone.
    Closed,
}

/// What became of something offered to a queue without waiting.
#[derive(Debug, Clone, Copy, PartialEq, Eq, Structural)]
pub enum SendOutcome {
    Sent,
    /// The queue has no room by now.
    Full,
    /// The queue has no reader any more.
    Closed,
}

/// The decoders for the pixels of a rectangle.
#[derive(Debug, Clone, Copy, PartialEq, Eq, Structural)]
pub enum Codec {
    Raw,
    Tight,
    Trle,
    Zrle,
    Cursor,
}

/// Where the decoding task stands.
#[derive(Debug, Clone, Copy, PartialEq, Eq, Structural)]
pub enum ReadLoop {
    /// The stop signal is to be looked at.
    Poll,
    /// A message is due.
    Message,
    /// The head of a rectangle is due, the first of `left`.
    Header { left: u16 },
    /// The source of a copied rectangle is due; `left` more rectangles follow.
    Source { rect: Rect, left: u16 },
    /// The framebuffer is being resized to `screen`: the size is stored.
    Stored { screen: Screen, left: u16 },
    /// The framebuffer is being resized to `screen`: the request for all of it is offered.
    Offered { screen: Screen, left: u16 },
    /// A rectangle is being brought to its end; `left` more follow.
    Working { left: u16 },
    /// The event of a message is on its way to the user.
    Delivering,
    /// The task is over.
    Finished,
}

/// What the task is to do. `E` is the error of what can fail.
#[derive(Debug)]
pub enum ReadAction<E> {
    /// Look at the stop signal.
    PollStop,
    /// Read a message.
    ReadMessage,
    /// Read the twelve bytes of the head of a rectangle.
    ReadHeader,
    /// Read the four bytes of the source of a copied rectangle.
    ReadSource,
    /// Let a decoder read the pixels of a rectangle.
    Decode(Codec, Rect),
    /// Make this the size of the framebuffer for all tasks.
    StoreScreen(Screen),
    /// Offer this message to the queue of messages to the server, without waiting.
    Offer(ClientMsg),
    /// Hand this event to the user.
    Emit(VncEvent),
    /// Fail: the rectangle is in an encoding that the client does not know.
    Unsupported(u32),
    /// Fail with this error.
    Fail(E),
    /// End.
    Finish,
}

/// What has come of it.
#[derive(Debug)]
pub enum ReadEvent<E> {
    Stop(StopSignal),
    Message(ServerMsg),
    Header([u8; 12]),
    Source([u8; 4]),
    Offered(SendOutcome),
    /// The decoder is done, the size is stored, or the event is handed over.
    Done,
    /// The read, the decoder or the handing over has failed.
    Failed(E),
}

/// Whether `event` can come of what the task was told to do last. Only reading, decoding and
/// handing over an event can fail.
pub open spec fn read_loop_expects<E>(state: ReadLoop, event: ReadEvent<E>) -> bool {
    match state {
        ReadLoop::Poll => event is Stop,
        ReadLoop::Message => event is Message || event is Failed,
        ReadLoop::Header { left } => (event is Header || event is Failed) && left > 0,
        ReadLoop::Source { rect, left } => event is Source || event is Failed,
        ReadLoop::Offered { screen, left } => event is Offered,
        ReadLoop::Stored { screen, left } => event is Done,
        ReadLoop::Working { left } => event is Done || event is Failed,
        ReadLoop::Delivering => event is Done || event is Failed,
        ReadLoop::Finished => false,
    }
}

/// How the task goes on where `left` rectangles of an update are still to come.
pub open spec fn next_rect<E>(left: u16) -> (ReadLoop, ReadAction<E>) {
    if left == 0 {
        (ReadLoop::Poll, ReadAction::PollStop)
    } else {
        (ReadLoop::Header { left }, ReadAction::ReadHeader)
    }
}

/// How the task goes on with the head of a rectangle, where `left` more rectangles follow.
pub open spec fn begin_rect<E>(head: ImageRect, left: u16) -> (ReadLoop, ReadAction<E>) {
    let working = ReadLoop::Working { left };
    match head.encoding {
        VncEncoding::Raw => (working, ReadAction::Decode(Codec::Raw, head.rect)),
        VncEncoding::CopyRect => (
            ReadLoop::Source { rect: head.rect, left },
            ReadAction::ReadSource,
        ),
        VncEncoding::Tight => (working, ReadAction::Decode(Codec::Tight, head.rect)),
        VncEncoding::Trle => (working, ReadAction::Decode(Codec::Trle, head.rect)),
        VncEncoding::Zrle => (working, ReadAction::Decode(Codec::Zrle, head.rect)),
        VncEncoding::CursorPseudo => (working, ReadAction::Decode(Codec::Cursor, head.rect)),
        VncEncoding::DesktopSizePseudo => {
            let screen = Screen { width: head.rect.width, height: head.rect.height };
            (ReadLoop::Stored { screen, left }, ReadAction::StoreScreen(screen))
        },
        VncEncoding::LastRectPseudo => (ReadLoop::Poll, ReadAction::PollStop),
        VncEncoding::Other(num) => (ReadLoop::Finished, ReadAction::Unsupported(num)),
    }
}

/// How the task goes on when `event` has come. Before the user hears of a new size of the
/// framebuffer it is stored, and all of the framebuffer is asked for, if the queue takes the
/// request. A failure ends the task with its error.
pub open spec fn read_loop_step<E>(state: ReadLoop, event: ReadEvent<E>) -> (
    ReadLoop,
    ReadAction<E>,
) {
    match (state, event) {
        (_, ReadEvent::Failed(error)) => (ReadLoop::Finished, ReadAction::Fail(error)),
        (ReadLoop::Poll, ReadEvent::Stop(StopSignal::Empty)) => (
            ReadLoop::Message,
            ReadAction::ReadMessage,
        ),
        (ReadLoop::Message, ReadEvent::Message(ServerMsg::FramebufferUpdate(n))) => next_rect(n),
        (ReadLoop::Message, ReadEvent::Message(ServerMsg::Bell)) => (
            ReadLoop::Delivering,
            ReadAction::Emit(VncEvent::Bell),
        ),
        (ReadLoop::Message, ReadEvent::Message(ServerMsg::ServerCutText(text))) => (
            ReadLoop::Delivering,
            ReadAction::Emit(VncEvent::Text(text)),
        ),
        (ReadLoop::Header { left }, ReadEvent::Header(buf)) => begin_rect(
            image_rect(buf@),
            (left - 1) as u16,
        ),
        (ReadLoop::Source { rect, left }, ReadEvent::Source(buf)) => {
            let source = Rect {
                x: be_u16(buf@[0], buf@[1]),
                y: be_u16(buf@[2], buf@[3]),
                ..rect
            };
            (ReadLoop::Working { left }, ReadAction::Emit(VncEvent::Copy(rect, source)))
        },
        (ReadLoop::Stored { screen, left }, ReadEvent::Done) => (
            ReadLoop::Offered { screen, left },
            ReadAction::Offer(full_request(screen)),
        ),
        (ReadLoop::Offered { screen, left }, ReadEvent::Offered(outcome)) => (
            ReadLoop::Working { left },
            ReadAction::Emit(VncEvent::SetResolution(screen)),
        ),
        (ReadLoop::Working { left }, ReadEvent::Done) => next_rect(left),
        (ReadLoop::Delivering, ReadEvent::Done) => (ReadLoop::Poll, ReadAction::PollStop),
        _ => (ReadLoop::Finished, ReadAction::Finish),
    }
}

/// How the task goes on where `left` rectangles of an update are still to come.
fn go_on<E>(left: u16) -> (step: (ReadLoop, ReadAction<E>))
    ensures
        step == next_rect::<E>(left),
{
    if left == 0 {
        (ReadLoop::Poll, ReadAction::PollStop)
    } else {
        (ReadLoop::Header { left }, ReadAction::ReadHeader)
    }
}

/// How the task goes on with the head of a rectangle, where `left` more rectangles follow.
fn begin<E>(head: ImageRect, left: u16) -> (step: (ReadLoop, ReadAction<E>))
    ensures
        step == begin_rect::<E>(head, left),
{
    let working = ReadLoop::Working { left };
    match head.encoding {
        VncEncoding::Raw => (working, ReadAction::Decode(Codec::Raw, head.rect)),
        VncEncoding::CopyRect => (
            ReadLoop::Source { rect: head.rect, left },
            ReadAction::ReadSource,
        ),
        VncEncoding::Tight => (working, ReadAction::Decode(Codec::Tight, head.rect)),
        VncEncoding::Trle => (working, ReadAction::Decode(Codec::Trle, head.rect)),
        VncEncoding::Zrle => (working, ReadAction::Decode(Codec::Zrle, head.rect)),
        VncEncoding::CursorPseudo => (working, ReadAction::Decode(Codec::Cursor, head.rect)),
        VncEncoding::DesktopSizePseudo => {
            let screen = Screen { width: head.rect.width, height: head.rect.height };
            (ReadLoop::Stored { screen, left }, ReadAction::StoreScreen(screen))
        },
        VncEncoding::LastRectPseudo => (ReadLoop::Poll, ReadAction::PollStop),
        VncEncoding::Other(num) => (ReadLoop::Finished, ReadAction::Unsupported(num)),
    }
}

impl ReadLoop {
    /// The start of the task.
    pub fn start<E>() -> (step: (ReadLoop, ReadAction<E>))
        ensures
            step == (ReadLoop::Poll, ReadAction::<E>::PollStop),
    {
        (ReadLoop::Poll, ReadAction::PollStop)
    }

    /// Takes the task one step further.
    pub fn step<E>(self, event: ReadEvent<E>) -> (step: (ReadLoop, ReadAction<E>))
        requires
            read_loop_expects(self, event),
        ensures
            step == read_loop_step(self, event),
    {
        match (self, event) {
            (_, ReadEvent::Failed(error)) => (ReadLoop::Finished, ReadAction::Fail(error)),
            (ReadLoop::Poll, ReadEvent::Stop(StopSignal::Empty)) => {
                (ReadLoop::Message, ReadAction::ReadMessage)
            },
            (ReadLoop::Message, ReadEvent::Message(ServerMsg::FramebufferUpdate(n))) => go_on(n),
            (ReadLoop::Message, ReadEvent::Message(ServerMsg::Bell)) => {
                (ReadLoop::Delivering, ReadAction::Emit(VncEvent::Bell))
            },
            (ReadLoop::Message, ReadEvent::Message(ServerMsg::ServerCutText(text))) => {
                (ReadLoop::Delivering, ReadAction::Emit(VncEvent::Text(text)))
            },
            (ReadLoop::Header { left }, ReadEvent::Header(buf)) => {
                begin(ImageRect::from(buf), left - 1)
            },
            (ReadLoop::Source { rect, left }, ReadEvent::Source(buf)) => {
                let mut source = rect;
                source.x = read_u16(buf[0], buf[1]);
                source.y = read_u16(buf[2], buf[3]);
                (ReadLoop::Working { left }, ReadAction::Emit(VncEvent::Copy(rect, source)))
            },
            (ReadLoop::Stored { screen, left }, ReadEvent::Done) => {
                let request = ClientMsg::FramebufferUpdateRequest(screen.whole(), 0);
                (ReadLoop::Offered { screen, left }, ReadAction::Offer(request))
            },
            (ReadLoop::Offered { screen, left }, ReadEvent::Offered(_)) => {
                (ReadLoop::Working { left }, ReadAction::Emit(VncEvent::SetResolution(screen)))
            },
            (ReadLoop::Working { left }, ReadEvent::Done) => go_on(left),
            (ReadLoop::Delivering, ReadEvent::Done) => (ReadLoop::Poll, ReadAction::PollStop),
            _ => (ReadLoop::Finished, ReadAction::Finish),
        }
    }
}

/// Whether `event` tells what has come of `action`.
pub open spec fn read_answers<E>(action: ReadAction<E>, event: ReadEvent<E>) -> bool {
    match action {
        ReadAction::PollStop => event is Stop,
        ReadAction::ReadMessage => event is Message || event is Failed,
        ReadAction::ReadHeader => event is Header || event is Failed,
        ReadAction::ReadSource => event is Source || event is Failed,
        ReadAction::Offer(_) => event is Offered,
        ReadAction::Decode(_, _) => event is Done || event is Failed,
        ReadAction::StoreScreen(_) => event is Done,
        ReadAction::Emit(_) => event is Done || event is Failed,
        ReadAction::Unsupported(_) => false,
        ReadAction::Fail(_) => false,
        ReadAction::Finish => false,
    }
}

/// Whoever does what the task says can take it one step further with what has come of it, until
/// it ends.
pub proof fn decoding_can_go_on<E>(state: ReadLoop, event: ReadEvent<E>, answer: ReadEvent<E>)
    requires
        read_loop_expects(state, event),
    ensures
        read_answers(read_loop_step(state, event).1, answer) ==> read_loop_expects(
            read_loop_step(state, event).0,
            answer,
        ),
        read_loop_step(state, event).0 is Finished <==> (read_loop_step(state, event).1 is Finish
            || read_loop_step(state, event).1 is Unsupported
            || read_loop_step(state, event).1 is Fail),
{
}

/// Where a run of the task over `events` ends, and all that it is told to do on the way.
pub open spec fn read_loop_run<E>(state: ReadLoop, events: Seq<ReadEvent<E>>) -> (
    ReadLoop,
    Seq<ReadAction<E>>,
)
    decreases events.len(),
{
    if events.len() == 0 {
        (state, Seq::empty())
    } else {
        let (next, action) = read_loop_step(state, events[0]);
        let (last, actions) = read_loop_run(next, events.drop_first());
        (last, seq![action] + actions)
    }
}

/// Whether each of `events` can come of what the task was told to do before it.
pub open spec fn read_loop_accepts<E>(state: ReadLoop, events: Seq<ReadEvent<E>>) -> bool
    decreases events.len(),
{
    events.len() > 0 ==> {
        &&& read_loop_expects(state, events[0])
        &&& read_loop_accepts(read_loop_step(state, events[0]).0, events.drop_first())
    }
}

/// The task ends without an error just where the stop signal is not empty, and with an error that
/// it was handed just where something failed with that error.
pub proof fn how_decoding_ends<E>(state: ReadLoop, event: ReadEvent<E>, error: E)
    requires
        read_loop_expects(state, event),
    ensures
        read_loop_step(state, event).1 is Finish <==> (event matches ReadEvent::Stop(signal)
            && signal !is Empty),
        read_loop_step(state, event).1 == ReadAction::Fail(error) <==> event == ReadEvent::Failed(
            error,
        ),
{
}

/// The first failure ends the task at once: nothing comes after it in a run, and the last thing
/// that the task is told is to fail with its error. All before it goes as it would have gone
/// without it.
pub proof fn first_failure_ends_decoding<E>(state: ReadLoop, events: Seq<ReadEvent<E>>, i: int)
    requires
        read_loop_accepts(state, events),
        0 <= i < events.len(),
        events[i] is Failed,
    ensures
        i == events.len() - 1,
        read_loop_run(state, events).0 is Finished,
        read_loop_run(state, events).1 == read_loop_run(state, events.drop_last()).1.push(
            ReadAction::Fail(events[i]->Failed_0),
        ),
    decreases events.len(),
{
    let (next, action) = read_loop_step(state, events[0]);
    let tail = events.drop_first();
    reveal_with_fuel(read_loop_run, 2);
    reveal_with_fuel(read_loop_accepts, 2);
    if i == 0 {
        assert(tail.len() == 0);
        assert(events.drop_last().len() == 0);
    } else {
        assert(tail[i - 1] == events[i]);
        first_failure_ends_decoding(next, tail, i - 1);
        assert(events.drop_last().drop_first() =~= tail.drop_last());
        assert(events.drop_last()[0] == events[0]);
    }
    assert(read_loop_run(state, events).1 =~= read_loop_run(state, events.drop_last()).1.push(
        ReadAction::Fail(events[i]->Failed_0),
    ));
}

/// A rectangle as the task meets it: its head, the source of a copy, and what becomes of the
/// request after a resize.
pub ghost struct RectInput {
    pub header: [u8; 12],
    pub source: [u8; 4],
    pub outcome: SendOutcome,
}

impl RectInput {
    /// The head of the rectangle.
    pub open spec fn head(self) -> ImageRect {
        image_rect(self.header@)
    }

    /// Whether more rectangles can follow.
    pub open spec fn is_ordinary(self) -> bool {
        self.head().encoding !is LastRectPseudo && self.head().encoding !is Other
    }

    /// What comes of the steps for the rectangle.
    pub open spec fn events<E>(self) -> Seq<ReadEvent<E>> {
        match self.head().encoding {
            VncEncoding::CopyRect => seq![
                ReadEvent::Header(self.header),
                ReadEvent::Source(self.source),
                ReadEvent::Done,
            ],
            VncEncoding::DesktopSizePseudo => seq![
                ReadEvent::Header(self.header),
                ReadEvent::Done,
                ReadEvent::Offered(self.outcome),
                ReadEvent::Done,
            ],
            VncEncoding::LastRectPseudo => seq![ReadEvent::Header(self.header)],
            _ => seq![ReadEvent::Header(self.header), ReadEvent::Done],
        }
    }

    /// What is done for the rectangle, from its head on.
    pub open spec fn actions<E>(self) -> Seq<ReadAction<E>> {
        let rect = self.head().rect;
        match self.head().encoding {
            VncEncoding::Raw => seq![ReadAction::Decode(Codec::Raw, rect)],
            VncEncoding::CopyRect => {
                let source = Rect {
                    x: be_u16(self.source@[0], self.source@[1]),
                    y: be_u16(self.source@[2], self.source@[3]),
                    ..rect
                };
                seq![ReadAction::ReadSource, ReadAction::Emit(VncEvent::Copy(rect, source))]
            },
            VncEncoding::Tight => seq![ReadAction::Decode(Codec::Tight, rect)],
            VncEncoding::Trle => seq![ReadAction::Decode(Codec::Trle, rect)],
            VncEncoding::Zrle => seq![ReadAction::Decode(Codec::Zrle, rect)],
            VncEncoding::CursorPseudo => seq![ReadAction::Decode(Codec::Cursor, rect)],
            VncEncoding::DesktopSizePseudo => {
                let screen = Screen { width: rect.width, height: rect.height };
                seq![
                    ReadAction::StoreScreen(screen),
                    ReadAction::Offer(full_request(screen)),
                    ReadAction::Emit(VncEvent::SetResolution(screen)),
                ]
            },
            _ => Seq::empty(),
        }
    }
}

/// What comes of the steps for all of `rects`.
pub open spec fn update_events<E>(rects: Seq<RectInput>) -> Seq<ReadEvent<E>>
    decreases rects.len(),
{
    if rects.len() == 0 {
        Seq::empty()
    } else {
        rects[0].events() + update_events(rects.drop_first())
    }
}

/// What is done for all of `rects`: each has its head read, and is then dealt with. At the end
/// the stop signal is looked at.
pub open spec fn update_actions<E>(rects: Seq<RectInput>) -> Seq<ReadAction<E>>
    decreases rects.len(),
{
    if rects.len() == 0 {
        seq![ReadAction::PollStop]
    } else {
        seq![ReadAction::ReadHeader] + rects[0].actions() + update_actions(rects.drop_first())
    }
}

/// Whether `rects` are all the rectangles of an update that announces `announced`: as many as
/// that, or fewer and then the mark for the last.
pub open spec fn is_complete_update(rects: Seq<RectInput>, announced: nat) -> bool {
    &&& rects.len() <= announced
    &&& forall|i: int| 0 <= i < rects.len() - 1 ==> (#[trigger] rects[i]).is_ordinary()
    &&& if rects.len() == announced {
        rects.len() > 0 ==> (rects.last().is_ordinary() || rects.last().head().encoding
            is LastRectPseudo)
    } else {
        rects.len() > 0 && rects.last().head().encoding is LastRectPseudo
    }
}

proof fn lemma_run_concat<E>(state: ReadLoop, first: Seq<ReadEvent<E>>, second: Seq<ReadEvent<E>>)
    ensures
        read_loop_run(state, first + second) == ({
            let (mid, actions) = read_loop_run(state, first);
            let (last, more) = read_loop_run(mid, second);
            (last, actions + more)
        }),
    decreases first.len(),
{
    let (mid, actions) = read_loop_run(state, first);
    let (last, more) = read_loop_run(mid, second);
    if first.len() == 0 {
        assert(first + second =~= second);
        assert(actions + more =~= more);
    } else {
        let (next, action) = read_loop_step(state, first[0]);
        assert((first + second).drop_first() =~= first.drop_first() + second);
        lemma_run_concat(next, first.drop_first(), second);
        let (_, tail) = read_loop_run(next, first.drop_first());
        assert(seq![action] + (tail + more) =~= actions + more);
    }
}

/// An ordinary rectangle is dealt with as its encoding says, and the task goes on with the next.
/// A new size of the framebuffer is stored first, then all of the framebuffer is asked for, and
/// only then is the user told, whatever becomes of the request.
pub proof fn ordinary_rect_run<E>(rect: RectInput, left: u16)
    requires
        rect.is_ordinary(),
        left > 0,
    ensures
        read_loop_run(ReadLoop::Header { left }, rect.events::<E>()) == ({
            let (next, action) = next_rect::<E>((left - 1) as u16);
            (next, rect.actions::<E>().push(action))
        }),
{
    reveal_with_fuel(read_loop_run, 5);
    let events = rect.events::<E>();
    let (next, action) = next_rect::<E>((left - 1) as u16);
    let run = read_loop_run(ReadLoop::Header { left }, events);
    assert(run.1 =~= rect.actions::<E>().push(action));
}

/// All rectangles of an update are dealt with in their order; after the last that was announced,
/// or the mark for the last, the task looks at the stop signal.
pub proof fn update_run<E>(rects: Seq<RectInput>, announced: u16)
    requires
        is_complete_update(rects, announced as nat),
    ensures
        read_loop_run(
            ReadLoop::Message,
            seq![ReadEvent::<E>::Message(ServerMsg::FramebufferUpdate(announced))] + update_events(
                rects,
            ),
        ) == (ReadLoop::Poll, update_actions::<E>(rects)),
{
    let message = ReadEvent::<E>::Message(ServerMsg::FramebufferUpdate(announced));
    let events = seq![message] + update_events::<E>(rects);
    assert(events.drop_first() =~= update_events::<E>(rects));
    if announced == 0 {
        reveal_with_fuel(read_loop_run, 2);
        assert(read_loop_run(ReadLoop::Message, events).1 =~= update_actions::<E>(rects));
    } else {
        lemma_rects_run::<E>(rects, announced);
        assert(read_loop_run(ReadLoop::Message, events).1 =~= update_actions::<E>(rects));
    }
}

proof fn lemma_rects_run<E>(rects: Seq<RectInput>, left: u16)
    requires
        is_complete_update(rects, left as nat),
        left > 0,
    ensures
        read_loop_run(ReadLoop::Header { left }, update_events::<E>(rects)) == (
            ReadLoop::Poll,
            update_actions::<E>(rects).drop_first(),
        ),
    decreases rects.len(),
{
    let first = rects[0];
    let rest = rects.drop_first();
    let header = ReadLoop::Header { left };
    if first.is_ordinary() {
        let (next, action) = next_rect::<E>((left - 1) as u16);
        ordinary_rect_run::<E>(first, left);
        lemma_run_concat(header, first.events::<E>(), update_events::<E>(rest));
        if left == 1 {
            assert(rest.len() == 0);
        } else {
            assert(rest.len() > 0);
            assert(rest.last() == rects.last());
            assert forall|i: int| 0 <= i < rest.len() - 1 implies (
            #[trigger] rest[i]).is_ordinary() by {
                assert(rest[i] == rects[i + 1]);
            }
            lemma_rects_run::<E>(rest, (left - 1) as u16);
        }
        assert(read_loop_run(header, update_events::<E>(rects)).1 =~= update_actions::<E>(
            rects,
        ).drop_first());
    } else {
        assert(rects.len() == 1);
        assert(rest.len() == 0);
        reveal_with_fuel(update_events, 2);
        reveal_with_fuel(update_actions, 2);
        reveal_with_fuel(read_loop_run, 2);
        assert(update_events::<E>(rects) =~= first.events::<E>());
        assert(first.events::<E>().drop_first() =~= Seq::<ReadEvent<E>>::empty());
        assert(read_loop_run(header, first.events::<E>()).1 =~= update_actions(rects).drop_first());
    }
}

/// The task goes on with the next message just as long as there is no stop signal.
pub proof fn stop_signal_ends_decoding<E>(signal: StopSignal)
    ensures
        read_loop_step(ReadLoop::Poll, ReadEvent::<E>::Stop(signal)) == (if signal is Empty {
            (ReadLoop::Message, ReadAction::<E>::ReadMessage)
        } else {
            (ReadLoop::Finished, ReadAction::Finish)
        }),
{
}

/// A message is followed by what it says: the heads of as many rectangles as it announces, or the
/// event that it stands for, with its text as it is.
pub proof fn messages_are_followed_up<E>(announced: u16, text: String)
    ensures
        read_loop_step(
            ReadLoop::Message,
            ReadEvent::<E>::Message(ServerMsg::FramebufferUpdate(announced)),
        ) == (if announced > 0 {
            (ReadLoop::Header { left: announced }, ReadAction::<E>::ReadHeader)
        } else {
            (ReadLoop::Poll, ReadAction::<E>::PollStop)
        }),
        read_loop_step(ReadLoop::Message, ReadEvent::<E>::Message(ServerMsg::Bell)) == (
            ReadLoop::Delivering,
            ReadAction::<E>::Emit(VncEvent::Bell),
        ),
        read_loop_step(
            ReadLoop::Message,
            ReadEvent::<E>::Message(ServerMsg::ServerCutText(text)),
        ) == (ReadLoop::Delivering, ReadAction::<E>::Emit(VncEvent::Text(text))),
        read_loop_step(ReadLoop::Delivering, ReadEvent::<E>::Done) == (
            ReadLoop::Poll,
            ReadAction::<E>::PollStop,
        ),
{
}

/// After the head of a rectangle, the number of its encoding alone decides what is done, and it is
/// done to the rectangle whose place and size are the numbers in the head. One rectangle less is
/// then to come, except after the mark for the last, after which none is.
pub proof fn heads_decide_what_is_done<E>(buf: [u8; 12], left: u16, rect: Rect, num: u32)
    requires
        left > 0,
        rect.x == 256 * buf@[0] + buf@[1],
        rect.y == 256 * buf@[2] + buf@[3],
        rect.width == 256 * buf@[4] + buf@[5],
        rect.height == 256 * buf@[6] + buf@[7],
        num == 256 * (256 * (256 * buf@[8] + buf@[9]) + buf@[10]) + buf@[11],
    ensures
        ({
            let (next, action) = read_loop_step(
                ReadLoop::Header { left },
                ReadEvent::<E>::Header(buf),
            );
            let rest = (left - 1) as u16;
            let screen = Screen { width: rect.width, height: rect.height };
            &&& action == ReadAction::<E>::Decode(Codec::Raw, rect) <==> num == 0
            &&& action == ReadAction::<E>::Decode(Codec::Tight, rect) <==> num == 7
            &&& action == ReadAction::<E>::Decode(Codec::Trle, rect) <==> num == 15
            &&& action == ReadAction::<E>::Decode(Codec::Zrle, rect) <==> num == 16
            &&& action == ReadAction::<E>::Decode(Codec::Cursor, rect) <==> num == 0x1_0000_0000
                - 239
            &&& action is Decode ==> next == ReadLoop::Working { left: rest }
            &&& action is ReadSource <==> num == 1
            &&& action is ReadSource ==> next == ReadLoop::Source { rect, left: rest }
            &&& action == ReadAction::<E>::StoreScreen(screen) <==> num == 0x1_0000_0000 - 223
            &&& action is StoreScreen ==> next == ReadLoop::Stored { screen, left: rest }
            &&& action is PollStop <==> num == 0x1_0000_0000 - 224
            &&& action is PollStop ==> next == ReadLoop::Poll
            &&& action is Unsupported ==> action == ReadAction::<E>::Unsupported(num)
            &&& action is Unsupported <==> !(num <= 1 || num == 7 || num == 15 || num == 16 || num
                == 0x1_0000_0000 - 239 || num == 0x1_0000_0000 - 223 || num == 0x1_0000_0000 - 224)
        }),
{
}

/// A copy fills the rectangle of the head from one of the same size, whose place is the numbers in
/// the bytes that follow.
pub proof fn copies_come_from_the_place_that_is_named<E>(rect: Rect, left: u16, buf: [u8; 4])
    ensures
        ({
            let (next, action) = read_loop_step(
                ReadLoop::Source { rect, left },
                ReadEvent::<E>::Source(buf),
            );
            &&& next == ReadLoop::Working { left }
            &&& action matches ReadAction::Emit(VncEvent::Copy(target, source))
            &&& target == rect
            &&& source.x == 256 * buf@[0] + buf@[1]
            &&& source.y == 256 * buf@[2] + buf@[3]
            &&& source.width == rect.width
            &&& source.height == rect.height
        }),
{
}

/// Once a new size is stored, all of it and not only what has changed is asked for, and whatever
/// becomes of the request, the user hears of the size.
pub proof fn resizes_are_requested_and_told<E>(screen: Screen, left: u16, outcome: SendOutcome)
    ensures
        ({
            let (next, action) = read_loop_step(
                ReadLoop::Stored { screen, left },
                ReadEvent::<E>::Done,
            );
            &&& next == ReadLoop::Offered { screen, left }
            &&& action matches ReadAction::Offer(
                ClientMsg::FramebufferUpdateRequest(rect, incremental),
            )
            &&& incremental == 0
            &&& rect.x == 0 && rect.y == 0
            &&& rect.width == screen.width && rect.height == screen.height
        }),
        read_loop_step(ReadLoop::Offered { screen, left }, ReadEvent::<E>::Offered(outcome)) == (
            ReadLoop::Working { left },
            ReadAction::<E>::Emit(VncEvent::SetResolution(screen)),
        ),
{
}

/// After a rectangle comes the next, as long as one is left.
pub proof fn rectangles_follow_each_other<E>(left: u16)
    ensures
        read_loop_step(ReadLoop::Working { left }, ReadEvent::<E>::Done) == (if left > 0 {
            (ReadLoop::Header { left }, ReadAction::<E>::ReadHeader)
        } else {
            (ReadLoop::Poll, ReadAction::<E>::PollStop)
        }),
{
}

/// After a resize, the requests of the user ask for all of the new framebuffer, as the request
/// does that the resize itself makes.
pub proof fn requests_follow_a_resize<E>(rect: RectInput)
    requires
        rect.head().encoding is DesktopSizePseudo,
    ensures
        rect.actions::<E>()[0] matches ReadAction::StoreScreen(screen) && {
            let whole = Rect {
                x: 0,
                y: 0,
                width: rect.head().rect.width,
                height: rect.head().rect.height,
            };
            &&& input_message(X11Event::Refresh, screen) == ClientMsg::FramebufferUpdateRequest(
                whole,
                1,
            )
            &&& input_message(X11Event::FullRefresh, screen)
                == ClientMsg::FramebufferUpdateRequest(whole, 0)
            &&& rect.actions::<E>()[1] == ReadAction::<E>::Offer(
                ClientMsg::FramebufferUpdateRequest(whole, 0),
            )
        },
{
}

} // verus!
