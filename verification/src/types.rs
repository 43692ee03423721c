//! The vocabulary that the client shares with its user.

use vstd::prelude::*;
use vstd::std_specs::convert::FromSpecImpl;

verus! {

/// The protocol versions that the client speaks.
#[derive(Debug, Clone, Copy, PartialEq, Eq, Structural)]
pub enum VncVersion {
    RFB33,
    RFB37,
    RFB38,
}

/// A rectangle of the framebuffer.
#[derive(Debug, Clone, Copy, PartialEq, Eq, Structural)]
pub struct Rect {
    pub x: u16,
    pub y: u16,
    pub width: u16,
    pub height: u16,
}

/// The dimensions of the framebuffer.
#[derive(Debug, Clone, Copy, PartialEq, Eq, Structural)]
pub struct Screen {
    pub width: u16,
    pub height: u16,
}

impl Screen {
    /// The rectangle of the whole framebuffer.
    pub open spec fn spec_whole(self) -> Rect {
        Rect { x: 0, y: 0, width: self.width, height: self.height }
    }

    /// The rectangle of the whole framebuffer.
    #[verifier::when_used_as_spec(spec_whole)]
    pub fn whole(self) -> (rect: Rect)
        ensures
            rect == self.spec_whole(),
            rect.x == 0 && rect.y == 0,
            rect.width == self.width && rect.height == self.height,
    {
        Rect { x: 0, y: 0, width: self.width, height: self.height }
    }
}

/// How pixels are laid out, in the sixteen bytes that describe it on the wire.
#[derive(Debug, Clone, Copy, PartialEq, Eq)]
pub struct PixelFormat {
    pub bytes: [u8; 16],
}

/// How a rectangle of the framebuffer is encoded, or which event its place is taken by.
#[derive(Debug, Clone, Copy, PartialEq, Eq, Structural)]
pub enum VncEncoding {
    Raw,
    CopyRect,
    Tight,
    Trle,
    Zrle,
    CursorPseudo,
    DesktopSizePseudo,
    LastRectPseudo,
    /// An encoding that the client does not know, by its number.
    Other(u32),
}

impl FromSpecImpl<u32> for VncEncoding {
    open spec fn obeys_from_spec() -> bool {
        true
    }

    open spec fn from_spec(num: u32) -> VncEncoding {
        encoding_of(num)
    }
}

/// The encoding of a number on the wire. The numbers of the pseudo-encodings -239, -223 and -224
/// are in two's complement.
pub open spec fn encoding_of(num: u32) -> VncEncoding {
    match num {
        0 => VncEncoding::Raw,
        1 => VncEncoding::CopyRect,
        7 => VncEncoding::Tight,
        15 => VncEncoding::Trle,
        16 => VncEncoding::Zrle,
        0xffff_ff11 => VncEncoding::CursorPseudo,
        0xffff_ff21 => VncEncoding::DesktopSizePseudo,
        0xffff_ff20 => VncEncoding::LastRectPseudo,
        _ => VncEncoding::Other(num),
    }
}

impl From<u32> for VncEncoding {
    fn from(num: u32) -> (r: VncEncoding) {
        match num {
            0 => VncEncoding::Raw,
            1 => VncEncoding::CopyRect,
            7 => VncEncoding::Tight,
            15 => VncEncoding::Trle,
            16 => VncEncoding::Zrle,
            0xffff_ff11 => VncEncoding::CursorPseudo,
            0xffff_ff21 => VncEncoding::DesktopSizePseudo,
            0xffff_ff20 => VncEncoding::LastRectPseudo,
            other => VncEncoding::Other(other),
        }
    }
}

/// Which numbers stand for which encodings: no other number stands for one that the client knows,
/// and one that it does not know keeps its number.
pub proof fn encoding_numbers(num: u32)
    ensures
        encoding_of(num) is Raw <==> num == 0,
        encoding_of(num) is CopyRect <==> num == 1,
        encoding_of(num) is Tight <==> num == 7,
        encoding_of(num) is Trle <==> num == 15,
        encoding_of(num) is Zrle <==> num == 16,
        encoding_of(num) is CursorPseudo <==> num == 0x1_0000_0000 - 239,
        encoding_of(num) is DesktopSizePseudo <==> num == 0x1_0000_0000 - 223,
        encoding_of(num) is LastRectPseudo <==> num == 0x1_0000_0000 - 224,
        encoding_of(num) matches VncEncoding::Other(other) ==> other == num,
{
}

/// No two numbers stand for the same encoding.
pub proof fn encodings_are_told_apart(a: u32, b: u32)
    ensures
        encoding_of(a) == encoding_of(b) ==> a == b,
{
}

/// The rectangle of the whole framebuffer begins at its corner, and a point lies in it just where
/// it lies on the framebuffer.
pub proof fn whole_screen_holds_every_point(screen: Screen, x: int, y: int)
    ensures
        ({
            let rect = screen.whole();
            (rect.x <= x < rect.x + rect.width && rect.y <= y < rect.y + rect.height) <==> (0 <= x
                < screen.width && 0 <= y < screen.height)
        }),
        screen.whole().x == 0 && screen.whole().y == 0,
        screen.whole().width == screen.width && screen.whole().height == screen.height,
{
}

/// What the client tells its user.
#[derive(Debug)]
pub enum VncEvent {
    /// The framebuffer has these dimensions from now on.
    SetResolution(Screen),
    /// The server sends pixels in this format.
    SetPixelFormat(PixelFormat),
    /// The first rectangle is to be filled with what the second holds.
    Copy(Rect, Rect),
    /// The bell rings.
    Bell,
    /// The server has new text in its cut buffer.
    Text(String),
    /// The client cannot go on.
    Error(String),
}

/// A key that goes down or up.
#[derive(Debug, Clone, Copy, PartialEq, Eq, Structural)]
pub struct ClientKeyEvent {
    pub keycode: u32,
    pub down: bool,
}

/// The place of the pointer, and its buttons.
#[derive(Debug, Clone, Copy, PartialEq, Eq, Structural)]
pub struct ClientMouseEvent {
    pub position_x: u16,
    pub position_y: u16,
    pub bottons: u8,
}

/// What the user tells the client.
#[derive(Debug)]
pub enum X11Event {
    /// Ask for what has changed on the screen.
    Refresh,
    /// Ask for the whole screen.
    FullRefresh,
    KeyEvent(ClientKeyEvent),
    PointerEvent(ClientMouseEvent),
    /// New text for the cut buffer of the server.
    CopyText(String),
}

/// A message to the server.
#[derive(Debug)]
pub enum ClientMsg {
    SetPixelFormat(PixelFormat),
    SetEncodings(Vec<VncEncoding>),
    /// A part of the framebuffer, and whether only its changes are asked for (1) or all of it
    /// (0).
    FramebufferUpdateRequest(Rect, u8),
    /// The key, and whether it is down.
    KeyEvent(u32, bool),
    /// The place of the pointer, and its buttons.
    PointerEvent(u16, u16, u8),
    ClientCutText(String),
}

/// A message from the server.
#[derive(Debug)]
pub enum ServerMsg {
    /// So many rectangles follow.
    FramebufferUpdate(u16),
    Bell,
    ServerCutText(String),
}

} // verus!
