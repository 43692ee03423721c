//! What can go wrong between the client and a server.

use vstd::prelude::*;

verus! {

/// What a failed read or write on the transport reports of itself.
#[derive(Debug, Clone, Copy, PartialEq, Eq, Structural)]
pub enum IoErrorKind {
    /// The transport ended where more bytes were due.
    UnexpectedEof,
    /// Any other failure.
    Other,
}

/// The errors of the client.
#[derive(Debug)]
pub enum VncError {
    /// The server names a security type by a number that stands for none.
    InvalidSecurityTyep(u8),
    /// The server refuses the credentials.
    WrongPassword,
    /// The client is closed, or its engine has ended.
    ClientNotRunning,
    /// The transport fails.
    IoError(IoErrorKind),
    /// Anything else, in words.
    General(String),
}

} // verus!
