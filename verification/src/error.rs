//! The ways in which bytes and text can fail to be what they should be.

use vstd::prelude::*;

verus! {

/// Why a buffer could not be read as a packet or as one of its parts.
#[derive(Debug, Clone, Copy, PartialEq, Eq, Structural, Hash)]
pub enum DecodeError {
    /// The buffer ends before the section or packet does.
    Truncated,
    /// The low twelve bits of the protocol field are not 1024.
    BadProtocol,
    /// The two origin bits are not zero.
    BadOrigin,
    /// The frame announces a packet shorter than its own header.
    BadSize,
    /// The payload of a typed message has the wrong length.
    PayloadSize,
    /// A service announces a port that no UDP endpoint can have.
    PortOutOfRange,
    /// A label is not UTF-8.
    InvalidText,
}

/// Why a text could not be read as an address.
#[derive(Debug, Clone, Copy, PartialEq, Eq, Structural, Hash)]
pub enum ParseError {
    /// The text is not a hardware address, one `#` and a socket address.
    Format,
    /// The part that should be a hardware address is none.
    MacAddress,
    /// The part that should be a socket address is none.
    SocketAddress,
}

/// Why an operation of the client did not come to its end.
#[derive(Debug, Clone, Copy, PartialEq, Eq, Structural, Hash)]
pub enum Error {
    /// The transport could not send or receive; it knows the details. A read that ran
    /// out of time while a single answer was awaited counts here.
    Io,
    /// What came back is no packet.
    Decode(DecodeError),
    /// What came back is a packet of another kind than the request calls for.
    UnexpectedResponse,
    /// An event was reported while the client awaited none.
    NotWaiting,
}

} // verus!
