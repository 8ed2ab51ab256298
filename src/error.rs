use vstd::prelude::*;

verus! {

/// A structured error reported by the server in the body of an error frame.
#[derive(Clone, Debug, PartialEq, Eq)]
pub struct ServerError {
    /// The error code sent by the server.
    pub code: i32,
    /// The human-readable message.
    pub message: String,
    /// Code-specific details that follow the message, left undecoded.
    pub details: Vec<u8>,
}

/// Why a frame could not be decoded.
#[derive(Clone, Debug, PartialEq, Eq)]
pub enum Error {
    /// The byte source failed or held fewer bytes than a read required.
    Io,
    /// The compression strategy rejected the body.
    Decompression,
    /// A length field was negative or larger than the accepted maximum.
    MalformedLength,
    /// A string section was not valid UTF-8.
    Encoding,
    /// The frame carried an error reported by the server.
    Server(ServerError),
}

} // verus!
