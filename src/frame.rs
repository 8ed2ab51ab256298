//! The frame header and the decoded frame, with their models.
use vstd::prelude::*;

use crate::error::Error;
use crate::wire::{be_i32, be_u16};

verus! {

/// Number of bytes in the fixed frame header.
pub const HEADER_LEN: usize = 9;

/// Largest body length accepted from the wire (256 MiB).
pub const MAX_BODY_LEN: u32 = 268435456;

/// Number of bytes in a tracing identifier.
pub const UUID_LEN: usize = 16;

/// The protocol version byte: the high bit marks a response, the low seven
/// bits give the protocol revision.
#[derive(Clone, Copy, Debug, PartialEq, Eq, Structural)]
pub struct Version {
    pub byte: u8,
}

impl Version {
    /// Whether the frame travels from server to client.
    pub fn is_response(&self) -> (r: bool)
        ensures
            r == (self.byte >= 0x80),
    {
        self.byte >= 0x80
    }

    /// The protocol revision.
    pub fn revision(&self) -> (r: u8)
        ensures
            r == self.byte % 0x80,
    {
        self.byte % 0x80
    }
}

/// The recognised flags of the flag byte; other bits are ignored.
#[derive(Clone, Copy, Debug, PartialEq, Eq, Structural)]
pub struct Flags {
    /// Bit 0x01: the body is compressed.
    pub compression: bool,
    /// Bit 0x02: the body starts with a tracing identifier.
    pub tracing: bool,
    /// Bit 0x04: the body holds a custom payload map.
    pub custom_payload: bool,
    /// Bit 0x08: the body holds a list of warnings.
    pub warning: bool,
}

/// The flags that a flag byte sets.
pub open spec fn flags_of(b: u8) -> Flags {
    Flags {
        compression: b % 2 == 1,
        tracing: (b / 2) % 2 == 1,
        custom_payload: (b / 4) % 2 == 1,
        warning: (b / 8) % 2 == 1,
    }
}

/// The flag byte that sets exactly the given flags.
pub open spec fn flags_byte(f: Flags) -> u8 {
    ((if f.compression { 1int } else { 0 }) + (if f.tracing { 2int } else { 0 }) + (if f.custom_payload {
        4int
    } else {
        0
    }) + (if f.warning { 8int } else { 0 })) as u8
}

impl Flags {
    /// No flag set.
    pub fn empty() -> (r: Flags)
        ensures
            r == flags_of(0),
    {
        Flags { compression: false, tracing: false, custom_payload: false, warning: false }
    }

    /// Whether no flag is set.
    pub fn is_empty(&self) -> (r: bool)
        ensures
            r == (!self.compression && !self.tracing && !self.custom_payload && !self.warning),
    {
        !self.compression && !self.tracing && !self.custom_payload && !self.warning
    }

    /// Decodes a flag byte.
    pub fn from_byte(b: u8) -> (r: Flags)
        ensures
            r == flags_of(b),
    {
        Flags {
            compression: b % 2 == 1,
            tracing: (b / 2) % 2 == 1,
            custom_payload: (b / 4) % 2 == 1,
            warning: (b / 8) % 2 == 1,
        }
    }

    /// Encodes the flags as a flag byte.
    pub fn to_byte(&self) -> (r: u8)
        ensures
            r == flags_byte(*self),
    {
        let mut b: u8 = 0;
        if self.compression {
            b = b + 1;
        }
        if self.tracing {
            b = b + 2;
        }
        if self.custom_payload {
            b = b + 4;
        }
        if self.warning {
            b = b + 8;
        }
        b
    }
}

/// The kind of message a frame carries.
#[derive(Clone, Copy, Debug, PartialEq, Eq, Structural)]
pub enum Opcode {
    Error,
    Startup,
    Result,
    Authenticate,
    Options,
    Supported,
    Query,
    Ready,
    Prepare,
    Execute,
    Register,
    Event,
    Batch,
    AuthChallenge,
    AuthResponse,
    AuthSuccess,
    /// A byte that names none of the kinds above.
    Unknown(u8),
}

/// The opcode of a byte.
pub open spec fn opcode_of(b: u8) -> Opcode {
    match b {
        0x00 => Opcode::Error,
        0x01 => Opcode::Startup,
        0x02 => Opcode::Result,
        0x03 => Opcode::Authenticate,
        0x05 => Opcode::Options,
        0x06 => Opcode::Supported,
        0x07 => Opcode::Query,
        0x08 => Opcode::Ready,
        0x09 => Opcode::Prepare,
        0x0A => Opcode::Execute,
        0x0B => Opcode::Register,
        0x0C => Opcode::Event,
        0x0D => Opcode::Batch,
        0x0E => Opcode::AuthChallenge,
        0x0F => Opcode::AuthResponse,
        0x10 => Opcode::AuthSuccess,
        _ => Opcode::Unknown(b),
    }
}

/// The byte of an opcode.
pub open spec fn opcode_byte(o: Opcode) -> u8 {
    match o {
        Opcode::Error => 0x00,
        Opcode::Startup => 0x01,
        Opcode::Result => 0x02,
        Opcode::Authenticate => 0x03,
        Opcode::Options => 0x05,
        Opcode::Supported => 0x06,
        Opcode::Query => 0x07,
        Opcode::Ready => 0x08,
        Opcode::Prepare => 0x09,
        Opcode::Execute => 0x0A,
        Opcode::Register => 0x0B,
        Opcode::Event => 0x0C,
        Opcode::Batch => 0x0D,
        Opcode::AuthChallenge => 0x0E,
        Opcode::AuthResponse => 0x0F,
        Opcode::AuthSuccess => 0x10,
        Opcode::Unknown(b) => b,
    }
}

impl Opcode {
    /// An `Unknown` opcode holds a byte that names no other kind.
    pub open spec fn wf(&self) -> bool {
        match *self {
            Opcode::Unknown(b) => opcode_of(b) == Opcode::Unknown(b),
            _ => true,
        }
    }

    /// Decodes an opcode byte.
    pub fn from_byte(b: u8) -> (r: Opcode)
        ensures
            r == opcode_of(b),
            r.wf(),
    {
        match b {
            0x00 => Opcode::Error,
            0x01 => Opcode::Startup,
            0x02 => Opcode::Result,
            0x03 => Opcode::Authenticate,
            0x05 => Opcode::Options,
            0x06 => Opcode::Supported,
            0x07 => Opcode::Query,
            0x08 => Opcode::Ready,
            0x09 => Opcode::Prepare,
            0x0A => Opcode::Execute,
            0x0B => Opcode::Register,
            0x0C => Opcode::Event,
            0x0D => Opcode::Batch,
            0x0E => Opcode::AuthChallenge,
            0x0F => Opcode::AuthResponse,
            0x10 => Opcode::AuthSuccess,
            _ => Opcode::Unknown(b),
        }
    }

    /// Encodes the opcode as its byte.
    pub fn to_byte(&self) -> (r: u8)
        ensures
            r == opcode_byte(*self),
    {
        match *self {
            Opcode::Error => 0x00,
            Opcode::Startup => 0x01,
            Opcode::Result => 0x02,
            Opcode::Authenticate => 0x03,
            Opcode::Options => 0x05,
            Opcode::Supported => 0x06,
            Opcode::Query => 0x07,
            Opcode::Ready => 0x08,
            Opcode::Prepare => 0x09,
            Opcode::Execute => 0x0A,
            Opcode::Register => 0x0B,
            Opcode::Event => 0x0C,
            Opcode::Batch => 0x0D,
            Opcode::AuthChallenge => 0x0E,
            Opcode::AuthResponse => 0x0F,
            Opcode::AuthSuccess => 0x10,
            Opcode::Unknown(b) => b,
        }
    }

    /// Whether this is the error message kind.
    pub fn is_error(&self) -> (r: bool)
        ensures
            r == (*self is Error),
    {
        match *self {
            Opcode::Error => true,
            _ => false,
        }
    }
}

/// The five fields of the fixed frame header.
#[derive(Clone, Copy, Debug, PartialEq, Eq, Structural)]
pub struct Header {
    pub version: Version,
    pub flags: Flags,
    pub stream: u16,
    pub opcode: Opcode,
    /// Length in bytes of the (possibly compressed) body that follows.
    pub length: u32,
}

impl Header {
    /// A header that decoding can yield: the opcode is well formed and the
    /// length within the accepted maximum.
    pub open spec fn wf(&self) -> bool {
        self.opcode.wf() && self.length <= MAX_BODY_LEN
    }
}

/// The header that the first nine bytes of `s` give, read in the order
/// version, flags, stream id, opcode, body length.
pub open spec fn spec_header(s: Seq<u8>) -> Result<Header, Error> {
    if s.len() < HEADER_LEN {
        Err(Error::Io)
    } else {
        let len = be_i32(s[5], s[6], s[7], s[8]);
        if len < 0 || len > MAX_BODY_LEN {
            Err(Error::MalformedLength)
        } else {
            Ok(
                Header {
                    version: Version { byte: s[0] },
                    flags: flags_of(s[1]),
                    stream: be_u16(s[2], s[3]) as u16,
                    opcode: opcode_of(s[4]),
                    length: len as u32,
                },
            )
        }
    }
}

/// The nine bytes that encode a header.
pub open spec fn spec_encode_header(h: Header) -> Seq<u8> {
    seq![
        h.version.byte,
        flags_byte(h.flags),
        (h.stream / 256) as u8,
        (h.stream % 256) as u8,
        opcode_byte(h.opcode),
        (h.length / 16777216) as u8,
        ((h.length / 65536) % 256) as u8,
        ((h.length / 256) % 256) as u8,
        (h.length % 256) as u8,
    ]
}

/// A decoded frame.
#[derive(Clone, Debug, PartialEq, Eq)]
pub struct Frame {
    pub version: Version,
    pub flags: Flags,
    pub stream: u16,
    pub opcode: Opcode,
    /// The application body left after the optional sections.
    pub body: Vec<u8>,
    /// The tracing identifier, when the flag is set and its bytes form a
    /// time-based UUID.
    pub tracing_id: Option<Vec<u8>>,
    /// The warnings, empty unless the flag is set.
    pub warnings: Vec<String>,
    /// The custom payload as (key, value) entries with unique keys; absent
    /// unless the flag is set.
    pub custom_payload: Option<Vec<(String, Vec<u8>)>>,
}

/// The model of a frame.
pub struct FrameModel {
    pub version: Version,
    pub flags: Flags,
    pub stream: u16,
    pub opcode: Opcode,
    pub body: Seq<u8>,
    pub tracing_id: Option<Seq<u8>>,
    pub warnings: Seq<Seq<char>>,
    pub custom_payload: Option<Seq<(Seq<char>, Seq<u8>)>>,
}

impl View for Frame {
    type V = FrameModel;

    open spec fn view(&self) -> FrameModel {
        FrameModel {
            version: self.version,
            flags: self.flags,
            stream: self.stream,
            opcode: self.opcode,
            body: self.body@,
            tracing_id: match self.tracing_id {
                Some(t) => Some(t@),
                None => None,
            },
            warnings: self.warnings@.map_values(|w: String| w@),
            custom_payload: match self.custom_payload {
                Some(m) => Some(crate::wire::pairs_view(m@)),
                None => None,
            },
        }
    }
}

} // verus!
