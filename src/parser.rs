//! Decoding of a whole frame: header, compression dispatch, the optional
//! sections at the front of the body, and the error-frame conversion.
use vstd::prelude::*;

use crate::error::{Error, ServerError};
use crate::frame::{
    spec_encode_header, spec_header, Flags, Frame, FrameModel, Header, Opcode, Version,
    HEADER_LEN, MAX_BODY_LEN, UUID_LEN,
};
use crate::wire::{
    read_bytes_map, read_int, read_raw_bytes, read_short, read_string,
    read_string_list, spec_bytes_map, spec_int, spec_raw, spec_string, spec_string_list, Cursor,
};

verus! {

/// Whether sixteen bytes form a time-based UUID: version 1 in the high
/// nibble of byte 6, and the RFC 4122 variant in the top bits of byte 8.
pub open spec fn is_time_uuid(id: Seq<u8>) -> bool {
    id.len() == UUID_LEN && id[6] / 16 == 1 && id[8] / 64 == 2
}

/// The tracing section: sixteen bytes are consumed whenever the flag is set,
/// and kept only if they form a time-based UUID.
pub open spec fn spec_tracing(f: Flags, b: Seq<u8>) -> Result<(Option<Seq<u8>>, int), Error> {
    if f.tracing {
        match spec_raw(b, 0, UUID_LEN as int) {
            Ok((id, q)) => Ok(
                (
                    if is_time_uuid(id) {
                        Some(id)
                    } else {
                        None
                    },
                    q,
                ),
            ),
            Err(e) => Err(e),
        }
    } else {
        Ok((None, 0))
    }
}

/// The warnings section at `p`.
pub open spec fn spec_warnings(f: Flags, b: Seq<u8>, p: int) -> Result<
    (Seq<Seq<char>>, int),
    Error,
> {
    if f.warning {
        spec_string_list(b, p)
    } else {
        Ok((seq![], p))
    }
}

/// The custom payload section at `p`.
pub open spec fn spec_custom_payload(f: Flags, b: Seq<u8>, p: int) -> Result<
    (Option<Seq<(Seq<char>, Seq<u8>)>>, int),
    Error,
> {
    if f.custom_payload {
        match spec_bytes_map(b, p) {
            Ok((m, q)) => Ok((Some(m), q)),
            Err(e) => Err(e),
        }
    } else {
        Ok((None, p))
    }
}

/// The frame whose tracing section gave `t` and whose following sections
/// start at `p`.
pub open spec fn spec_sections_from(h: Header, b: Seq<u8>, t: Option<Seq<u8>>, p: int) -> Result<
    FrameModel,
    Error,
> {
    match spec_warnings(h.flags, b, p) {
        Ok((w, pw)) => match spec_custom_payload(h.flags, b, pw) {
            Ok((c, pc)) => Ok(
                FrameModel {
                    version: h.version,
                    flags: h.flags,
                    stream: h.stream,
                    opcode: h.opcode,
                    body: b.subrange(pc, b.len() as int),
                    tracing_id: t,
                    warnings: w,
                    custom_payload: c,
                },
            ),
            Err(e) => Err(e),
        },
        Err(e) => Err(e),
    }
}

/// The frame that a header and its decompressed body give, before the
/// error-frame conversion.
pub open spec fn spec_frame(h: Header, b: Seq<u8>) -> Result<FrameModel, Error> {
    match spec_tracing(h.flags, b) {
        Ok((t, p)) => spec_sections_from(h, b, t, p),
        Err(e) => Err(e),
    }
}

/// The server error in the body of an error frame: an int code, a string
/// message, and the details that follow.
pub open spec fn spec_server_error(b: Seq<u8>) -> Result<(i32, Seq<char>, Seq<u8>), Error> {
    match spec_int(b, 0) {
        Ok((code, q)) => match spec_string(b, q) {
            Ok((msg, q2)) => Ok((code, msg, b.subrange(q2, b.len() as int))),
            Err(e) => Err(e),
        },
        Err(e) => Err(e),
    }
}

/// `e` holds the code, message and details of `m`.
pub open spec fn server_error_is(e: ServerError, m: (i32, Seq<char>, Seq<u8>)) -> bool {
    e.code == m.0 && e.message@ == m.1 && e.details@ == m.2
}

/// What the error-frame conversion makes of frame `m`: an error frame
/// becomes the server error its body holds (or the error that decoding the
/// body met), any other frame is returned as it is.
pub open spec fn converted(m: FrameModel, r: Result<Frame, Error>) -> bool {
    if m.opcode is Error {
        match spec_server_error(m.body) {
            Ok(se) => r is Err && r->Err_0 is Server && server_error_is(r->Err_0->Server_0, se),
            Err(e) => r == Err::<Frame, Error>(e),
        }
    } else {
        r is Ok && r->Ok_0@ == m
    }
}

/// `r` is the outcome of decoding decompressed body `b` under header `h`.
pub open spec fn decoded_as(r: Result<Frame, Error>, h: Header, b: Seq<u8>) -> bool {
    match spec_frame(h, b) {
        Ok(m) => converted(m, r),
        Err(e) => r == Err::<Frame, Error>(e),
    }
}

/// Decodes the fixed header from the first nine bytes, in the order version,
/// flags, stream id, opcode, body length.
pub fn decode_header(bytes: &[u8]) -> (r: Result<Header, Error>)
    ensures
        r == spec_header(bytes@),
        r is Ok ==> r->Ok_0.wf(),
{
    if bytes.len() < HEADER_LEN {
        return Err(Error::Io);
    }
    let version = Version { byte: bytes[0] };
    let flags = Flags::from_byte(bytes[1]);
    let mut cursor = Cursor { buf: bytes, pos: 2 };
    let stream = read_short(&mut cursor)?;
    let opcode = Opcode::from_byte(bytes[4]);
    cursor.pos = 5;
    let length = read_int(&mut cursor)?;
    if length < 0 || length as u32 > MAX_BODY_LEN {
        return Err(Error::MalformedLength);
    }
    Ok(Header { version, flags, stream, opcode, length: length as u32 })
}

/// Encodes a header as its nine bytes.
pub fn encode_header(h: &Header) -> (r: Vec<u8>)
    ensures
        r@ == spec_encode_header(*h),
{
    let mut out: Vec<u8> = Vec::new();
    out.push(h.version.byte);
    out.push(h.flags.to_byte());
    out.push((h.stream / 256) as u8);
    out.push((h.stream % 256) as u8);
    out.push(h.opcode.to_byte());
    out.push((h.length / 16777216) as u8);
    out.push(((h.length / 65536) % 256) as u8);
    out.push(((h.length / 256) % 256) as u8);
    out.push((h.length % 256) as u8);
    assert(out@ =~= spec_encode_header(*h));
    out
}

/// Keeps sixteen tracing bytes if they form a time-based UUID.
pub fn decode_timeuuid(bytes: Vec<u8>) -> (r: Option<Vec<u8>>)
    ensures
        is_time_uuid(bytes@) ==> r == Some(bytes),
        !is_time_uuid(bytes@) ==> r is None,
{
    if bytes.len() == UUID_LEN && bytes[6] / 16 == 1 && bytes[8] / 64 == 2 {
        Some(bytes)
    } else {
        None
    }
}

/// Decodes the server error that the body of an error frame holds.
pub fn decode_server_error(body: &[u8]) -> (r: Result<ServerError, Error>)
    ensures
        match spec_server_error(body@) {
            Ok(se) => r is Ok && server_error_is(r->Ok_0, se),
            Err(e) => r == Err::<ServerError, Error>(e),
        },
{
    let mut cursor = Cursor::new(body);
    let code = read_int(&mut cursor)?;
    let message = read_string(&mut cursor)?;
    let rest = cursor.remaining();
    let details = read_raw_bytes(rest, &mut cursor)?;
    Ok(ServerError { code, message, details })
}

/// Turns an error frame into the server error it carries; returns any other
/// frame unchanged.
pub fn convert_frame_into_result(frame: Frame) -> (r: Result<Frame, Error>)
    ensures
        converted(frame@, r),
        !(frame.opcode is Error) ==> r == Ok::<Frame, Error>(frame),
        frame.opcode is Error ==> r is Err,
{
    if frame.opcode.is_error() {
        match decode_server_error(frame.body.as_slice()) {
            Ok(se) => Err(Error::Server(se)),
            Err(e) => Err(e),
        }
    } else {
        Ok(frame)
    }
}

/// Decodes the optional sections at the front of a decompressed body, in the
/// order tracing id, warnings, custom payload, and builds the frame from them
/// and the bytes that remain.
pub fn parse_frame_body(header: &Header, body: &[u8]) -> (r: Result<Frame, Error>)
    ensures
        match spec_frame(*header, body@) {
            Ok(m) => r is Ok && r->Ok_0@ == m,
            Err(e) => r == Err::<Frame, Error>(e),
        },
{
    let mut cursor = Cursor::new(body);
    let tracing_id = if header.flags.tracing {
        let id = read_raw_bytes(UUID_LEN, &mut cursor)?;
        decode_timeuuid(id)
    } else {
        None
    };
    let ghost pt = cursor.pos as int;
    assert(spec_tracing(header.flags, body@) == Ok::<(Option<Seq<u8>>, int), Error>(
        (
            match tracing_id {
                Some(t) => Some(t@),
                None => None,
            },
            pt,
        ),
    ));
    let warnings = if header.flags.warning {
        read_string_list(&mut cursor)?
    } else {
        Vec::new()
    };
    let custom_payload = if header.flags.custom_payload {
        Some(read_bytes_map(&mut cursor)?)
    } else {
        None
    };
    let rest = cursor.remaining();
    let body_rest = read_raw_bytes(rest, &mut cursor)?;
    let frame = Frame {
        version: header.version,
        flags: header.flags,
        stream: header.stream,
        opcode: header.opcode,
        body: body_rest,
        tracing_id,
        warnings,
        custom_payload,
    };
    proof {
        if !header.flags.warning {
            assert(frame.warnings@.map_values(|w: String| w@) =~= Seq::<Seq<char>>::empty());
        }
    }
    Ok(frame)
}

/// Builds the frame from a header and its decompressed body, then applies
/// the error-frame conversion.
pub fn finish_frame(header: &Header, body: &[u8]) -> (r: Result<Frame, Error>)
    ensures
        decoded_as(r, *header, body@),
        r is Ok ==> !(r->Ok_0.opcode is Error),
{
    let frame = parse_frame_body(header, body)?;
    convert_frame_into_result(frame)
}

/// Passes the raw body through `decompress` if the frame's compression flag
/// is set, and through unchanged otherwise, whatever strategy `decompress`
/// stands for.
pub fn decompress_body<F: FnOnce(Vec<u8>) -> Result<Vec<u8>, Error>>(
    flags: &Flags,
    raw: Vec<u8>,
    decompress: F,
) -> (r: Result<Vec<u8>, Error>)
    requires
        decompress.requires((raw,)),
    ensures
        !flags.compression ==> r == Ok::<Vec<u8>, Error>(raw),
        flags.compression ==> decompress.ensures((raw,), r),
{
    if flags.compression {
        decompress(raw)
    } else {
        Ok(raw)
    }
}

/// Decodes a frame from its header and raw body: decompression as the flag
/// says, then the optional sections and the error-frame conversion.
pub fn decode_body<F: FnOnce(Vec<u8>) -> Result<Vec<u8>, Error>>(
    header: &Header,
    raw: Vec<u8>,
    decompress: F,
) -> (r: Result<Frame, Error>)
    requires
        decompress.requires((raw,)),
    ensures
        !header.flags.compression ==> decoded_as(r, *header, raw@),
        header.flags.compression ==> exists|d: Result<Vec<u8>, Error>|
            decompress.ensures((raw,), d) && match d {
                Ok(b) => decoded_as(r, *header, b@),
                Err(e) => r == Err::<Frame, Error>(e),
            },
        r is Ok ==> !(r->Ok_0.opcode is Error),
{
    let body = decompress_body(&header.flags, raw, decompress);
    match body {
        Ok(b) => finish_frame(header, b.as_slice()),
        Err(e) => Err(e),
    }
}

/// Decodes one frame from the front of `input`: the nine header bytes, then
/// exactly the body length that the header declares.
pub fn decode_frame<F: FnOnce(Vec<u8>) -> Result<Vec<u8>, Error>>(
    input: &[u8],
    decompress: F,
) -> (r: Result<Frame, Error>)
    requires
        forall|v: Vec<u8>| decompress.requires((v,)),
    ensures
        match spec_header(input@.subrange(0, if input@.len() < HEADER_LEN { input@.len() as int } else { HEADER_LEN as int })) {
            Err(e) => r == Err::<Frame, Error>(e),
            Ok(h) => if input@.len() < HEADER_LEN + h.length {
                r == Err::<Frame, Error>(Error::Io)
            } else {
                let raw = input@.subrange(HEADER_LEN as int, HEADER_LEN + h.length);
                &&& !h.flags.compression ==> decoded_as(r, h, raw)
                &&& h.flags.compression ==> exists|v: Vec<u8>, d: Result<Vec<u8>, Error>|
                    v@ == raw && decompress.ensures((v,), d) && match d {
                        Ok(b) => decoded_as(r, h, b@),
                        Err(e) => r == Err::<Frame, Error>(e),
                    }
            },
        },
        r is Ok ==> !(r->Ok_0.opcode is Error),
{
    let header = decode_header(input)?;
    proof {
        lemma_header_reads_nine(input@);
    }
    let len = header.length as usize;
    if input.len() - HEADER_LEN < len {
        return Err(Error::Io);
    }
    let mut cursor = Cursor { buf: input, pos: HEADER_LEN };
    let raw = read_raw_bytes(len, &mut cursor)?;
    let ghost rv = raw;
    let r = decode_body(&header, raw, decompress);
    proof {
        if header.flags.compression {
            let d = choose|d: Result<Vec<u8>, Error>|
                decompress.ensures((rv,), d) && match d {
                    Ok(b) => decoded_as(r, header, b@),
                    Err(e) => r == Err::<Frame, Error>(e),
                };
            assert(rv@ == input@.subrange(HEADER_LEN as int, HEADER_LEN + header.length));
        }
    }
    r
}

/// The header depends on the first nine bytes alone: what follows them is
/// never read to decode it.
pub proof fn lemma_header_reads_nine(s: Seq<u8>)
    ensures
        spec_header(s) == spec_header(s.subrange(0, if s.len() < HEADER_LEN { s.len() as int } else { HEADER_LEN as int })),
{
    let t = s.subrange(0, if s.len() < HEADER_LEN { s.len() as int } else { HEADER_LEN as int });
    if s.len() >= HEADER_LEN {
        assert(t[0] == s[0] && t[1] == s[1] && t[2] == s[2] && t[3] == s[3] && t[4] == s[4]);
        assert(t[5] == s[5] && t[6] == s[6] && t[7] == s[7] && t[8] == s[8]);
    }
}

} // verus!
