use cdrs_frame::error::{Error, ServerError};
use cdrs_frame::frame::{Flags, Header, Opcode, Version, MAX_BODY_LEN};
use cdrs_frame::parser::{
    convert_frame_into_result, decode_body, decode_frame, decode_header, decode_timeuuid,
    decompress_body, encode_header,
};

fn identity(v: Vec<u8>) -> Result<Vec<u8>, Error> {
    Ok(v)
}

fn frame_bytes(flags: u8, opcode: u8, body: &[u8]) -> Vec<u8> {
    let len = body.len() as u32;
    let mut out = vec![0x84, flags, 0x00, 0x07, opcode];
    out.extend_from_slice(&len.to_be_bytes());
    out.extend_from_slice(body);
    out
}

fn short_string(s: &str) -> Vec<u8> {
    let mut out = (s.len() as u16).to_be_bytes().to_vec();
    out.extend_from_slice(s.as_bytes());
    out
}

fn int_bytes(b: &[u8]) -> Vec<u8> {
    let mut out = (b.len() as i32).to_be_bytes().to_vec();
    out.extend_from_slice(b);
    out
}

#[test]
fn ready_frame_with_empty_body() {
    let input = [0x04, 0x00, 0x00, 0x01, 0x08, 0x00, 0x00, 0x00, 0x00];
    let frame = decode_frame(&input, identity).unwrap();
    assert_eq!(frame.version, Version { byte: 4 });
    assert!(frame.flags.is_empty());
    assert_eq!(frame.stream, 1);
    assert_eq!(frame.opcode, Opcode::Ready);
    assert!(frame.body.is_empty());
    assert_eq!(frame.tracing_id, None);
    assert!(frame.warnings.is_empty());
    assert_eq!(frame.custom_payload, None);
}

#[test]
fn header_is_read_from_nine_bytes_only() {
    let input = [0x84, 0x00, 0x12, 0x34, 0x02, 0x00, 0x00, 0x00, 0x00, 0xff, 0xff];
    let h = decode_header(&input).unwrap();
    assert_eq!(h, decode_header(&input[..9]).unwrap());
    assert_eq!(h.stream, 0x1234);
    assert_eq!(h.opcode, Opcode::Result);
    assert_eq!(h.length, 0);
    assert!(h.version.is_response());
    assert_eq!(h.version.revision(), 4);
}

#[test]
fn header_round_trip() {
    let h = Header {
        version: Version { byte: 0x84 },
        flags: Flags { compression: true, tracing: false, custom_payload: true, warning: true },
        stream: 0xbeef,
        opcode: Opcode::Event,
        length: 70000,
    };
    let bytes = encode_header(&h);
    assert_eq!(bytes, vec![0x84, 0x0d, 0xbe, 0xef, 0x0c, 0x00, 0x01, 0x11, 0x70]);
    assert_eq!(decode_header(&bytes).unwrap(), h);
}

#[test]
fn unknown_opcode_round_trip() {
    assert_eq!(Opcode::from_byte(0x04), Opcode::Unknown(0x04));
    assert_eq!(Opcode::Unknown(0x04).to_byte(), 0x04);
    assert_eq!(Opcode::from_byte(0x10), Opcode::AuthSuccess);
}

#[test]
fn flag_byte_bits() {
    let f = Flags::from_byte(0xf2);
    assert_eq!(f, Flags { compression: false, tracing: true, custom_payload: false, warning: false });
    assert_eq!(f.to_byte(), 0x02);
    assert_eq!(Flags::from_byte(0x0f).to_byte(), 0x0f);
    assert!(Flags::empty().is_empty());
}

#[test]
fn uncompressed_frame_skips_configured_strategy() {
    let input = frame_bytes(0x00, 0x08, &[1, 2, 3]);
    let frame = decode_frame(&input, |_v: Vec<u8>| Ok(vec![9, 9])).unwrap();
    assert_eq!(frame.body, vec![1, 2, 3]);
    let flags = Flags::empty();
    assert_eq!(decompress_body(&flags, vec![5], |_v: Vec<u8>| Err(Error::Decompression)), Ok(vec![5]));
}

#[test]
fn compressed_frame_goes_through_strategy() {
    let input = frame_bytes(0x01, 0x08, &[1, 2, 3]);
    let frame = decode_frame(&input, |v: Vec<u8>| Ok(v.into_iter().rev().collect())).unwrap();
    assert_eq!(frame.body, vec![3, 2, 1]);
    let failed = decode_frame(&input, |_v: Vec<u8>| Err(Error::Decompression));
    assert_eq!(failed, Err(Error::Decompression));
}

#[test]
fn invalid_tracing_id_is_skipped() {
    let mut body = vec![0u8; 16];
    body.extend_from_slice(&1u16.to_be_bytes());
    body.extend_from_slice(&short_string("hi"));
    body.push(7);
    let input = frame_bytes(0x02 | 0x08, 0x08, &body);
    let frame = decode_frame(&input, identity).unwrap();
    assert_eq!(frame.tracing_id, None);
    assert_eq!(frame.warnings, vec!["hi".to_string()]);
    assert_eq!(frame.body, vec![7]);
}

#[test]
fn valid_tracing_id_is_kept() {
    let mut id = vec![0xaau8; 16];
    id[6] = 0x11;
    id[8] = 0x80;
    let mut body = id.clone();
    body.push(1);
    let input = frame_bytes(0x02, 0x08, &body);
    let frame = decode_frame(&input, identity).unwrap();
    assert_eq!(frame.tracing_id, Some(id.clone()));
    assert_eq!(frame.body, vec![1]);
    assert_eq!(decode_timeuuid(id.clone()), Some(id));
    assert_eq!(decode_timeuuid(vec![0u8; 16]), None);
}

#[test]
fn short_tracing_section_is_io_error() {
    let input = frame_bytes(0x02, 0x08, &[0u8; 10]);
    assert_eq!(decode_frame(&input, identity), Err(Error::Io));
}

#[test]
fn custom_payload_absent_or_empty() {
    let input = frame_bytes(0x00, 0x08, &[0, 0]);
    let frame = decode_frame(&input, identity).unwrap();
    assert_eq!(frame.custom_payload, None);
    assert_eq!(frame.body, vec![0, 0]);
    let input = frame_bytes(0x04, 0x08, &[0, 0]);
    let frame = decode_frame(&input, identity).unwrap();
    assert_eq!(frame.custom_payload, Some(vec![]));
    assert!(frame.body.is_empty());
}

#[test]
fn custom_payload_last_write_wins() {
    let mut body = 3u16.to_be_bytes().to_vec();
    body.extend_from_slice(&short_string("a"));
    body.extend_from_slice(&int_bytes(&[1]));
    body.extend_from_slice(&short_string("b"));
    body.extend_from_slice(&int_bytes(&[2]));
    body.extend_from_slice(&short_string("a"));
    body.extend_from_slice(&int_bytes(&[3, 4]));
    body.push(9);
    let input = frame_bytes(0x04, 0x08, &body);
    let frame = decode_frame(&input, identity).unwrap();
    assert_eq!(
        frame.custom_payload,
        Some(vec![("a".to_string(), vec![3, 4]), ("b".to_string(), vec![2])])
    );
    assert_eq!(frame.body, vec![9]);
}

#[test]
fn warnings_match_declared_count() {
    let input = frame_bytes(0x08, 0x08, &[0, 0, 5]);
    let frame = decode_frame(&input, identity).unwrap();
    assert!(frame.warnings.is_empty());
    assert_eq!(frame.body, vec![5]);
    let mut body = 2u16.to_be_bytes().to_vec();
    body.extend_from_slice(&short_string("one"));
    body.extend_from_slice(&short_string("two"));
    let input = frame_bytes(0x08, 0x08, &body);
    let frame = decode_frame(&input, identity).unwrap();
    assert_eq!(frame.warnings, vec!["one".to_string(), "two".to_string()]);
    let mut body = 3u16.to_be_bytes().to_vec();
    body.extend_from_slice(&short_string("one"));
    let input = frame_bytes(0x08, 0x08, &body);
    assert_eq!(decode_frame(&input, identity), Err(Error::Io));
}

#[test]
fn error_frame_becomes_server_error() {
    let mut body = 0x2200i32.to_be_bytes().to_vec();
    body.extend_from_slice(&short_string("bad query"));
    body.push(1);
    let input = frame_bytes(0x00, 0x00, &body);
    let expected = ServerError { code: 0x2200, message: "bad query".to_string(), details: vec![1] };
    assert_eq!(decode_frame(&input, identity), Err(Error::Server(expected)));
    let input = frame_bytes(0x00, 0x00, &[0, 0]);
    assert_eq!(decode_frame(&input, identity), Err(Error::Io));
}

#[test]
fn convert_keeps_other_frames() {
    let input = frame_bytes(0x00, 0x07, &[4, 5]);
    let frame = decode_frame(&input, identity).unwrap();
    assert_eq!(convert_frame_into_result(frame.clone()), Ok(frame));
}

#[test]
fn truncated_input_is_io_error() {
    assert_eq!(decode_header(&[0x04, 0x00, 0x00]), Err(Error::Io));
    let mut input = frame_bytes(0x00, 0x08, &[1, 2, 3, 4, 5]);
    input.truncate(11);
    assert_eq!(decode_frame(&input, identity), Err(Error::Io));
}

#[test]
fn bad_lengths_are_rejected() {
    let input = [0x04, 0x00, 0x00, 0x01, 0x08, 0xff, 0xff, 0xff, 0xff];
    assert_eq!(decode_header(&input), Err(Error::MalformedLength));
    let too_big = (MAX_BODY_LEN + 1).to_be_bytes();
    let input = [0x04, 0x00, 0x00, 0x01, 0x08, too_big[0], too_big[1], too_big[2], too_big[3]];
    assert_eq!(decode_header(&input), Err(Error::MalformedLength));
}

#[test]
fn invalid_utf8_warning_is_encoding_error() {
    let body = [0x00, 0x01, 0x00, 0x02, 0xc3, 0x28];
    let input = frame_bytes(0x08, 0x08, &body);
    assert_eq!(decode_frame(&input, identity), Err(Error::Encoding));
}

#[test]
fn decode_body_from_header() {
    let header = decode_header(&[0x84, 0x01, 0x00, 0x02, 0x08, 0x00, 0x00, 0x00, 0x02]).unwrap();
    let frame = decode_body(&header, vec![1, 2], |v: Vec<u8>| Ok([v, vec![3]].concat())).unwrap();
    assert_eq!(frame.body, vec![1, 2, 3]);
    assert_eq!(frame.stream, 2);
}
