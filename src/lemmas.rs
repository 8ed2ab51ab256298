//! Properties of the decoder that relate several steps or hold of all inputs.
use vstd::prelude::*;

use crate::error::Error;
use crate::frame::{
    flags_byte, flags_of, opcode_byte, opcode_of, spec_encode_header, spec_header, Flags,
    FrameModel, Header, UUID_LEN,
};
use crate::parser::{
    decoded_as, is_time_uuid, spec_custom_payload, spec_frame, spec_sections_from, spec_warnings,
};
use crate::wire::{be_i32, be_u16, spec_bytes, spec_int_length, spec_raw, spec_short_length, spec_string, spec_strings};

verus! {

/// Encoding a flag set and decoding the byte gives the same flags.
pub proof fn lemma_flags_round_trip(f: Flags)
    ensures
        flags_of(flags_byte(f)) == f,
{
}

/// Encoding a well-formed header and decoding the nine bytes gives back the
/// same version, flags, stream id, opcode and length.
pub proof fn lemma_header_round_trip(h: Header)
    requires
        h.wf(),
    ensures
        spec_header(spec_encode_header(h)) == Ok::<Header, Error>(h),
{
    let s = spec_encode_header(h);
    lemma_flags_round_trip(h.flags);
    assert(be_u16(s[2], s[3]) == h.stream as int);
    assert(be_i32(s[5], s[6], s[7], s[8]) == h.length as int);
    assert(opcode_of(opcode_byte(h.opcode)) == h.opcode);
}

/// Tracing bytes that are not a time-based UUID are still consumed: the frame
/// then decodes with no tracing id and the remaining sections read from byte
/// sixteen on, as they do after a valid one.
pub proof fn lemma_tracing_always_consumes_sixteen(h: Header, b: Seq<u8>)
    requires
        h.flags.tracing,
        b.len() >= UUID_LEN,
    ensures
        !is_time_uuid(b.subrange(0, UUID_LEN as int)) ==> spec_frame(h, b) == spec_sections_from(
            h,
            b,
            None,
            UUID_LEN as int,
        ),
        is_time_uuid(b.subrange(0, UUID_LEN as int)) ==> spec_frame(h, b) == spec_sections_from(
            h,
            b,
            Some(b.subrange(0, UUID_LEN as int)),
            UUID_LEN as int,
        ),
{
}

/// With its flag unset the custom payload is absent; with the flag set and a
/// count of zero it is present and empty.
pub proof fn lemma_custom_payload_presence(f: Flags, b: Seq<u8>, p: int)
    requires
        0 <= p,
    ensures
        !f.custom_payload ==> spec_custom_payload(f, b, p) == Ok::<
            (Option<Seq<(Seq<char>, Seq<u8>)>>, int),
            Error,
        >((None, p)),
        f.custom_payload && p + 2 <= b.len() && b[p] == 0 && b[p + 1] == 0 ==> spec_custom_payload(
            f,
            b,
            p,
        ) == Ok::<(Option<Seq<(Seq<char>, Seq<u8>)>>, int), Error>((Some(seq![]), p + 2)),
{
}

/// A string list holds exactly as many strings as its count declares.
pub proof fn lemma_strings_count(s: Seq<u8>, p: int, n: nat)
    requires
        spec_strings(s, p, n) is Ok,
    ensures
        spec_strings(s, p, n)->Ok_0.0.len() == n,
    decreases n,
{
    if n > 0 {
        lemma_strings_count(s, p, (n - 1) as nat);
    }
}

/// With the warning flag set, a count of zero gives an empty list, which is
/// present rather than a failure.
pub proof fn lemma_empty_warnings(f: Flags, b: Seq<u8>, p: int)
    requires
        f.warning,
        0 <= p,
        p + 2 <= b.len(),
        b[p] == 0,
        b[p + 1] == 0,
    ensures
        spec_warnings(f, b, p) == Ok::<(Seq<Seq<char>>, int), Error>((seq![], p + 2)),
{
}

/// A frame whose opcode is Error never decodes to a frame.
pub proof fn lemma_error_frame_fails(r: Result<crate::frame::Frame, Error>, h: Header, b: Seq<u8>)
    requires
        h.opcode is Error,
        decoded_as(r, h, b),
    ensures
        r is Err,
{
}

/// A section whose declared length runs past the end of the input fails
/// with an I/O error, never with a short value.
pub proof fn lemma_truncated_section_is_io(s: Seq<u8>, p: int)
    requires
        0 <= p <= s.len(),
    ensures
        forall|n: int| 0 <= n && p + n > s.len() ==> #[trigger] spec_raw(s, p, n) == Err::<
            (Seq<u8>, int),
            Error,
        >(Error::Io),
        spec_int_length(s, p) matches Ok((n, q)) && q + n > s.len() ==> spec_bytes(s, p) == Err::<
            (Seq<u8>, int),
            Error,
        >(Error::Io),
        spec_short_length(s, p) matches Ok((n, q)) && q + n > s.len() ==> spec_string(s, p)
            == Err::<(Seq<char>, int), Error>(Error::Io),
{
}

/// An empty body with no flags set gives a frame with an empty body and no
/// optional sections.
pub proof fn lemma_empty_body(h: Header)
    requires
        h.flags == flags_of(0),
    ensures
        spec_frame(h, seq![]) == Ok::<FrameModel, Error>(
            FrameModel {
                version: h.version,
                flags: h.flags,
                stream: h.stream,
                opcode: h.opcode,
                body: seq![],
                tracing_id: None,
                warnings: seq![],
                custom_payload: None,
            },
        ),
{
    assert(Seq::<u8>::empty().subrange(0, 0) =~= Seq::<u8>::empty());
}

} // verus!
