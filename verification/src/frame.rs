//! Length-prefixed byte framing around the textual message encoding.
//!
//! One message on the wire is a four-byte little-endian unsigned length
//! followed by that many bytes: the UTF-8 encoding of the message text. The
//! lemmas here extend the textual round-trip proofs to whole wire frames.

use vstd::prelude::*;
use vstd::bytes::{
    lemma_auto_spec_u32_to_from_le_bytes, spec_u32_from_le_bytes, spec_u32_to_le_bytes,
    u32_from_le_bytes, u32_to_le_bytes,
};
use vstd::string::StrSliceExecFns;
use vstd::utf8::{decode_utf8, encode_utf8, valid_utf8};

use crate::json::{
    chars_to_string, decode_request_text, decode_response_text, encode_request, encode_response,
    lemma_request_round_trip, lemma_response_round_trip, parse_request, parse_response,
    request_json, response_json, str_chars,
};
use crate::proto::{Request, RequestView, Response, ResponseView};

verus! {

/// Why a byte buffer was rejected when reading a message.
#[derive(Debug, Clone, Copy, PartialEq, Eq, Structural)]
pub enum DecodeError {
    /// The buffer is shorter than the four-byte length field.
    Truncated,
    /// The length field disagrees with the number of bytes that follow it.
    LengthMismatch,
    /// The payload is not a well-formed character encoding.
    InvalidUtf8,
    /// The payload text is not a well-formed message.
    MalformedPayload,
}

/// The framed bytes of a payload: its length in four little-endian bytes,
/// then the payload itself.
pub open spec fn frame_bytes(payload: Seq<u8>) -> Seq<u8>
    recommends
        payload.len() <= u32::MAX,
{
    spec_u32_to_le_bytes(payload.len() as u32) + payload
}

/// The payload of a framed buffer, when the length field matches what
/// follows it.
pub open spec fn spec_unframe(b: Seq<u8>) -> Option<Seq<u8>> {
    if b.len() < 4 {
        None
    } else if b.skip(4).len() == spec_u32_from_le_bytes(b.take(4)) {
        Some(b.skip(4))
    } else {
        None
    }
}

/// The bytes of one whole request on the wire.
pub open spec fn request_wire_bytes(r: RequestView) -> Seq<u8> {
    frame_bytes(encode_utf8(request_json(r)))
}

/// The bytes of one whole response on the wire.
pub open spec fn response_wire_bytes(r: ResponseView) -> Seq<u8> {
    frame_bytes(encode_utf8(response_json(r)))
}

/// The request a framed buffer carries, if it is well-formed at every layer.
pub open spec fn spec_decode_request_wire(b: Seq<u8>) -> Option<RequestView> {
    match spec_unframe(b) {
        Some(pl) => if valid_utf8(pl) {
            parse_request(decode_utf8(pl))
        } else {
            None
        },
        None => None,
    }
}

/// The response a framed buffer carries, if it is well-formed at every layer.
pub open spec fn spec_decode_response_wire(b: Seq<u8>) -> Option<ResponseView> {
    match spec_unframe(b) {
        Some(pl) => if valid_utf8(pl) {
            parse_response(decode_utf8(pl))
        } else {
            None
        },
        None => None,
    }
}

/// The first reason a buffer is rejected, checked from the outside in.
pub open spec fn frame_error(b: Seq<u8>) -> DecodeError {
    if b.len() < 4 {
        DecodeError::Truncated
    } else if b.skip(4).len() != spec_u32_from_le_bytes(b.take(4)) {
        DecodeError::LengthMismatch
    } else if !valid_utf8(b.skip(4)) {
        DecodeError::InvalidUtf8
    } else {
        DecodeError::MalformedPayload
    }
}

/// Framing a payload and taking it apart again returns the payload.
pub proof fn lemma_unframe_frame(payload: Seq<u8>)
    requires
        payload.len() <= u32::MAX,
    ensures
        spec_unframe(frame_bytes(payload)) == Some(payload),
{
    lemma_auto_spec_u32_to_from_le_bytes();
    let b = frame_bytes(payload);
    assert(b.take(4) =~= spec_u32_to_le_bytes(payload.len() as u32));
    assert(b.skip(4) =~= payload);
}

/// Encoding any request onto the wire and decoding the frame yields the
/// identical request, whenever the payload fits the length field.
pub proof fn lemma_request_wire_round_trip(r: RequestView)
    requires
        encode_utf8(request_json(r)).len() <= u32::MAX,
    ensures
        spec_decode_request_wire(request_wire_bytes(r)) == Some(r),
{
    broadcast use vstd::utf8::encode_utf8_valid_utf8, vstd::utf8::encode_utf8_decode_utf8;

    lemma_unframe_frame(encode_utf8(request_json(r)));
    lemma_request_round_trip(r);
}

/// Encoding any response onto the wire and decoding the frame yields the
/// identical response, whenever the payload fits the length field.
pub proof fn lemma_response_wire_round_trip(r: ResponseView)
    requires
        encode_utf8(response_json(r)).len() <= u32::MAX,
    ensures
        spec_decode_response_wire(response_wire_bytes(r)) == Some(r),
{
    broadcast use vstd::utf8::encode_utf8_valid_utf8, vstd::utf8::encode_utf8_decode_utf8;

    lemma_unframe_frame(encode_utf8(response_json(r)));
    lemma_response_round_trip(r);
}

/// Relies on String::from_utf8: it succeeds exactly on well-formed UTF-8 and
/// returns the text that the bytes encode.
#[verifier::external_body]
fn utf8_to_string(v: Vec<u8>) -> (r: Option<String>)
    ensures
        match r {
            Some(s) => valid_utf8(v@) && s@ == decode_utf8(v@),
            None => !valid_utf8(v@),
        },
{
    String::from_utf8(v).ok()
}

/// Appends the bytes of another vector.
fn append_bytes(dst: &mut Vec<u8>, src: &Vec<u8>)
    ensures
        final(dst)@ == old(dst)@ + src@,
{
    let mut k: usize = 0;
    while k < src.len()
        invariant
            k <= src@.len(),
            dst@ == old(dst)@ + src@.take(k as int),
        decreases src@.len() - k,
    {
        dst.push(src[k]);
        proof {
            assert(src@.take(k as int + 1) =~= src@.take(k as int).push(src@[k as int]));
        }
        k += 1;
    }
    proof {
        assert(src@.take(src@.len() as int) =~= src@);
    }
}

/// Frames the UTF-8 bytes of a message text; refused only when the payload
/// is too long for the length field.
fn frame_text(t: &Vec<char>) -> (r: Option<Vec<u8>>)
    ensures
        match r {
            Some(b) => encode_utf8(t@).len() <= u32::MAX && b@ == frame_bytes(encode_utf8(t@)),
            None => encode_utf8(t@).len() > u32::MAX,
        },
{
    let s = chars_to_string(t);
    let payload = s.as_str().as_bytes_vec();
    if payload.len() > u32::MAX as usize {
        return None;
    }
    let mut out = u32_to_le_bytes(payload.len() as u32);
    append_bytes(&mut out, &payload);
    proof {
        assert(out@ =~= frame_bytes(encode_utf8(t@)));
    }
    Some(out)
}

/// Writes one request as a wire frame; refused only when the payload is too
/// long for the length field.
pub fn encode_request_wire(req: &Request) -> (r: Option<Vec<u8>>)
    ensures
        match r {
            Some(b) => encode_utf8(request_json(req@)).len() <= u32::MAX && b@
                == request_wire_bytes(req@),
            None => encode_utf8(request_json(req@)).len() > u32::MAX,
        },
{
    let t = encode_request(req);
    frame_text(&t)
}

/// Writes one response as a wire frame; refused only when the payload is too
/// long for the length field.
pub fn encode_response_wire(resp: &Response) -> (r: Option<Vec<u8>>)
    ensures
        match r {
            Some(b) => encode_utf8(response_json(resp@)).len() <= u32::MAX && b@
                == response_wire_bytes(resp@),
            None => encode_utf8(response_json(resp@)).len() > u32::MAX,
        },
{
    let t = encode_response(resp);
    frame_text(&t)
}

/// Takes a wire frame apart into its message text.
fn unframe_to_text(b: &Vec<u8>) -> (r: Result<Vec<char>, DecodeError>)
    ensures
        match r {
            Ok(t) => spec_unframe(b@) matches Some(pl) && valid_utf8(pl) && t@ == decode_utf8(pl),
            Err(e) => (spec_unframe(b@) is None || !valid_utf8(spec_unframe(b@).unwrap())) && e
                == frame_error(b@),
        },
{
    let n = b.len();
    if n < 4 {
        return Err(DecodeError::Truncated);
    }
    let mut hdr: Vec<u8> = Vec::new();
    hdr.push(b[0]);
    hdr.push(b[1]);
    hdr.push(b[2]);
    hdr.push(b[3]);
    proof {
        assert(hdr@ =~= b@.take(4));
    }
    let len = u32_from_le_bytes(hdr.as_slice());
    if n - 4 != len as usize {
        return Err(DecodeError::LengthMismatch);
    }
    let mut payload: Vec<u8> = Vec::new();
    let mut k: usize = 4;
    while k < n
        invariant
            4 <= k <= n,
            n == b@.len(),
            payload@ == b@.subrange(4, k as int),
        decreases n - k,
    {
        payload.push(b[k]);
        proof {
            assert(b@.subrange(4, k as int + 1) =~= b@.subrange(4, k as int).push(b@[k as int]));
        }
        k += 1;
    }
    proof {
        assert(payload@ =~= b@.skip(4));
    }
    match utf8_to_string(payload) {
        None => Err(DecodeError::InvalidUtf8),
        Some(s) => {
            let t = str_chars(s.as_str());
            Ok(t)
        },
    }
}

/// Reads one request from a wire frame, saying exactly why a buffer is
/// rejected: too short for the length field, a length that disagrees with
/// the bytes that follow, a payload that is not well-formed UTF-8, or text
/// that is not a well-formed request.
pub fn decode_request_wire(b: &Vec<u8>) -> (r: Result<Request, DecodeError>)
    ensures
        match r {
            Ok(req) => spec_decode_request_wire(b@) == Some(req@),
            Err(e) => spec_decode_request_wire(b@) is None && e == frame_error(b@),
        },
{
    match unframe_to_text(b) {
        Err(e) => Err(e),
        Ok(t) => match decode_request_text(&t) {
            Some(req) => Ok(req),
            None => Err(DecodeError::MalformedPayload),
        },
    }
}

/// Reads one response from a wire frame, with the same exact error account
/// as for requests.
pub fn decode_response_wire(b: &Vec<u8>) -> (r: Result<Response, DecodeError>)
    ensures
        match r {
            Ok(resp) => spec_decode_response_wire(b@) == Some(resp@),
            Err(e) => spec_decode_response_wire(b@) is None && e == frame_error(b@),
        },
{
    match unframe_to_text(b) {
        Err(e) => Err(e),
        Ok(t) => match decode_response_text(&t) {
            Some(resp) => Ok(resp),
            None => Err(DecodeError::MalformedPayload),
        },
    }
}

} // verus!
