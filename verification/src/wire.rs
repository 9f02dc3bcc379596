//! Byte layout of the three frame shapes, and the calls into the MessagePack
//! codec that produce and read them.
//!
//! Every frame is one MessagePack array. What the encoder writes is stated
//! here byte for byte. The decoder is more lenient than that (it takes any
//! integer width, any string header that fits), so what it makes of arbitrary
//! bytes is left as a named function of those bytes.

use rmp_serialize::decode::Error::{InvalidDataRead, InvalidMarkerRead};
use rmp_serialize::{Decoder, Encoder};
use rustc_serialize::{Decodable, Encodable};
use vstd::prelude::*;
use vstd::utf8::encode_utf8;

verus! {

/// Why a buffer did not yield a frame.
#[derive(Clone, Copy, Debug, PartialEq, Eq, Structural)]
pub enum DecodeError {
    /// The bytes stopped before the frame was complete.
    Truncated,
    /// The bytes do not form a frame of the expected shape.
    Malformed,
}

/// Header byte of an array of `len` elements, for the short arrays used here.
pub open spec fn array_header(len: nat) -> Seq<u8>
    recommends
        len < 16,
{
    seq![(0x90 + len) as u8]
}

/// An unsigned integer below 256 in its most compact form.
pub open spec fn uint(value: u8) -> Seq<u8> {
    if value < 0x80 {
        seq![value]
    } else {
        seq![0xccu8, value]
    }
}

/// A boolean.
pub open spec fn boolean(value: bool) -> Seq<u8> {
    if value {
        seq![0xc3u8]
    } else {
        seq![0xc2u8]
    }
}

/// Header of a string whose UTF-8 form has `len` bytes, in its most compact
/// form. Lengths are written big-endian.
pub open spec fn str_header(len: nat) -> Seq<u8>
    recommends
        len <= u32::MAX,
{
    if len < 32 {
        seq![(0xa0 + len) as u8]
    } else if len < 0x100 {
        seq![0xd9u8, len as u8]
    } else if len < 0x1_0000 {
        seq![0xdau8, (len / 0x100) as u8, (len % 0x100) as u8]
    } else {
        seq![
            0xdbu8,
            (len / 0x100_0000) as u8,
            (len / 0x1_0000 % 0x100) as u8,
            (len / 0x100 % 0x100) as u8,
            (len % 0x100) as u8,
        ]
    }
}

/// A string: its header, then its UTF-8 bytes.
pub open spec fn string(text: Seq<char>) -> Seq<u8> {
    str_header(encode_utf8(text).len()) + encode_utf8(text)
}

/// Whether a string is short enough for a header to hold its length.
pub open spec fn fits(text: Seq<char>) -> bool {
    encode_utf8(text).len() <= u32::MAX
}

/// The frame `(header, id, role, channel)`.
pub open spec fn join_request_frame(
    header: u8,
    id: u8,
    role: Seq<char>,
    channel: Seq<char>,
) -> Seq<u8> {
    array_header(4) + uint(header) + uint(id) + string(role) + string(channel)
}

/// The frame `(header, id, text, result)`.
pub open spec fn join_response_frame(header: u8, id: u8, text: Seq<char>, result: bool) -> Seq<u8> {
    array_header(4) + uint(header) + uint(id) + string(text) + boolean(result)
}

/// The frame `(header, topic, data)`.
pub open spec fn notification_frame(header: u8, topic: Seq<char>, data: Seq<char>) -> Seq<u8> {
    array_header(3) + uint(header) + string(topic) + string(data)
}

/// What the decoder reads from the front of `bytes` when asked for a
/// `(u8, u8, String, String)`: the four fields and the bytes it left unread.
pub uninterp spec fn join_request_fields(bytes: Seq<u8>) -> Result<
    (u8, u8, Seq<char>, Seq<char>, Seq<u8>),
    DecodeError,
>;

/// What the decoder reads from the front of `bytes` when asked for a
/// `(u8, u8, String, bool)`: the four fields and the bytes it left unread.
pub uninterp spec fn join_response_fields(bytes: Seq<u8>) -> Result<
    (u8, u8, Seq<char>, bool, Seq<u8>),
    DecodeError,
>;

/// What the decoder reads from the front of `bytes` when asked for a
/// `(u8, String, String)`: the three fields and the bytes it left unread.
pub uninterp spec fn notification_fields(bytes: Seq<u8>) -> Result<
    (u8, Seq<char>, Seq<char>, Seq<u8>),
    DecodeError,
>;

/// Whether `rest` is what remains of `bytes` after reading from its front.
pub open spec fn is_rest_of(rest: Seq<u8>, bytes: Seq<u8>) -> bool {
    rest.len() <= bytes.len() && rest == bytes.skip(bytes.len() - rest.len())
}

/// Calls `Encodable::encode` of the tuple `(u8, u8, &str, &str)` with an
/// `rmp_serialize::Encoder` that writes into a fresh vector.
///
/// Trusted: the encoder writes a four-element array header, each integer in
/// its most compact form and each string as header plus UTF-8 bytes; writing
/// into a vector cannot fail; and the crate's decoder reads exactly these
/// bytes back as the same four fields. The string lengths must fit 32 bits,
/// because the encoder truncates a longer length silently.
#[verifier::external_body]
pub(crate) fn pack_join_request(header: u8, id: u8, role: &str, channel: &str) -> (out: Option<Vec<u8>>)
    requires
        fits(role@),
        fits(channel@),
    ensures
        out is Some,
        out matches Some(bytes) ==> bytes@ == join_request_frame(header, id, role@, channel@),
        out matches Some(bytes) ==> (join_request_fields(bytes@) matches Ok(read) && read == (
            header,
            id,
            role@,
            channel@,
            Seq::<u8>::empty(),
        )),
{
    let mut bytes: Vec<u8> = Vec::new();
    match (header, id, role, channel).encode(&mut Encoder::new(&mut bytes)) {
        Ok(()) => Some(bytes),
        Err(_) => None,
    }
}

/// Calls `Decodable::decode` for `(u8, u8, String, String)` with an
/// `rmp_serialize::Decoder` that reads from the front of `bytes`.
///
/// Trusted: the result is a function of the bytes alone; the reader is left
/// at the first unread byte; the decoder reports the end of the input as a
/// failed read of a marker or of data, and every other defect by another
/// variant of its error.
#[verifier::external_body]
pub(crate) fn unpack_join_request(bytes: &[u8]) -> (out: Result<(u8, u8, String, String, &[u8]), DecodeError>)
    ensures
        out matches Ok(got) ==> is_rest_of(got.4@, bytes@) && (join_request_fields(bytes@) matches Ok(
            read,
        ) && read == (got.0, got.1, got.2@, got.3@, got.4@)),
        out matches Err(e) ==> (join_request_fields(bytes@) matches Err(kind) && kind == e),
{
    let mut rest: &[u8] = bytes;
    let read: Result<(u8, u8, String, String), _> = Decodable::decode(&mut Decoder::new(&mut rest));
    match read {
        Ok((header, id, role, channel)) => Ok((header, id, role, channel, rest)),
        Err(InvalidMarkerRead(_) | InvalidDataRead(_)) => Err(DecodeError::Truncated),
        Err(_) => Err(DecodeError::Malformed),
    }
}

/// Calls `Encodable::encode` of the tuple `(u8, u8, &str, bool)` with an
/// `rmp_serialize::Encoder` that writes into a fresh vector.
///
/// Trusted: as for the join request, with the boolean written as one byte.
#[verifier::external_body]
pub(crate) fn pack_join_response(header: u8, id: u8, text: &str, result: bool) -> (out: Option<Vec<u8>>)
    requires
        fits(text@),
    ensures
        out is Some,
        out matches Some(bytes) ==> bytes@ == join_response_frame(header, id, text@, result),
        out matches Some(bytes) ==> (join_response_fields(bytes@) matches Ok(read) && read == (
            header,
            id,
            text@,
            result,
            Seq::<u8>::empty(),
        )),
{
    let mut bytes: Vec<u8> = Vec::new();
    match (header, id, text, result).encode(&mut Encoder::new(&mut bytes)) {
        Ok(()) => Some(bytes),
        Err(_) => None,
    }
}

/// Calls `Decodable::decode` for `(u8, u8, String, bool)` with an
/// `rmp_serialize::Decoder` that reads from the front of `bytes`.
///
/// Trusted: as for the join request.
#[verifier::external_body]
pub(crate) fn unpack_join_response(bytes: &[u8]) -> (out: Result<(u8, u8, String, bool, &[u8]), DecodeError>)
    ensures
        out matches Ok(got) ==> is_rest_of(got.4@, bytes@) && (join_response_fields(bytes@) matches Ok(
            read,
        ) && read == (got.0, got.1, got.2@, got.3, got.4@)),
        out matches Err(e) ==> (join_response_fields(bytes@) matches Err(kind) && kind == e),
{
    let mut rest: &[u8] = bytes;
    let read: Result<(u8, u8, String, bool), _> = Decodable::decode(&mut Decoder::new(&mut rest));
    match read {
        Ok((header, id, text, result)) => Ok((header, id, text, result, rest)),
        Err(InvalidMarkerRead(_) | InvalidDataRead(_)) => Err(DecodeError::Truncated),
        Err(_) => Err(DecodeError::Malformed),
    }
}

/// Calls `Encodable::encode` of the tuple `(u8, &str, &str)` with an
/// `rmp_serialize::Encoder` that writes into a fresh vector.
///
/// Trusted: as for the join request, with a three-element array header.
#[verifier::external_body]
pub(crate) fn pack_notification(header: u8, topic: &str, data: &str) -> (out: Option<Vec<u8>>)
    requires
        fits(topic@),
        fits(data@),
    ensures
        out is Some,
        out matches Some(bytes) ==> bytes@ == notification_frame(header, topic@, data@),
        out matches Some(bytes) ==> (notification_fields(bytes@) matches Ok(read) && read == (
            header,
            topic@,
            data@,
            Seq::<u8>::empty(),
        )),
{
    let mut bytes: Vec<u8> = Vec::new();
    match (header, topic, data).encode(&mut Encoder::new(&mut bytes)) {
        Ok(()) => Some(bytes),
        Err(_) => None,
    }
}

/// Calls `Decodable::decode` for `(u8, String, String)` with an
/// `rmp_serialize::Decoder` that reads from the front of `bytes`.
///
/// Trusted: as for the join request.
#[verifier::external_body]
pub(crate) fn unpack_notification(bytes: &[u8]) -> (out: Result<(u8, String, String, &[u8]), DecodeError>)
    ensures
        out matches Ok(got) ==> is_rest_of(got.3@, bytes@) && (notification_fields(bytes@) matches Ok(
            read,
        ) && read == (got.0, got.1@, got.2@, got.3@)),
        out matches Err(e) ==> (notification_fields(bytes@) matches Err(kind) && kind == e),
{
    let mut rest: &[u8] = bytes;
    let read: Result<(u8, String, String), _> = Decodable::decode(&mut Decoder::new(&mut rest));
    match read {
        Ok((header, topic, data)) => Ok((header, topic, data, rest)),
        Err(InvalidMarkerRead(_) | InvalidDataRead(_)) => Err(DecodeError::Truncated),
        Err(_) => Err(DecodeError::Malformed),
    }
}

} // verus!
