//! Length-prefixed framing over a byte stream.
//!
//! One frame is a 4-byte little-endian `u32` length followed by that many
//! payload bytes. The transport around it (sockets, files) lives with the
//! caller; these functions hold the framing rules: how a length is read, what
//! sizes each side accepts, and how a payload decodes.

use vstd::bytes::spec_u32_from_le_bytes;
use vstd::prelude::*;

use crate::codec::{
    decode_command, decode_response, spec_decode_command, spec_decode_response, spec_enc_u32,
};
use crate::engine::clone_bytes;
use crate::error::{ClientError, ClientErrorV, ConnectionError, ConnectionErrorV};
use crate::proto::{Command, Response};
use crate::{MAX_COMMAND_FRAME_LEN, MAX_RESPONSE_FRAME_LEN};

verus! {

/// The bytes of one frame around a payload.
pub open spec fn spec_frame(payload: Seq<u8>) -> Seq<u8> {
    spec_enc_u32(payload.len() as u32) + payload
}

/// Wrap a payload in a frame: its length, little-endian, then its bytes.
pub fn encode_frame(payload: &Vec<u8>) -> (r: Vec<u8>)
    requires
        payload@.len() <= u32::MAX,
    ensures
        r@ == spec_frame(payload@),
{
    let mut out = vstd::bytes::u32_to_le_bytes(payload.len() as u32);
    let mut p = clone_bytes(payload);
    out.append(&mut p);
    out
}

/// Read an incoming command frame's length. The server refuses frames above
/// its limit, exactly then answering `CommandTooLarge`.
pub fn command_frame_len(len_bytes: &[u8]) -> (r: Result<u32, ConnectionError>)
    requires
        len_bytes@.len() == 4,
    ensures
        match r {
            Ok(n) => n == spec_u32_from_le_bytes(len_bytes@) && n <= MAX_COMMAND_FRAME_LEN,
            Err(e) => e@ == ConnectionErrorV::CommandTooLarge && spec_u32_from_le_bytes(len_bytes@)
                > MAX_COMMAND_FRAME_LEN,
        },
{
    let n = vstd::bytes::u32_from_le_bytes(len_bytes);
    if n > MAX_COMMAND_FRAME_LEN {
        Err(ConnectionError::CommandTooLarge)
    } else {
        Ok(n)
    }
}

/// Read an incoming response frame's length. The client refuses frames above
/// its limit, exactly then reporting a protocol error.
pub fn response_frame_len(len_bytes: &[u8]) -> (r: Result<u32, ClientError>)
    requires
        len_bytes@.len() == 4,
    ensures
        match r {
            Ok(n) => n == spec_u32_from_le_bytes(len_bytes@) && n <= MAX_RESPONSE_FRAME_LEN,
            Err(e) => e@ == ClientErrorV::Protocol("Response too large"@)
                && spec_u32_from_le_bytes(len_bytes@) > MAX_RESPONSE_FRAME_LEN,
        },
{
    let n = vstd::bytes::u32_from_le_bytes(len_bytes);
    if n > MAX_RESPONSE_FRAME_LEN {
        Err(ClientError::Protocol(String::from_str("Response too large")))
    } else {
        Ok(n)
    }
}

/// Decode a command frame's payload, as the server does; a payload that does
/// not decode is a protocol error.
pub fn decode_command_frame(payload: &[u8]) -> (r: Result<Command, ConnectionError>)
    ensures
        match r {
            Ok(c) => spec_decode_command(payload@) matches Some(p) && c@ == p.0,
            Err(e) => spec_decode_command(payload@) is None && e@ == ConnectionErrorV::Protocol(
                "Decode error"@,
            ),
        },
{
    match decode_command(payload) {
        Some(c) => Ok(c),
        None => Err(ConnectionError::Protocol(String::from_str("Decode error"))),
    }
}

/// Decode a response frame's payload, as the client does; a payload that does
/// not decode is a protocol error.
pub fn decode_response_frame(payload: &[u8]) -> (r: Result<Response, ClientError>)
    ensures
        match r {
            Ok(resp) => spec_decode_response(payload@) matches Some(p) && resp@ == p.0,
            Err(e) => spec_decode_response(payload@) is None && e@ == ClientErrorV::Protocol(
                "Decode error"@,
            ),
        },
{
    match decode_response(payload) {
        Some(resp) => Ok(resp),
        None => Err(ClientError::Protocol(String::from_str("Decode error"))),
    }
}

} // verus!
