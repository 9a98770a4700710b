//! Framing: a packet wraps one message with a 2-byte big-endian length
//! prefix for transmission over a byte stream. A receiver reads the two
//! header bytes first and rejects any frame whose declared length exceeds
//! `MAX_FRAME_LEN` before reading a single body byte.
use vstd::prelude::*;

use crate::AppError;
use crate::AppResult;
use crate::command::Command;
use crate::command::spec_encode;
use crate::wire::spec_u16_be;
use crate::wire::write_u16;

verus! {

/// The largest body a frame may declare; larger declarations are rejected
/// without reading the body, bounding memory exposure to hostile senders.
pub const MAX_FRAME_LEN: u16 = 4096;

/// One frame's content: a single message.
#[derive(Debug)]
pub struct Packet {
    pub payload: Command,
}

/// The bytes of a frame around an encoded payload: the payload's length,
/// truncated to 16 bits and written big-endian, then the payload itself.
pub open spec fn spec_frame(payload: Seq<u8>) -> Seq<u8> {
    spec_u16_be(payload.len() as u16) + payload
}

impl Packet {
    /// Wraps a message for transmission.
    pub fn new(command: Command) -> (r: Self)
        ensures
            r.payload == command,
    {
        Self { payload: command }
    }

    /// Appends the framed encoding of the payload; returns the number of
    /// bytes written.
    pub fn write(&self, buffer: &mut Vec<u8>) -> (written: usize)
        ensures
            final(buffer)@ == old(buffer)@ + spec_frame(spec_encode(self.payload@)),
            written == spec_frame(spec_encode(self.payload@)).len(),
    {
        let start = buffer.len();
        let mut temp: Vec<u8> = Vec::new();
        self.payload.write(&mut temp);
        let len16: u16 = #[verifier::truncate] (temp.len() as u16);
        write_u16(len16, buffer);
        buffer.extend_from_slice(temp.as_slice());
        proof {
            assert(buffer@ =~= old(buffer)@ + spec_frame(spec_encode(self.payload@)));
        }
        buffer.len() - start
    }
}

/// The length a frame header declares: its two bytes read big-endian.
pub open spec fn spec_header_len(b0: u8, b1: u8) -> int {
    b0 as int * 256 + b1 as int
}

/// Checks a frame header before any body byte is read: the declared length
/// is returned if it is within `MAX_FRAME_LEN`, and the frame is rejected
/// as oversize otherwise.
pub fn parse_frame_header(b0: u8, b1: u8) -> (r: AppResult<u16>)
    ensures
        spec_header_len(b0, b1) <= MAX_FRAME_LEN ==> r == Ok::<u16, AppError>(
            spec_header_len(b0, b1) as u16,
        ),
        spec_header_len(b0, b1) > MAX_FRAME_LEN ==> r == Err::<u16, AppError>(AppError::TooLarge),
{
    let size: u16 = (b0 as u16) * 256 + (b1 as u16);
    if size > MAX_FRAME_LEN {
        Err(AppError::TooLarge)
    } else {
        Ok(size)
    }
}

} // verus!
