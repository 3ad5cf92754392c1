//! Frames of the multiplexed log stream that the Engine sends for a container.
//!
//! Each frame starts with an eight-byte header: the stream it belongs to in the
//! first byte, three reserved bytes, then the payload's length as a big-endian
//! 32-bit number. The payload follows.
use vstd::prelude::*;
use vstd::slice::{slice_subrange, slice_to_vec};

verus! {

/// Length of a frame header in bytes.
pub const FRAME_HEADER_LEN: usize = 8;

/// The number that four bytes hold in big-endian order.
pub open spec fn be_u32(b0: u8, b1: u8, b2: u8, b3: u8) -> nat {
    (b0 as nat) * 16777216 + (b1 as nat) * 65536 + (b2 as nat) * 256 + (b3 as nat)
}

/// The payload length that the header at the start of `data` announces.
pub open spec fn announced_len(data: Seq<u8>) -> nat
    recommends
        data.len() >= 8,
{
    be_u32(data[4], data[5], data[6], data[7])
}

/// The frame at the start of `data`: its stream byte and payload, when the
/// header and the whole payload are there.
pub open spec fn frame_at_start(data: Seq<u8>) -> Option<(u8, Seq<u8>)> {
    if data.len() >= 8 && data.len() >= 8 + announced_len(data) {
        Some((data[0], data.subrange(8, 8 + announced_len(data) as int)))
    } else {
        None
    }
}

/// The bytes of one frame for `stream` carrying `payload`, with the reserved
/// header bytes set to zero.
pub open spec fn frame_bytes(stream: u8, payload: Seq<u8>) -> Seq<u8> {
    let n = payload.len();
    seq![
        stream,
        0u8,
        0u8,
        0u8,
        (n / 16777216 % 256) as u8,
        (n / 65536 % 256) as u8,
        (n / 256 % 256) as u8,
        (n % 256) as u8,
    ] + payload
}

/// One frame of a container's log stream.
#[derive(Debug, Clone, PartialEq, Eq)]
pub struct LogFrame {
    /// The stream the payload belongs to (1 for standard output, 2 for standard error).
    pub stream: u8,
    /// The bytes the container wrote.
    pub payload: Vec<u8>,
}

/// Reads the frame at the start of `data`. Gives `None` when the header is
/// incomplete or the payload it announces is not all there; bytes after the
/// frame are not read.
pub fn parse_log_frame(data: &[u8]) -> (r: Option<LogFrame>)
    ensures
        match frame_at_start(data@) {
            Some((stream, payload)) => r matches Some(f) && f.stream == stream && f.payload@
                == payload,
            None => r is None,
        },
{
    let len = data.len();
    if len < FRAME_HEADER_LEN {
        return None;
    }
    let size: u32 = (data[4] as u32) * 16777216 + (data[5] as u32) * 65536 + (data[6] as u32) * 256
        + (data[7] as u32);
    let size = size as usize;
    if len - FRAME_HEADER_LEN < size {
        return None;
    }
    let payload = slice_to_vec(slice_subrange(data, FRAME_HEADER_LEN, FRAME_HEADER_LEN + size));
    Some(LogFrame { stream: data[0], payload })
}

/// Whether a frame of `stream` is shown: standard output (1) and standard
/// error (2) are, any other stream is skipped.
pub fn is_output_stream(stream: u8) -> (r: bool)
    ensures
        r == (stream == 1 || stream == 2),
{
    stream == 1 || stream == 2
}

/// Reading a frame back from its bytes gives the stream and payload it was
/// written with, whatever follows it.
pub proof fn lemma_frame_roundtrip(stream: u8, payload: Seq<u8>, rest: Seq<u8>)
    requires
        payload.len() <= 0xffff_ffff,
    ensures
        frame_at_start(frame_bytes(stream, payload) + rest) == Some((stream, payload)),
{
    let n = payload.len();
    let data = frame_bytes(stream, payload) + rest;
    assert(be_u32(
        (n / 16777216 % 256) as u8,
        (n / 65536 % 256) as u8,
        (n / 256 % 256) as u8,
        (n % 256) as u8,
    ) == n) by (nonlinear_arith)
        requires
            n <= 0xffff_ffff,
    ;
    assert(data[4] == (n / 16777216 % 256) as u8);
    assert(data[7] == (n % 256) as u8);
    assert(announced_len(data) == n);
    assert(data.subrange(8, 8 + n as int) =~= payload);
}

} // verus!
