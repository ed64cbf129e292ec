//! Framed transport: length-prefixed messages over a reliable byte stream.
//!
//! Each message on the wire is a big-endian unsigned 32-bit length prefix
//! followed by exactly that many payload bytes.  A declared length above the
//! configured maximum is rejected before any payload memory is allocated.

use vstd::prelude::*;

use crate::error::TransferError;

verus! {

/// Default maximum declared frame length for handshake frames: 5 MiB.
pub const MAX_HANDSHAKE_FRAME_LEN: u32 = 5242880;

/// Default maximum declared frame length for bulk payload frames: 64 MiB.
pub const MAX_PAYLOAD_FRAME_LEN: u32 = 67108864;

/// The four big-endian bytes that encode `n`.
pub open spec fn be32_bytes(n: int) -> Seq<u8> {
    seq![
        ((n / 0x1000000) % 0x100) as u8,
        ((n / 0x10000) % 0x100) as u8,
        ((n / 0x100) % 0x100) as u8,
        (n % 0x100) as u8,
    ]
}

/// The value of four bytes read as a big-endian unsigned 32-bit integer.
pub open spec fn be32_value(b: Seq<u8>) -> int
    recommends
        b.len() == 4,
{
    b[0] * 0x1000000 + b[1] * 0x10000 + b[2] * 0x100 + b[3]
}

/// A whole frame: the length prefix of `payload` followed by `payload`.
pub open spec fn frame_bytes(payload: Seq<u8>) -> Seq<u8> {
    be32_bytes(payload.len() as int) + payload
}

/// Reading back the four bytes of a big-endian encoding yields the encoded
/// value, for every value that fits in 32 bits.
pub proof fn lemma_be32_round_trip(n: int)
    requires
        0 <= n < 0x100000000,
    ensures
        be32_bytes(n).len() == 4,
        be32_value(be32_bytes(n)) == n,
{
}

/// Reads a frame length prefix: four bytes, big-endian.
pub fn parse_frame_len(b0: u8, b1: u8, b2: u8, b3: u8) -> (r: u32)
    ensures
        r == be32_value(seq![b0, b1, b2, b3]),
{
    (b0 as u32) * 0x1000000 + (b1 as u32) * 0x10000 + (b2 as u32) * 0x100 + (b3 as u32)
}

/// Accepts or rejects a declared frame length against the configured
/// maximum, before any payload memory is allocated.
pub fn check_frame_len(len: u32, max: u32) -> (r: Result<(), TransferError>)
    ensures
        r is Ok <==> len <= max,
        r is Err ==> r == Result::<(), TransferError>::Err(TransferError::ProtocolViolation),
{
    if len <= max {
        Ok(())
    } else {
        Err(TransferError::ProtocolViolation)
    }
}

/// Serializes one message as a frame: big-endian length prefix, then the
/// payload bytes unchanged.
pub fn encode_frame(payload: &Vec<u8>) -> (r: Vec<u8>)
    requires
        payload@.len() < 0x100000000,
    ensures
        r@ =~= frame_bytes(payload@),
        r@.len() == payload@.len() + 4,
{
    let n: u32 = payload.len() as u32;
    let mut out: Vec<u8> = Vec::new();
    out.push(((n / 0x1000000) % 0x100) as u8);
    out.push(((n / 0x10000) % 0x100) as u8);
    out.push(((n / 0x100) % 0x100) as u8);
    out.push((n % 0x100) as u8);
    let mut i: usize = 0;
    while i < payload.len()
        invariant
            i <= payload@.len(),
            out@.len() == 4 + i,
            out@ =~= be32_bytes(payload@.len() as int) + payload@.subrange(0, i as int),
        decreases payload@.len() - i,
    {
        out.push(payload[i]);
        i = i + 1;
    }
    assert(payload@.subrange(0, payload@.len() as int) =~= payload@);
    out
}

} // verus!
