//! Typed application messages and their binary encoding.
//!
//! Every message that crosses the transport is one `WireMsg`, serialized as
//! a tag byte followed by its fields: integers in fixed-width big-endian
//! form, variable byte fields with a 32-bit length prefix, key material and
//! commitments at their fixed lengths.  Decoding accepts exactly the
//! encodings of well-formed messages, so the codec is injective.

use vstd::prelude::*;

use crate::frames::be32_bytes;
use crate::frames::be32_value;
use crate::frames::lemma_be32_round_trip;

verus! {

/// The eight big-endian bytes that encode `n`.
pub open spec fn be64_bytes(n: int) -> Seq<u8> {
    seq![
        ((n / 0x100000000000000) % 0x100) as u8,
        ((n / 0x1000000000000) % 0x100) as u8,
        ((n / 0x10000000000) % 0x100) as u8,
        ((n / 0x100000000) % 0x100) as u8,
        ((n / 0x1000000) % 0x100) as u8,
        ((n / 0x10000) % 0x100) as u8,
        ((n / 0x100) % 0x100) as u8,
        (n % 0x100) as u8,
    ]
}

/// The value of eight bytes read as a big-endian unsigned 64-bit integer.
pub open spec fn be64_value(b: Seq<u8>) -> int
    recommends
        b.len() == 8,
{
    b[0] * 0x100000000000000 + b[1] * 0x1000000000000 + b[2] * 0x10000000000 + b[3] * 0x100000000
        + b[4] * 0x1000000 + b[5] * 0x10000 + b[6] * 0x100 + b[7]
}

/// The unsigned 64-bit value that carries a signed 64-bit payload id on
/// the wire: its two's-complement bit pattern.
pub open spec fn u64_of_i64(x: i64) -> int {
    if x >= 0 {
        x as int
    } else {
        x + 0x10000000000000000
    }
}

/// A variable byte field: 32-bit big-endian length prefix, then the bytes.
pub open spec fn len_prefixed(b: Seq<u8>) -> Seq<u8> {
    be32_bytes(b.len() as int) + b
}

/// Appends the four big-endian bytes of `n` to `out`.
pub fn push_be32(out: &mut Vec<u8>, n: u32)
    ensures
        final(out)@ =~= old(out)@ + be32_bytes(n as int),
{
    out.push(((n / 0x1000000) % 0x100) as u8);
    out.push(((n / 0x10000) % 0x100) as u8);
    out.push(((n / 0x100) % 0x100) as u8);
    out.push((n % 0x100) as u8);
}

/// Appends the eight big-endian bytes of the two's-complement bit
/// pattern of `x` to `out`.
pub fn push_i64(out: &mut Vec<u8>, x: i64)
    ensures
        final(out)@ =~= old(out)@ + be64_bytes(u64_of_i64(x)),
{
    let u: u64 = #[verifier::truncate] (x as u64);
    proof {
        assert(x >= 0 ==> x as u64 == x as int) by (bit_vector);
        assert(x < 0 ==> x as u64 == x + 0x10000000000000000) by (bit_vector);
    }
    push_be64(out, u);
}

/// Appends the eight big-endian bytes of `n` to `out`.
pub fn push_be64(out: &mut Vec<u8>, n: u64)
    ensures
        final(out)@ =~= old(out)@ + be64_bytes(n as int),
{
    out.push(((n / 0x100000000000000) % 0x100) as u8);
    out.push(((n / 0x1000000000000) % 0x100) as u8);
    out.push(((n / 0x10000000000) % 0x100) as u8);
    out.push(((n / 0x100000000) % 0x100) as u8);
    out.push(((n / 0x1000000) % 0x100) as u8);
    out.push(((n / 0x10000) % 0x100) as u8);
    out.push(((n / 0x100) % 0x100) as u8);
    out.push((n % 0x100) as u8);
}

/// Appends the bytes of `b` to `out`.
pub fn push_bytes(out: &mut Vec<u8>, b: &Vec<u8>)
    ensures
        final(out)@ =~= old(out)@ + b@,
{
    let mut i: usize = 0;
    while i < b.len()
        invariant
            i <= b@.len(),
            out@ =~= old(out)@ + b@.subrange(0, i as int),
        decreases b@.len() - i,
    {
        out.push(b[i]);
        i = i + 1;
    }
    assert(b@.subrange(0, b@.len() as int) =~= b@);
}

/// Appends a length-prefixed byte field to `out`.
pub fn push_len_prefixed(out: &mut Vec<u8>, b: &Vec<u8>)
    requires
        b@.len() < 0x100000000,
    ensures
        final(out)@ =~= old(out)@ + len_prefixed(b@),
{
    push_be32(out, b.len() as u32);
    push_bytes(out, b);
}

/// Reads the four bytes at `i` as a big-endian unsigned 32-bit integer.
pub fn read_be32(b: &Vec<u8>, i: usize) -> (r: u32)
    requires
        i + 4 <= b.len(),
    ensures
        r == be32_value(b@.subrange(i as int, i + 4)),
{
    let r: u32 = (b[i] as u32) * 0x1000000 + (b[i + 1] as u32) * 0x10000 + (b[i + 2] as u32)
        * 0x100 + (b[i + 3] as u32);
    proof {
        let s = b@.subrange(i as int, i + 4);
        assert(s[0] == b@[i as int]);
        assert(s[1] == b@[i + 1]);
        assert(s[2] == b@[i + 2]);
        assert(s[3] == b@[i + 3]);
    }
    r
}

/// Reads the eight bytes at `i` as a big-endian unsigned 64-bit integer.
pub fn read_be64(b: &Vec<u8>, i: usize) -> (r: u64)
    requires
        i + 8 <= b.len(),
    ensures
        r == be64_value(b@.subrange(i as int, i + 8)),
{
    let r: u64 = (b[i] as u64) * 0x100000000000000 + (b[i + 1] as u64) * 0x1000000000000 + (b[i
        + 2] as u64) * 0x10000000000 + (b[i + 3] as u64) * 0x100000000 + (b[i + 4] as u64)
        * 0x1000000 + (b[i + 5] as u64) * 0x10000 + (b[i + 6] as u64) * 0x100 + (b[i + 7] as u64);
    proof {
        let s = b@.subrange(i as int, i + 8);
        assert(s[0] == b@[i as int]);
        assert(s[1] == b@[i + 1]);
        assert(s[2] == b@[i + 2]);
        assert(s[3] == b@[i + 3]);
        assert(s[4] == b@[i + 4]);
        assert(s[5] == b@[i + 5]);
        assert(s[6] == b@[i + 6]);
        assert(s[7] == b@[i + 7]);
    }
    r
}

/// Copies the `n` bytes starting at `i` out of `b`.
pub fn read_bytes(b: &Vec<u8>, i: usize, n: usize) -> (r: Vec<u8>)
    requires
        i + n <= b.len(),
    ensures
        r@ =~= b@.subrange(i as int, i + n),
{
    let mut out: Vec<u8> = Vec::new();
    let mut j: usize = 0;
    while j < n
        invariant
            j <= n,
            i + n <= b.len(),
            out@ =~= b@.subrange(i as int, i + j),
        decreases n - j,
    {
        out.push(b[i + j]);
        j = j + 1;
    }
    out
}

/// Splitting equal concatenations at the same length splits the parts.
pub proof fn lemma_concat_parts(a: Seq<u8>, b: Seq<u8>, c: Seq<u8>, d: Seq<u8>)
    requires
        a + b == c + d,
        a.len() == c.len(),
    ensures
        a =~= c,
        b =~= d,
{
    assert((a + b).len() == a.len() + b.len());
    assert((c + d).len() == c.len() + d.len());
    assert(b.len() == d.len());
    assert forall|i: int| 0 <= i < a.len() implies a[i] == c[i] by {
        assert((a + b)[i] == (c + d)[i]);
        assert((a + b)[i] == a[i]);
        assert((c + d)[i] == c[i]);
    }
    assert forall|i: int| 0 <= i < b.len() implies b[i] == d[i] by {
        assert((a + b)[a.len() + i] == (c + d)[a.len() + i]);
        assert((a + b)[a.len() + i] == b[i]);
        assert((c + d)[c.len() + i] == d[i]);
    }
}

/// Re-encoding the value of four bytes yields the same four bytes.
pub proof fn lemma_be32_decompose(b0: u8, b1: u8, b2: u8, b3: u8)
    ensures
        be32_bytes(b0 * 0x1000000 + b1 * 0x10000 + b2 * 0x100 + b3) =~= seq![b0, b1, b2, b3],
{
    assert((((b0 as u32) * 0x1000000 + (b1 as u32) * 0x10000 + (b2 as u32) * 0x100 + (
    b3 as u32)) / 0x1000000) % 0x100 == b0 as u32) by (bit_vector);
    assert((((b0 as u32) * 0x1000000 + (b1 as u32) * 0x10000 + (b2 as u32) * 0x100 + (
    b3 as u32)) / 0x10000) % 0x100 == b1 as u32) by (bit_vector);
    assert((((b0 as u32) * 0x1000000 + (b1 as u32) * 0x10000 + (b2 as u32) * 0x100 + (
    b3 as u32)) / 0x100) % 0x100 == b2 as u32) by (bit_vector);
    assert(((b0 as u32) * 0x1000000 + (b1 as u32) * 0x10000 + (b2 as u32) * 0x100 + (b3 as u32))
        % 0x100 == b3 as u32) by (bit_vector);
}

/// Re-encoding the value of eight bytes yields the same eight bytes.
pub proof fn lemma_be64_decompose(b0: u8, b1: u8, b2: u8, b3: u8, b4: u8, b5: u8, b6: u8, b7: u8)
    ensures
        be64_bytes(
            b0 * 0x100000000000000 + b1 * 0x1000000000000 + b2 * 0x10000000000 + b3 * 0x100000000
                + b4 * 0x1000000 + b5 * 0x10000 + b6 * 0x100 + b7,
        ) =~= seq![b0, b1, b2, b3, b4, b5, b6, b7],
{
    assert((((b0 as u64) * 0x100000000000000 + (b1 as u64) * 0x1000000000000 + (b2 as u64) * 0x10000000000 + (b3 as u64) * 0x100000000 + (b4 as u64) * 0x1000000 + (b5 as u64) * 0x10000 + (b6 as u64) * 0x100 + (b7 as u64)) / 0x100000000000000) % 0x100 == b0 as u64) by (bit_vector);
    assert((((b0 as u64) * 0x100000000000000 + (b1 as u64) * 0x1000000000000 + (b2 as u64) * 0x10000000000 + (b3 as u64) * 0x100000000 + (b4 as u64) * 0x1000000 + (b5 as u64) * 0x10000 + (b6 as u64) * 0x100 + (b7 as u64)) / 0x1000000000000) % 0x100 == b1 as u64) by (bit_vector);
    assert((((b0 as u64) * 0x100000000000000 + (b1 as u64) * 0x1000000000000 + (b2 as u64) * 0x10000000000 + (b3 as u64) * 0x100000000 + (b4 as u64) * 0x1000000 + (b5 as u64) * 0x10000 + (b6 as u64) * 0x100 + (b7 as u64)) / 0x10000000000) % 0x100 == b2 as u64) by (bit_vector);
    assert((((b0 as u64) * 0x100000000000000 + (b1 as u64) * 0x1000000000000 + (b2 as u64) * 0x10000000000 + (b3 as u64) * 0x100000000 + (b4 as u64) * 0x1000000 + (b5 as u64) * 0x10000 + (b6 as u64) * 0x100 + (b7 as u64)) / 0x100000000) % 0x100 == b3 as u64) by (bit_vector);
    assert((((b0 as u64) * 0x100000000000000 + (b1 as u64) * 0x1000000000000 + (b2 as u64) * 0x10000000000 + (b3 as u64) * 0x100000000 + (b4 as u64) * 0x1000000 + (b5 as u64) * 0x10000 + (b6 as u64) * 0x100 + (b7 as u64)) / 0x1000000) % 0x100 == b4 as u64) by (bit_vector);
    assert((((b0 as u64) * 0x100000000000000 + (b1 as u64) * 0x1000000000000 + (b2 as u64) * 0x10000000000 + (b3 as u64) * 0x100000000 + (b4 as u64) * 0x1000000 + (b5 as u64) * 0x10000 + (b6 as u64) * 0x100 + (b7 as u64)) / 0x10000) % 0x100 == b5 as u64) by (bit_vector);
    assert((((b0 as u64) * 0x100000000000000 + (b1 as u64) * 0x1000000000000 + (b2 as u64) * 0x10000000000 + (b3 as u64) * 0x100000000 + (b4 as u64) * 0x1000000 + (b5 as u64) * 0x10000 + (b6 as u64) * 0x100 + (b7 as u64)) / 0x100) % 0x100 == b6 as u64) by (bit_vector);
    assert(((b0 as u64) * 0x100000000000000 + (b1 as u64) * 0x1000000000000 + (b2 as u64) * 0x10000000000 + (b3 as u64) * 0x100000000 + (b4 as u64) * 0x1000000 + (b5 as u64) * 0x10000 + (b6 as u64) * 0x100 + (b7 as u64)) % 0x100 == b7 as u64) by (bit_vector);
}

/// Reads the signed 64-bit value whose two's-complement pattern is `u`.
pub fn wire_u64_to_i64(u: u64) -> (r: i64)
    ensures
        u64_of_i64(r) == u,
{
    let r: i64 = #[verifier::truncate] (u as i64);
    proof {
        assert(u < 0x8000000000000000 ==> (u as i64) >= 0 && (u as i64) as int == u as int)
            by (bit_vector);
        assert(u >= 0x8000000000000000 ==> (u as i64) < 0 && (u as i64) + 0x10000000000000000
            == u as int) by (bit_vector);
    }
    r
}


/// What kind of object a payload carries.
#[derive(Clone, Copy, Debug, PartialEq, Eq, Structural)]
pub enum PayloadKind {
    File,
    Text,
    Url,
    Wifi,
}

/// One payload announced in an `Introduction`: a stable identifier, the
/// kind, the file name or text hint, and the total size in bytes.
#[derive(Clone, Debug)]
pub struct PayloadDesc {
    pub id: i64,
    pub kind: PayloadKind,
    pub name: Vec<u8>,
    pub size: u64,
}

/// A typed application message.
#[derive(Clone, Debug)]
pub enum WireMsg {
    /// Opens a connection; carries the sender's endpoint information.
    ConnectionRequest { device_name: Vec<u8>, device_type: u8, endpoint_id: Vec<u8> },
    /// First key-agreement message: commits to the initiator's ephemeral key.
    UkeyClientInit { commitment: Vec<u8> },
    /// Second key-agreement message: reveals the responder's ephemeral key.
    UkeyServerInit { public_key: Vec<u8> },
    /// Third key-agreement message: opens the initiator's commitment.
    UkeyClientFinished { public_key: Vec<u8> },
    /// Confirms or refuses the negotiated session.
    ConnectionResponse { accepted: bool },
    /// Offers previously paired credentials; this node never has any.
    PairedKeyEncryption,
    /// Answers a paired-key offer; always "unable" for this node.
    PairedKeyResult,
    /// Lists the payloads the sender intends to transfer.
    Introduction { payloads: Vec<PayloadDesc> },
    /// The receiving user's consent decision.
    ConsentResponse { accepted: bool },
    /// One fragment of a payload.
    PayloadChunk { payload_id: i64, offset: u64, is_last: bool, data: Vec<u8> },
    /// Aborts the transfer of every payload.
    CancelTransfer { payload_id: i64 },
    /// Graceful termination.
    Disconnection,
}

/// The tag byte that starts the encoding of each message variant.
pub open spec fn wire_tag(m: WireMsg) -> u8 {
    match m {
        WireMsg::ConnectionRequest { .. } => 1,
        WireMsg::UkeyClientInit { .. } => 2,
        WireMsg::UkeyServerInit { .. } => 3,
        WireMsg::UkeyClientFinished { .. } => 4,
        WireMsg::ConnectionResponse { .. } => 5,
        WireMsg::PairedKeyEncryption => 6,
        WireMsg::PairedKeyResult => 7,
        WireMsg::Introduction { .. } => 8,
        WireMsg::ConsentResponse { .. } => 9,
        WireMsg::PayloadChunk { .. } => 10,
        WireMsg::CancelTransfer { .. } => 11,
        WireMsg::Disconnection => 12,
    }
}

/// The byte that encodes a payload kind.
pub open spec fn kind_byte(k: PayloadKind) -> u8 {
    match k {
        PayloadKind::File => 0,
        PayloadKind::Text => 1,
        PayloadKind::Url => 2,
        PayloadKind::Wifi => 3,
    }
}

/// The byte that encodes a boolean.
pub open spec fn bool_byte(b: bool) -> u8 {
    if b {
        1
    } else {
        0
    }
}

/// A payload description within the size limits of the wire format.
pub open spec fn desc_wf(d: PayloadDesc) -> bool {
    d.name@.len() <= 0xFFFF
}

/// The encoding of one payload description.
pub open spec fn desc_bytes(d: PayloadDesc) -> Seq<u8> {
    be64_bytes(u64_of_i64(d.id)) + seq![kind_byte(d.kind)] + be64_bytes(d.size as int)
        + len_prefixed(d.name@)
}

/// The encoding of a list of payload descriptions, in order.
pub open spec fn descs_bytes(s: Seq<PayloadDesc>) -> Seq<u8>
    decreases s.len(),
{
    if s.len() == 0 {
        Seq::empty()
    } else {
        desc_bytes(s[0]) + descs_bytes(s.skip(1))
    }
}

/// A message within the size limits of the wire format.
pub open spec fn wire_msg_wf(m: WireMsg) -> bool {
    match m {
        WireMsg::ConnectionRequest { device_name, device_type, endpoint_id } => device_name@.len()
            <= 0xFFFF && endpoint_id@.len() == 4,
        WireMsg::UkeyClientInit { commitment } => commitment@.len() == 32,
        WireMsg::UkeyServerInit { public_key } => public_key@.len() == 65,
        WireMsg::UkeyClientFinished { public_key } => public_key@.len() == 65,
        WireMsg::ConnectionResponse { .. } => true,
        WireMsg::PairedKeyEncryption => true,
        WireMsg::PairedKeyResult => true,
        WireMsg::Introduction { payloads } => payloads@.len() <= 0x100 && (forall|i: int|
            0 <= i < payloads@.len() ==> desc_wf(#[trigger] payloads@[i])),
        WireMsg::ConsentResponse { .. } => true,
        WireMsg::PayloadChunk { payload_id, offset, is_last, data } => data@.len() <= 0xFFFFFF,
        WireMsg::CancelTransfer { .. } => true,
        WireMsg::Disconnection => true,
    }
}

/// The encoding of a whole message: tag byte, then the fields.
pub open spec fn wire_msg_bytes(m: WireMsg) -> Seq<u8> {
    seq![wire_tag(m)] + match m {
        WireMsg::ConnectionRequest { device_name, device_type, endpoint_id } => len_prefixed(
            device_name@,
        ) + seq![device_type] + endpoint_id@,
        WireMsg::UkeyClientInit { commitment } => commitment@,
        WireMsg::UkeyServerInit { public_key } => public_key@,
        WireMsg::UkeyClientFinished { public_key } => public_key@,
        WireMsg::ConnectionResponse { accepted } => seq![bool_byte(accepted)],
        WireMsg::PairedKeyEncryption => Seq::empty(),
        WireMsg::PairedKeyResult => Seq::empty(),
        WireMsg::Introduction { payloads } => be32_bytes(payloads@.len() as int) + descs_bytes(
            payloads@,
        ),
        WireMsg::ConsentResponse { accepted } => seq![bool_byte(accepted)],
        WireMsg::PayloadChunk { payload_id, offset, is_last, data } => be64_bytes(
            u64_of_i64(payload_id),
        ) + be64_bytes(offset as int) + seq![bool_byte(is_last)] + len_prefixed(data@),
        WireMsg::CancelTransfer { payload_id } => be64_bytes(u64_of_i64(payload_id)),
        WireMsg::Disconnection => Seq::empty(),
    }
}

/// The encoded length of a list of payload descriptions is bounded by the
/// per-description maximum.
pub proof fn lemma_descs_bytes_len(s: Seq<PayloadDesc>)
    requires
        forall|i: int| 0 <= i < s.len() ==> desc_wf(#[trigger] s[i]),
    ensures
        descs_bytes(s).len() <= s.len() * 0x10014,
    decreases s.len(),
{
    if s.len() > 0 {
        assert(forall|i: int| 0 <= i < s.skip(1).len() ==> desc_wf(#[trigger] s.skip(1)[i]));
        lemma_descs_bytes_len(s.skip(1));
        assert(desc_bytes(s[0]).len() == 21 + s[0].name@.len());
        assert(descs_bytes(s).len() <= 0x10014 + (s.len() - 1) * 0x10014) by {
            assert((s.len() - 1) * 0x10014 == s.skip(1).len() * 0x10014);
        }
        assert(0x10014 + (s.len() - 1) * 0x10014 == s.len() * 0x10014) by (nonlinear_arith);
    }
}

/// No well-formed message encodes to more than 32 MiB.
pub proof fn lemma_wire_msg_len(m: WireMsg)
    requires
        wire_msg_wf(m),
    ensures
        wire_msg_bytes(m).len() < 0x2000000,
{
    match m {
        WireMsg::Introduction { payloads } => {
            lemma_descs_bytes_len(payloads@);
            assert(payloads@.len() * 0x10014 <= 0x100 * 0x10014) by (nonlinear_arith)
                requires payloads@.len() <= 0x100;
        }
        _ => {}
    }
}

/// Serializes one message.
#[verifier::rlimit(100)]
pub fn encode_wire_msg(m: &WireMsg) -> (r: Vec<u8>)
    requires
        wire_msg_wf(*m),
    ensures
        r@ =~= wire_msg_bytes(*m),
{
    let mut out: Vec<u8> = Vec::new();
    match m {
        WireMsg::ConnectionRequest { device_name, device_type, endpoint_id } => {
            out.push(1);
            push_len_prefixed(&mut out, device_name);
            out.push(*device_type);
            push_bytes(&mut out, endpoint_id);
        }
        WireMsg::UkeyClientInit { commitment } => {
            out.push(2);
            push_bytes(&mut out, commitment);
        }
        WireMsg::UkeyServerInit { public_key } => {
            out.push(3);
            push_bytes(&mut out, public_key);
        }
        WireMsg::UkeyClientFinished { public_key } => {
            out.push(4);
            push_bytes(&mut out, public_key);
        }
        WireMsg::ConnectionResponse { accepted } => {
            out.push(5);
            out.push(if *accepted { 1 } else { 0 });
        }
        WireMsg::PairedKeyEncryption => {
            out.push(6);
        }
        WireMsg::PairedKeyResult => {
            out.push(7);
        }
        WireMsg::Introduction { payloads } => {
            out.push(8);
            push_be32(&mut out, payloads.len() as u32);
            push_descs(&mut out, payloads);
        }
        WireMsg::ConsentResponse { accepted } => {
            out.push(9);
            out.push(if *accepted { 1 } else { 0 });
        }
        WireMsg::PayloadChunk { payload_id, offset, is_last, data } => {
            out.push(10);
            push_i64(&mut out, *payload_id);
            push_be64(&mut out, *offset);
            out.push(if *is_last { 1 } else { 0 });
            push_len_prefixed(&mut out, data);
        }
        WireMsg::CancelTransfer { payload_id } => {
            out.push(11);
            push_i64(&mut out, *payload_id);
        }
        WireMsg::Disconnection => {
            out.push(12);
        }
    }
    out
}

/// Appends the encodings of all descriptions in `payloads` to `out`.
pub fn push_descs(out: &mut Vec<u8>, payloads: &Vec<PayloadDesc>)
    requires
        forall|i: int| 0 <= i < payloads@.len() ==> desc_wf(#[trigger] payloads@[i]),
    ensures
        final(out)@ =~= old(out)@ + descs_bytes(payloads@),
{
    let mut k: usize = 0;
    while k < payloads.len()
        invariant
            k <= payloads@.len(),
            forall|i: int| 0 <= i < payloads@.len() ==> desc_wf(#[trigger] payloads@[i]),
            out@ =~= old(out)@ + descs_bytes(payloads@.take(k as int)),
        decreases payloads@.len() - k,
    {
        let ghost prefix = payloads@.take(k as int);
        assert(desc_wf(payloads@[k as int]));
        let d = &payloads[k];
        push_i64(out, d.id);
        out.push(match d.kind {
            PayloadKind::File => 0,
            PayloadKind::Text => 1,
            PayloadKind::Url => 2,
            PayloadKind::Wifi => 3,
        });
        push_be64(out, d.size);
        push_len_prefixed(out, &d.name);
        proof {
            lemma_descs_snoc(prefix, payloads@[k as int]);
            assert(payloads@.take(k + 1) =~= prefix.push(payloads@[k as int]));
        }
        k = k + 1;
    }
    proof {
        assert(payloads@.take(payloads@.len() as int) =~= payloads@);
    }
}

/// Appending one description to a list appends its encoding.
pub proof fn lemma_descs_snoc(s: Seq<PayloadDesc>, d: PayloadDesc)
    ensures
        descs_bytes(s.push(d)) == descs_bytes(s) + desc_bytes(d),
    decreases s.len(),
{
    if s.len() == 0 {
        assert(s.push(d)[0] == d);
        assert(s.push(d).skip(1) =~= Seq::<PayloadDesc>::empty());
        assert(descs_bytes(s.push(d)) == desc_bytes(d) + descs_bytes(Seq::<PayloadDesc>::empty()));
        assert(desc_bytes(d) + Seq::<u8>::empty() =~= desc_bytes(d));
        assert(descs_bytes(s) + desc_bytes(d) =~= desc_bytes(d));
    } else {
        assert(s.push(d)[0] == s[0]);
        assert(s.push(d).skip(1) =~= s.skip(1).push(d));
        lemma_descs_snoc(s.skip(1), d);
        assert(descs_bytes(s.push(d)) == desc_bytes(s[0]) + (descs_bytes(s.skip(1)) + desc_bytes(
            d,
        )));
        assert(desc_bytes(s[0]) + (descs_bytes(s.skip(1)) + desc_bytes(d)) =~= (desc_bytes(s[0])
            + descs_bytes(s.skip(1))) + desc_bytes(d));
    }
}

/// Parses one payload description starting at `pos`.  Succeeds exactly on
/// the encodings of well-formed descriptions that fit in `b`.
#[verifier::rlimit(100)]
#[verifier::spinoff_prover]
pub fn parse_desc(b: &Vec<u8>, pos: usize) -> (r: Option<(PayloadDesc, usize)>)
    requires
        pos <= b.len(),
    ensures
        r matches Some(dj) ==> desc_wf(dj.0) && dj.1 == pos + 21 + dj.0.name@.len() && dj.1
            <= b@.len() && b@.subrange(pos as int, dj.1 as int) == desc_bytes(dj.0),
        forall|d: PayloadDesc|
            desc_wf(d) && pos + 21 + d.name@.len() <= b@.len() && b@.subrange(
                pos as int,
                pos + 21 + d.name@.len(),
            ) == desc_bytes(d) ==> r is Some && r->Some_0.1 == pos + 21 + d.name@.len(),
{
    if b.len() - pos < 21 {
        return None;
    }
    let id_u = read_be64(b, pos);
    let id = wire_u64_to_i64(id_u);
    let kb = b[pos + 8];
    let kind = if kb == 0 {
        PayloadKind::File
    } else if kb == 1 {
        PayloadKind::Text
    } else if kb == 2 {
        PayloadKind::Url
    } else if kb == 3 {
        PayloadKind::Wifi
    } else {
        proof {
            assert forall|d: PayloadDesc|
                desc_wf(d) && pos + 21 + d.name@.len() <= b@.len() && b@.subrange(
                    pos as int,
                    pos + 21 + d.name@.len(),
                ) == desc_bytes(d) implies false by {
                assert(desc_bytes(d)[8] == kind_byte(d.kind));
                assert(b@.subrange(pos as int, pos + 21 + d.name@.len())[8] == b@[pos + 8]);
                assert(kind_byte(d.kind) <= 3);
            }
        }
        return None;
    };
    let size = read_be64(b, pos + 9);
    let nl32 = read_be32(b, pos + 17);
    proof {
        lemma_name_len_determined(b@, pos as int);
    }
    if nl32 > 0xFFFF {
        return None;
    }
    let nl = nl32 as usize;
    if b.len() - (pos + 21) < nl {
        return None;
    }
    let name = read_bytes(b, pos + 21, nl);
    let j = pos + 21 + nl;
    let d0 = PayloadDesc { id, kind, name, size };
    proof {
        let sub = b@.subrange(pos as int, j as int);
        assert(sub =~= b@.subrange(pos as int, pos + 8) + b@.subrange(pos + 8, pos + 9)
            + b@.subrange(pos + 9, pos + 17) + b@.subrange(pos + 17, pos + 21) + b@.subrange(
            pos + 21,
            j as int,
        ));
        lemma_read_back_be64(b@, pos as int);
        lemma_read_back_be64(b@, pos + 9);
        lemma_read_back_be32(b@, pos + 17);
        assert(u64_of_i64(d0.id) == id_u as int);
        assert(be64_bytes(u64_of_i64(d0.id)) == b@.subrange(pos as int, pos + 8));
        assert(be64_bytes(d0.size as int) == b@.subrange(pos + 9, pos + 17));
        assert(be32_bytes(d0.name@.len() as int) == b@.subrange(pos + 17, pos + 21));
        assert(seq![kind_byte(d0.kind)] =~= b@.subrange(pos + 8, pos + 9));
        assert(d0.name@ == b@.subrange(pos + 21, j as int));
        assert(len_prefixed(d0.name@) == be32_bytes(d0.name@.len() as int) + d0.name@);
        assert(sub =~= desc_bytes(d0));
    }
    Some((d0, j))
}

/// Within any description encoded at `pos`, the four bytes at `pos + 17`
/// carry the length of the name field.
pub proof fn lemma_name_len_determined(b: Seq<u8>, pos: int)
    requires
        0 <= pos,
    ensures
        forall|d: PayloadDesc|
            desc_wf(d) && pos + 21 + d.name@.len() <= b.len() && b.subrange(
                pos,
                pos + 21 + d.name@.len(),
            ) == desc_bytes(d) ==> pos + 21 <= b.len() && d.name@.len() == be32_value(
                b.subrange(pos + 17, pos + 21),
            ),
{
    assert forall|d: PayloadDesc|
        desc_wf(d) && pos + 21 + d.name@.len() <= b.len() && b.subrange(
            pos,
            pos + 21 + d.name@.len(),
        ) == desc_bytes(d) implies pos + 21 <= b.len() && d.name@.len() == be32_value(
        b.subrange(pos + 17, pos + 21),
    ) by {
        let sub = b.subrange(pos, pos + 21 + d.name@.len());
        assert(desc_bytes(d).subrange(17, 21) =~= be32_bytes(d.name@.len() as int));
        assert(sub.subrange(17, 21) =~= b.subrange(pos + 17, pos + 21));
        lemma_be32_round_trip(d.name@.len() as int);
    }
}

/// Reading back the four bytes at `pos` re-encodes to the same bytes.
pub proof fn lemma_read_back_be32(b: Seq<u8>, pos: int)
    requires
        0 <= pos,
        pos + 4 <= b.len(),
    ensures
        be32_bytes(be32_value(b.subrange(pos, pos + 4))) == b.subrange(pos, pos + 4),
{
    let sub = b.subrange(pos, pos + 4);
    lemma_be32_decompose(sub[0], sub[1], sub[2], sub[3]);
    assert(seq![sub[0], sub[1], sub[2], sub[3]] =~= sub);
}

/// Reading back the eight bytes at `pos` re-encodes to the same bytes.
pub proof fn lemma_read_back_be64(b: Seq<u8>, pos: int)
    requires
        0 <= pos,
        pos + 8 <= b.len(),
    ensures
        be64_bytes(be64_value(b.subrange(pos, pos + 8))) == b.subrange(pos, pos + 8),
{
    let sub = b.subrange(pos, pos + 8);
    lemma_be64_decompose(sub[0], sub[1], sub[2], sub[3], sub[4], sub[5], sub[6], sub[7]);
    assert(seq![sub[0], sub[1], sub[2], sub[3], sub[4], sub[5], sub[6], sub[7]] =~= sub);
}

/// Parses a `ConnectionRequest` body.  The caller has checked the tag.
fn parse_connection_request(bytes: &Vec<u8>) -> (r: Option<WireMsg>)
    requires
        bytes@.len() >= 1,
        bytes@[0] == 1,
    ensures
        r matches Some(m) ==> wire_msg_wf(m) && bytes@ == wire_msg_bytes(m),
        forall|m: WireMsg| wire_msg_wf(m) && bytes@ == wire_msg_bytes(m) ==> r is Some,
{
    proof {
        assert forall|m: WireMsg| wire_msg_wf(m) && bytes@ == wire_msg_bytes(m) implies m
            is ConnectionRequest && bytes@.len() == 10 + m->ConnectionRequest_device_name@.len()
            && m->ConnectionRequest_device_name@.len() == be32_value(bytes@.subrange(1, 5)) by {
            assert(bytes@[0] == wire_tag(m));
            let name = m->ConnectionRequest_device_name@;
            assert(wire_msg_bytes(m).subrange(1, 5) =~= be32_bytes(name.len() as int));
            lemma_be32_round_trip(name.len() as int);
        }
    }
    if bytes.len() < 10 {
        return None;
    }
    let nl32 = read_be32(bytes, 1);
    if nl32 > 0xFFFF {
        return None;
    }
    let nl = nl32 as usize;
    if bytes.len() != 10 + nl {
        return None;
    }
    let device_name = read_bytes(bytes, 5, nl);
    let device_type = bytes[5 + nl];
    let endpoint_id = read_bytes(bytes, 6 + nl, 4);
    let m0 = WireMsg::ConnectionRequest { device_name, device_type, endpoint_id };
    proof {
        lemma_read_back_be32(bytes@, 1);
        assert(bytes@ =~= bytes@.subrange(0, 1) + bytes@.subrange(1, 5) + bytes@.subrange(
            5,
            5 + nl,
        ) + bytes@.subrange(5 + nl, 6 + nl) + bytes@.subrange(6 + nl, 10 + nl));
        assert(seq![1u8] =~= bytes@.subrange(0, 1));
        assert(seq![device_type] =~= bytes@.subrange(5 + nl, 6 + nl));
        assert(bytes@ =~= wire_msg_bytes(m0));
    }
    Some(m0)
}

/// Parses a `PayloadChunk` body.  The caller has checked the tag.
fn parse_payload_chunk(bytes: &Vec<u8>) -> (r: Option<WireMsg>)
    requires
        bytes@.len() >= 1,
        bytes@[0] == 10,
    ensures
        r matches Some(m) ==> wire_msg_wf(m) && bytes@ == wire_msg_bytes(m),
        forall|m: WireMsg| wire_msg_wf(m) && bytes@ == wire_msg_bytes(m) ==> r is Some,
{
    proof {
        assert forall|m: WireMsg| wire_msg_wf(m) && bytes@ == wire_msg_bytes(m) implies m
            is PayloadChunk && bytes@.len() == 22 + m->PayloadChunk_data@.len()
            && m->PayloadChunk_data@.len() == be32_value(bytes@.subrange(18, 22)) && (bytes@[17]
            == 0 || bytes@[17] == 1) by {
            assert(bytes@[0] == wire_tag(m));
            let data = m->PayloadChunk_data@;
            assert(wire_msg_bytes(m).subrange(18, 22) =~= be32_bytes(data.len() as int));
            lemma_be32_round_trip(data.len() as int);
            assert(wire_msg_bytes(m)[17] == bool_byte(m->PayloadChunk_is_last));
        }
    }
    if bytes.len() < 22 {
        return None;
    }
    let id_u = read_be64(bytes, 1);
    let payload_id = wire_u64_to_i64(id_u);
    let offset = read_be64(bytes, 9);
    let lb = bytes[17];
    if lb > 1 {
        return None;
    }
    let is_last = lb == 1;
    let dl32 = read_be32(bytes, 18);
    if dl32 > 0xFFFFFF {
        return None;
    }
    let dl = dl32 as usize;
    if bytes.len() != 22 + dl {
        return None;
    }
    let data = read_bytes(bytes, 22, dl);
    let m0 = WireMsg::PayloadChunk { payload_id, offset, is_last, data };
    proof {
        lemma_read_back_be64(bytes@, 1);
        lemma_read_back_be64(bytes@, 9);
        lemma_read_back_be32(bytes@, 18);
        assert(bytes@ =~= bytes@.subrange(0, 1) + bytes@.subrange(1, 9) + bytes@.subrange(9, 17)
            + bytes@.subrange(17, 18) + bytes@.subrange(18, 22) + bytes@.subrange(22, 22 + dl));
        assert(seq![10u8] =~= bytes@.subrange(0, 1));
        assert(seq![bool_byte(is_last)] =~= bytes@.subrange(17, 18));
        assert(u64_of_i64(payload_id) == id_u as int);
        assert(bytes@ =~= wire_msg_bytes(m0));
    }
    Some(m0)
}

/// Every well-formed message that encodes to `bytes` with an introduction
/// tag is an `Introduction` whose count and descriptions `bytes` carries.
pub proof fn lemma_intro_shape(bytes: Seq<u8>)
    requires
        bytes.len() >= 1,
        bytes[0] == 8,
    ensures
        forall|m: WireMsg|
            wire_msg_wf(m) && bytes == wire_msg_bytes(m) ==> m is Introduction && bytes.len() >= 5
                && m->Introduction_payloads@.len() == be32_value(bytes.subrange(1, 5))
                && descs_bytes(m->Introduction_payloads@) =~= bytes.subrange(
                5,
                bytes.len() as int,
            ),
{
    assert forall|m: WireMsg| wire_msg_wf(m) && bytes == wire_msg_bytes(m) implies m
        is Introduction && bytes.len() >= 5 && m->Introduction_payloads@.len() == be32_value(
        bytes.subrange(1, 5),
    ) && descs_bytes(m->Introduction_payloads@) =~= bytes.subrange(5, bytes.len() as int) by {
        assert(bytes[0] == wire_tag(m));
        let p = m->Introduction_payloads@;
        assert(wire_msg_bytes(m).subrange(1, 5) =~= be32_bytes(p.len() as int));
        lemma_be32_round_trip(p.len() as int);
        assert(wire_msg_bytes(m).subrange(5, wire_msg_bytes(m).len() as int) =~= descs_bytes(p));
    }
}

/// Parses an `Introduction` body.  The caller has checked the tag.
#[verifier::rlimit(100)]
#[verifier::spinoff_prover]
fn parse_introduction(bytes: &Vec<u8>) -> (r: Option<WireMsg>)
    requires
        bytes@.len() >= 1,
        bytes@[0] == 8,
    ensures
        r matches Some(m) ==> wire_msg_wf(m) && bytes@ == wire_msg_bytes(m),
        forall|m: WireMsg| wire_msg_wf(m) && bytes@ == wire_msg_bytes(m) ==> r is Some,
{
    proof {
        lemma_intro_shape(bytes@);
    }
    if bytes.len() < 5 {
        return None;
    }
    let cnt32 = read_be32(bytes, 1);
    if cnt32 > 0x100 {
        return None;
    }
    let cnt = cnt32 as usize;
    proof {
        assert forall|m: WireMsg| wire_msg_wf(m) && bytes@ == wire_msg_bytes(m) implies descs_bytes(
            m->Introduction_payloads@.skip(0),
        ) =~= bytes@.subrange(5, bytes@.len() as int) by {
            assert(m->Introduction_payloads@.skip(0) =~= m->Introduction_payloads@);
        }
    }
    let mut descs: Vec<PayloadDesc> = Vec::new();
    let mut pos: usize = 5;
    let mut k: usize = 0;
    while k < cnt
        invariant
            k <= cnt,
            cnt <= 0x100,
            5 <= pos <= bytes@.len(),
            bytes@.len() >= 5,
            bytes@[0] == 8,
            cnt == be32_value(bytes@.subrange(1, 5)),
            descs@.len() == k,
            forall|i: int| 0 <= i < descs@.len() ==> desc_wf(#[trigger] descs@[i]),
            bytes@.subrange(5, pos as int) =~= descs_bytes(descs@),
            forall|m: WireMsg|
                wire_msg_wf(m) && bytes@ == wire_msg_bytes(m) ==> m is Introduction
                    && m->Introduction_payloads@.len() == cnt && descs_bytes(
                    #[trigger] m->Introduction_payloads@.skip(k as int),
                ) =~= bytes@.subrange(pos as int, bytes@.len() as int),
        decreases cnt - k,
    {
        let parsed = parse_desc(bytes, pos);
        proof {
            assert forall|m: WireMsg| wire_msg_wf(m) && bytes@ == wire_msg_bytes(m) implies {
                let d = m->Introduction_payloads@[k as int];
                desc_wf(d) && pos + 21 + d.name@.len() <= bytes@.len() && bytes@.subrange(
                    pos as int,
                    pos + 21 + d.name@.len(),
                ) == desc_bytes(d)
            } by {
                let p = m->Introduction_payloads@;
                let rest = p.skip(k as int);
                assert(rest.len() == p.len() - k);
                assert(rest[0] == p[k as int]);
                assert(rest.skip(1) =~= p.skip(k + 1));
                assert(descs_bytes(rest) == desc_bytes(rest[0]) + descs_bytes(rest.skip(1)));
                let d = p[k as int];
                assert(desc_bytes(d).len() == 21 + d.name@.len());
                assert(descs_bytes(rest).len() == bytes@.len() - pos);
                assert(bytes@.subrange(pos as int, pos + 21 + d.name@.len()) =~= desc_bytes(d))
                    by {
                    assert forall|i: int| 0 <= i < 21 + d.name@.len() implies bytes@.subrange(
                        pos as int,
                        pos + 21 + d.name@.len(),
                    )[i] == desc_bytes(d)[i] by {
                        assert(bytes@.subrange(pos as int, bytes@.len() as int)[i]
                            == descs_bytes(rest)[i]);
                        assert(descs_bytes(rest)[i] == desc_bytes(d)[i]);
                    }
                }
            }
        }
        match parsed {
            None => {
                return None;
            }
            Some((d, j)) => {
                proof {
                    lemma_descs_snoc(descs@, d);
                    assert(bytes@.subrange(5, j as int) =~= bytes@.subrange(5, pos as int)
                        + bytes@.subrange(pos as int, j as int));
                    assert forall|m: WireMsg|
                        wire_msg_wf(m) && bytes@ == wire_msg_bytes(m) implies descs_bytes(
                        m->Introduction_payloads@.skip(k + 1),
                    ) =~= bytes@.subrange(j as int, bytes@.len() as int) by {
                        let p = m->Introduction_payloads@;
                        let rest = p.skip(k as int);
                        let dm = p[k as int];
                        assert(rest[0] == dm);
                        assert(rest.skip(1) =~= p.skip(k + 1));
                        assert(descs_bytes(rest) == desc_bytes(dm) + descs_bytes(rest.skip(1)));
                        assert(j == pos + 21 + dm.name@.len());
                        assert(desc_bytes(dm).len() == 21 + dm.name@.len());
                        assert(bytes@.subrange(pos as int, bytes@.len() as int) =~= bytes@
                            .subrange(pos as int, j as int) + bytes@.subrange(
                            j as int,
                            bytes@.len() as int,
                        ));
                        lemma_concat_parts(
                            desc_bytes(dm),
                            descs_bytes(rest.skip(1)),
                            bytes@.subrange(pos as int, j as int),
                            bytes@.subrange(j as int, bytes@.len() as int),
                        );
                    }
                }
                descs.push(d);
                pos = j;
                k = k + 1;
            }
        }
    }
    if pos != bytes.len() {
        proof {
            assert forall|m: WireMsg| wire_msg_wf(m) && bytes@ == wire_msg_bytes(m) implies false
                by {
                let p = m->Introduction_payloads@;
                assert(p.skip(k as int) =~= Seq::<PayloadDesc>::empty());
                assert(descs_bytes(p.skip(k as int)).len() == 0);
            }
        }
        return None;
    }
    let m0 = WireMsg::Introduction { payloads: descs };
    proof {
        lemma_read_back_be32(bytes@, 1);
        lemma_intro_reconstruct(bytes@, m0);
    }
    Some(m0)
}

/// Rebuilds the encoding equation for a parsed `Introduction`.
pub proof fn lemma_intro_reconstruct(bytes: Seq<u8>, m0: WireMsg)
    requires
        m0 is Introduction,
        bytes.len() >= 5,
        bytes[0] == 8,
        be32_bytes(m0->Introduction_payloads@.len() as int) == bytes.subrange(1, 5),
        descs_bytes(m0->Introduction_payloads@) =~= bytes.subrange(5, bytes.len() as int),
    ensures
        bytes == wire_msg_bytes(m0),
{
    assert(bytes =~= bytes.subrange(0, 1) + bytes.subrange(1, 5) + bytes.subrange(
        5,
        bytes.len() as int,
    ));
    assert(seq![8u8] =~= bytes.subrange(0, 1));
    assert(bytes =~= wire_msg_bytes(m0));
}

/// Parses one message.  Succeeds exactly on the encodings of well-formed
/// messages, and only returns a message that re-encodes to the input.
#[verifier::rlimit(100)]
pub fn decode_wire_msg(bytes: &Vec<u8>) -> (r: Option<WireMsg>)
    ensures
        r matches Some(m) ==> wire_msg_wf(m) && bytes@ == wire_msg_bytes(m),
        forall|m: WireMsg| wire_msg_wf(m) && bytes@ == wire_msg_bytes(m) ==> r is Some,
{
    if bytes.len() == 0 {
        return None;
    }
    proof {
        assert forall|m: WireMsg| wire_msg_wf(m) && bytes@ == wire_msg_bytes(m) implies bytes@[0]
            == wire_tag(m) && 1 <= wire_tag(m) <= 12 by {
            assert(wire_msg_bytes(m)[0] == wire_tag(m));
        }
    }
    let tag = bytes[0];
    if tag == 1 {
        parse_connection_request(bytes)
    } else if tag == 2 {
        if bytes.len() != 33 {
            return None;
        }
        let commitment = read_bytes(bytes, 1, 32);
        let m0 = WireMsg::UkeyClientInit { commitment };
        proof {
            assert(bytes@ =~= bytes@.subrange(0, 1) + bytes@.subrange(1, 33));
            assert(seq![2u8] =~= bytes@.subrange(0, 1));
            assert(bytes@ =~= wire_msg_bytes(m0));
        }
        Some(m0)
    } else if tag == 3 {
        if bytes.len() != 66 {
            return None;
        }
        let public_key = read_bytes(bytes, 1, 65);
        let m0 = WireMsg::UkeyServerInit { public_key };
        proof {
            assert(bytes@ =~= bytes@.subrange(0, 1) + bytes@.subrange(1, 66));
            assert(seq![3u8] =~= bytes@.subrange(0, 1));
            assert(bytes@ =~= wire_msg_bytes(m0));
        }
        Some(m0)
    } else if tag == 4 {
        if bytes.len() != 66 {
            return None;
        }
        let public_key = read_bytes(bytes, 1, 65);
        let m0 = WireMsg::UkeyClientFinished { public_key };
        proof {
            assert(bytes@ =~= bytes@.subrange(0, 1) + bytes@.subrange(1, 66));
            assert(seq![4u8] =~= bytes@.subrange(0, 1));
            assert(bytes@ =~= wire_msg_bytes(m0));
        }
        Some(m0)
    } else if tag == 5 {
        if bytes.len() != 2 {
            return None;
        }
        let ab = bytes[1];
        if ab > 1 {
            return None;
        }
        let m0 = WireMsg::ConnectionResponse { accepted: ab == 1 };
        proof {
            assert(bytes@ =~= seq![5u8, bool_byte(ab == 1)]);
            assert(bytes@ =~= wire_msg_bytes(m0));
        }
        Some(m0)
    } else if tag == 6 {
        if bytes.len() != 1 {
            return None;
        }
        proof {
            assert(bytes@ =~= seq![6u8]);
            assert(bytes@ =~= wire_msg_bytes(WireMsg::PairedKeyEncryption));
        }
        Some(WireMsg::PairedKeyEncryption)
    } else if tag == 7 {
        if bytes.len() != 1 {
            return None;
        }
        proof {
            assert(bytes@ =~= seq![7u8]);
            assert(bytes@ =~= wire_msg_bytes(WireMsg::PairedKeyResult));
        }
        Some(WireMsg::PairedKeyResult)
    } else if tag == 8 {
        parse_introduction(bytes)
    } else if tag == 9 {
        if bytes.len() != 2 {
            return None;
        }
        let ab = bytes[1];
        if ab > 1 {
            return None;
        }
        let m0 = WireMsg::ConsentResponse { accepted: ab == 1 };
        proof {
            assert(bytes@ =~= seq![9u8, bool_byte(ab == 1)]);
            assert(bytes@ =~= wire_msg_bytes(m0));
        }
        Some(m0)
    } else if tag == 10 {
        parse_payload_chunk(bytes)
    } else if tag == 11 {
        if bytes.len() != 9 {
            return None;
        }
        let id_u = read_be64(bytes, 1);
        let payload_id = wire_u64_to_i64(id_u);
        let m0 = WireMsg::CancelTransfer { payload_id };
        proof {
            lemma_read_back_be64(bytes@, 1);
            assert(bytes@ =~= bytes@.subrange(0, 1) + bytes@.subrange(1, 9));
            assert(seq![11u8] =~= bytes@.subrange(0, 1));
            assert(bytes@ =~= wire_msg_bytes(m0));
        }
        Some(m0)
    } else if tag == 12 {
        if bytes.len() != 1 {
            return None;
        }
        proof {
            assert(bytes@ =~= seq![12u8]);
            assert(bytes@ =~= wire_msg_bytes(WireMsg::Disconnection));
        }
        Some(WireMsg::Disconnection)
    } else {
        None
    }
}

/// Checks that an `Introduction` message is within the wire format's size
/// limits, so that it can be encoded.
pub fn check_intro_wf(m: &WireMsg) -> (r: bool)
    ensures
        r ==> wire_msg_wf(*m),
        m is Introduction && wire_msg_wf(*m) ==> r,
{
    match m {
        WireMsg::Introduction { payloads } => {
            if payloads.len() > 0x100 {
                return false;
            }
            let mut i: usize = 0;
            while i < payloads.len()
                invariant
                    i <= payloads@.len(),
                    m is Introduction,
                    payloads == m->Introduction_payloads,
                    payloads@.len() <= 0x100,
                    forall|j: int| 0 <= j < i ==> desc_wf(#[trigger] payloads@[j]),
                decreases payloads@.len() - i,
            {
                if payloads[i].name.len() > 0xFFFF {
                    proof {
                        assert(!desc_wf(payloads@[i as int]));
                    }
                    return false;
                }
                i = i + 1;
            }
            true
        }
        _ => false,
    }
}

} // verus!
