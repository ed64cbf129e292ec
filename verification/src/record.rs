//! Authenticated record layer.
//!
//! After key agreement every message crossing the transport is a sealed
//! record: a random 16-byte IV, the AES-256-CBC encryption of the next
//! sequence number and the message bytes, and an HMAC-SHA256 tag over the
//! IV and ciphertext.  Each direction counts its own sequence numbers,
//! starting at zero and incremented before sealing; the receiver accepts
//! exactly the next number.

use vstd::prelude::*;

use crate::crypto::aes256_cbc_dec;
use crate::crypto::aes256_cbc_enc;
use crate::crypto::aes256_cbc_decrypt;
use crate::crypto::aes256_cbc_encrypt;
use crate::crypto::hmac_sha256;
use crate::crypto::hmac_sha256_of;
use crate::crypto::hmac_sha256_verify;
use crate::crypto::random_iv;
use crate::error::TransferError;
use crate::frames::be32_bytes;
use crate::frames::be32_value;
use crate::frames::lemma_be32_round_trip;
use crate::wire::push_be32;
use crate::wire::push_bytes;
use crate::wire::read_be32;
use crate::wire::read_bytes;
use crate::wire::lemma_concat_parts;

verus! {

/// The plaintext of a record: the sequence number, then the message.
pub open spec fn record_plain(seqn: int, msg: Seq<u8>) -> Seq<u8> {
    be32_bytes(seqn) + msg
}

/// A sealed record under encryption key `ek` and MAC key `mk`, carrying
/// sequence number `seqn` and message `msg` with initialization vector `iv`.
pub open spec fn sealed_record(ek: Seq<u8>, mk: Seq<u8>, seqn: int, msg: Seq<u8>, iv: Seq<u8>) -> Seq<
    u8,
> {
    let ct = aes256_cbc_enc(ek, iv, record_plain(seqn, msg));
    iv + ct + hmac_sha256_of(mk, iv + ct)
}

/// Whether a frame opens under `dk` and `mk` at expected sequence number
/// `expect`: the tag verifies, the ciphertext decrypts, and the decrypted
/// sequence number is exactly `expect + 1`.
pub open spec fn record_opens(dk: Seq<u8>, mk: Seq<u8>, expect: int, frame: Seq<u8>) -> bool {
    let n = frame.len() as int;
    &&& n >= 48
    &&& frame.subrange(n - 32, n) == hmac_sha256_of(mk, frame.subrange(0, n - 32))
    &&& aes256_cbc_dec(dk, frame.subrange(0, 16), frame.subrange(16, n - 32)) matches Some(p)
        && p.len() >= 4 && be32_value(p.subrange(0, 4)) == expect + 1
}

/// The message a frame opens to, when `record_opens` holds.
pub open spec fn opened_msg(dk: Seq<u8>, frame: Seq<u8>) -> Seq<u8> {
    let n = frame.len() as int;
    let p = aes256_cbc_dec(dk, frame.subrange(0, 16), frame.subrange(16, n - 32))->Some_0;
    p.subrange(4, p.len() as int)
}

/// Seals one message: increments the direction's sequence counter and
/// builds the record under a fresh random IV (the first 16 output bytes).
pub fn seal_record(ek: &Vec<u8>, mk: &Vec<u8>, seqn: &mut i32, msg: &Vec<u8>) -> (r: Vec<u8>)
    requires
        ek@.len() == 32,
        0 <= *old(seqn) < 0x7fffffff,
        msg@.len() < 0x10000000,
    ensures
        *final(seqn) == *old(seqn) + 1,
        r@.len() == 48 + ((4 + msg@.len()) / 16 + 1) * 16,
        r@ == sealed_record(ek@, mk@, *old(seqn) + 1, msg@, r@.subrange(0, 16)),
{
    *seqn = *seqn + 1;
    let mut plain: Vec<u8> = Vec::new();
    push_be32(&mut plain, *seqn as u32);
    push_bytes(&mut plain, msg);
    let iv = random_iv();
    let ct = aes256_cbc_encrypt(ek, &iv, &plain);
    let mut body: Vec<u8> = Vec::new();
    push_bytes(&mut body, &iv);
    push_bytes(&mut body, &ct);
    let tag = hmac_sha256(mk, &body);
    let mut out: Vec<u8> = Vec::new();
    push_bytes(&mut out, &body);
    push_bytes(&mut out, &tag);
    proof {
        assert(plain@ =~= record_plain(*seqn as int, msg@));
        assert(out@.subrange(0, 16) =~= iv@);
        assert(out@ =~= iv@ + ct@ + hmac_sha256_of(mk@, iv@ + ct@));
    }
    out
}

/// Opens one record: verifies the tag in constant time, decrypts, and
/// checks the sequence number.  On success the expected counter advances;
/// on any failure it is unchanged and the error says what failed.
pub fn open_record(dk: &Vec<u8>, mk: &Vec<u8>, expect: &mut i32, frame: &Vec<u8>) -> (r: Result<
    Vec<u8>,
    TransferError,
>)
    requires
        dk@.len() == 32,
        0 <= *old(expect) < 0x7fffffff,
    ensures
        r is Ok <==> record_opens(dk@, mk@, *old(expect) as int, frame@),
        r matches Ok(msg) ==> msg@ == opened_msg(dk@, frame@) && *final(expect) == *old(expect)
            + 1,
        r is Err ==> *final(expect) == *old(expect),
        r is Err ==> (r == Result::<Vec<u8>, TransferError>::Err(TransferError::CryptoFailure)
            || r == Result::<Vec<u8>, TransferError>::Err(TransferError::ProtocolViolation)),
        frame@.len() < 48 ==> r == Result::<Vec<u8>, TransferError>::Err(
            TransferError::ProtocolViolation,
        ),
        frame@.len() >= 48 && frame@.subrange(frame@.len() - 32, frame@.len() as int)
            != hmac_sha256_of(mk@, frame@.subrange(0, frame@.len() - 32)) ==> r == Result::<
            Vec<u8>,
            TransferError,
        >::Err(TransferError::CryptoFailure),
{
    let n = frame.len();
    if n < 48 {
        return Err(TransferError::ProtocolViolation);
    }
    let body = read_bytes(frame, 0, n - 32);
    let tag = read_bytes(frame, n - 32, 32);
    if !hmac_sha256_verify(mk, &body, &tag) {
        return Err(TransferError::CryptoFailure);
    }
    let iv = read_bytes(frame, 0, 16);
    let ct = read_bytes(frame, 16, n - 48);
    proof {
        assert(ct@ =~= frame@.subrange(16, n - 32));
    }
    let plain = match aes256_cbc_decrypt(dk, &iv, &ct) {
        Some(p) => p,
        None => {
            return Err(TransferError::CryptoFailure);
        }
    };
    if plain.len() < 4 {
        return Err(TransferError::ProtocolViolation);
    }
    let got = read_be32(&plain, 0);
    let want = *expect + 1;
    if got != want as u32 {
        return Err(TransferError::ProtocolViolation);
    }
    let msg = read_bytes(&plain, 4, plain.len() - 4);
    *expect = want;
    proof {
        assert(record_opens(dk@, mk@, *old(expect) as int, frame@));
        assert(msg@ =~= opened_msg(dk@, frame@));
    }
    Ok(msg)
}

/// A record sealed at sequence number `seqn` opens exactly at expected
/// counter `seqn - 1`, and at no other, and opens to the sealed message.
/// The hypotheses are the cipher facts the trusted wrappers guarantee:
/// decryption inverts encryption under the same key and IV.
pub proof fn lemma_seal_open_exact(
    ek: Seq<u8>,
    mk: Seq<u8>,
    seqn: int,
    msg: Seq<u8>,
    iv: Seq<u8>,
    expect: int,
)
    requires
        iv.len() == 16,
        1 <= seqn < 0x80000000,
        aes256_cbc_enc(ek, iv, record_plain(seqn, msg)).len() == (record_plain(seqn, msg).len()
            / 16 + 1) * 16,
        aes256_cbc_dec(ek, iv, aes256_cbc_enc(ek, iv, record_plain(seqn, msg))) == Some(
            record_plain(seqn, msg),
        ),
        hmac_sha256_of(mk, iv + aes256_cbc_enc(ek, iv, record_plain(seqn, msg))).len() == 32,
        0 <= expect,
    ensures
        record_opens(ek, mk, expect, sealed_record(ek, mk, seqn, msg, iv)) <==> expect == seqn
            - 1,
        opened_msg(ek, sealed_record(ek, mk, seqn, msg, iv)) == msg,
{
    let plain = record_plain(seqn, msg);
    let ct = aes256_cbc_enc(ek, iv, plain);
    let frame = sealed_record(ek, mk, seqn, msg, iv);
    let n = frame.len() as int;
    assert(ct.len() >= 16) by (nonlinear_arith)
        requires
            ct.len() == (plain.len() / 16 + 1) * 16,
            plain.len() >= 0,
    ;
    assert(n == 16 + ct.len() + 32);
    assert(frame.subrange(0, 16) =~= iv);
    assert(frame.subrange(16, n - 32) =~= ct);
    assert(frame.subrange(0, n - 32) =~= iv + ct);
    assert(frame.subrange(n - 32, n) =~= hmac_sha256_of(mk, iv + ct));
    lemma_be32_round_trip(seqn);
    assert(plain.subrange(0, 4) =~= be32_bytes(seqn));
    assert(plain.subrange(4, plain.len() as int) =~= msg);
}

} // verus!
