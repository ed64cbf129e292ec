//! UKEY2 key agreement: commitment verification, the session key schedule
//! and the out-of-band confirmation pin.
//!
//! The initiator commits to its `ClientFinished` message by sending its
//! SHA-256 digest inside `ClientInit`; the responder checks the digest when
//! the commitment is opened.  Both sides feed the handshake transcript (the
//! raw `ClientInit` and `ServerInit` frames) and the ECDH shared secret
//! into HKDF-SHA256 with four distinct one-byte info labels to derive the
//! per-direction encryption and MAC keys, and hash the transcript to derive
//! a four-digit decimal pin that the user compares out of band.

use vstd::prelude::*;

use crate::crypto::hkdf_sha256;
use crate::crypto::hkdf_sha256_key;
use crate::crypto::sha256;
use crate::crypto::sha256_of;
use crate::frames::be32_value;
use crate::text::ascii_string;

verus! {

/// Info label for the initiator-to-responder encryption key.
pub const INFO_CLIENT_ENC: u8 = 0;

/// Info label for the initiator-to-responder MAC key.
pub const INFO_CLIENT_MAC: u8 = 1;

/// Info label for the responder-to-initiator encryption key.
pub const INFO_SERVER_ENC: u8 = 2;

/// Info label for the responder-to-initiator MAC key.
pub const INFO_SERVER_MAC: u8 = 3;

/// The four record-layer keys of one session.
pub struct SessionKeys {
    pub client_enc: Vec<u8>,
    pub client_mac: Vec<u8>,
    pub server_enc: Vec<u8>,
    pub server_mac: Vec<u8>,
}

/// Compares two byte vectors.
pub fn bytes_eq(a: &Vec<u8>, b: &Vec<u8>) -> (r: bool)
    ensures
        r <==> a@ == b@,
{
    if a.len() != b.len() {
        proof {
            assert(a@.len() != b@.len());
        }
        return false;
    }
    let mut i: usize = 0;
    while i < a.len()
        invariant
            i <= a@.len(),
            a@.len() == b@.len(),
            forall|j: int| 0 <= j < i ==> a@[j] == b@[j],
        decreases a@.len() - i,
    {
        if a[i] != b[i] {
            return false;
        }
        i = i + 1;
    }
    proof {
        assert(a@ =~= b@);
    }
    true
}

/// Checks the commit-reveal binding: the opened `ClientFinished` frame must
/// hash to the commitment carried in `ClientInit`.
pub fn verify_commitment(client_finished: &Vec<u8>, commitment: &Vec<u8>) -> (r: bool)
    ensures
        r <==> sha256_of(client_finished@) == commitment@,
{
    let h = sha256(client_finished);
    bytes_eq(&h, commitment)
}

/// Derives the four record-layer keys from the handshake transcript and
/// the ECDH shared secret, each under its own info label.
pub fn derive_session_keys(transcript: &Vec<u8>, shared_secret: &Vec<u8>) -> (r: SessionKeys)
    ensures
        r.client_enc@ == hkdf_sha256_key(transcript@, shared_secret@, seq![INFO_CLIENT_ENC]),
        r.client_mac@ == hkdf_sha256_key(transcript@, shared_secret@, seq![INFO_CLIENT_MAC]),
        r.server_enc@ == hkdf_sha256_key(transcript@, shared_secret@, seq![INFO_SERVER_ENC]),
        r.server_mac@ == hkdf_sha256_key(transcript@, shared_secret@, seq![INFO_SERVER_MAC]),
        r.client_enc@.len() == 32,
        r.client_mac@.len() == 32,
        r.server_enc@.len() == 32,
        r.server_mac@.len() == 32,
{
    let mut info_ce: Vec<u8> = Vec::new();
    info_ce.push(INFO_CLIENT_ENC);
    let mut info_cm: Vec<u8> = Vec::new();
    info_cm.push(INFO_CLIENT_MAC);
    let mut info_se: Vec<u8> = Vec::new();
    info_se.push(INFO_SERVER_ENC);
    let mut info_sm: Vec<u8> = Vec::new();
    info_sm.push(INFO_SERVER_MAC);
    proof {
        assert(info_ce@ =~= seq![INFO_CLIENT_ENC]);
        assert(info_cm@ =~= seq![INFO_CLIENT_MAC]);
        assert(info_se@ =~= seq![INFO_SERVER_ENC]);
        assert(info_sm@ =~= seq![INFO_SERVER_MAC]);
    }
    SessionKeys {
        client_enc: hkdf_sha256(transcript, shared_secret, &info_ce),
        client_mac: hkdf_sha256(transcript, shared_secret, &info_cm),
        server_enc: hkdf_sha256(transcript, shared_secret, &info_se),
        server_mac: hkdf_sha256(transcript, shared_secret, &info_sm),
    }
}

/// The ASCII digit character for `d`.
pub open spec fn digit_char(d: int) -> char
    recommends
        0 <= d <= 9,
{
    ((48 + d) as u8) as char
}

/// The four decimal digits of the pin derived from a transcript hash: the
/// first four hash bytes read big-endian, reduced modulo 10000 and
/// zero-padded.
pub open spec fn pin_chars(h: Seq<u8>) -> Seq<char>
    recommends
        h.len() >= 4,
{
    let v = be32_value(h.subrange(0, 4)) % 10000;
    seq![
        digit_char(v / 1000),
        digit_char((v / 100) % 10),
        digit_char((v / 10) % 10),
        digit_char(v % 10),
    ]
}

/// Whether every character of `s` is a decimal digit.
pub open spec fn all_decimal_digits(s: Seq<char>) -> bool {
    forall|i: int| 0 <= i < s.len() ==> '0' <= #[trigger] s[i] <= '9'
}

/// Derives the session pin from the handshake transcript.  The pin is a
/// deterministic function of the transcript, so both sides of a handshake
/// that exchanged the same two frames present the same pin, and it is
/// always exactly four decimal digits.
pub fn derive_pin(transcript: &Vec<u8>) -> (r: String)
    ensures
        r@ == pin_chars(sha256_of(transcript@)),
        r@.len() == 4,
        all_decimal_digits(r@),
{
    let h = sha256(transcript);
    let v0: u32 = ((h[0] as u32) * 0x1000000) + ((h[1] as u32) * 0x10000) + ((h[2] as u32) * 0x100)
        + (h[3] as u32);
    let v: u32 = v0 % 10000;
    let mut digits: Vec<u8> = Vec::new();
    digits.push((v / 1000) as u8 + 48);
    digits.push(((v / 100) % 10) as u8 + 48);
    digits.push(((v / 10) % 10) as u8 + 48);
    digits.push((v % 10) as u8 + 48);
    let r = ascii_string(&digits);
    proof {
        let hs = sha256_of(transcript@);
        assert(hs.subrange(0, 4) =~= seq![h@[0], h@[1], h@[2], h@[3]]);
        assert(v0 == be32_value(hs.subrange(0, 4)));
        assert(r@ =~= pin_chars(hs));
    }
    r
}

} // verus!
