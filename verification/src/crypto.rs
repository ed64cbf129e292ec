//! Cryptographic primitives behind trusted wrappers.
//!
//! Every function here makes exactly one call into an outside cryptographic
//! crate.  The result of a deterministic primitive is given a name (an
//! uninterpreted spec function); the rest of the library reasons over those
//! names and never re-states the algorithms themselves.

use vstd::prelude::*;

use aes::cipher::block_padding::Pkcs7;
use aes::cipher::BlockModeDecrypt;
use aes::cipher::BlockModeEncrypt;
use aes::cipher::KeyIvInit;
use hmac::Mac;
use sha2::Digest;

verus! {

/// The SHA-256 digest of a byte sequence.
pub uninterp spec fn sha256_of(data: Seq<u8>) -> Seq<u8>;

/// The HMAC-SHA256 tag over `data` under `key`.
pub uninterp spec fn hmac_sha256_of(key: Seq<u8>, data: Seq<u8>) -> Seq<u8>;

/// The 32-byte key that HKDF-SHA256 expands from `ikm` with `salt` and `info`.
pub uninterp spec fn hkdf_sha256_key(salt: Seq<u8>, ikm: Seq<u8>, info: Seq<u8>) -> Seq<u8>;

/// The AES-256-CBC/PKCS#7 encryption of `plain` under `key` and `iv`.
pub uninterp spec fn aes256_cbc_enc(key: Seq<u8>, iv: Seq<u8>, plain: Seq<u8>) -> Seq<u8>;

/// What AES-256-CBC/PKCS#7 decryption of `cipher` under `key` and `iv`
/// returns: the plaintext, or `None` on a length or padding failure.
pub uninterp spec fn aes256_cbc_dec(key: Seq<u8>, iv: Seq<u8>, cipher: Seq<u8>) -> Option<Seq<u8>>;

/// The uncompressed SEC1 encoding of the P-256 public key that belongs to
/// the secret scalar encoded by `private`.
pub uninterp spec fn p256_pubkey_of(private: Seq<u8>) -> Seq<u8>;

/// What the P-256 Diffie-Hellman exchange between the secret scalar
/// `private` and the peer point `peer_public` returns: the X coordinate
/// of the shared point, or nothing when either encoding is invalid.
pub uninterp spec fn p256_ecdh_x_of(private: Seq<u8>, peer_public: Seq<u8>) -> Option<Seq<u8>>;

/// Relies on sha2's `Sha256`: the digest is 32 bytes and depends on the
/// input alone.
#[verifier::external_body]
pub fn sha256(data: &Vec<u8>) -> (r: Vec<u8>)
    ensures
        r@ == sha256_of(data@),
        r@.len() == 32,
{
    let digest = sha2::Sha256::digest(data.as_slice());
    digest.to_vec()
}

/// Relies on hmac's `Hmac<Sha256>`: the tag is 32 bytes and depends on the
/// key and the input alone.  `new_from_slice` accepts keys of any length.
#[verifier::external_body]
pub fn hmac_sha256(key: &Vec<u8>, data: &Vec<u8>) -> (r: Vec<u8>)
    ensures
        r@ == hmac_sha256_of(key@, data@),
        r@.len() == 32,
{
    let mut mac = <hmac::Hmac<sha2::Sha256> as hmac::KeyInit>::new_from_slice(key.as_slice())
        .expect("hmac accepts any key length");
    mac.update(data.as_slice());
    mac.finalize().into_bytes().to_vec()
}

/// Relies on hmac's `verify_slice`: constant-time comparison that succeeds
/// exactly when `tag` equals the HMAC-SHA256 of `data` under `key`.
#[verifier::external_body]
pub fn hmac_sha256_verify(key: &Vec<u8>, data: &Vec<u8>, tag: &Vec<u8>) -> (r: bool)
    ensures
        r <==> tag@ == hmac_sha256_of(key@, data@),
{
    let mut mac = <hmac::Hmac<sha2::Sha256> as hmac::KeyInit>::new_from_slice(key.as_slice())
        .expect("hmac accepts any key length");
    mac.update(data.as_slice());
    mac.verify_slice(tag.as_slice()).is_ok()
}

/// Relies on hkdf's `Hkdf::<Sha256>`: extract-then-expand, deterministic in
/// salt, input keying material and info; a 32-byte request never fails.
#[verifier::external_body]
pub fn hkdf_sha256(salt: &Vec<u8>, ikm: &Vec<u8>, info: &Vec<u8>) -> (r: Vec<u8>)
    ensures
        r@ == hkdf_sha256_key(salt@, ikm@, info@),
        r@.len() == 32,
{
    let kdf = hkdf::Hkdf::<sha2::Sha256>::new(Some(salt.as_slice()), ikm.as_slice());
    let mut okm = [0u8; 32];
    kdf.expand(info.as_slice(), &mut okm).expect("32 bytes is a valid hkdf output length");
    okm.to_vec()
}

/// Relies on cbc's `Encryptor<aes::Aes256>` with PKCS#7 padding: the output
/// is the padded plaintext length, depends on key, IV and plaintext alone,
/// and decryption under the same key and IV restores the plaintext.
#[verifier::external_body]
pub fn aes256_cbc_encrypt(key: &Vec<u8>, iv: &Vec<u8>, plain: &Vec<u8>) -> (r: Vec<u8>)
    requires
        key@.len() == 32,
        iv@.len() == 16,
    ensures
        r@ == aes256_cbc_enc(key@, iv@, plain@),
        r@.len() == (plain@.len() / 16 + 1) * 16,
        aes256_cbc_dec(key@, iv@, r@) == Some(plain@),
{
    let enc = cbc::Encryptor::<aes::Aes256>::new_from_slices(key.as_slice(), iv.as_slice())
        .expect("key and iv lengths are checked by the caller");
    enc.encrypt_padded_vec::<Pkcs7>(plain.as_slice())
}

/// Relies on cbc's `Decryptor<aes::Aes256>` with PKCS#7 padding: returns
/// the unpadded plaintext, or nothing on a length or padding failure.
#[verifier::external_body]
pub fn aes256_cbc_decrypt(key: &Vec<u8>, iv: &Vec<u8>, cipher: &Vec<u8>) -> (r: Option<Vec<u8>>)
    requires
        key@.len() == 32,
        iv@.len() == 16,
    ensures
        r is Some <==> aes256_cbc_dec(key@, iv@, cipher@) is Some,
        r matches Some(p) ==> aes256_cbc_dec(key@, iv@, cipher@) == Some(p@),
{
    let dec = cbc::Decryptor::<aes::Aes256>::new_from_slices(key.as_slice(), iv.as_slice())
        .expect("key and iv lengths are checked by the caller");
    dec.decrypt_padded_vec::<Pkcs7>(cipher.as_slice()).ok()
}

/// Relies on p256's `SecretKey::random` and `PublicKey::to_sec1_bytes`: a
/// fresh ephemeral keypair; the secret encodes as 32 bytes and the public
/// key as the 65-byte uncompressed SEC1 point derived from the secret.
#[verifier::external_body]
pub fn p256_generate_keypair() -> (r: (Vec<u8>, Vec<u8>))
    ensures
        r.0@.len() == 32,
        r.1@.len() == 65,
        r.1@ == p256_pubkey_of(r.0@),
{
    let secret = p256::SecretKey::random(&mut rand::rng());
    let public = secret.public_key();
    (secret.to_bytes().to_vec(), public.to_sec1_bytes().to_vec())
}

/// Relies on p256's `ecdh::diffie_hellman`: the 32-byte X coordinate of the
/// shared point, deterministic in the two inputs; nothing exactly when the
/// scalar or the peer point encoding is invalid, which is likewise
/// deterministic in the inputs.
#[verifier::external_body]
pub fn p256_ecdh_x(private: &Vec<u8>, peer_public: &Vec<u8>) -> (r: Option<Vec<u8>>)
    ensures
        r is Some <==> p256_ecdh_x_of(private@, peer_public@) is Some,
        r matches Some(s) ==> p256_ecdh_x_of(private@, peer_public@) == Some(s@) && s@.len()
            == 32,
{
    let secret = match p256::SecretKey::from_slice(private.as_slice()) {
        Ok(s) => s,
        Err(_) => return None,
    };
    let peer = match p256::PublicKey::from_sec1_bytes(peer_public.as_slice()) {
        Ok(p) => p,
        Err(_) => return None,
    };
    let shared = p256::ecdh::diffie_hellman(secret.to_nonzero_scalar(), peer.as_affine());
    Some(shared.raw_secret_bytes().to_vec())
}

/// Relies on rand's `fill`: sixteen bytes from the thread-local generator.
/// Nothing is promised of the values.
#[verifier::external_body]
pub fn random_iv() -> (r: Vec<u8>)
    ensures
        r@.len() == 16,
{
    let mut iv = [0u8; 16];
    rand::fill(&mut iv);
    iv.to_vec()
}

/// Relies on zeroize's `Zeroize for Vec<u8>`: overwrites every element and
/// the spare capacity with zeros, then truncates the vector to length zero.
#[verifier::external_body]
pub fn zeroize_bytes(v: &mut Vec<u8>)
    ensures
        final(v)@.len() == 0,
{
    zeroize::Zeroize::zeroize(v);
}

} // verus!
