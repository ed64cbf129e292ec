//! Byte-to-string conversions behind trusted wrappers.

use vstd::prelude::*;

verus! {

/// The characters that lossy UTF-8 decoding yields for a byte sequence.
pub uninterp spec fn utf8_lossy_of(bytes: Seq<u8>) -> Seq<char>;

/// Relies on std's `String::from_utf8`: for ASCII input every byte becomes
/// the character with the same code.
#[verifier::external_body]
pub fn ascii_string(bytes: &Vec<u8>) -> (r: String)
    requires
        forall|i: int| 0 <= i < bytes@.len() ==> bytes@[i] < 128,
    ensures
        r@.len() == bytes@.len(),
        forall|i: int| 0 <= i < bytes@.len() ==> r@[i] == bytes@[i] as char,
{
    String::from_utf8(bytes.clone()).expect("ascii bytes are valid utf-8")
}

/// Relies on std's `String::from_utf8_lossy`: the characters depend on the
/// bytes alone; empty input stays empty.
#[verifier::external_body]
pub fn utf8_lossy(bytes: &Vec<u8>) -> (r: String)
    ensures
        r@ == utf8_lossy_of(bytes@),
        bytes@.len() == 0 ==> r@.len() == 0,
{
    String::from_utf8_lossy(bytes.as_slice()).into_owned()
}

/// Relies on std's `String::push_str`: appends the characters of `s`.
#[verifier::external_body]
pub fn append_str(dst: &mut String, s: &str)
    ensures
        final(dst)@ == old(dst)@ + s@,
{
    dst.push_str(s);
}

} // verus!
